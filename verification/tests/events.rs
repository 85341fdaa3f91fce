use tiled_compose::events::{
    handle_world_events, instances_of, load_map_by_asset_id, process_loaded_maps,
    remove_layers, remove_map_by_asset_id, same_asset, AssetEvent, AssetKey, AssetUse,
    MapCommand, TiledLayersStorage, TiledMapLayer, WorldCommand,
};
use tiled_compose::geometry::{Point, Rect};
use tiled_compose::loading::{
    chunking_applies, process_loaded_worlds, LayerPositioning, LoadState, WorldLoadAction,
    WorldPhase, WorldStep,
};

fn used(entity: u64, asset: AssetKey) -> AssetUse {
    AssetUse { entity, asset }
}

const WORLD_RECT: Rect = Rect { min_x: -10, min_y: 0, max_x: 30, max_y: 44 };

#[test]
fn map_events_ask_for_loading_or_removal() {
    let id = AssetKey::Index(3);
    assert_eq!(process_loaded_maps(AssetEvent::Added(id)), MapCommand::Load(id));
    assert_eq!(process_loaded_maps(AssetEvent::Modified(id)), MapCommand::Load(id));
    assert_eq!(process_loaded_maps(AssetEvent::Removed(id)), MapCommand::Remove(id));
    assert_eq!(process_loaded_maps(AssetEvent::Unused(id)), MapCommand::Ignore);
    assert_eq!(process_loaded_maps(AssetEvent::LoadedWithDependencies(id)), MapCommand::Ignore);
}

#[test]
fn instances_are_found_by_their_asset() {
    let a = AssetKey::Index(1);
    let b = AssetKey::Uuid(1);
    let c = AssetKey::Index(2);
    let maps = vec![used(10, a), used(11, b), used(12, a), used(13, c)];
    assert_eq!(instances_of(&maps, a), vec![10, 12]);
    assert_eq!(load_map_by_asset_id(&maps, b), vec![11]);
    assert_eq!(instances_of(&maps, AssetKey::Uuid(2)), Vec::<u64>::new());
    assert!(same_asset(a, AssetKey::Index(1)));
    assert!(!same_asset(a, b));
    assert!(!same_asset(a, c));
    assert!(same_asset(b, AssetKey::Uuid(1)));
}

#[test]
fn a_removed_map_takes_its_instances_and_marked_layers_down() {
    let a = AssetKey::Index(1);
    let b = AssetKey::Index(2);
    let maps = vec![used(1, b), used(2, a)];
    let layers = vec![
        (20, TiledMapLayer { map_handle_id: a }),
        (21, TiledMapLayer { map_handle_id: b }),
        (22, TiledMapLayer { map_handle_id: a }),
    ];
    let removal = remove_map_by_asset_id(&maps, &layers, a);
    assert_eq!(removal.maps, vec![2]);
    assert_eq!(removal.layers, vec![20, 22]);
}

#[test]
fn the_layers_of_a_map_instance_are_handed_out_and_forgotten() {
    let mut storage = TiledLayersStorage::new();
    storage.insert(2, 7);
    storage.insert(0, 9);
    storage.insert(2, 8);
    let mut entities = remove_layers(&mut storage);
    entities.sort();
    assert_eq!(entities, vec![8, 9]);
    assert_eq!(remove_layers(&mut storage), Vec::<u64>::new());
}

#[test]
fn world_events_mark_or_take_down_the_instances_of_the_world() {
    let a = AssetKey::Uuid(77);
    let b = AssetKey::Uuid(78);
    let worlds = vec![used(1, a), used(2, b), used(3, a)];
    assert_eq!(
        handle_world_events(AssetEvent::Modified(a), &worlds),
        vec![WorldCommand::Respawn(1), WorldCommand::Respawn(3)]
    );
    assert_eq!(
        handle_world_events(AssetEvent::Removed(b), &worlds),
        vec![WorldCommand::Despawn(2)]
    );
    assert!(handle_world_events(AssetEvent::Added(a), &worlds).is_empty());
    assert!(handle_world_events(AssetEvent::LoadedWithDependencies(a), &worlds).is_empty());
    assert!(handle_world_events(AssetEvent::Modified(AssetKey::Index(77)), &worlds).is_empty());
}

#[test]
fn a_world_is_followed_while_it_loads() {
    let step = |load, present, chunking, positioning| {
        process_loaded_worlds(load, present, chunking, positioning, WORLD_RECT)
    };
    assert_eq!(
        step(None, false, false, LayerPositioning::TiledOffset),
        WorldStep { phase: WorldPhase::Unloaded, action: WorldLoadAction::Nothing }
    );
    assert_eq!(
        step(Some(LoadState::NotLoaded), false, true, LayerPositioning::TiledOffset),
        WorldStep { phase: WorldPhase::Loading, action: WorldLoadAction::Retry }
    );
    assert_eq!(
        step(Some(LoadState::Loading), true, true, LayerPositioning::Centered),
        WorldStep { phase: WorldPhase::Loading, action: WorldLoadAction::Retry }
    );
    assert_eq!(
        step(Some(LoadState::Failed), true, true, LayerPositioning::Centered),
        WorldStep { phase: WorldPhase::Failed, action: WorldLoadAction::Despawn }
    );
    assert_eq!(
        step(Some(LoadState::Loaded), false, false, LayerPositioning::TiledOffset),
        WorldStep { phase: WorldPhase::Failed, action: WorldLoadAction::Despawn }
    );
}

#[test]
fn a_loaded_world_is_spawned() {
    assert_eq!(
        process_loaded_worlds(
            Some(LoadState::Loaded),
            true,
            false,
            LayerPositioning::TiledOffset,
            WORLD_RECT
        ),
        WorldStep {
            phase: WorldPhase::LoadedNoChunking,
            action: WorldLoadAction::Spawn { recenter: None }
        }
    );
    assert_eq!(
        process_loaded_worlds(
            Some(LoadState::Loaded),
            true,
            true,
            LayerPositioning::Centered,
            WORLD_RECT
        ),
        WorldStep {
            phase: WorldPhase::LoadedChunking,
            action: WorldLoadAction::Spawn { recenter: Some(Point { x: 20, y: 44 }) }
        }
    );
}

#[test]
fn a_centered_world_is_moved_by_its_centre() {
    let rect = Rect { min_x: 10, min_y: 10, max_x: 30, max_y: 30 };
    assert!(rect.check_center_fits());
    assert_eq!(rect.twice_center(), Point { x: 40, y: 40 });
    let step =
        process_loaded_worlds(Some(LoadState::Loaded), true, false, LayerPositioning::Centered, rect);
    assert_eq!(step.action, WorldLoadAction::Spawn { recenter: Some(Point { x: 40, y: 40 }) });
    let odd = Rect { min_x: -3, min_y: 0, max_x: 4, max_y: 5 };
    assert_eq!(odd.twice_center(), Point { x: 1, y: 5 });
    let at_origin = Rect { min_x: 0, min_y: 0, max_x: 30, max_y: 44 };
    assert_eq!(at_origin.twice_center(), Point { x: 30, y: 44 });
    let step = process_loaded_worlds(
        Some(LoadState::Loaded),
        true,
        true,
        LayerPositioning::TiledOffset,
        rect,
    );
    assert_eq!(step.action, WorldLoadAction::Spawn { recenter: None });
    assert!(!Rect { min_x: i64::MAX, min_y: 0, max_x: 1, max_y: 0 }.check_center_fits());
    assert!(!Rect { min_x: 0, min_y: i64::MIN, max_x: 0, max_y: -1 }.check_center_fits());
    assert!(Rect { min_x: i64::MIN, min_y: 0, max_x: i64::MAX, max_y: 0 }.check_center_fits());
}

#[test]
fn chunking_waits_for_a_loaded_world() {
    assert!(chunking_applies(Some(LoadState::Loaded), true));
    assert!(!chunking_applies(Some(LoadState::Loaded), false));
    assert!(!chunking_applies(Some(LoadState::Loading), true));
    assert!(!chunking_applies(Some(LoadState::NotLoaded), true));
    assert!(!chunking_applies(Some(LoadState::Failed), true));
    assert!(!chunking_applies(None, true));
}
