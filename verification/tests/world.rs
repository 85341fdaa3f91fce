use tiled_compose::chunking::{
    intersects_any, visible_children, world_chunking, SpawnedMap, TiledWorldStorage,
};
use tiled_compose::geometry::{Point, Rect};
use tiled_compose::world::{TiledWorld, WorldBuildError, WorldMapEntry};

fn rect(min_x: i64, min_y: i64, max_x: i64, max_y: i64) -> Rect {
    Rect { min_x, min_y, max_x, max_y }
}

fn entry(x: i32, y: i32, width: Option<i32>, height: Option<i32>, map: Option<u64>) -> WorldMapEntry {
    WorldMapEntry { filename: format!("map_{x}_{y}.tmx"), x, y, width, height, map }
}

fn sorted(mut entries: Vec<SpawnedMap>) -> Vec<SpawnedMap> {
    entries.sort_by_key(|entry| entry.index);
    entries
}

fn indices(storage: &TiledWorldStorage) -> Vec<u64> {
    sorted(storage.spawned()).iter().map(|s| s.index).collect()
}

fn holding(entries: &[(usize, u64)]) -> TiledWorldStorage {
    let mut storage = TiledWorldStorage::new();
    for (index, instance) in entries {
        storage.insert(*index, *instance);
    }
    storage
}

#[test]
fn children_near_an_observer_are_spawned_and_the_others_despawned() {
    let children = vec![rect(0, 0, 10, 10), rect(20, 20, 30, 30)];
    let mut storage = TiledWorldStorage::new();
    let view = Rect::around(Point { x: 5, y: 5 }, 5, 5).unwrap();
    assert_eq!(view, rect(0, 0, 10, 10));
    let plan = world_chunking(&storage, &children, &Some(vec![view]));
    assert_eq!(plan.to_spawn, vec![0]);
    assert!(plan.to_remove.is_empty());
    storage.apply(&plan, &vec![100]);
    assert_eq!(storage.spawned(), vec![SpawnedMap { index: 0, instance: 100 }]);

    let view = Rect::around(Point { x: 25, y: 25 }, 5, 5).unwrap();
    let plan = world_chunking(&storage, &children, &Some(vec![view]));
    assert_eq!(plan.to_spawn, vec![1]);
    assert_eq!(plan.to_remove, vec![SpawnedMap { index: 0, instance: 100 }]);
    storage.apply(&plan, &vec![101]);
    assert_eq!(storage.spawned(), vec![SpawnedMap { index: 1, instance: 101 }]);

    let plan = world_chunking(&storage, &children, &Some(vec![view]));
    assert!(plan.to_spawn.is_empty() && plan.to_remove.is_empty());
}

#[test]
fn a_child_seen_by_any_observer_is_visible() {
    let children =
        vec![rect(0, 0, 10, 10), rect(20, 20, 30, 30), rect(100, 0, 110, 10), rect(8, 8, 22, 22)];
    let views = vec![rect(-5, -5, 1, 1), rect(29, 29, 40, 40), rect(21, 21, 22, 22)];
    assert_eq!(visible_children(&children, &views), vec![0, 1, 3]);
    assert!(intersects_any(&children[0], &views));
    assert!(!intersects_any(&children[2], &views));
    let mut storage = holding(&[(2, 7), (3, 8)]);
    let plan = world_chunking(&storage, &children, &Some(views));
    assert_eq!(plan.to_spawn, vec![0, 1]);
    assert_eq!(plan.to_remove, vec![SpawnedMap { index: 2, instance: 7 }]);
    storage.apply(&plan, &vec![20, 21]);
    assert_eq!(indices(&storage), vec![0, 1, 3]);
    assert_eq!(
        sorted(storage.spawned()),
        vec![
            SpawnedMap { index: 0, instance: 20 },
            SpawnedMap { index: 1, instance: 21 },
            SpawnedMap { index: 3, instance: 8 },
        ]
    );
}

#[test]
fn boxes_that_only_touch_intersect() {
    let child = rect(0, 0, 10, 10);
    assert!(child.intersects(&rect(10, 10, 20, 20)));
    assert!(child.intersects(&rect(-4, 3, 0, 4)));
    assert!(!child.intersects(&rect(11, 0, 20, 10)));
    assert!(!child.intersects(&rect(0, -9, 10, -1)));
    assert!(child.intersects(&rect(2, 2, 3, 3)));
}

#[test]
fn without_observers_everything_is_despawned() {
    let children = vec![rect(0, 0, 10, 10), rect(20, 20, 30, 30)];
    let mut storage = holding(&[(1, 5), (0, 6)]);
    let plan = world_chunking(&storage, &children, &Some(Vec::new()));
    assert!(plan.to_spawn.is_empty());
    assert_eq!(
        sorted(plan.to_remove.clone()),
        vec![SpawnedMap { index: 0, instance: 6 }, SpawnedMap { index: 1, instance: 5 }]
    );
    storage.apply(&plan, &Vec::new());
    assert!(storage.spawned().is_empty());
}

#[test]
fn without_chunking_every_child_is_spawned_once() {
    let children = vec![rect(0, 0, 10, 10), rect(20, 20, 30, 30), rect(40, 0, 50, 10)];
    let mut storage = TiledWorldStorage::new();
    let plan = world_chunking(&storage, &children, &None);
    assert_eq!(plan.to_spawn, vec![0, 1, 2]);
    assert!(plan.to_remove.is_empty());
    storage.apply(&plan, &vec![1, 2, 3]);
    assert_eq!(indices(&storage), vec![0, 1, 2]);
    let again = world_chunking(&storage, &children, &None);
    assert!(again.to_spawn.is_empty() && again.to_remove.is_empty());
    let none = world_chunking(&TiledWorldStorage::new(), &Vec::new(), &None);
    assert!(none.to_spawn.is_empty());
}

#[test]
fn tearing_a_world_down_hands_out_all_children() {
    let mut storage = holding(&[(4, 40), (1, 10)]);
    let removed = storage.clear();
    assert_eq!(
        sorted(removed),
        vec![SpawnedMap { index: 1, instance: 10 }, SpawnedMap { index: 4, instance: 40 }]
    );
    assert!(storage.spawned().is_empty());
    assert!(storage.clear().is_empty());
}

#[test]
fn view_boxes_and_bounding_boxes() {
    assert_eq!(Rect::around(Point { x: -3, y: 8 }, 2, 10), Some(rect(-5, -2, -1, 18)));
    assert_eq!(Rect::around(Point { x: i64::MAX, y: 0 }, 1, 1), None);
    assert_eq!(Rect::around(Point { x: 0, y: i64::MIN }, 0, 1), None);
    let hull = Rect::bounding(
        Point { x: 3, y: -1 },
        Point { x: -2, y: 4 },
        Point { x: 0, y: 9 },
        Point { x: 5, y: 2 },
    );
    assert_eq!(hull, rect(-2, -1, 5, 9));
    let corners = rect(1, 2, 3, 4).corners();
    assert_eq!(
        corners,
        (
            Point { x: 1, y: 2 },
            Point { x: 1, y: 4 },
            Point { x: 3, y: 4 },
            Point { x: 3, y: 2 }
        )
    );
    assert_eq!(Rect::bounding(corners.0, corners.1, corners.2, corners.3), rect(1, 2, 3, 4));
    assert_eq!(rect(0, 0, 1, 1).union(&rect(-4, 2, 0, 7)), rect(-4, 0, 1, 7));
}

#[test]
fn a_world_holds_its_children_in_order_and_the_rectangle_around_them() {
    let entries = vec![
        entry(0, 0, Some(10), Some(10), Some(11)),
        entry(-20, 5, Some(8), None, Some(12)),
        entry(30, -7, None, Some(40), Some(13)),
    ];
    let world = TiledWorld::build(&entries).unwrap();
    assert_eq!(world.maps.len(), 3);
    assert_eq!(world.maps[0].rect, rect(0, 0, 10, 10));
    assert_eq!(world.maps[1].rect, rect(-20, 5, -12, 5));
    assert_eq!(world.maps[2].rect, rect(30, -7, 30, 33));
    assert_eq!(world.maps.iter().map(|m| m.map).collect::<Vec<u64>>(), vec![11, 12, 13]);
    assert_eq!(world.world_rect, rect(-20, -7, 30, 33));
    assert!(world.world_rect.check_center_fits());
    assert_eq!(world.world_rect.twice_center(), Point { x: 10, y: 26 });
    let widest = TiledWorld::build(&vec![
        entry(i32::MIN, i32::MIN, Some(i32::MIN), Some(i32::MIN), Some(1)),
        entry(i32::MAX, i32::MAX, Some(i32::MAX), Some(i32::MAX), Some(2)),
    ])
    .unwrap();
    assert!(widest.world_rect.check_center_fits());
    assert_eq!(widest.world_rect.min_x, i32::MIN as i64);
    assert_eq!(widest.world_rect.max_x, 2 * (i32::MAX as i64));
}

#[test]
fn a_world_without_children_has_an_empty_rectangle() {
    let world = TiledWorld::build(&Vec::new()).unwrap();
    assert!(world.maps.is_empty());
    assert_eq!(world.world_rect, rect(0, 0, 0, 0));
    let far = TiledWorld::build(&vec![entry(5, 6, Some(1), Some(1), Some(1))]).unwrap();
    assert_eq!(far.world_rect, rect(5, 6, 6, 7));
}

#[test]
fn an_unresolved_map_fails_the_world() {
    let entries = vec![
        entry(0, 0, Some(10), Some(10), Some(11)),
        entry(10, 0, Some(10), Some(10), None),
        entry(20, 0, Some(10), Some(10), None),
    ];
    match TiledWorld::build(&entries) {
        Err(error) => assert_eq!(error, WorldBuildError::UnresolvedMap(1)),
        Ok(_) => panic!("a world with an unresolved map was built"),
    }
}

#[test]
fn a_child_is_held_once_under_its_position() {
    let mut storage = holding(&[(3, 30), (5, 50)]);
    storage.insert(3, 31);
    assert_eq!(
        sorted(storage.spawned()),
        vec![SpawnedMap { index: 3, instance: 31 }, SpawnedMap { index: 5, instance: 50 }]
    );
}

#[test]
fn a_spawned_child_beyond_the_children_is_despawned() {
    let children = vec![rect(0, 0, 10, 10)];
    let mut storage = holding(&[(0, 1), (9, 2)]);
    let plan = world_chunking(&storage, &children, &Some(vec![rect(0, 0, 1, 1)]));
    assert!(plan.to_spawn.is_empty());
    assert_eq!(plan.to_remove, vec![SpawnedMap { index: 9, instance: 2 }]);
    storage.apply(&plan, &Vec::new());
    assert_eq!(storage.spawned(), vec![SpawnedMap { index: 0, instance: 1 }]);
}
