use bevy::ecs::entity::Entity;
use bevy_ecs_tilemap::tiles::TilePos;
use tiled_compose::scene::{bind_tiles, check_entity};
use tiled_compose::storage::PlacedTile;

fn placed(x: u32, y: u32) -> PlacedTile {
    PlacedTile { x, y, texture_index: 0, flip_h: false, flip_v: false, flip_d: false }
}

#[test]
fn each_tile_gets_its_entity() {
    let first = Entity::from_raw(7);
    let second = Entity::from_raw(3);
    let tiles = vec![placed(2, 1), placed(0, 0)];
    let storage =
        bind_tiles(3, 2, &tiles, &vec![first.to_bits(), second.to_bits()]).unwrap();
    assert_eq!((storage.size.x, storage.size.y), (3, 2));
    assert_eq!(storage.get(&TilePos { x: 2, y: 1 }), Some(first));
    assert_eq!(storage.get(&TilePos { x: 0, y: 0 }), Some(second));
    assert_eq!(storage.get(&TilePos { x: 1, y: 0 }), None);
    assert_eq!(storage.iter().flatten().count(), 2);
}

#[test]
fn a_later_tile_takes_the_cell_of_an_earlier_one() {
    let first = Entity::from_raw(1);
    let second = Entity::from_raw(2);
    let tiles = vec![placed(0, 0), placed(0, 0)];
    let storage =
        bind_tiles(1, 1, &tiles, &vec![first.to_bits(), second.to_bits()]).unwrap();
    assert_eq!(storage.get(&TilePos { x: 0, y: 0 }), Some(second));
}

#[test]
fn an_empty_layer_has_an_empty_storage() {
    let storage = bind_tiles(4, 4, &Vec::new(), &Vec::new()).unwrap();
    assert_eq!(storage.iter().count(), 16);
    assert_eq!(storage.iter().flatten().count(), 0);
}

#[test]
fn what_cannot_be_stored_is_refused() {
    let entity = Entity::from_raw(5).to_bits();
    assert!(bind_tiles(2, 2, &vec![placed(2, 0)], &vec![entity]).is_none());
    assert!(bind_tiles(2, 2, &vec![placed(0, 2)], &vec![entity]).is_none());
    assert!(bind_tiles(2, 2, &vec![placed(0, 0)], &Vec::new()).is_none());
    assert!(bind_tiles(2, 2, &vec![placed(0, 0)], &vec![5]).is_none());
    assert!(bind_tiles(2, 2, &vec![placed(0, 0)], &vec![u64::MAX]).is_none());
    assert!(bind_tiles(65536, 65536, &Vec::new(), &Vec::new()).is_none());
}

#[test]
fn bits_of_entities_are_told_apart() {
    assert!(check_entity(Entity::from_raw(0).to_bits()));
    assert!(check_entity(Entity::from_raw(u32::MAX).to_bits()));
    assert!(check_entity(0x7FFF_FFFF_0000_0000));
    assert!(check_entity(Entity::PLACEHOLDER.to_bits()));
    assert!(!check_entity(0));
    assert!(!check_entity(0xFFFF_FFFF));
    assert!(!check_entity(0x8000_0000_0000_0000));
    assert!(Entity::try_from_bits(0x7FFF_FFFF_0000_0000).is_ok());
    assert!(Entity::try_from_bits(0xFFFF_FFFF).is_err());
    assert!(Entity::try_from_bits(0x8000_0001_0000_0000).is_err());
}
