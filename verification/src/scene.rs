//! Handing a materialized grid to the scene.
//!
//! The scene keeps, for each tile layer, the entity of the tile on each cell in a
//! `TileStorage` of bevy_ecs_tilemap. Once the caller has spawned an entity for every
//! placed tile, the storage of the layer is filled here: each tile's cell gets the tile's
//! entity. An entity is passed as the bits that bevy packs it into.

use crate::storage::PlacedTile;
use bevy_ecs_tilemap::tiles::TileStorage;
use vstd::prelude::*;

verus! {

#[verifier::external_type_specification]
#[verifier::external_body]
pub struct ExTileStorage(bevy_ecs_tilemap::tiles::TileStorage);

/// The entities that a storage holds, as their bits, by the cell that they sit on.
pub uninterp spec fn storage_cells(storage: TileStorage) -> Map<(u32, u32), u64>;

/// The number of columns and of rows that a storage was made with.
pub uninterp spec fn storage_size(storage: TileStorage) -> (u32, u32);

/// The bits are those of an entity: the upper half, the generation, is not 0, and its
/// highest bit, which marks identifiers of another kind, is not set.
pub open spec fn is_entity(bits: u64) -> bool {
    0 < bits / 0x1_0000_0000 <= 0x7FFF_FFFF
}

/// The cells of a storage that holds no entity.
pub open spec fn no_cells() -> Map<(u32, u32), u64> {
    Map::empty()
}

/// Tests `is_entity`.
pub fn check_entity(bits: u64) -> (ok: bool)
    ensures
        ok == is_entity(bits),
{
    let upper: u64 = bits / 0x1_0000_0000;
    0 < upper && upper <= 0x7FFF_FFFF
}

/// `TileStorage::empty` of bevy_ecs_tilemap on a size of `width` by `height`: a storage
/// of that size in which no cell holds an entity. The call counts the cells in 32 bits.
#[verifier::external_body]
fn storage_empty(width: u32, height: u32) -> (made: TileStorage)
    requires
        width * height <= u32::MAX,
    ensures
        storage_size(made) == (width, height),
        storage_cells(made) == no_cells(),
{
    TileStorage::empty(bevy_ecs_tilemap::map::TilemapSize { x: width, y: height })
}

/// `TileStorage::set` of bevy_ecs_tilemap, with the entity made by `Entity::from_bits` of
/// bevy: the cell at `(x, y)` holds the entity afterwards, and nothing else changes. The
/// call fails on a cell outside the storage and on bits that are not an entity's, and
/// counts the cell's index in 32 bits.
#[verifier::external_body]
fn storage_set(storage: &mut TileStorage, x: u32, y: u32, entity: u64)
    requires
        is_entity(entity),
        x < storage_size(*old(storage)).0,
        y < storage_size(*old(storage)).1,
        storage_size(*old(storage)).0 * storage_size(*old(storage)).1 <= u32::MAX,
    ensures
        storage_size(*final(storage)) == storage_size(*old(storage)),
        storage_cells(*final(storage)) == storage_cells(*old(storage)).insert((x, y), entity),
{
    storage.set(
        &bevy_ecs_tilemap::tiles::TilePos { x, y },
        bevy::ecs::entity::Entity::from_bits(entity),
    );
}

/// The cells after the first `count` tiles got their entities, one after the other: a
/// tile that comes later takes the cell of one that came before.
pub open spec fn bound_cells(tiles: Seq<PlacedTile>, entities: Seq<u64>, count: nat) -> Map<
    (u32, u32),
    u64,
>
    decreases count,
{
    if count == 0 {
        Map::empty()
    } else {
        bound_cells(tiles, entities, (count - 1) as nat).insert(
            (tiles[count - 1].x, tiles[count - 1].y),
            entities[count - 1],
        )
    }
}

/// The tiles and their entities can be put into a storage of `width` by `height` cells:
/// there is one entity for each tile, every tile lies inside, all bits are those of
/// entities, and the cells can be counted in 32 bits.
pub open spec fn can_bind(width: u32, height: u32, tiles: Seq<PlacedTile>, entities: Seq<u64>) -> bool {
    &&& width * height <= u32::MAX
    &&& tiles.len() == entities.len()
    &&& forall|k: int|
        0 <= k < tiles.len() ==> (#[trigger] tiles[k]).x < width && tiles[k].y < height
    &&& forall|k: int| 0 <= k < entities.len() ==> is_entity(#[trigger] entities[k])
}

/// Fills the storage of a layer: the `k`-th tile's cell gets the `k`-th entity. Gives
/// nothing exactly when the tiles and entities cannot be put into such a storage.
pub fn bind_tiles(width: u32, height: u32, tiles: &Vec<PlacedTile>, entities: &Vec<u64>) -> (result:
    Option<TileStorage>)
    ensures
        result is Some <==> can_bind(width, height, tiles@, entities@),
        result matches Some(storage) ==> storage_size(storage) == (width, height)
            && storage_cells(storage) == bound_cells(tiles@, entities@, tiles@.len()),
{
    proof {
        crate::document::lemma_product_fits(width as int, height as int);
    }
    let cells: u64 = (width as u64) * (height as u64);
    if cells > u32::MAX as u64 || tiles.len() != entities.len() {
        return None;
    }
    let mut storage = storage_empty(width, height);
    let mut k: usize = 0;
    while k < tiles.len()
        invariant
            k <= tiles@.len(),
            tiles@.len() == entities@.len(),
            width * height <= u32::MAX,
            storage_size(storage) == (width, height),
            storage_cells(storage) == bound_cells(tiles@, entities@, k as nat),
            forall|j: int|
                0 <= j < k ==> (#[trigger] tiles@[j]).x < width && tiles@[j].y < height,
            forall|j: int| 0 <= j < k ==> is_entity(#[trigger] entities@[j]),
        decreases tiles@.len() - k,
    {
        let tile = tiles[k];
        let entity = entities[k];
        if tile.x >= width || tile.y >= height || !check_entity(entity) {
            return None;
        }
        storage_set(&mut storage, tile.x, tile.y, entity);
        k += 1;
    }
    Some(storage)
}

} // verus!
