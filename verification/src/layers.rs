//! Laying out the tile layers of a map for drawing.
//!
//! Tiles of one grid must come from one tileset. A layer may mix tilesets, so every
//! tile layer is laid out once for each tileset that is drawn, and each such pair gets a
//! grid of its own. A tileset is drawn if it has a binding that is usable for tile
//! layers: one whose shared image holds no column, or whose images differ in size, is
//! left out, and so are layers that hold no tiles.

use crate::asset::{TiledMap, TiledMapTileset};
use crate::chunked::{
    infinite_bound, is_infinite_storage, try_materialize_infinite, ChunkBounds,
};
use crate::document::{lemma_product_fits, LayerKind, MapDocument, Orientation};
use crate::materialize::{finite_bound, is_finite_storage, try_materialize_finite};
use crate::storage::TileGrid;
use vstd::prelude::*;

verus! {

broadcast use vstd::std_specs::hash::group_hash_axioms;

/// The shape of the cells of a grid.
#[derive(Clone, Copy, Debug, PartialEq, Eq, Structural)]
pub enum TilemapType {
    Square,
    IsometricDiamond,
    IsometricStaggered,
    HexagonRow,
}

/// One tile layer laid out for one tileset.
#[derive(Debug)]
pub struct LayerPlan {
    pub tileset_index: usize,
    pub layer_index: usize,
    /// Size of the map in tiles, as the document declares it.
    pub map_width: u32,
    pub map_height: u32,
    /// Size of a grid cell in pixels.
    pub grid_width: u32,
    pub grid_height: u32,
    /// Size of a tile of the tileset in pixels.
    pub tile_width: u32,
    pub tile_height: u32,
    /// Pixels between neighbouring tiles of the tileset.
    pub spacing: u32,
    pub map_type: TilemapType,
    pub storage: TileGrid,
    /// For an infinite layer, the chunk bounds that the grid spans.
    pub bounds: Option<ChunkBounds>,
}

/// The cell shape that an orientation is drawn with.
pub open spec fn map_type_of(orientation: Orientation) -> TilemapType {
    match orientation {
        Orientation::Hexagonal => TilemapType::HexagonRow,
        Orientation::Isometric => TilemapType::IsometricDiamond,
        Orientation::Staggered => TilemapType::IsometricStaggered,
        Orientation::Orthogonal => TilemapType::Square,
    }
}

/// Computes `map_type_of`.
pub fn map_type(orientation: Orientation) -> (shape: TilemapType)
    ensures
        shape == map_type_of(orientation),
{
    match orientation {
        Orientation::Hexagonal => TilemapType::HexagonRow,
        Orientation::Isometric => TilemapType::IsometricDiamond,
        Orientation::Staggered => TilemapType::IsometricStaggered,
        Orientation::Orthogonal => TilemapType::Square,
    }
}

/// The layer at position `l` holds tiles.
pub open spec fn is_tile_layer(map: &MapDocument, l: int) -> bool {
    0 <= l < map.layers@.len() && !(map.layers@[l].kind is Other)
}

/// The tileset at position `t` has a binding in the asset.
pub open spec fn is_bound(asset: &TiledMap, t: usize) -> bool {
    t < asset.map.tilesets@.len() && asset.tilesets@.contains_key(t)
}

/// The tileset at position `t` is drawn: it has a binding that is usable for tile layers.
pub open spec fn is_drawn(asset: &TiledMap, t: usize) -> bool {
    is_bound(asset, t) && asset.tilesets@[t].usable_for_tiles_layer
}

/// The layer at position `l` can be laid out for the tileset at position `t`: its grid
/// can be held, and every tile of the tileset in it has a texture index.
pub open spec fn can_lay_out(asset: &TiledMap, t: usize, l: int) -> bool {
    match asset.map.layers@[l].kind {
        LayerKind::Finite(layer) => asset.map.width * asset.map.height <= usize::MAX
            && finite_bound(
            &layer,
            asset.map.width as int,
            asset.map.height as int,
            t,
            &asset.tilesets@[t],
        ),
        LayerKind::Infinite(layer) => ChunkBounds::of(layer.chunks@).fits() && infinite_bound(
            layer.chunks@,
            t,
            &asset.tilesets@[t],
        ),
        LayerKind::Other => false,
    }
}

impl LayerPlan {
    /// This is the layer at position `l` laid out for the tileset at position `t`.
    pub open spec fn lays_out(&self, asset: &TiledMap, t: usize, l: int) -> bool {
        let map = asset.map;
        &&& self.tileset_index == t
        &&& self.layer_index == l
        &&& self.map_width == map.width
        &&& self.map_height == map.height
        &&& self.grid_width == map.tile_width
        &&& self.grid_height == map.tile_height
        &&& self.tile_width == map.tilesets@[t as int].tile_width
        &&& self.tile_height == map.tilesets@[t as int].tile_height
        &&& self.spacing == map.tilesets@[t as int].spacing
        &&& self.map_type == map_type_of(map.orientation)
        &&& match map.layers@[l].kind {
            LayerKind::Finite(layer) => self.bounds is None && is_finite_storage(
                &self.storage,
                &layer,
                map.width,
                map.height,
                t,
                &asset.tilesets@[t],
            ),
            LayerKind::Infinite(layer) => self.bounds == Some(ChunkBounds::of(layer.chunks@))
                && is_infinite_storage(
                &self.storage,
                layer.chunks@,
                ChunkBounds::of(layer.chunks@),
                t,
                &asset.tilesets@[t],
            ),
            LayerKind::Other => false,
        }
    }
}

/// Some plan is for the tileset at position `t` and the layer at position `l`.
pub open spec fn has_plan(plans: Seq<LayerPlan>, t: usize, l: int) -> bool {
    exists|p: int|
        0 <= p < plans.len() && (#[trigger] plans[p]).tileset_index == t && plans[p].layer_index
            == l
}

/// The plans come tileset by tileset and, for one tileset, layer by layer.
pub open spec fn in_order(plans: Seq<LayerPlan>) -> bool {
    forall|p: int, q: int|
        0 <= p < q < plans.len() ==> (#[trigger] plans[p]).tileset_index < (
        #[trigger] plans[q]).tileset_index || (plans[p].tileset_index == plans[q].tileset_index
            && plans[p].layer_index < plans[q].layer_index)
}

/// `plans` holds, in order, one plan for every tile layer and every drawn tileset, and
/// nothing else.
pub open spec fn is_layout(plans: Seq<LayerPlan>, asset: &TiledMap) -> bool {
    &&& in_order(plans)
    &&& forall|p: int|
        0 <= p < plans.len() ==> is_drawn(asset, (#[trigger] plans[p]).tileset_index)
            && is_tile_layer(&asset.map, plans[p].layer_index as int) && plans[p].lays_out(
            asset,
            plans[p].tileset_index,
            plans[p].layer_index as int,
        )
    &&& forall|t: usize, l: int|
        is_drawn(asset, t) && is_tile_layer(&asset.map, l) ==> #[trigger] has_plan(plans, t, l)
}

/// Every tile layer can be laid out for every drawn tileset.
pub open spec fn drawable(asset: &TiledMap) -> bool {
    forall|t: usize, l: int|
        is_drawn(asset, t) && is_tile_layer(&asset.map, l) ==> #[trigger] can_lay_out(asset, t, l)
}

/// Lays out the tile layer at position `l` for the bound tileset at position `t`. Gives
/// nothing exactly when that cannot be done.
pub fn plan_layer(asset: &TiledMap, binding: &TiledMapTileset, t: usize, l: usize) -> (plan:
    Option<LayerPlan>)
    requires
        asset.map.wf(),
        is_bound(asset, t),
        *binding == asset.tilesets@[t],
        is_tile_layer(&asset.map, l as int),
    ensures
        plan is Some <==> can_lay_out(asset, t, l as int),
        plan matches Some(plan) ==> plan.lays_out(asset, t, l as int),
{
    let map = &asset.map;
    let tileset = &map.tilesets[t];
    assert(map.layers@[l as int].kind.wf());
    let (storage, bounds) = match &map.layers[l].kind {
        LayerKind::Finite(layer) => {
            proof {
                lemma_product_fits(map.width as int, map.height as int);
            }
            let cells: u64 = (map.width as u64) * (map.height as u64);
            if cells > usize::MAX as u64 {
                return None;
            }
            match try_materialize_finite(map.width, map.height, layer, t, binding) {
                Some(storage) => (storage, None),
                None => {
                    return None;
                },
            }
        },
        LayerKind::Infinite(layer) => match try_materialize_infinite(layer, t, binding) {
            Some((storage, bounds)) => (storage, Some(bounds)),
            None => {
                return None;
            },
        },
        LayerKind::Other => {
            return None;
        },
    };
    Some(
        LayerPlan {
            tileset_index: t,
            layer_index: l,
            map_width: map.width,
            map_height: map.height,
            grid_width: map.tile_width,
            grid_height: map.tile_height,
            tile_width: tileset.tile_width,
            tile_height: tileset.tile_height,
            spacing: tileset.spacing,
            map_type: map_type(map.orientation),
            storage,
            bounds,
        },
    )
}

/// The pair `(t, l)` comes before the tileset at position `end_t` and its layer at
/// position `end_l`.
pub open spec fn comes_before(t: usize, l: int, end_t: usize, end_l: int) -> bool {
    t < end_t || (t == end_t && l < end_l)
}

/// Lays out every tile layer for every drawn tileset, tileset by tileset. Gives nothing
/// exactly when one of them cannot be laid out.
pub fn try_plan_layers(asset: &TiledMap) -> (result: Option<Vec<LayerPlan>>)
    requires
        asset.map.wf(),
    ensures
        result is Some <==> drawable(asset),
        result matches Some(plans) ==> is_layout(plans@, asset),
{
    let mut plans: Vec<LayerPlan> = Vec::new();
    let tilesets = asset.map.tilesets.len();
    let layers = asset.map.layers.len();
    let mut t: usize = 0;
    while t < tilesets
        invariant
            t <= tilesets,
            tilesets == asset.map.tilesets@.len(),
            layers == asset.map.layers@.len(),
            asset.map.wf(),
            in_order(plans@),
            forall|p: int|
                0 <= p < plans@.len() ==> (#[trigger] plans@[p]).tileset_index < t && is_drawn(
                    asset,
                    plans@[p].tileset_index,
                ) && is_tile_layer(&asset.map, plans@[p].layer_index as int) && plans@[p].lays_out(
                    asset,
                    plans@[p].tileset_index,
                    plans@[p].layer_index as int,
                ),
            forall|a: usize, b: int|
                a < t && is_drawn(asset, a) && is_tile_layer(&asset.map, b) ==> #[trigger] has_plan(
                    plans@,
                    a,
                    b,
                ),
            forall|a: usize, b: int|
                a < t && is_drawn(asset, a) && is_tile_layer(&asset.map, b)
                    ==> #[trigger] can_lay_out(asset, a, b),
        decreases tilesets - t,
    {
        let drawn = match asset.tilesets.get(&t) {
            Some(binding) => if binding.usable_for_tiles_layer {
                Some(binding)
            } else {
                None
            },
            None => None,
        };
        match drawn {
            Some(binding) => {
                let mut l: usize = 0;
                while l < layers
                    invariant
                        l <= layers,
                        t < tilesets,
                        tilesets == asset.map.tilesets@.len(),
                        layers == asset.map.layers@.len(),
                        asset.map.wf(),
                        is_drawn(asset, t),
                        *binding == asset.tilesets@[t],
                        in_order(plans@),
                        forall|p: int|
                            0 <= p < plans@.len() ==> comes_before(
                                (#[trigger] plans@[p]).tileset_index,
                                plans@[p].layer_index as int,
                                t,
                                l as int,
                            ) && is_drawn(asset, plans@[p].tileset_index) && is_tile_layer(
                                &asset.map,
                                plans@[p].layer_index as int,
                            ) && plans@[p].lays_out(
                                asset,
                                plans@[p].tileset_index,
                                plans@[p].layer_index as int,
                            ),
                        forall|a: usize, b: int|
                            comes_before(a, b, t, l as int) && is_drawn(asset, a) && is_tile_layer(
                                &asset.map,
                                b,
                            ) ==> #[trigger] has_plan(plans@, a, b),
                        forall|a: usize, b: int|
                            comes_before(a, b, t, l as int) && is_drawn(asset, a) && is_tile_layer(
                                &asset.map,
                                b,
                            ) ==> #[trigger] can_lay_out(asset, a, b),
                    decreases layers - l,
                {
                    let tiles = match &asset.map.layers[l].kind {
                        LayerKind::Other => false,
                        _ => true,
                    };
                    if tiles {
                        let ghost before = plans@;
                        match plan_layer(asset, binding, t, l) {
                            Some(plan) => {
                                plans.push(plan);
                                proof {
                                    assert(plans@[before.len() as int].tileset_index == t);
                                    assert(plans@[before.len() as int].layer_index == l);
                                    assert forall|p: int, q: int|
                                        0 <= p < q < plans@.len() implies (
                                    #[trigger] plans@[p]).tileset_index < (
                                    #[trigger] plans@[q]).tileset_index || (plans@[p].tileset_index
                                        == plans@[q].tileset_index && plans@[p].layer_index
                                        < plans@[q].layer_index) by {
                                        assert(plans@[p] == before[p]);
                                        if q < before.len() {
                                            assert(plans@[q] == before[q]);
                                        }
                                    }
                                    assert forall|a: usize, b: int|
                                        comes_before(a, b, t, l + 1) && is_drawn(asset, a)
                                            && is_tile_layer(
                                            &asset.map,
                                            b,
                                        ) implies #[trigger] has_plan(plans@, a, b) by {
                                        if comes_before(a, b, t, l as int) {
                                            assert(has_plan(before, a, b));
                                            let p = choose|p: int|
                                                0 <= p < before.len() && (
                                                #[trigger] before[p]).tileset_index == a
                                                    && before[p].layer_index == b;
                                            assert(plans@[p] == before[p]);
                                        }
                                    }
                                }
                            },
                            None => {
                                assert(!can_lay_out(asset, t, l as int));
                                return None;
                            },
                        }
                    }
                    l += 1;
                }
            },
            None => {},
        }
        t += 1;
    }
    Some(plans)
}

/// Lays out every tile layer for every drawn tileset, tileset by tileset.
pub fn plan_layers(asset: &TiledMap) -> (plans: Vec<LayerPlan>)
    requires
        asset.map.wf(),
        drawable(asset),
    ensures
        is_layout(plans@, asset),
{
    match try_plan_layers(asset) {
        Some(plans) => plans,
        None => {
            proof {
                assert(false);
            }
            Vec::new()
        },
    }
}

/// A map without tile layers has an empty layout.
pub proof fn lemma_no_tile_layer_no_plan(plans: Seq<LayerPlan>, asset: &TiledMap)
    requires
        is_layout(plans, asset),
        forall|l: int| !is_tile_layer(&asset.map, l),
    ensures
        plans.len() == 0,
{
    if plans.len() > 0 {
        assert(is_tile_layer(&asset.map, plans[0].layer_index as int));
    }
}

} // verus!
