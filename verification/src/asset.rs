//! The map asset: a document together with, for each of its tilesets, the texture binding
//! that tile layers are drawn with.
//!
//! A tileset with one shared image is bound to that image and, where a grid of cells can
//! be cut from it, to an atlas layout. A tileset made of single images is bound to the
//! list of those images, and each tile identifier to its position in the list.

use crate::document::{lemma_product_fits, tile_ids_distinct, ImageRef, MapDocument, TileEntry, Tileset};
use std::collections::HashMap;
use vstd::prelude::*;

verus! {

broadcast use vstd::std_specs::hash::group_hash_axioms;

/// One rectangle of an atlas, in pixels of the shared image.
#[derive(Clone, Copy, Debug, PartialEq, Eq, Structural)]
pub struct AtlasCell {
    pub min_x: u32,
    pub min_y: u32,
    pub max_x: u32,
    pub max_y: u32,
}

/// The regular grid that a shared image is cut into.
#[derive(Clone, Copy, Debug, PartialEq, Eq, Structural)]
pub struct AtlasGrid {
    pub tile_width: u32,
    pub tile_height: u32,
    pub columns: u32,
    pub rows: u32,
    /// Pixels between neighbouring cells, on both axes.
    pub spacing: u32,
    /// Where the first cell starts.
    pub offset_x: u32,
    pub offset_y: u32,
}

/// The cells of an atlas, left to right and top to bottom, and the size they span.
#[derive(Debug)]
pub struct AtlasLayout {
    pub width: u32,
    pub height: u32,
    pub textures: Vec<AtlasCell>,
}

/// What a tileset is drawn with.
#[derive(Debug)]
pub enum TextureBinding {
    /// One shared image; a tile's texture index is its identifier.
    Single(ImageRef),
    /// One image per tile; a tile's texture index is its position in this list.
    Vector(Vec<ImageRef>),
}

/// The binding of one tileset.
#[derive(Debug)]
pub struct TiledMapTileset {
    /// Whether tile layers can be drawn from this tileset: all its images have one size.
    pub usable_for_tiles_layer: bool,
    pub tilemap_texture: TextureBinding,
    /// The atlas cut from the shared image, where there is one.
    pub texture_atlas_layout: Option<AtlasLayout>,
    /// For a list of images: position in the list, by tile identifier.
    pub tile_image_offsets: HashMap<u32, u32>,
}

/// A document and the bindings of its tilesets, by tileset index.
#[derive(Debug)]
pub struct TiledMap {
    pub map: MapDocument,
    pub tilesets: HashMap<usize, TiledMapTileset>,
}

/// Number of whole cells that fit side by side into an image of `image_width` pixels;
/// 0 where a cell and its spacing take no room or the margin is wider than the image.
pub open spec fn atlas_columns(image_width: int, margin: int, spacing: int, tile_width: int) -> int {
    if tile_width + spacing > 0 && image_width - margin + spacing >= 0 {
        (image_width - margin + spacing) / (tile_width + spacing)
    } else {
        0
    }
}

impl AtlasGrid {
    /// Every pixel coordinate of the grid can be written in 32 bits.
    pub open spec fn fits(&self) -> bool {
        &&& self.tile_width + self.spacing <= u32::MAX
        &&& self.tile_height + self.spacing <= u32::MAX
        &&& (self.tile_width + self.spacing) * self.columns + self.offset_x <= u32::MAX
        &&& (self.tile_height + self.spacing) * self.rows + self.offset_y <= u32::MAX
    }

    /// The cell in column `x` of row `y`.
    pub open spec fn cell(&self, x: int, y: int) -> AtlasCell {
        AtlasCell {
            min_x: ((self.tile_width + self.spacing) * x + self.offset_x) as u32,
            min_y: ((self.tile_height + self.spacing) * y + self.offset_y) as u32,
            max_x: ((self.tile_width + self.spacing) * x + self.offset_x + self.tile_width) as u32,
            max_y: ((self.tile_height + self.spacing) * y + self.offset_y + self.tile_height) as u32,
        }
    }

    /// Width spanned by the cells: the spacing counts between cells only, and only once a
    /// second column has been laid out.
    pub open spec fn span_x(&self) -> int {
        if self.rows >= 1 && self.columns >= 2 {
            (self.tile_width + self.spacing) * self.columns - self.spacing
        } else {
            self.tile_width * self.columns
        }
    }

    /// Height spanned by the cells: the spacing counts between rows only.
    pub open spec fn span_y(&self) -> int {
        if self.rows >= 2 {
            (self.tile_height + self.spacing) * self.rows - self.spacing
        } else {
            self.tile_height * self.rows
        }
    }

    /// `layout` is this grid laid out: its cells in row-major order and the size they span.
    pub open spec fn lays_out(&self, layout: &AtlasLayout) -> bool {
        &&& layout.textures@.len() == self.columns * self.rows
        &&& forall|i: int|
            0 <= i < layout.textures@.len() ==> #[trigger] layout.textures@[i] == self.cell(
                i % (self.columns as int),
                i / (self.columns as int),
            )
        &&& layout.width == self.span_x()
        &&& layout.height == self.span_y()
    }

    /// The grid of a tileset with the shared image `image`, where the image holds at least
    /// one column and the grid `fits`.
    pub open spec fn of_tileset(tileset: &Tileset, image: &ImageRef) -> Option<AtlasGrid> {
        let columns = atlas_columns(
            image.width as int,
            tileset.margin as int,
            tileset.spacing as int,
            tileset.tile_width as int,
        );
        let offset_x = tileset.offset_x + tileset.margin;
        let offset_y = tileset.offset_y + tileset.margin;
        if 0 < columns <= u32::MAX && 0 <= offset_x <= u32::MAX && 0 <= offset_y <= u32::MAX {
            let grid = AtlasGrid {
                tile_width: tileset.tile_width,
                tile_height: tileset.tile_height,
                columns: columns as u32,
                rows: (tileset.tilecount as int / columns) as u32,
                spacing: tileset.spacing,
                offset_x: offset_x as u32,
                offset_y: offset_y as u32,
            };
            if grid.fits() {
                Some(grid)
            } else {
                None
            }
        } else {
            None
        }
    }

    /// Number of columns that the shared image `image` of a tileset holds.
    pub open spec fn columns_of(tileset: &Tileset, image: &ImageRef) -> int {
        atlas_columns(
            image.width as int,
            tileset.margin as int,
            tileset.spacing as int,
            tileset.tile_width as int,
        )
    }

    /// Tests whether the shared image of a tileset holds at least one column.
    pub fn has_columns(tileset: &Tileset, image: &ImageRef) -> (some: bool)
        ensures
            some == (AtlasGrid::columns_of(tileset, image) > 0),
    {
        let pitch: i64 = tileset.tile_width as i64 + tileset.spacing as i64;
        let room: i64 = image.width as i64 - tileset.margin as i64 + tileset.spacing as i64;
        if pitch <= 0 || room < 0 {
            return false;
        }
        (room as u64) / (pitch as u64) > 0
    }

    /// Computes `of_tileset`.
    pub fn for_tileset(tileset: &Tileset, image: &ImageRef) -> (grid: Option<AtlasGrid>)
        ensures
            grid == AtlasGrid::of_tileset(tileset, image),
    {
        let pitch: i64 = tileset.tile_width as i64 + tileset.spacing as i64;
        let room: i64 = image.width as i64 - tileset.margin as i64 + tileset.spacing as i64;
        if pitch <= 0 || room < 0 {
            return None;
        }
        let columns: u64 = (room as u64) / (pitch as u64);
        let offset_x: i64 = tileset.offset_x as i64 + tileset.margin as i64;
        let offset_y: i64 = tileset.offset_y as i64 + tileset.margin as i64;
        if columns == 0 || columns > u32::MAX as u64 || offset_x < 0 || offset_x > u32::MAX as i64
            || offset_y < 0 || offset_y > u32::MAX as i64 {
            return None;
        }
        let rows: u32 = tileset.tilecount / (columns as u32);
        let grid = AtlasGrid {
            tile_width: tileset.tile_width,
            tile_height: tileset.tile_height,
            columns: columns as u32,
            rows,
            spacing: tileset.spacing,
            offset_x: offset_x as u32,
            offset_y: offset_y as u32,
        };
        if grid.check_fits() {
            Some(grid)
        } else {
            None
        }
    }

    /// Tests `fits`.
    pub fn check_fits(&self) -> (ok: bool)
        ensures
            ok == self.fits(),
    {
        let limit: u64 = u32::MAX as u64;
        let pitch_x: u64 = self.tile_width as u64 + self.spacing as u64;
        let pitch_y: u64 = self.tile_height as u64 + self.spacing as u64;
        if pitch_x > limit || pitch_y > limit {
            return false;
        }
        proof {
            lemma_product_fits(pitch_x as int, self.columns as int);
            lemma_product_fits(pitch_y as int, self.rows as int);
        }
        pitch_x * (self.columns as u64) + (self.offset_x as u64) <= limit && pitch_y * (
        self.rows as u64) + (self.offset_y as u64) <= limit
    }

    /// Lays the grid out.
    pub fn layout(&self) -> (layout: AtlasLayout)
        requires
            self.fits(),
        ensures
            self.lays_out(&layout),
    {
        grid_layout(self)
    }
}

/// `TextureAtlasLayout::from_grid` of bevy, on a cell size, a column and a row count, a
/// padding equal on both axes and an offset. Its cells come back in row-major order, the
/// cell in column `x` of row `y` starting at `(cell size + padding) * (x, y) + offset` and
/// being one cell size large; its size is that of the cells with the padding between
/// them, where the padding of an axis counts only once a second cell was laid out along it.
/// The call does its arithmetic in 32 bits, which `fits` keeps in range.
#[verifier::external_body]
fn grid_layout(grid: &AtlasGrid) -> (layout: AtlasLayout)
    requires
        grid.fits(),
    ensures
        grid.lays_out(&layout),
{
    let made = bevy::sprite::TextureAtlasLayout::from_grid(
        bevy::math::UVec2::new(grid.tile_width, grid.tile_height),
        grid.columns,
        grid.rows,
        Some(bevy::math::UVec2::new(grid.spacing, grid.spacing)),
        Some(bevy::math::UVec2::new(grid.offset_x, grid.offset_y)),
    );
    let textures = made.textures.iter().map(
        |r| AtlasCell { min_x: r.min.x, min_y: r.min.y, max_x: r.max.x, max_y: r.max.y },
    ).collect();
    AtlasLayout { width: made.size.x, height: made.size.y, textures }
}

/// Picks the image of a tile entry.
pub open spec fn image_of() -> spec_fn(TileEntry) -> Option<ImageRef> {
    |t: TileEntry| t.image
}

/// The images of the tiles that have one, in the order of the tiles.
pub open spec fn tile_images(tiles: Seq<TileEntry>) -> Seq<ImageRef> {
    tiles.filter_map(image_of())
}

/// The tile at position `k` has the identifier `id` and an image.
pub open spec fn has_image_at(tiles: Seq<TileEntry>, k: int, id: u32) -> bool {
    0 <= k < tiles.len() && tiles[k].id == id && tiles[k].image is Some
}

/// All images have the same width and the same height.
pub open spec fn uniform_image_size(images: Seq<ImageRef>) -> bool {
    forall|i: int, j: int|
        0 <= i < images.len() && 0 <= j < images.len() ==> (#[trigger] images[i]).width == (
        #[trigger] images[j]).width && images[i].height == images[j].height
}

/// Visiting one more tile appends its image, if it has one.
pub proof fn lemma_tile_images_step(tiles: Seq<TileEntry>, i: int)
    requires
        0 <= i < tiles.len(),
    ensures
        tile_images(tiles.take(i + 1)) == match tiles[i].image {
            Some(image) => tile_images(tiles.take(i)).push(image),
            None => tile_images(tiles.take(i)),
        },
        tile_images(tiles.take(i)).len() <= i,
{
    tiles.lemma_filter_map_take_succ(image_of(), i);
    lemma_tile_images_len(tiles.take(i));
    match tiles[i].image {
        Some(image) => {
            assert(tile_images(tiles.take(i)) + seq![image] =~= tile_images(tiles.take(i)).push(
                image,
            ));
        },
        None => {
            assert(tile_images(tiles.take(i)) + Seq::<ImageRef>::empty() =~= tile_images(
                tiles.take(i),
            ));
        },
    }
}

/// There are no more images than tiles.
pub proof fn lemma_tile_images_len(tiles: Seq<TileEntry>)
    ensures
        tile_images(tiles).len() <= tiles.len(),
    decreases tiles.len(),
{
    if tiles.len() > 0 {
        lemma_tile_images_len(tiles.drop_last());
    }
}

/// A collection without images has images of one size.
pub proof fn lemma_no_images_uniform()
    ensures
        uniform_image_size(tile_images(Seq::<TileEntry>::empty())),
{
}

/// Two images of different size anywhere in a collection make it not uniform.
pub proof fn lemma_differing_images_not_uniform(images: Seq<ImageRef>, i: int, j: int)
    requires
        0 <= i < images.len(),
        0 <= j < images.len(),
        images[i].width != images[j].width || images[i].height != images[j].height,
    ensures
        !uniform_image_size(images),
{
}

/// A shared image that holds no column makes its tileset unusable for tile layers, and
/// leaves it without an atlas layout; a tileset with an atlas layout is usable.
pub proof fn lemma_shared_image_usable(binding: &TiledMapTileset, tileset: &Tileset)
    requires
        binding.binds(tileset),
        tileset.image is Some,
    ensures
        binding.usable_for_tiles_layer <==> AtlasGrid::columns_of(tileset, &tileset.image->0) > 0,
        !binding.usable_for_tiles_layer ==> binding.texture_atlas_layout is None,
        binding.texture_atlas_layout is Some ==> binding.usable_for_tiles_layer,
{
}

/// The binding of a collection of images is usable for tile layers exactly when all its
/// images have one size; a collection without images is usable.
pub proof fn lemma_collection_usable(binding: &TiledMapTileset, tileset: &Tileset)
    requires
        binding.binds(tileset),
        tileset.image is None,
    ensures
        binding.usable_for_tiles_layer <==> uniform_image_size(tile_images(tileset.tiles@)),
        tile_images(tileset.tiles@).len() == 0 ==> binding.usable_for_tiles_layer,
        forall|i: int, j: int|
            #![trigger tile_images(tileset.tiles@)[i], tile_images(tileset.tiles@)[j]]
            0 <= i < tile_images(tileset.tiles@).len() && 0 <= j < tile_images(
                tileset.tiles@,
            ).len() && (tile_images(tileset.tiles@)[i].width != tile_images(
                tileset.tiles@,
            )[j].width || tile_images(tileset.tiles@)[i].height != tile_images(
                tileset.tiles@,
            )[j].height) ==> !binding.usable_for_tiles_layer,
{
}

/// Copies an image reference.
pub fn copy_image(image: &ImageRef) -> (copy: ImageRef)
    ensures
        copy == *image,
{
    ImageRef { source: image.source.clone(), width: image.width, height: image.height }
}

impl TiledMapTileset {
    /// The texture index of the tile `id`: the identifier itself with a shared image, the
    /// recorded position with a list of images, nothing where no position was recorded.
    pub open spec fn texture_index(&self, id: u32) -> Option<u32> {
        match self.tilemap_texture {
            TextureBinding::Single(_) => Some(id),
            TextureBinding::Vector(_) => if self.tile_image_offsets@.contains_key(id) {
                Some(self.tile_image_offsets@[id])
            } else {
                None
            },
        }
    }

    /// Computes `texture_index`.
    pub fn texture_index_of(&self, id: u32) -> (index: Option<u32>)
        ensures
            index == self.texture_index(id),
    {
        match &self.tilemap_texture {
            TextureBinding::Single(_) => Some(id),
            TextureBinding::Vector(_) => match self.tile_image_offsets.get(&id) {
                Some(offset) => Some(*offset),
                None => None,
            },
        }
    }

    /// This is the binding of `tileset`.
    ///
    /// With a shared image the tileset is bound to that image, is usable exactly when
    /// the image holds at least one column, and has the atlas layout of its grid where
    /// `AtlasGrid::of_tileset` gives one. Without, it is bound
    /// to the images of its tiles in their order, each tile that has an image is recorded
    /// with the number of images before it, and it is usable exactly when all images have
    /// one size.
    pub open spec fn binds(&self, tileset: &Tileset) -> bool {
        match tileset.image {
            Some(image) => {
                &&& self.usable_for_tiles_layer == (AtlasGrid::columns_of(tileset, &image) > 0)
                &&& self.tilemap_texture == TextureBinding::Single(image)
                &&& self.tile_image_offsets@ == Map::<u32, u32>::empty()
                &&& match AtlasGrid::of_tileset(tileset, &image) {
                    Some(grid) => self.texture_atlas_layout matches Some(layout) && grid.lays_out(
                        &layout,
                    ),
                    None => self.texture_atlas_layout is None,
                }
            },
            None => {
                &&& self.usable_for_tiles_layer == uniform_image_size(tile_images(tileset.tiles@))
                &&& self.tilemap_texture matches TextureBinding::Vector(images) && images@
                    == tile_images(tileset.tiles@)
                &&& self.texture_atlas_layout is None
                &&& forall|id: u32| #[trigger]
                    self.tile_image_offsets@.contains_key(id) <==> exists|k: int| #[trigger]
                        has_image_at(tileset.tiles@, k, id)
                &&& forall|k: int|
                    0 <= k < tileset.tiles@.len() && (#[trigger] tileset.tiles@[k]).image is Some
                        ==> self.tile_image_offsets@.contains_key(tileset.tiles@[k].id)
                        && self.tile_image_offsets@[tileset.tiles@[k].id] == tile_images(
                        tileset.tiles@.take(k),
                    ).len()
            },
        }
    }

    /// Builds the binding of a tileset.
    pub fn bind(tileset: &Tileset) -> (binding: TiledMapTileset)
        requires
            tileset.wf(),
        ensures
            binding.binds(tileset),
    {
        match &tileset.image {
            Some(image) => {
                let texture_atlas_layout = match AtlasGrid::for_tileset(tileset, image) {
                    Some(grid) => Some(grid.layout()),
                    None => None,
                };
                TiledMapTileset {
                    usable_for_tiles_layer: AtlasGrid::has_columns(tileset, image),
                    tilemap_texture: TextureBinding::Single(copy_image(image)),
                    texture_atlas_layout,
                    tile_image_offsets: HashMap::new(),
                }
            },
            None => {
                let ghost tiles = tileset.tiles@;
                let n = tileset.tiles.len();
                let mut usable = true;
                let mut first: Option<(i32, i32)> = None;
                let mut images: Vec<ImageRef> = Vec::new();
                let mut offsets: HashMap<u32, u32> = HashMap::new();
                let mut i: usize = 0;
                assert(tiles.take(0) =~= Seq::<TileEntry>::empty());
                while i < n
                    invariant
                        i <= n,
                        n == tiles.len(),
                        n <= u32::MAX,
                        tiles == tileset.tiles@,
                        tile_ids_distinct(tiles),
                        images@ == tile_images(tiles.take(i as int)),
                        images@.len() <= i,
                        usable == uniform_image_size(images@),
                        first == if images@.len() == 0 {
                            None::<(i32, i32)>
                        } else {
                            Some((images@[0].width, images@[0].height))
                        },
                        forall|id: u32| #[trigger]
                            offsets@.contains_key(id) <==> exists|k: int|
                                k < i && #[trigger] has_image_at(tiles, k, id),
                        forall|k: int|
                            0 <= k < i && (#[trigger] tiles[k]).image is Some
                                ==> offsets@.contains_key(tiles[k].id) && offsets@[tiles[k].id]
                                == tile_images(tiles.take(k)).len(),
                    decreases n - i,
                {
                    proof {
                        lemma_tile_images_step(tiles, i as int);
                    }
                    let ghost before = offsets@;
                    let ghost seen = images@;
                    match &tileset.tiles[i].image {
                        Some(image) => {
                            let id = tileset.tiles[i].id;
                            let position: u32 = images.len() as u32;
                            offsets.insert(id, position);
                            images.push(copy_image(image));
                            match first {
                                Some(size) => {
                                    if usable && (image.width != size.0 || image.height != size.1) {
                                        usable = false;
                                    }
                                },
                                None => {
                                    first = Some((image.width, image.height));
                                },
                            }
                            proof {
                                assert(has_image_at(tiles, i as int, id));
                                assert forall|other: u32| #[trigger]
                                    offsets@.contains_key(other) <==> exists|k: int|
                                        k < i + 1 && #[trigger] has_image_at(tiles, k, other) by {
                                    if other != id && offsets@.contains_key(other) {
                                        assert(before.contains_key(other));
                                    }
                                }
                                assert forall|k: int|
                                    0 <= k < i + 1 && (#[trigger] tiles[k]).image is Some implies offsets@.contains_key(
                                    tiles[k].id,
                                ) && offsets@[tiles[k].id] == tile_images(tiles.take(k)).len() by {
                                    if k < i {
                                        assert(tiles[k].id != id);
                                        assert(before.contains_key(tiles[k].id));
                                    }
                                }
                                if uniform_image_size(seen) && seen.len() > 0 {
                                    if image.width == seen[0].width && image.height
                                        == seen[0].height {
                                        assert(uniform_image_size(images@));
                                    } else {
                                        assert(images@[0] == seen[0]);
                                        assert(images@[seen.len() as int] == *image);
                                    }
                                } else if seen.len() > 0 {
                                    let (a, b) = choose|a: int, b: int|
                                        0 <= a < seen.len() && 0 <= b < seen.len() && !((
                                        #[trigger] seen[a]).width == (#[trigger] seen[b]).width
                                            && seen[a].height == seen[b].height);
                                    assert(images@[a] == seen[a]);
                                    assert(images@[b] == seen[b]);
                                }
                            }
                        },
                        None => {
                            proof {
                                assert forall|other: u32| #[trigger]
                                    offsets@.contains_key(other) <==> exists|k: int|
                                        k < i + 1 && #[trigger] has_image_at(tiles, k, other) by {
                                    if exists|k: int|
                                        k < i + 1 && #[trigger] has_image_at(tiles, k, other) {
                                        let k = choose|k: int|
                                            k < i + 1 && #[trigger] has_image_at(tiles, k, other);
                                        assert(k < i);
                                    }
                                }
                            }
                        },
                    }
                    i += 1;
                }
                proof {
                    assert(tiles.take(n as int) =~= tiles);
                    assert forall|id: u32| #[trigger]
                        offsets@.contains_key(id) <==> exists|k: int| #[trigger]
                            has_image_at(tiles, k, id) by {
                        if exists|k: int| #[trigger] has_image_at(tiles, k, id) {
                            let k = choose|k: int| #[trigger] has_image_at(tiles, k, id);
                            assert(k < n && has_image_at(tiles, k, id));
                        }
                    }
                }
                TiledMapTileset {
                    usable_for_tiles_layer: usable,
                    tilemap_texture: TextureBinding::Vector(images),
                    texture_atlas_layout: None,
                    tile_image_offsets: offsets,
                }
            },
        }
    }
}

impl TiledMap {
    /// The document is well formed and every tileset has its binding under its index.
    pub open spec fn wf(&self) -> bool {
        &&& self.map.wf()
        &&& forall|k: usize| #[trigger]
            self.tilesets@.contains_key(k) <==> k < self.map.tilesets@.len()
        &&& forall|k: usize|
            k < self.map.tilesets@.len() ==> (#[trigger] self.tilesets@[k]).binds(
                &self.map.tilesets@[k as int],
            )
    }

    /// Builds the asset of a document: the bindings of all its tilesets, in document order.
    pub fn from_document(map: MapDocument) -> (asset: TiledMap)
        requires
            map.wf(),
        ensures
            asset.map == map,
            asset.wf(),
    {
        let mut tilesets: HashMap<usize, TiledMapTileset> = HashMap::new();
        let n = map.tilesets.len();
        let mut i: usize = 0;
        while i < n
            invariant
                i <= n,
                n == map.tilesets@.len(),
                map.wf(),
                forall|k: usize| #[trigger] tilesets@.contains_key(k) <==> k < i,
                forall|k: usize|
                    k < i ==> (#[trigger] tilesets@[k]).binds(&map.tilesets@[k as int]),
            decreases n - i,
        {
            assert(map.tilesets@[i as int].wf());
            let binding = TiledMapTileset::bind(&map.tilesets[i]);
            tilesets.insert(i, binding);
            i += 1;
        }
        TiledMap { map, tilesets }
    }
}

} // verus!
