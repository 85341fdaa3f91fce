//! The world asset: the maps that a world is composed of, each with the rectangle that it
//! occupies, and the rectangle around all of them.

use crate::geometry::{is_greatest, is_least, Point, Rect};
use vstd::prelude::*;

verus! {

/// One map as the world document lists it.
#[derive(Debug)]
pub struct WorldMapEntry {
    pub filename: String,
    pub x: i32,
    pub y: i32,
    /// Width of the map in world units; an entry without one counts as 0 wide.
    pub width: Option<i32>,
    /// Height of the map in world units; an entry without one counts as 0 high.
    pub height: Option<i32>,
    /// The map that the file name was resolved to, if it could be resolved.
    pub map: Option<u64>,
}

/// One child map of a world: where it lies and which map it is.
#[derive(Clone, Copy, Debug, PartialEq, Eq, Structural)]
pub struct WorldChild {
    pub rect: Rect,
    pub map: u64,
}

/// A world: its children in the order of the document and the rectangle around them.
#[derive(Debug)]
pub struct TiledWorld {
    pub world_rect: Rect,
    pub maps: Vec<WorldChild>,
}

/// Why a world could not be built.
#[derive(Clone, Copy, Debug, PartialEq, Eq, Structural)]
pub enum WorldBuildError {
    /// The entry at this position names a map that could not be resolved.
    UnresolvedMap(usize),
}

/// The value of an optional extent.
pub open spec fn extent(value: Option<i32>) -> int {
    match value {
        Some(v) => v as int,
        None => 0,
    }
}

/// The rectangle that an entry occupies: from its position, as wide and high as it says.
pub open spec fn entry_rect(entry: &WorldMapEntry) -> Rect {
    Rect {
        min_x: entry.x as i64,
        min_y: entry.y as i64,
        max_x: (entry.x + extent(entry.width)) as i64,
        max_y: (entry.y + extent(entry.height)) as i64,
    }
}

/// The entry at position `i` is the first that is not resolved.
pub open spec fn first_unresolved(entries: Seq<WorldMapEntry>, i: int) -> bool {
    &&& 0 <= i < entries.len()
    &&& entries[i].map is None
    &&& forall|k: int| 0 <= k < i ==> (#[trigger] entries[k]).map is Some
}

/// One coordinate of each child, in the order of the children.
pub open spec fn min_xs(maps: Seq<WorldChild>) -> Seq<int> {
    Seq::new(maps.len(), |i: int| maps[i].rect.min_x as int)
}

pub open spec fn min_ys(maps: Seq<WorldChild>) -> Seq<int> {
    Seq::new(maps.len(), |i: int| maps[i].rect.min_y as int)
}

pub open spec fn max_xs(maps: Seq<WorldChild>) -> Seq<int> {
    Seq::new(maps.len(), |i: int| maps[i].rect.max_x as int)
}

pub open spec fn max_ys(maps: Seq<WorldChild>) -> Seq<int> {
    Seq::new(maps.len(), |i: int| maps[i].rect.max_y as int)
}

/// `rect` is the rectangle around all children: the least of their least corners and the
/// greatest of their greatest; the empty rectangle at the origin where there is no child.
pub open spec fn is_union(rect: Rect, maps: Seq<WorldChild>) -> bool {
    &&& is_least(min_xs(maps), rect.min_x as int)
    &&& is_least(min_ys(maps), rect.min_y as int)
    &&& is_greatest(max_xs(maps), rect.max_x as int)
    &&& is_greatest(max_ys(maps), rect.max_y as int)
}

impl WorldMapEntry {
    /// Computes `entry_rect`.
    pub fn rect(&self) -> (rect: Rect)
        ensures
            rect == entry_rect(self),
    {
        let width: i64 = match self.width {
            Some(w) => w as i64,
            None => 0,
        };
        let height: i64 = match self.height {
            Some(h) => h as i64,
            None => 0,
        };
        Rect {
            min_x: self.x as i64,
            min_y: self.y as i64,
            max_x: self.x as i64 + width,
            max_y: self.y as i64 + height,
        }
    }
}

/// Every coordinate of the rectangle is one that the sum of two 32-bit numbers can be.
pub open spec fn in_document_range(rect: Rect) -> bool {
    &&& -0x1_0000_0000 <= rect.min_x <= 0x1_0000_0000
    &&& -0x1_0000_0000 <= rect.min_y <= 0x1_0000_0000
    &&& -0x1_0000_0000 <= rect.max_x <= 0x1_0000_0000
    &&& -0x1_0000_0000 <= rect.max_y <= 0x1_0000_0000
}

impl TiledWorld {
    /// The world rectangle is the rectangle around the children.
    pub open spec fn wf(&self) -> bool {
        is_union(self.world_rect, self.maps@)
    }

    /// This is the world of `entries`: one child for each entry, in their order.
    pub open spec fn built_from(&self, entries: Seq<WorldMapEntry>) -> bool {
        &&& self.wf()
        &&& self.maps@.len() == entries.len()
        &&& forall|i: int|
            0 <= i < entries.len() ==> (#[trigger] self.maps@[i]).rect == entry_rect(&entries[i])
                && entries[i].map == Some(self.maps@[i].map)
    }

    /// Builds the world of a document. Fails where an entry is not resolved, naming the
    /// first such entry.
    pub fn build(entries: &Vec<WorldMapEntry>) -> (result: Result<TiledWorld, WorldBuildError>)
        ensures
            match result {
                Ok(world) => world.built_from(entries@) && forall|i: int|
                    0 <= i < entries@.len() ==> (#[trigger] entries@[i]).map is Some,
                Err(WorldBuildError::UnresolvedMap(i)) => first_unresolved(entries@, i as int),
            },
            result matches Ok(world) ==> in_document_range(world.world_rect)
                && world.world_rect.center_fits(),
    {
        let n = entries.len();
        let mut maps: Vec<WorldChild> = Vec::new();
        let mut world_rect = Rect { min_x: 0, min_y: 0, max_x: 0, max_y: 0 };
        let ghost mut at_min_x: int = 0;
        let ghost mut at_min_y: int = 0;
        let ghost mut at_max_x: int = 0;
        let ghost mut at_max_y: int = 0;
        let mut i: usize = 0;
        while i < n
            invariant
                i <= n,
                n == entries@.len(),
                maps@.len() == i,
                forall|k: int|
                    0 <= k < i ==> (#[trigger] maps@[k]).rect == entry_rect(&entries@[k])
                        && entries@[k].map == Some(maps@[k].map),
                forall|k: int| 0 <= k < i ==> (#[trigger] entries@[k]).map is Some,
                i == 0 ==> world_rect == (Rect { min_x: 0, min_y: 0, max_x: 0, max_y: 0 }),
                in_document_range(world_rect),
                i > 0 ==> 0 <= at_min_x < i && maps@[at_min_x].rect.min_x == world_rect.min_x,
                i > 0 ==> 0 <= at_min_y < i && maps@[at_min_y].rect.min_y == world_rect.min_y,
                i > 0 ==> 0 <= at_max_x < i && maps@[at_max_x].rect.max_x == world_rect.max_x,
                i > 0 ==> 0 <= at_max_y < i && maps@[at_max_y].rect.max_y == world_rect.max_y,
                forall|k: int|
                    0 <= k < i ==> world_rect.min_x <= (#[trigger] maps@[k]).rect.min_x
                        && world_rect.min_y <= maps@[k].rect.min_y && maps@[k].rect.max_x
                        <= world_rect.max_x && maps@[k].rect.max_y <= world_rect.max_y,
            decreases n - i,
        {
            let map = match entries[i].map {
                Some(map) => map,
                None => {
                    return Err(WorldBuildError::UnresolvedMap(i));
                },
            };
            let rect = entries[i].rect();
            if i == 0 {
                world_rect = rect;
                proof {
                    at_min_x = 0;
                    at_min_y = 0;
                    at_max_x = 0;
                    at_max_y = 0;
                }
            } else {
                if rect.min_x < world_rect.min_x {
                    world_rect.min_x = rect.min_x;
                    proof {
                        at_min_x = i as int;
                    }
                }
                if rect.min_y < world_rect.min_y {
                    world_rect.min_y = rect.min_y;
                    proof {
                        at_min_y = i as int;
                    }
                }
                if rect.max_x > world_rect.max_x {
                    world_rect.max_x = rect.max_x;
                    proof {
                        at_max_x = i as int;
                    }
                }
                if rect.max_y > world_rect.max_y {
                    world_rect.max_y = rect.max_y;
                    proof {
                        at_max_y = i as int;
                    }
                }
            }
            maps.push(WorldChild { rect, map });
            i += 1;
        }
        proof {
            if n > 0 {
                assert(min_xs(maps@)[at_min_x] == world_rect.min_x);
                assert(min_ys(maps@)[at_min_y] == world_rect.min_y);
                assert(max_xs(maps@)[at_max_x] == world_rect.max_x);
                assert(max_ys(maps@)[at_max_y] == world_rect.max_y);
            }
        }
        Ok(TiledWorld { world_rect, maps })
    }
}

/// A child map to spawn: which map, and where its least corner lies.
#[derive(Clone, Copy, Debug, PartialEq, Eq, Structural)]
pub struct MapSpawn {
    pub map: u64,
    pub at: Point,
}

/// The rectangle moved by `by`.
pub open spec fn moved(rect: Rect, by: Point) -> Rect {
    Rect {
        min_x: (rect.min_x + by.x) as i64,
        min_y: (rect.min_y + by.y) as i64,
        max_x: (rect.max_x + by.x) as i64,
        max_y: (rect.max_y + by.y) as i64,
    }
}

/// The corners of the moved rectangle can be written in 64 bits.
pub open spec fn can_move(rect: Rect, by: Point) -> bool {
    &&& i64::MIN <= rect.min_x + by.x <= i64::MAX
    &&& i64::MIN <= rect.min_y + by.y <= i64::MAX
    &&& i64::MIN <= rect.max_x + by.x <= i64::MAX
    &&& i64::MIN <= rect.max_y + by.y <= i64::MAX
}

/// Moves a rectangle, where its corners can then still be written.
pub fn move_rect(rect: &Rect, by: Point) -> (result: Option<Rect>)
    ensures
        result is Some <==> can_move(*rect, by),
        result matches Some(to) ==> to == moved(*rect, by),
{
    let min_x = rect.min_x.checked_add(by.x);
    let min_y = rect.min_y.checked_add(by.y);
    let max_x = rect.max_x.checked_add(by.x);
    let max_y = rect.max_y.checked_add(by.y);
    match (min_x, min_y, max_x, max_y) {
        (Some(min_x), Some(min_y), Some(max_x), Some(max_y)) => Some(
            Rect { min_x, min_y, max_x, max_y },
        ),
        _ => None,
    }
}

impl TiledWorld {
    /// What is to be spawned for the child at position `index`: its map, at the least
    /// corner of its rectangle. Nothing for a position that the world does not have.
    pub fn spawn_of(&self, index: usize) -> (spawn: Option<MapSpawn>)
        ensures
            spawn is Some <==> index < self.maps@.len(),
            spawn matches Some(s) ==> s.map == self.maps@[index as int].map && s.at == (Point {
                x: self.maps@[index as int].rect.min_x,
                y: self.maps@[index as int].rect.min_y,
            }),
    {
        if index < self.maps.len() {
            let child = self.maps[index];
            Some(MapSpawn { map: child.map, at: Point { x: child.rect.min_x, y: child.rect.min_y } })
        } else {
            None
        }
    }

    /// The bounding boxes of the children of a world instance that is moved by `by` and
    /// not turned: the bounding box of the four moved corners of each child, in the order
    /// of the children. Nothing exactly when a moved corner cannot be written.
    pub fn for_each_map(&self, by: Point) -> (boxes: Option<Vec<Rect>>)
        ensures
            boxes is Some <==> forall|i: int|
                0 <= i < self.maps@.len() ==> can_move((#[trigger] self.maps@[i]).rect, by),
            boxes matches Some(found) ==> found@.len() == self.maps@.len() && forall|i: int|
                0 <= i < found@.len() ==> {
                    let to = moved(self.maps@[i].rect, by);
                    #[trigger] found@[i] == Rect::hull(
                        Point { x: to.min_x, y: to.min_y },
                        Point { x: to.min_x, y: to.max_y },
                        Point { x: to.max_x, y: to.max_y },
                        Point { x: to.max_x, y: to.min_y },
                    )
                },
    {
        let mut found: Vec<Rect> = Vec::new();
        let mut i: usize = 0;
        while i < self.maps.len()
            invariant
                i <= self.maps@.len(),
                found@.len() == i,
                forall|k: int| 0 <= k < i ==> can_move((#[trigger] self.maps@[k]).rect, by),
                forall|k: int|
                    0 <= k < i ==> {
                        let to = moved(self.maps@[k].rect, by);
                        #[trigger] found@[k] == Rect::hull(
                            Point { x: to.min_x, y: to.min_y },
                            Point { x: to.min_x, y: to.max_y },
                            Point { x: to.max_x, y: to.max_y },
                            Point { x: to.max_x, y: to.min_y },
                        )
                    },
            decreases self.maps@.len() - i,
        {
            match move_rect(&self.maps[i].rect, by) {
                Some(to) => {
                    let corners = to.corners();
                    found.push(Rect::bounding(corners.0, corners.1, corners.2, corners.3));
                },
                None => {
                    return None;
                },
            }
            i += 1;
        }
        Some(found)
    }
}

} // verus!
