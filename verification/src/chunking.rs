//! Deciding which child maps of a world are shown.
//!
//! In a chunked world each observer looks at the world through a view box. A child is
//! visible when its bounding box intersects the view box of at least one observer.
//! Comparing the visible children with those that are spawned gives the children to spawn
//! and those to despawn. A chunked world without any observer has no visible child, so
//! everything spawned is despawned. In a world that is not chunked all children are
//! spawned together, once.
//!
//! Coordinates are integers. Boxes are only compared, never measured, so a caller whose
//! coordinates are not integers may pass any integers that are ordered as they are.

use crate::entities::{
    has_entry, lists_entries, map_clear, map_contains, map_entries, map_insert, map_is_empty,
    map_new, map_remove, no_entities, none_held, EntityMap,
};
use crate::geometry::Rect;
use vstd::prelude::*;

verus! {

/// A child map that is spawned: the key under which it is held, which is its position
/// among the children of the world, and the instance that stands for it in the scene.
#[derive(Clone, Copy, Debug, PartialEq, Eq, Structural)]
pub struct SpawnedMap {
    pub index: u64,
    pub instance: u64,
}

/// The spawned child maps of one world instance: the instance of each, under its
/// position among the children.
#[derive(Debug)]
pub struct TiledWorldStorage {
    pub spawned_maps: EntityMap,
}

/// What is to be done to bring the spawned children in line with the visible ones.
#[derive(Debug)]
pub struct ChunkingPlan {
    /// The spawned children to despawn, each once, in no stated order.
    pub to_remove: Vec<SpawnedMap>,
    /// The children to spawn, by rising position.
    pub to_spawn: Vec<usize>,
}

/// Some entry stands for the child held under `key`.
pub open spec fn holds(spawned: Seq<SpawnedMap>, key: u64) -> bool {
    exists|i: int| 0 <= i < spawned.len() && (#[trigger] spawned[i]).index == key
}

/// One of `indices` is the position that `key` writes.
pub open spec fn lists_key(indices: Seq<usize>, key: u64) -> bool {
    exists|i: int| 0 <= i < indices.len() && (#[trigger] indices[i]) as u64 == key
}

/// No child has two entries.
pub open spec fn distinct_indices(spawned: Seq<SpawnedMap>) -> bool {
    forall|i: int, j: int|
        0 <= i < j < spawned.len() ==> (#[trigger] spawned[i]).index != (#[trigger] spawned[j]).index
}

/// Each element is greater than the one before it.
pub open spec fn rising(indices: Seq<usize>) -> bool {
    forall|i: int, j: int| 0 <= i < j < indices.len() ==> indices[i] < indices[j]
}

/// The box `child` intersects at least one of the view boxes.
pub open spec fn is_visible(child: Rect, views: Seq<Rect>) -> bool {
    exists|v: int| 0 <= v < views.len() && child.overlaps(&#[trigger] views[v])
}

/// `visible` lists, by rising position, exactly the children that are visible.
pub open spec fn lists_visible(visible: Seq<usize>, children: Seq<Rect>, views: Seq<Rect>) -> bool {
    &&& rising(visible)
    &&& forall|k: usize|
        #![trigger visible.contains(k)]
        #![trigger children[k as int]]
        visible.contains(k) <==> k < children.len() && is_visible(children[k as int], views)
}

/// Tests whether one of the view boxes intersects `child`.
pub fn intersects_any(child: &Rect, views: &Vec<Rect>) -> (hit: bool)
    ensures
        hit == is_visible(*child, views@),
{
    let mut v: usize = 0;
    while v < views.len()
        invariant
            v <= views@.len(),
            forall|k: int| 0 <= k < v ==> !child.overlaps(&#[trigger] views@[k]),
        decreases views@.len() - v,
    {
        if child.intersects(&views[v]) {
            return true;
        }
        v += 1;
    }
    false
}

/// Lists the visible children, by rising position.
pub fn visible_children(children: &Vec<Rect>, views: &Vec<Rect>) -> (visible: Vec<usize>)
    ensures
        lists_visible(visible@, children@, views@),
{
    let mut visible: Vec<usize> = Vec::new();
    let mut i: usize = 0;
    while i < children.len()
        invariant
            i <= children@.len(),
            rising(visible@),
            forall|p: int| 0 <= p < visible@.len() ==> (#[trigger] visible@[p]) < i,
            forall|k: usize|
                #![trigger visible@.contains(k)]
                #![trigger children@[k as int]]
                visible@.contains(k) <==> k < i && is_visible(children@[k as int], views@),
        decreases children@.len() - i,
    {
        let ghost before = visible@;
        if intersects_any(&children[i], views) {
            visible.push(i);
            proof {
                assert(visible@[before.len() as int] == i);
                assert forall|k: usize|
                    #![trigger visible@.contains(k)]
                    #![trigger children@[k as int]]
                    visible@.contains(k) <==> k < i + 1 && is_visible(
                        children@[k as int],
                        views@,
                    ) by {
                    if visible@.contains(k) {
                        let p = choose|p: int| 0 <= p < visible@.len() && visible@[p] == k;
                        if p < before.len() {
                            assert(before[p] == k);
                            assert(before.contains(k));
                        }
                    }
                    if k < i && is_visible(children@[k as int], views@) {
                        assert(before.contains(k));
                        let p = choose|p: int| 0 <= p < before.len() && before[p] == k;
                        assert(visible@[p] == k);
                    }
                }
            }
        }
        i += 1;
    }
    visible
}

/// Tests whether one of `indices` is the position that `key` writes.
pub fn has_key(indices: &Vec<usize>, key: u64) -> (found: bool)
    ensures
        found == lists_key(indices@, key),
{
    let mut i: usize = 0;
    while i < indices.len()
        invariant
            i <= indices@.len(),
            forall|k: int| 0 <= k < i ==> (#[trigger] indices@[k]) as u64 != key,
        decreases indices@.len() - i,
    {
        if indices[i] as u64 == key {
            return true;
        }
        i += 1;
    }
    false
}

/// The child held under `key` is not a visible child of the world.
pub open spec fn hidden(children: Seq<Rect>, views: Seq<Rect>, key: u64) -> bool {
    !(key < children.len() && is_visible(children[key as int], views))
}

/// The positions `0`, `1`, ... below `count`.
pub open spec fn all_positions(count: nat) -> Seq<usize> {
    Seq::new(count, |i: int| i as usize)
}

/// `to_remove` lists, each once and with its instance, exactly the children that are
/// spawned and hidden.
pub open spec fn lists_hidden(
    to_remove: Seq<SpawnedMap>,
    spawned: Map<u64, u64>,
    children: Seq<Rect>,
    views: Seq<Rect>,
) -> bool {
    &&& distinct_indices(to_remove)
    &&& forall|i: int|
        0 <= i < to_remove.len() ==> {
            &&& spawned.contains_key((#[trigger] to_remove[i]).index)
            &&& spawned[to_remove[i].index] == to_remove[i].instance
            &&& hidden(children, views, to_remove[i].index)
        }
    &&& forall|key: u64|
        #[trigger] spawned.contains_key(key) && hidden(children, views, key) ==> holds(
            to_remove,
            key,
        )
}

/// A list of the visible children names a key exactly when the child held under that key
/// is visible.
pub proof fn lemma_listed_is_not_hidden(
    visible: Seq<usize>,
    children: Seq<Rect>,
    views: Seq<Rect>,
    key: u64,
)
    requires
        lists_visible(visible, children, views),
        children.len() <= usize::MAX,
    ensures
        lists_key(visible, key) <==> !hidden(children, views, key),
{
    if lists_key(visible, key) {
        let p = choose|p: int| 0 <= p < visible.len() && (#[trigger] visible[p]) as u64 == key;
        assert(visible.contains(visible[p]));
    }
    if !hidden(children, views, key) {
        let k = key as usize;
        assert(is_visible(children[k as int], views));
        assert(visible.contains(k));
        let p = choose|p: int| 0 <= p < visible.len() && visible[p] == k;
        assert(visible[p] as u64 == key);
    }
}

impl ChunkingPlan {
    /// This is the plan for a world whose children have the bounding boxes `children`,
    /// seen through `views`, while `spawned` is spawned.
    ///
    /// With view boxes, what is spawned and not visible is removed, and what is visible
    /// and not spawned is spawned. Without, nothing is removed, and every child is
    /// spawned if none is yet.
    pub open spec fn plans(
        &self,
        spawned: Map<u64, u64>,
        children: Seq<Rect>,
        views: Option<Seq<Rect>>,
    ) -> bool {
        match views {
            Some(views) => {
                &&& lists_hidden(self.to_remove@, spawned, children, views)
                &&& rising(self.to_spawn@)
                &&& forall|k: usize|
                    #![trigger self.to_spawn@.contains(k)]
                    #![trigger children[k as int]]
                    self.to_spawn@.contains(k) <==> k < children.len() && is_visible(
                        children[k as int],
                        views,
                    ) && !spawned.contains_key(k as u64)
            },
            None => {
                &&& self.to_remove@.len() == 0
                &&& self.to_spawn@ == if none_held(spawned) {
                    all_positions(children.len())
                } else {
                    Seq::<usize>::empty()
                }
            },
        }
    }
}

/// The view boxes as a sequence, where there are any.
pub open spec fn views_of(views: &Option<Vec<Rect>>) -> Option<Seq<Rect>> {
    match views {
        Some(views) => Some(views@),
        None => None,
    }
}

/// Plans the spawning and despawning of the children of one world instance. `views` holds
/// the view box of each observer; it is `None` where the world is not chunked.
pub fn world_chunking(
    storage: &TiledWorldStorage,
    children: &Vec<Rect>,
    views: &Option<Vec<Rect>>,
) -> (plan: ChunkingPlan)
    ensures
        plan.plans(storage.spawned_maps@, children@, views_of(views)),
{
    let mut to_remove: Vec<SpawnedMap> = Vec::new();
    let mut to_spawn: Vec<usize> = Vec::new();
    let ghost spawned = storage.spawned_maps@;
    match views {
        Some(views) => {
            let visible = visible_children(children, views);
            let count = children.len();
            let entries = map_entries(&storage.spawned_maps);
            let ghost mut from: Seq<int> = Seq::empty();
            let mut i: usize = 0;
            while i < entries.len()
                invariant
                    i <= entries@.len(),
                    children@.len() == count,
                    lists_entries(entries@, spawned),
                    lists_visible(visible@, children@, views@),
                    distinct_indices(to_remove@),
                    from.len() == to_remove@.len(),
                    forall|p: int|
                        0 <= p < to_remove@.len() ==> {
                            &&& 0 <= #[trigger] from[p] < i
                            &&& entries@[from[p]].0 == to_remove@[p].index
                            &&& entries@[from[p]].1 == to_remove@[p].instance
                            &&& hidden(children@, views@, to_remove@[p].index)
                        },
                    forall|q: int|
                        0 <= q < i && hidden(children@, views@, (#[trigger] entries@[q]).0)
                            ==> holds(to_remove@, entries@[q].0),
                decreases entries@.len() - i,
            {
                let key = entries[i].0;
                let instance = entries[i].1;
                let ghost before = to_remove@;
                proof {
                    lemma_listed_is_not_hidden(visible@, children@, views@, key);
                }
                if !has_key(&visible, key) {
                    to_remove.push(SpawnedMap { index: key, instance });
                    proof {
                        let last = before.len() as int;
                        let sources = from;
                        from = from.push(i as int);
                        assert(to_remove@[last].index == key);
                        assert forall|a: int, b: int| 0 <= a < b < to_remove@.len() implies (
                        #[trigger] to_remove@[a]).index != (#[trigger] to_remove@[b]).index by {
                            if b == last {
                                assert(to_remove@[a] == before[a]);
                                assert(entries@[sources[a]].0 != entries@[i as int].0);
                            } else {
                                assert(to_remove@[a] == before[a] && to_remove@[b] == before[b]);
                            }
                        }
                        assert forall|p: int| 0 <= p < to_remove@.len() implies {
                            &&& 0 <= #[trigger] from[p] < i + 1
                            &&& entries@[from[p]].0 == to_remove@[p].index
                            &&& entries@[from[p]].1 == to_remove@[p].instance
                            &&& hidden(children@, views@, to_remove@[p].index)
                        } by {
                            if p < last {
                                assert(to_remove@[p] == before[p]);
                                assert(from[p] == sources[p]);
                            }
                        }
                        assert forall|q: int|
                            0 <= q < i + 1 && hidden(
                                children@,
                                views@,
                                (#[trigger] entries@[q]).0,
                            ) implies holds(to_remove@, entries@[q].0) by {
                            if q < i {
                                let p = choose|p: int|
                                    0 <= p < before.len() && (#[trigger] before[p]).index
                                        == entries@[q].0;
                                assert(to_remove@[p].index == entries@[q].0);
                            } else {
                                assert(to_remove@[last].index == entries@[q].0);
                            }
                        }
                    }
                }
                i += 1;
            }
            proof {
                assert forall|key: u64|
                    #[trigger] spawned.contains_key(key) && hidden(
                        children@,
                        views@,
                        key,
                    ) implies holds(to_remove@, key) by {
                    assert(has_entry(entries@, key));
                    let q = choose|q: int|
                        0 <= q < entries@.len() && (#[trigger] entries@[q]).0 == key;
                    assert(holds(to_remove@, entries@[q].0));
                }
                assert forall|p: int| 0 <= p < to_remove@.len() implies {
                    &&& spawned.contains_key((#[trigger] to_remove@[p]).index)
                    &&& spawned[to_remove@[p].index] == to_remove@[p].instance
                    &&& hidden(children@, views@, to_remove@[p].index)
                } by {
                    let q = from[p];
                    assert(spawned.contains_key(entries@[q].0));
                }
            }
            let mut j: usize = 0;
            while j < visible.len()
                invariant
                    j <= visible@.len(),
                    spawned == storage.spawned_maps@,
                    lists_visible(visible@, children@, views@),
                    rising(to_spawn@),
                    forall|p: int|
                        0 <= p < to_spawn@.len() ==> exists|q: int|
                            0 <= q < j && visible@[q] == #[trigger] to_spawn@[p],
                    forall|q: int|
                        0 <= q < j && !spawned.contains_key((#[trigger] visible@[q]) as u64)
                            ==> to_spawn@.contains(visible@[q]),
                    forall|p: int|
                        0 <= p < to_spawn@.len() ==> !spawned.contains_key(
                            (#[trigger] to_spawn@[p]) as u64,
                        ),
                decreases visible@.len() - j,
            {
                let index = visible[j];
                let ghost before = to_spawn@;
                if !map_contains(&storage.spawned_maps, index as u64) {
                    to_spawn.push(index);
                    proof {
                        assert(to_spawn@[before.len() as int] == index);
                        assert forall|a: int, b: int|
                            0 <= a < b < to_spawn@.len() implies to_spawn@[a] < to_spawn@[b] by {
                            if b == before.len() {
                                let q = choose|q: int| 0 <= q < j && visible@[q] == before[a];
                                assert(visible@[q] < visible@[j as int]);
                            }
                        }
                        assert forall|q: int|
                            0 <= q < j + 1 && !spawned.contains_key(
                                (#[trigger] visible@[q]) as u64,
                            ) implies to_spawn@.contains(visible@[q]) by {
                            if q < j {
                                assert(before.contains(visible@[q]));
                                let p = choose|p: int|
                                    0 <= p < before.len() && before[p] == visible@[q];
                                assert(to_spawn@[p] == visible@[q]);
                            }
                        }
                    }
                }
                j += 1;
            }
            proof {
                assert forall|k: usize|
                    #![trigger to_spawn@.contains(k)]
                    #![trigger children@[k as int]]
                    to_spawn@.contains(k) <==> k < children@.len() && is_visible(
                        children@[k as int],
                        views@,
                    ) && !spawned.contains_key(k as u64) by {
                    if to_spawn@.contains(k) {
                        let p = choose|p: int| 0 <= p < to_spawn@.len() && to_spawn@[p] == k;
                        let q = choose|q: int|
                            0 <= q < visible@.len() && visible@[q] == to_spawn@[p];
                        assert(visible@.contains(k));
                    }
                    if k < children@.len() && is_visible(children@[k as int], views@)
                        && !spawned.contains_key(k as u64) {
                        assert(visible@.contains(k));
                        let q = choose|q: int| 0 <= q < visible@.len() && visible@[q] == k;
                        assert(!spawned.contains_key(visible@[q] as u64));
                    }
                }
            }
        },
        None => {
            if map_is_empty(&storage.spawned_maps) {
                let mut k: usize = 0;
                while k < children.len()
                    invariant
                        k <= children@.len(),
                        to_spawn@ == all_positions(k as nat),
                    decreases children@.len() - k,
                {
                    to_spawn.push(k);
                    assert(to_spawn@ =~= all_positions((k + 1) as nat));
                    k += 1;
                }
            }
        },
    }
    ChunkingPlan { to_remove, to_spawn }
}

/// What is left of `spawned` once the children of `to_remove` were taken out, one after
/// the other.
pub open spec fn taken(spawned: Map<u64, u64>, to_remove: Seq<SpawnedMap>) -> Map<u64, u64>
    decreases to_remove.len(),
{
    if to_remove.len() == 0 {
        spawned
    } else {
        taken(spawned, to_remove.drop_last()).remove(to_remove.last().index)
    }
}

/// What `spawned` becomes once the children of `to_spawn` were put in, one after the
/// other, the `k`-th with the `k`-th instance.
pub open spec fn recorded(
    spawned: Map<u64, u64>,
    to_spawn: Seq<usize>,
    instances: Seq<u64>,
) -> Map<u64, u64>
    decreases to_spawn.len(),
{
    if to_spawn.len() == 0 {
        spawned
    } else {
        recorded(spawned, to_spawn.drop_last(), instances.drop_last()).insert(
            to_spawn.last() as u64,
            instances.last(),
        )
    }
}

/// What is spawned once a plan was carried out: what was spawned without what was
/// removed, and the newly spawned.
pub open spec fn after_plan(
    spawned: Map<u64, u64>,
    to_remove: Seq<SpawnedMap>,
    to_spawn: Seq<usize>,
    instances: Seq<u64>,
) -> Map<u64, u64> {
    recorded(taken(spawned, to_remove), to_spawn, instances)
}

/// The entries as spawned children, in their order.
pub open spec fn as_spawned(entries: Seq<(u64, u64)>) -> Seq<SpawnedMap> {
    Seq::new(entries.len(), |i: int| SpawnedMap { index: entries[i].0, instance: entries[i].1 })
}

/// `listed` lists what is spawned, each child once with its instance, in some order.
pub open spec fn lists_spawned(listed: Seq<SpawnedMap>, spawned: Map<u64, u64>) -> bool {
    exists|entries: Seq<(u64, u64)>|
        lists_entries(entries, spawned) && listed == #[trigger] as_spawned(entries)
}

impl TiledWorldStorage {
    /// Nothing is spawned.
    pub fn new() -> (storage: TiledWorldStorage)
        ensures
            storage.spawned_maps@ == no_entities(),
    {
        TiledWorldStorage { spawned_maps: map_new() }
    }

    /// Records that the child at position `index` is spawned as `instance`.
    pub fn insert(&mut self, index: usize, instance: u64)
        ensures
            final(self).spawned_maps@ == old(self).spawned_maps@.insert(index as u64, instance),
    {
        let _ = map_insert(&mut self.spawned_maps, index as u64, instance);
    }

    /// Lists the spawned children.
    pub fn spawned(&self) -> (listed: Vec<SpawnedMap>)
        ensures
            lists_spawned(listed@, self.spawned_maps@),
    {
        let entries = map_entries(&self.spawned_maps);
        let mut listed: Vec<SpawnedMap> = Vec::new();
        let mut i: usize = 0;
        while i < entries.len()
            invariant
                i <= entries@.len(),
                listed@ == as_spawned(entries@).take(i as int),
            decreases entries@.len() - i,
        {
            listed.push(SpawnedMap { index: entries[i].0, instance: entries[i].1 });
            assert(listed@ =~= as_spawned(entries@).take(i + 1));
            i += 1;
        }
        assert(as_spawned(entries@).take(entries@.len() as int) =~= as_spawned(entries@));
        listed
    }

    /// Forgets every spawned child and hands them out, for a world that is torn down.
    pub fn clear(&mut self) -> (removed: Vec<SpawnedMap>)
        ensures
            lists_spawned(removed@, old(self).spawned_maps@),
            final(self).spawned_maps@ == no_entities(),
    {
        let removed = self.spawned();
        map_clear(&mut self.spawned_maps);
        removed
    }

    /// Records that a plan was carried out: `instances` holds, for each child of
    /// `plan.to_spawn` in turn, the instance that was spawned for it.
    pub fn apply(&mut self, plan: &ChunkingPlan, instances: &Vec<u64>)
        requires
            instances@.len() == plan.to_spawn@.len(),
        ensures
            final(self).spawned_maps@ == after_plan(
                old(self).spawned_maps@,
                plan.to_remove@,
                plan.to_spawn@,
                instances@,
            ),
    {
        let ghost held = self.spawned_maps@;
        let mut i: usize = 0;
        assert(plan.to_remove@.take(0) =~= Seq::<SpawnedMap>::empty());
        while i < plan.to_remove.len()
            invariant
                i <= plan.to_remove@.len(),
                self.spawned_maps@ == taken(held, plan.to_remove@.take(i as int)),
            decreases plan.to_remove@.len() - i,
        {
            let _ = map_remove(&mut self.spawned_maps, plan.to_remove[i].index);
            proof {
                let next = plan.to_remove@.take(i + 1);
                assert(next.drop_last() =~= plan.to_remove@.take(i as int));
                assert(next.last() == plan.to_remove@[i as int]);
            }
            i += 1;
        }
        assert(plan.to_remove@.take(plan.to_remove@.len() as int) =~= plan.to_remove@);
        let ghost left = self.spawned_maps@;
        let mut j: usize = 0;
        assert(plan.to_spawn@.take(0) =~= Seq::<usize>::empty());
        while j < plan.to_spawn.len()
            invariant
                j <= plan.to_spawn@.len(),
                instances@.len() == plan.to_spawn@.len(),
                self.spawned_maps@ == recorded(
                    left,
                    plan.to_spawn@.take(j as int),
                    instances@.take(j as int),
                ),
            decreases plan.to_spawn@.len() - j,
        {
            let _ = map_insert(&mut self.spawned_maps, plan.to_spawn[j] as u64, instances[j]);
            proof {
                let next = plan.to_spawn@.take(j + 1);
                assert(next.drop_last() =~= plan.to_spawn@.take(j as int));
                assert(instances@.take(j + 1).drop_last() =~= instances@.take(j as int));
                assert(next.last() == plan.to_spawn@[j as int]);
                assert(instances@.take(j + 1).last() == instances@[j as int]);
            }
            j += 1;
        }
        assert(plan.to_spawn@.take(plan.to_spawn@.len() as int) =~= plan.to_spawn@);
        assert(instances@.take(plan.to_spawn@.len() as int) =~= instances@);
    }
}

/// Taking children out leaves exactly the keys that had no entry among them, each with
/// the instance it had.
pub proof fn lemma_taken(spawned: Map<u64, u64>, to_remove: Seq<SpawnedMap>, key: u64)
    ensures
        taken(spawned, to_remove).contains_key(key) <==> spawned.contains_key(key) && !holds(
            to_remove,
            key,
        ),
        taken(spawned, to_remove).contains_key(key) ==> taken(spawned, to_remove)[key]
            == spawned[key],
    decreases to_remove.len(),
{
    if to_remove.len() > 0 {
        let rest = to_remove.drop_last();
        lemma_taken(spawned, rest, key);
        if holds(rest, key) {
            let p = choose|p: int| 0 <= p < rest.len() && (#[trigger] rest[p]).index == key;
            assert(to_remove[p].index == key);
        }
        if holds(to_remove, key) && to_remove.last().index != key {
            let p = choose|p: int|
                0 <= p < to_remove.len() && (#[trigger] to_remove[p]).index == key;
            assert(rest[p].index == key);
        }
        if to_remove.last().index == key {
            assert(to_remove[to_remove.len() - 1].index == key);
        }
    }
}

/// Putting children in adds exactly their keys, and leaves every other key with the
/// instance it had.
pub proof fn lemma_recorded(
    spawned: Map<u64, u64>,
    to_spawn: Seq<usize>,
    instances: Seq<u64>,
    key: u64,
)
    ensures
        recorded(spawned, to_spawn, instances).contains_key(key) <==> spawned.contains_key(key)
            || lists_key(to_spawn, key),
        !lists_key(to_spawn, key) && spawned.contains_key(key) ==> recorded(
            spawned,
            to_spawn,
            instances,
        )[key] == spawned[key],
    decreases to_spawn.len(),
{
    if to_spawn.len() > 0 {
        let rest = to_spawn.drop_last();
        lemma_recorded(spawned, rest, instances.drop_last(), key);
        if lists_key(rest, key) {
            let p = choose|p: int| 0 <= p < rest.len() && (#[trigger] rest[p]) as u64 == key;
            assert(to_spawn[p] as u64 == key);
        }
        if lists_key(to_spawn, key) && to_spawn.last() as u64 != key {
            let p = choose|p: int|
                0 <= p < to_spawn.len() && (#[trigger] to_spawn[p]) as u64 == key;
            assert(rest[p] as u64 == key);
        }
        if to_spawn.last() as u64 == key {
            assert(to_spawn[to_spawn.len() - 1] as u64 == key);
        }
    }
}

/// Once a plan with view boxes was carried out, a child is spawned exactly when its
/// bounding box intersects at least one view box, and a child that was spawned before and
/// still is has kept its instance.
pub proof fn lemma_spawned_iff_visible(
    spawned: Map<u64, u64>,
    children: Seq<Rect>,
    views: Seq<Rect>,
    plan: &ChunkingPlan,
    instances: Seq<u64>,
)
    requires
        children.len() <= usize::MAX,
        plan.plans(spawned, children, Some(views)),
        instances.len() == plan.to_spawn@.len(),
    ensures
        forall|key: u64|
            #![trigger after_plan(spawned, plan.to_remove@, plan.to_spawn@, instances).contains_key(key)]
            after_plan(spawned, plan.to_remove@, plan.to_spawn@, instances).contains_key(key)
                <==> key < children.len() && is_visible(children[key as int], views),
        forall|key: u64|
            #![trigger after_plan(spawned, plan.to_remove@, plan.to_spawn@, instances)[key]]
            spawned.contains_key(key) && after_plan(
                spawned,
                plan.to_remove@,
                plan.to_spawn@,
                instances,
            ).contains_key(key) ==> after_plan(
                spawned,
                plan.to_remove@,
                plan.to_spawn@,
                instances,
            )[key] == spawned[key],
{
    let to_remove = plan.to_remove@;
    let to_spawn = plan.to_spawn@;
    let left = taken(spawned, to_remove);
    let after = after_plan(spawned, to_remove, to_spawn, instances);
    assert forall|key: u64|
        (#[trigger] after.contains_key(key) <==> !hidden(children, views, key)) && (
        spawned.contains_key(key) && after.contains_key(key) ==> after[key] == spawned[key]) by {
        lemma_taken(spawned, to_remove, key);
        lemma_recorded(left, to_spawn, instances, key);
        if lists_key(to_spawn, key) {
            let p = choose|p: int|
                0 <= p < to_spawn.len() && (#[trigger] to_spawn[p]) as u64 == key;
            assert(to_spawn.contains(to_spawn[p]));
        }
        if holds(to_remove, key) {
            let p = choose|p: int|
                0 <= p < to_remove.len() && (#[trigger] to_remove[p]).index == key;
        }
        if !hidden(children, views, key) && !spawned.contains_key(key) {
            let k = key as usize;
            assert(is_visible(children[k as int], views));
            assert(to_spawn.contains(k));
            let p = choose|p: int| 0 <= p < to_spawn.len() && to_spawn[p] == k;
            assert(to_spawn[p] as u64 == key);
        }
    }
}

/// Without any view box, carrying out the plan of a chunked world leaves nothing spawned,
/// whatever was spawned before.
pub proof fn lemma_no_observer_despawns_all(
    spawned: Map<u64, u64>,
    children: Seq<Rect>,
    plan: &ChunkingPlan,
    instances: Seq<u64>,
)
    requires
        children.len() <= usize::MAX,
        plan.plans(spawned, children, Some(Seq::<Rect>::empty())),
        instances.len() == plan.to_spawn@.len(),
    ensures
        plan.to_spawn@.len() == 0,
        none_held(after_plan(spawned, plan.to_remove@, plan.to_spawn@, instances)),
{
    lemma_spawned_iff_visible(spawned, children, Seq::<Rect>::empty(), plan, instances);
    if plan.to_spawn@.len() > 0 {
        assert(plan.to_spawn@.contains(plan.to_spawn@[0]));
    }
}

} // verus!
