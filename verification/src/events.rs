//! What follows from asset events and load states.
//!
//! The scene is outside of this library. A caller reports what happened (an asset was
//! added, changed or removed; a world finished loading or failed to) and is told which
//! instances are concerned and what is to be done with them.

use crate::entities::{
    entry_instances, lists_entries, lists_instances, map_clear, map_entries, map_insert, map_new,
    no_entities, EntityMap,
};
use vstd::prelude::*;

verus! {

/// The identity of an asset.
#[derive(Clone, Copy, Debug, PartialEq, Eq, Structural)]
pub enum AssetKey {
    Index(u64),
    Uuid(u128),
}

/// What happened to an asset.
#[derive(Clone, Copy, Debug, PartialEq, Eq, Structural)]
pub enum AssetEvent {
    Added(AssetKey),
    Modified(AssetKey),
    Removed(AssetKey),
    Unused(AssetKey),
    LoadedWithDependencies(AssetKey),
}

/// An instance in the scene that was made from an asset.
#[derive(Clone, Copy, Debug, PartialEq, Eq, Structural)]
pub struct AssetUse {
    pub entity: u64,
    pub asset: AssetKey,
}

/// Marks a layer of a map: the map asset that the layer was made from.
#[derive(Clone, Copy, Debug, PartialEq, Eq, Structural)]
pub struct TiledMapLayer {
    pub map_handle_id: AssetKey,
}

/// The layer instances of one map instance: the entity of each, under the number of its
/// layer. A layer has one entity.
#[derive(Debug)]
pub struct TiledLayersStorage {
    pub storage: EntityMap,
}

impl TiledLayersStorage {
    /// No layer has an entity.
    pub fn new() -> (made: TiledLayersStorage)
        ensures
            made.storage@ == no_entities(),
    {
        TiledLayersStorage { storage: map_new() }
    }

    /// Records `entity` as the instance of the layer `layer`, in place of the one that the
    /// layer had.
    pub fn insert(&mut self, layer: u32, entity: u64)
        ensures
            final(self).storage@ == old(self).storage@.insert(layer as u64, entity),
    {
        let _ = map_insert(&mut self.storage, layer as u64, entity);
    }
}

/// What a map asset event asks for.
#[derive(Clone, Copy, Debug, PartialEq, Eq, Structural)]
pub enum MapCommand {
    /// Build the instances of this map anew.
    Load(AssetKey),
    /// Take the instances of this map down.
    Remove(AssetKey),
    Ignore,
}

/// What is to be done with a world instance.
#[derive(Clone, Copy, Debug, PartialEq, Eq, Structural)]
pub enum WorldCommand {
    /// Mark the instance to be built anew at the next evaluation.
    Respawn(u64),
    /// Take the instance down.
    Despawn(u64),
}

/// Picks the entity of a use of the asset `id`.
pub open spec fn entity_if_uses(id: AssetKey) -> spec_fn(AssetUse) -> Option<u64> {
    |used: AssetUse|
        if used.asset == id {
            Some(used.entity)
        } else {
            None
        }
}

/// The entities of the instances made from the asset `id`, in the order of `uses`.
pub open spec fn users_of(uses: Seq<AssetUse>, id: AssetKey) -> Seq<u64> {
    uses.filter_map(entity_if_uses(id))
}

/// Tests whether two asset identities are the same.
pub fn same_asset(a: AssetKey, b: AssetKey) -> (same: bool)
    ensures
        same == (a == b),
{
    match (a, b) {
        (AssetKey::Index(x), AssetKey::Index(y)) => x == y,
        (AssetKey::Uuid(x), AssetKey::Uuid(y)) => x == y,
        _ => false,
    }
}

/// Lists the entities of the instances made from the asset `id`.
pub fn instances_of(uses: &Vec<AssetUse>, id: AssetKey) -> (entities: Vec<u64>)
    ensures
        entities@ == users_of(uses@, id),
{
    let mut entities: Vec<u64> = Vec::new();
    let mut i: usize = 0;
    assert(uses@.take(0) =~= Seq::<AssetUse>::empty());
    while i < uses.len()
        invariant
            i <= uses@.len(),
            entities@ == users_of(uses@.take(i as int), id),
        decreases uses@.len() - i,
    {
        proof {
            uses@.lemma_filter_map_take_succ(entity_if_uses(id), i as int);
        }
        if same_asset(uses[i].asset, id) {
            entities.push(uses[i].entity);
            assert(entities@ =~= users_of(uses@.take(i as int), id) + seq![uses@[i as int].entity]);
        } else {
            assert(users_of(uses@.take(i as int), id) + Seq::<u64>::empty() =~= users_of(
                uses@.take(i as int),
                id,
            ));
        }
        i += 1;
    }
    assert(uses@.take(uses@.len() as int) =~= uses@);
    entities
}

/// What a map asset event asks for: an added or changed map is loaded, a removed one is
/// taken down, anything else is ignored.
pub open spec fn map_command_of(event: AssetEvent) -> MapCommand {
    match event {
        AssetEvent::Added(id) => MapCommand::Load(id),
        AssetEvent::Modified(id) => MapCommand::Load(id),
        AssetEvent::Removed(id) => MapCommand::Remove(id),
        _ => MapCommand::Ignore,
    }
}

/// Decides what a map asset event asks for.
pub fn process_loaded_maps(event: AssetEvent) -> (command: MapCommand)
    ensures
        command == map_command_of(event),
{
    match event {
        AssetEvent::Added(id) => MapCommand::Load(id),
        AssetEvent::Modified(id) => MapCommand::Load(id),
        AssetEvent::Removed(id) => MapCommand::Remove(id),
        _ => MapCommand::Ignore,
    }
}

/// Lists the map instances to build anew for the added or changed map `id`: those made
/// from it.
pub fn load_map_by_asset_id(maps: &Vec<AssetUse>, id: AssetKey) -> (entities: Vec<u64>)
    ensures
        entities@ == users_of(maps@, id),
{
    instances_of(maps, id)
}

/// The uses that the marked layers stand for.
pub open spec fn layer_uses(layers: Seq<(u64, TiledMapLayer)>) -> Seq<AssetUse> {
    Seq::new(
        layers.len(),
        |i: int| AssetUse { entity: layers[i].0, asset: layers[i].1.map_handle_id },
    )
}

/// What is taken down with a removed map: the map instances made from it, whose layers
/// go, and every layer that is marked as made from it, whatever instance it hangs on.
#[derive(Debug)]
pub struct MapRemoval {
    pub maps: Vec<u64>,
    pub layers: Vec<u64>,
}

/// Lists what is taken down with the removed map `id`.
pub fn remove_map_by_asset_id(
    maps: &Vec<AssetUse>,
    layers: &Vec<(u64, TiledMapLayer)>,
    id: AssetKey,
) -> (removal: MapRemoval)
    ensures
        removal.maps@ == users_of(maps@, id),
        removal.layers@ == users_of(layer_uses(layers@), id),
{
    let mut uses: Vec<AssetUse> = Vec::new();
    let mut i: usize = 0;
    while i < layers.len()
        invariant
            i <= layers@.len(),
            uses@ == layer_uses(layers@).take(i as int),
        decreases layers@.len() - i,
    {
        uses.push(AssetUse { entity: layers[i].0, asset: layers[i].1.map_handle_id });
        assert(uses@ =~= layer_uses(layers@).take(i + 1));
        i += 1;
    }
    assert(layer_uses(layers@).take(layers@.len() as int) =~= layer_uses(layers@));
    MapRemoval { maps: instances_of(maps, id), layers: instances_of(&uses, id) }
}

/// Forgets the layers of a map instance and hands their entities out to be taken down:
/// one for each layer that had one.
pub fn remove_layers(layer_storage: &mut TiledLayersStorage) -> (entities: Vec<u64>)
    ensures
        lists_instances(entities@, old(layer_storage).storage@),
        final(layer_storage).storage@ == no_entities(),
{
    let entries = map_entries(&layer_storage.storage);
    let mut entities: Vec<u64> = Vec::new();
    let mut i: usize = 0;
    while i < entries.len()
        invariant
            i <= entries@.len(),
            entities@ == entry_instances(entries@).take(i as int),
        decreases entries@.len() - i,
    {
        entities.push(entries[i].1);
        assert(entities@ =~= entry_instances(entries@).take(i + 1));
        i += 1;
    }
    assert(entry_instances(entries@).take(entries@.len() as int) =~= entry_instances(entries@));
    assert(lists_entries(entries@, layer_storage.storage@));
    map_clear(&mut layer_storage.storage);
    entities
}

/// What a world asset event asks for: the instances of a changed world are marked to be
/// built anew, those of a removed world are taken down, anything else asks for nothing.
pub open spec fn world_commands_of(event: AssetEvent, worlds: Seq<AssetUse>) -> Seq<WorldCommand> {
    match event {
        AssetEvent::Modified(id) => users_of(worlds, id).map_values(
            |entity: u64| WorldCommand::Respawn(entity),
        ),
        AssetEvent::Removed(id) => users_of(worlds, id).map_values(
            |entity: u64| WorldCommand::Despawn(entity),
        ),
        _ => Seq::empty(),
    }
}

/// Decides what a world asset event asks for.
pub fn handle_world_events(event: AssetEvent, worlds: &Vec<AssetUse>) -> (commands: Vec<
    WorldCommand,
>)
    ensures
        commands@ == world_commands_of(event, worlds@),
{
    let mut commands: Vec<WorldCommand> = Vec::new();
    match event {
        AssetEvent::Modified(id) => {
            let entities = instances_of(worlds, id);
            let mut i: usize = 0;
            while i < entities.len()
                invariant
                    i <= entities@.len(),
                    commands@ == entities@.take(i as int).map_values(
                        |entity: u64| WorldCommand::Respawn(entity),
                    ),
                decreases entities@.len() - i,
            {
                commands.push(WorldCommand::Respawn(entities[i]));
                assert(commands@ =~= entities@.take(i + 1).map_values(
                    |entity: u64| WorldCommand::Respawn(entity),
                ));
                i += 1;
            }
            assert(entities@.take(entities@.len() as int) =~= entities@);
        },
        AssetEvent::Removed(id) => {
            let entities = instances_of(worlds, id);
            let mut i: usize = 0;
            while i < entities.len()
                invariant
                    i <= entities@.len(),
                    commands@ == entities@.take(i as int).map_values(
                        |entity: u64| WorldCommand::Despawn(entity),
                    ),
                decreases entities@.len() - i,
            {
                commands.push(WorldCommand::Despawn(entities[i]));
                assert(commands@ =~= entities@.take(i + 1).map_values(
                    |entity: u64| WorldCommand::Despawn(entity),
                ));
                i += 1;
            }
            assert(entities@.take(entities@.len() as int) =~= entities@);
        },
        _ => {},
    }
    commands
}

} // verus!
