//! Following a world instance while its asset loads.
//!
//! An instance starts unloaded. Once its asset is known it is loading, and is looked at
//! again at every evaluation until the asset and all that it depends on are loaded, or
//! loading has failed. A loaded world is spawned once; whether its children are then
//! shown all at once or as observers come near depends on whether a chunking radius is
//! set. A world whose loading failed is taken down and stays so.

use crate::geometry::{Point, Rect};
use vstd::prelude::*;

verus! {

/// How far the asset of a world and all that it depends on are loaded.
#[derive(Clone, Copy, Debug, PartialEq, Eq, Structural)]
pub enum LoadState {
    NotLoaded,
    Loading,
    Loaded,
    Failed,
}

/// Where the origin of a world lies.
#[derive(Clone, Copy, Debug, PartialEq, Eq, Structural)]
pub enum LayerPositioning {
    /// At the origin of the document.
    TiledOffset,
    /// At the center of the rectangle around its children.
    Centered,
}

/// The state of a world instance.
#[derive(Clone, Copy, Debug, PartialEq, Eq, Structural)]
pub enum WorldPhase {
    Unloaded,
    Loading,
    /// Loaded, all children are spawned at once.
    LoadedNoChunking,
    /// Loaded, children are spawned as observers see them.
    LoadedChunking,
    /// Loading failed; the instance is gone.
    Failed,
}

/// What is to be done with a world instance after a look at its load state.
#[derive(Clone, Copy, Debug, PartialEq, Eq, Structural)]
pub enum WorldLoadAction {
    Nothing,
    /// Look again at the next evaluation.
    Retry,
    /// Take the instance down with all that hangs on it.
    Despawn,
    /// Take down the children spawned so far, mark the instance as spawned and announce
    /// that the world was created. With `recenter`, which is twice the centre of the
    /// rectangle around the children, move the instance by half of it, negated, first:
    /// the centre of the rectangle then lies where the origin of the world lay.
    Spawn { recenter: Option<Point> },
}

/// A state and what leads to it.
#[derive(Clone, Copy, Debug, PartialEq, Eq, Structural)]
pub struct WorldStep {
    pub phase: WorldPhase,
    pub action: WorldLoadAction,
}

/// The step that a look at the load state leads to.
///
/// As long as nothing is known of the asset, the instance stays unloaded. While it loads
/// the instance is looked at again. A failure, or an asset that is gone although loaded,
/// takes the instance down. A loaded asset is spawned, chunked if `chunking` is set, and
/// moved to its center first if that is how it is positioned.
pub open spec fn world_step(
    load: Option<LoadState>,
    asset_present: bool,
    chunking: bool,
    positioning: LayerPositioning,
    world_rect: Rect,
) -> WorldStep {
    match load {
        None => WorldStep { phase: WorldPhase::Unloaded, action: WorldLoadAction::Nothing },
        Some(LoadState::Failed) => WorldStep {
            phase: WorldPhase::Failed,
            action: WorldLoadAction::Despawn,
        },
        Some(LoadState::Loaded) => if !asset_present {
            WorldStep { phase: WorldPhase::Failed, action: WorldLoadAction::Despawn }
        } else {
            WorldStep {
                phase: if chunking {
                    WorldPhase::LoadedChunking
                } else {
                    WorldPhase::LoadedNoChunking
                },
                action: WorldLoadAction::Spawn {
                    recenter: if positioning == LayerPositioning::Centered {
                        Some(world_rect.doubled_center())
                    } else {
                        None
                    },
                },
            }
        },
        Some(_) => WorldStep { phase: WorldPhase::Loading, action: WorldLoadAction::Retry },
    }
}

/// Decides the step of a world instance from its load state. `world_rect` is the
/// rectangle around the children of the world. Where the world is moved to its centre,
/// twice the centre must be a point that can be written, as it is for every world that
/// was built.
pub fn process_loaded_worlds(
    load: Option<LoadState>,
    asset_present: bool,
    chunking: bool,
    positioning: LayerPositioning,
    world_rect: Rect,
) -> (step: WorldStep)
    requires
        load == Some(LoadState::Loaded) && asset_present && positioning
            == LayerPositioning::Centered ==> world_rect.center_fits(),
    ensures
        step == world_step(load, asset_present, chunking, positioning, world_rect),
{
    match load {
        None => WorldStep { phase: WorldPhase::Unloaded, action: WorldLoadAction::Nothing },
        Some(LoadState::Failed) => WorldStep {
            phase: WorldPhase::Failed,
            action: WorldLoadAction::Despawn,
        },
        Some(LoadState::Loaded) => {
            if !asset_present {
                return WorldStep { phase: WorldPhase::Failed, action: WorldLoadAction::Despawn };
            }
            let recenter = match positioning {
                LayerPositioning::Centered => Some(world_rect.twice_center()),
                LayerPositioning::TiledOffset => None,
            };
            let phase = if chunking {
                WorldPhase::LoadedChunking
            } else {
                WorldPhase::LoadedNoChunking
            };
            WorldStep { phase, action: WorldLoadAction::Spawn { recenter } }
        },
        Some(_) => WorldStep { phase: WorldPhase::Loading, action: WorldLoadAction::Retry },
    }
}

/// A world is spawned only from a loaded asset that is there, and a failure always takes
/// the instance down.
pub proof fn lemma_spawn_needs_loaded(
    load: Option<LoadState>,
    asset_present: bool,
    chunking: bool,
    positioning: LayerPositioning,
    world_rect: Rect,
)
    ensures
        world_step(load, asset_present, chunking, positioning, world_rect).action is Spawn <==> load
            == Some(LoadState::Loaded) && asset_present,
        load == Some(LoadState::Failed) ==> world_step(
            load,
            asset_present,
            chunking,
            positioning,
            world_rect,
        ).action is Despawn,
{
}

/// A world that is positioned by its centre is moved by the centre of the rectangle
/// around its children: what is handed out is the sum of the least and the greatest
/// corner, on both axes. A world that is positioned by its origin is not moved.
pub proof fn lemma_recentered_by_center(chunking: bool, positioning: LayerPositioning, world_rect: Rect)
    requires
        world_rect.center_fits(),
    ensures
        world_step(Some(LoadState::Loaded), true, chunking, positioning, world_rect).action == (
        WorldLoadAction::Spawn {
            recenter: if positioning == LayerPositioning::Centered {
                Some(Point { x: (world_rect.min_x + world_rect.max_x) as i64, y: (world_rect.min_y
                    + world_rect.max_y) as i64 })
            } else {
                None
            },
        }),
{
}

/// Chunking is evaluated for a world instance exactly when its asset and all that it
/// depends on are loaded and the asset is there.
pub fn chunking_applies(load: Option<LoadState>, asset_present: bool) -> (ok: bool)
    ensures
        ok == (load == Some(LoadState::Loaded) && asset_present),
{
    match load {
        Some(LoadState::Loaded) => asset_present,
        _ => false,
    }
}

} // verus!
