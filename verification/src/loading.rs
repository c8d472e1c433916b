//! The loading sequence: two folder loads are polled until both have
//! completed, then the registry is built once and the sequence is over.

use vstd::prelude::*;

verus! {

/// Phase of the loading sequence.
#[derive(Debug, Clone, Copy, PartialEq, Eq, Structural, Hash)]
pub enum ModelsState {
    /// Folder loads are in flight.
    Init,
    /// Both folders have completed; the registry is about to be built.
    Loaded,
    /// The registry is built and may be queried.
    Ready,
}

impl Default for ModelsState {
    fn default() -> (state: Self)
        ensures
            state == ModelsState::Init,
    {
        ModelsState::Init
    }
}

/// Answer of the asset server about one folder load. Only `Loaded` counts as
/// completion; after `Failed` the load never completes.
#[derive(Debug, Clone, Copy, PartialEq, Eq, Structural, Hash)]
pub enum LoadStatus {
    /// The server knows nothing about the load.
    NotFound,
    /// The load is known and has not started.
    NotLoaded,
    /// The load is under way.
    Loading,
    /// The folder and everything it depends on has been loaded.
    Loaded,
    /// The folder or something it depends on failed to load.
    Failed,
}

/// Completion flags of the two folder loads. A flag that is set stays set.
#[derive(Debug, Clone, Copy, PartialEq, Eq, Structural)]
pub struct AssetsCount {
    pub models: bool,
    pub gltfs: bool,
}

impl AssetsCount {
    /// Both folders have completed.
    pub open spec fn is_ready(&self) -> bool {
        self.gltfs && self.models
    }

    /// The flags after one round of answers.
    pub open spec fn observe(self, models: LoadStatus, gltfs: LoadStatus) -> AssetsCount {
        AssetsCount {
            models: self.models || models == LoadStatus::Loaded,
            gltfs: self.gltfs || gltfs == LoadStatus::Loaded,
        }
    }

    #[verifier::when_used_as_spec(is_ready)]
    pub fn ready(&self) -> (both: bool)
        ensures
            both == self.is_ready(),
    {
        self.gltfs && self.models
    }

    /// Whether the descriptor folder still has to be polled.
    pub fn polls_models(&self) -> (due: bool)
        ensures
            due == !self.models,
    {
        !self.models
    }

    /// Whether the mesh-bundle folder still has to be polled.
    pub fn polls_gltfs(&self) -> (due: bool)
        ensures
            due == !self.gltfs,
    {
        !self.gltfs
    }
}

impl Default for AssetsCount {
    fn default() -> (counts: Self)
        ensures
            counts == (AssetsCount { models: false, gltfs: false }),
    {
        AssetsCount { gltfs: false, models: false }
    }
}

/// Takes in one round of answers. The answer for a folder whose flag is
/// already set is ignored, so the caller need not have asked. Returns the
/// phase to enter, if any.
pub fn track(counts: &mut AssetsCount, models: LoadStatus, gltfs: LoadStatus) -> (next: Option<
    ModelsState,
>)
    ensures
        *final(counts) == old(counts).observe(models, gltfs),
        next == if final(counts).is_ready() {
            Some(ModelsState::Loaded)
        } else {
            None
        },
{
    if !counts.models {
        if models == LoadStatus::Loaded {
            counts.models = true;
        }
    }
    if !counts.gltfs {
        if gltfs == LoadStatus::Loaded {
            counts.gltfs = true;
        }
    }
    if counts.ready() {
        Some(ModelsState::Loaded)
    } else {
        None
    }
}

} // verus!
