//! The loader: owner of the phase, of the completion flags and of the
//! registry. It is driven from outside by two kinds of events, a round of
//! load-status answers and the hand-over of the loaded assets.

use crate::descriptor::{MLib, ModelData};
use crate::loading::{track, AssetsCount, LoadStatus, ModelsState};
use crate::registry::{bundle_index, process_models, registry_after, MeshBundle, ModelView, Models};
use vstd::prelude::*;

verus! {

/// A loader as a mathematical value.
pub struct LoaderView {
    pub state: ModelsState,
    pub counts: AssetsCount,
    pub models: Map<MLib, ModelView>,
}

/// What can happen to a loader.
pub enum LoaderEvent {
    /// The asset server answered about the two folder loads.
    Poll { models: LoadStatus, gltfs: LoadStatus },
    /// The loaded bundles and descriptors were handed over.
    Build { bundles: Seq<MeshBundle>, descriptors: Seq<ModelData> },
}

impl LoaderEvent {
    /// The event is a round that answers "loaded" for the descriptor folder.
    pub open spec fn reports_models(self) -> bool {
        match self {
            LoaderEvent::Poll { models, gltfs } => models == LoadStatus::Loaded,
            LoaderEvent::Build { bundles, descriptors } => false,
        }
    }

    /// The event is a round that answers "loaded" for the mesh-bundle folder.
    pub open spec fn reports_gltfs(self) -> bool {
        match self {
            LoaderEvent::Poll { models, gltfs } => gltfs == LoadStatus::Loaded,
            LoaderEvent::Build { bundles, descriptors } => false,
        }
    }
}

/// A fresh loader: nothing loaded, nothing registered.
pub open spec fn initial() -> LoaderView {
    LoaderView {
        state: ModelsState::Init,
        counts: AssetsCount { models: false, gltfs: false },
        models: Map::empty(),
    }
}

/// A round of answers. It counts only in `Init`, where it raises the flags
/// and, once both are up, moves on to `Loaded`.
pub open spec fn after_poll(s: LoaderView, models: LoadStatus, gltfs: LoadStatus) -> LoaderView {
    if s.state == ModelsState::Init {
        let counts = s.counts.observe(models, gltfs);
        LoaderView {
            state: if counts.is_ready() {
                ModelsState::Loaded
            } else {
                ModelsState::Init
            },
            counts,
            models: s.models,
        }
    } else {
        s
    }
}

/// The hand-over of the assets. It counts only in `Loaded`, where it builds
/// the registry and moves on to `Ready`.
pub open spec fn after_build(
    s: LoaderView,
    bundles: Seq<MeshBundle>,
    descriptors: Seq<ModelData>,
) -> LoaderView {
    if s.state == ModelsState::Loaded {
        LoaderView {
            state: ModelsState::Ready,
            counts: s.counts,
            models: registry_after(s.models, descriptors, bundle_index(bundles)),
        }
    } else {
        s
    }
}

/// The loader after one event.
pub open spec fn step(s: LoaderView, event: LoaderEvent) -> LoaderView {
    match event {
        LoaderEvent::Poll { models, gltfs } => after_poll(s, models, gltfs),
        LoaderEvent::Build { bundles, descriptors } => after_build(s, bundles, descriptors),
    }
}

/// The loader after a history of events, starting fresh.
pub open spec fn run(events: Seq<LoaderEvent>) -> LoaderView
    decreases events.len(),
{
    if events.len() == 0 {
        initial()
    } else {
        step(run(events.drop_last()), events.last())
    }
}

/// Rank of a phase in the order in which phases are passed through.
pub open spec fn rank(state: ModelsState) -> int {
    match state {
        ModelsState::Init => 0,
        ModelsState::Loaded => 1,
        ModelsState::Ready => 2,
    }
}

/// The loading sequence with the registry it fills.
pub struct Loader {
    state: ModelsState,
    counts: AssetsCount,
    models: Models,
}

impl View for Loader {
    type V = LoaderView;

    closed spec fn view(&self) -> LoaderView {
        LoaderView { state: self.state, counts: self.counts, models: self.models@ }
    }
}

impl Loader {
    /// A fresh loader.
    pub fn new() -> (loader: Self)
        ensures
            loader@ == initial(),
    {
        Loader { state: ModelsState::Init, counts: AssetsCount::default(), models: Models::new() }
    }

    /// The current phase.
    pub fn state(&self) -> (state: ModelsState)
        ensures
            state == self@.state,
    {
        self.state
    }

    /// Whether the descriptor folder is to be polled in the next round: only
    /// in `Init`, and only until it has been seen complete.
    pub fn polls_models(&self) -> (due: bool)
        ensures
            due == (self@.state == ModelsState::Init && !self@.counts.models),
    {
        self.state == ModelsState::Init && self.counts.polls_models()
    }

    /// Whether the mesh-bundle folder is to be polled in the next round.
    pub fn polls_gltfs(&self) -> (due: bool)
        ensures
            due == (self@.state == ModelsState::Init && !self@.counts.gltfs),
    {
        self.state == ModelsState::Init && self.counts.polls_gltfs()
    }

    /// Takes in one round of answers. Returns whether this round completed
    /// the loads, so that the registry is now to be built.
    pub fn tick(&mut self, models: LoadStatus, gltfs: LoadStatus) -> (entered: bool)
        ensures
            final(self)@ == after_poll(old(self)@, models, gltfs),
            entered == (old(self)@.state == ModelsState::Init && final(self)@.state
                == ModelsState::Loaded),
    {
        if self.state == ModelsState::Init {
            match track(&mut self.counts, models, gltfs) {
                Some(next) => {
                    self.state = next;
                    true
                },
                None => false,
            }
        } else {
            false
        }
    }

    /// Builds the registry from the loaded assets and enters `Ready`. Outside
    /// `Loaded` nothing happens. Returns whether the registry was built.
    pub fn build(&mut self, bundles: &Vec<MeshBundle>, descriptors: &Vec<ModelData>) -> (built:
        bool)
        ensures
            final(self)@ == after_build(old(self)@, bundles@, descriptors@),
            built == (old(self)@.state == ModelsState::Loaded),
    {
        if self.state == ModelsState::Loaded {
            process_models(&mut self.models, bundles, descriptors);
            self.state = ModelsState::Ready;
            true
        } else {
            false
        }
    }

    /// The registry, once it is built.
    pub fn models(&self) -> (registry: Option<&Models>)
        ensures
            registry is Some <==> self@.state == ModelsState::Ready,
            registry is Some ==> registry->0@ == self@.models,
    {
        if self.state == ModelsState::Ready {
            Some(&self.models)
        } else {
            None
        }
    }
}

} // verus!
