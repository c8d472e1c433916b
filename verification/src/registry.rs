//! The registry: every descriptor joined with the mesh bundle of its name,
//! kept under the descriptor's identity.

use crate::descriptor::{MLib, ModelData, ModelDataView};
use crate::handle::clone_handle;
use crate::names::{derived_name, mesh_key, mesh_name, tag_text, variant_key};
use bevy::asset::UntypedHandle;
use std::collections::HashMap;
use vstd::hash_map::StringHashMap;
use vstd::prelude::*;
use vstd::std_specs::hash::*;

verus! {

/// A loaded mesh bundle: where it was loaded from, and its handle.
pub struct MeshBundle {
    pub path: String,
    pub handle: UntypedHandle,
}

/// The bundles by derived name. Of two bundles with one name the later wins.
pub open spec fn bundle_index(bundles: Seq<MeshBundle>) -> Map<Seq<char>, UntypedHandle>
    decreases bundles.len(),
{
    if bundles.len() == 0 {
        Map::empty()
    } else {
        bundle_index(bundles.drop_last()).insert(
            derived_name(bundles.last().path@),
            bundles.last().handle,
        )
    }
}

/// The handle indexed under `name`, if there is one.
pub open spec fn lookup(index: Map<Seq<char>, UntypedHandle>, name: Seq<char>) -> Option<
    UntypedHandle,
> {
    if index.contains_key(name) {
        Some(index[name])
    } else {
        None
    }
}

/// The keys of the first `count` tags of a model.
pub open spec fn tagged_keys(tags: Seq<Seq<char>>, model_path: Seq<char>, count: int) -> Set<
    Seq<char>,
> {
    Set::new(|key: Seq<char>| exists|i: int| 0 <= i < count && key == #[trigger] tags[i] + model_path)
}

/// The meshes of a descriptor. With declared variants there is one key per
/// tag; without, the bare mesh path is the only key. Every key holds what the
/// index has under the bare mesh path, which may be nothing.
pub open spec fn resolved_meshes(md: ModelDataView, index: Map<Seq<char>, UntypedHandle>) -> Map<
    Seq<char>,
    Option<UntypedHandle>,
> {
    match md.options {
        Some(tags) => Map::new(
            |key: Seq<char>| tagged_keys(tags, md.model_path, tags.len() as int).contains(key),
            |key: Seq<char>| lookup(index, md.model_path),
        ),
        None => Map::empty().insert(md.model_path, lookup(index, md.model_path)),
    }
}

/// A descriptor with its resolved meshes.
pub struct Model {
    pub md: ModelData,
    pub meshes: StringHashMap<Option<UntypedHandle>>,
}

/// A resolved model as a mathematical value.
pub struct ModelView {
    pub md: ModelDataView,
    pub meshes: Map<Seq<char>, Option<UntypedHandle>>,
}

impl View for Model {
    type V = ModelView;

    open spec fn view(&self) -> ModelView {
        ModelView { md: self.md@, meshes: self.meshes@ }
    }
}

/// The resolved model of a descriptor.
pub open spec fn resolve(md: ModelDataView, index: Map<Seq<char>, UntypedHandle>) -> ModelView {
    ModelView { md, meshes: resolved_meshes(md, index) }
}

/// The registry after the descriptors have been taken in, one after the
/// other. Of two descriptors with one identity the later wins.
pub open spec fn registry_after(
    start: Map<MLib, ModelView>,
    descriptors: Seq<ModelData>,
    index: Map<Seq<char>, UntypedHandle>,
) -> Map<MLib, ModelView>
    decreases descriptors.len(),
{
    if descriptors.len() == 0 {
        start
    } else {
        registry_after(start, descriptors.drop_last(), index).insert(
            descriptors.last().mlib,
            resolve(descriptors.last()@, index),
        )
    }
}

impl Model {
    /// A model without meshes.
    pub fn new(md: ModelData) -> (model: Self)
        ensures
            model@ == (ModelView { md: md@, meshes: Map::empty() }),
    {
        Model { md, meshes: StringHashMap::new() }
    }
}

/// Indexes the bundles by derived name.
pub fn build_index(bundles: &Vec<MeshBundle>) -> (index: StringHashMap<UntypedHandle>)
    ensures
        index@ == bundle_index(bundles@),
{
    let mut index: StringHashMap<UntypedHandle> = StringHashMap::new();
    let mut i: usize = 0;
    while i < bundles.len()
        invariant
            i <= bundles.len(),
            index@ == bundle_index(bundles@.subrange(0, i as int)),
        decreases bundles.len() - i,
    {
        proof {
            let upto = bundles@.subrange(0, i + 1);
            assert(upto.drop_last() =~= bundles@.subrange(0, i as int));
            assert(upto.last() == bundles@[i as int]);
        }
        let name = mesh_name(bundles[i].path.as_str());
        index.insert(name, clone_handle(&bundles[i].handle));
        i = i + 1;
    }
    proof {
        assert(bundles@.subrange(0, bundles.len() as int) =~= bundles@);
    }
    index
}

/// What the index holds under `name`.
pub fn find_bundle(index: &StringHashMap<UntypedHandle>, name: &str) -> (found: Option<
    UntypedHandle,
>)
    ensures
        found == lookup(index@, name@),
{
    match index.get(name) {
        Some(handle) => Some(clone_handle(handle)),
        None => None,
    }
}

/// Joins one descriptor with the index.
pub fn resolve_model(md: &ModelData, index: &StringHashMap<UntypedHandle>) -> (model: Model)
    ensures
        model@ == resolve(md@, index@),
{
    let mut model = Model::new(md.clone());
    match &md.options {
        Some(tags) => {
            let ghost names = md@.options->0;
            let ghost path = md@.model_path;
            let ghost hit = lookup(index@, path);
            let mut i: usize = 0;
            while i < tags.len()
                invariant
                    i <= tags.len(),
                    names == crate::descriptor::texts(tags@),
                    path == md.model_path@,
                    hit == lookup(index@, path),
                    model.md@ == md@,
                    model.meshes@ == Map::new(
                        |key: Seq<char>| tagged_keys(names, path, i as int).contains(key),
                        |key: Seq<char>| hit,
                    ),
                decreases tags.len() - i,
            {
                let key = mesh_key(Some(tags[i].as_str()), md.model_path.as_str());
                let mesh = find_bundle(index, md.model_path.as_str());
                let ghost before = model.meshes@;
                model.meshes.insert(key, mesh);
                proof {
                    assert(key@ == names[i as int] + path);
                    let after = Map::new(
                        |key: Seq<char>| tagged_keys(names, path, i + 1).contains(key),
                        |key: Seq<char>| hit,
                    );
                    assert forall|k: Seq<char>| after.contains_key(k) implies before.insert(
                        key@,
                        hit,
                    ).contains_key(k) by {
                        let j = choose|j: int| 0 <= j < i + 1 && k == #[trigger] names[j] + path;
                        if j < i {
                            assert(tagged_keys(names, path, i as int).contains(k));
                        }
                    }
                    assert forall|k: Seq<char>| before.insert(key@, hit).contains_key(
                        k,
                    ) implies after.contains_key(k) by {
                        if k == key@ {
                            assert(k == names[i as int] + path);
                        } else {
                            let j = choose|j: int| 0 <= j < i && k == #[trigger] names[j] + path;
                            assert(0 <= j < i + 1 && k == names[j] + path);
                        }
                    }
                    assert(before.insert(key@, hit) =~= after);
                }
                i = i + 1;
            }
            proof {
                assert(model.meshes@ =~= resolved_meshes(md@, index@));
            }
        },
        None => {
            let mesh = find_bundle(index, md.model_path.as_str());
            model.meshes.insert(md.model_path.clone(), mesh);
        },
    }
    model
}

/// The registry of resolved models, by identity.
pub struct Models {
    data: HashMap<u64, Model>,
}

impl View for Models {
    type V = Map<MLib, ModelView>;

    closed spec fn view(&self) -> Map<MLib, ModelView> {
        Map::new(
            |id: MLib| self.data@.contains_key(id.code_of()),
            |id: MLib| self.data@[id.code_of()]@,
        )
    }
}

impl Default for Models {
    fn default() -> (models: Self)
        ensures
            models@ == Map::<MLib, ModelView>::empty(),
    {
        Models::new()
    }
}

impl Models {
    /// The key under which a model's mesh is stored is in the registry.
    pub open spec fn holds_key(
        &self,
        mlib: MLib,
        model_path: Seq<char>,
        option: Option<Seq<char>>,
    ) -> bool {
        self@.contains_key(mlib) && self@[mlib].meshes.contains_key(variant_key(option, model_path))
    }

    /// An empty registry.
    pub fn new() -> (models: Self)
        ensures
            models@ == Map::<MLib, ModelView>::empty(),
    {
        broadcast use group_hash_axioms;

        let models = Models { data: HashMap::new() };
        proof {
            assert(models@ =~= Map::<MLib, ModelView>::empty());
        }
        models
    }

    /// Puts a model under its descriptor's identity, in place of what was there.
    pub fn insert(&mut self, model: Model)
        ensures
            final(self)@ == old(self)@.insert(model.md.mlib, model@),
    {
        broadcast use group_hash_axioms;

        let ghost id = model.md.mlib;
        let ghost view = model@;
        let code: u64 = model.md.mlib.code();
        self.data.insert(code, model);
        proof {
            assert forall|other: MLib| other != id implies other.code_of() != id.code_of() by {
                crate::descriptor::lemma_code_injective(other, id);
            }
            assert(self@ =~= old(self)@.insert(id, view));
        }
    }

    /// Whether the registry has an entry for `mlib`.
    pub fn is_valid(&self, mlib: &MLib) -> (known: bool)
        ensures
            known == self@.contains_key(*mlib),
    {
        broadcast use group_hash_axioms;

        let code: u64 = mlib.code();
        self.data.get(&code).is_some()
    }

    /// The resolved model of `mlib`.
    pub fn get_model(&self, mlib: &MLib) -> (found: Option<&Model>)
        ensures
            match found {
                Some(model) => self@.contains_key(*mlib) && model@ == self@[*mlib],
                None => !self@.contains_key(*mlib),
            },
    {
        broadcast use group_hash_axioms;

        let code: u64 = mlib.code();
        self.data.get(&code)
    }

    /// The descriptor of `mlib`.
    pub fn get_data(&self, mlib: &MLib) -> (found: Option<&ModelData>)
        ensures
            match found {
                Some(md) => self@.contains_key(*mlib) && md@ == self@[*mlib].md,
                None => !self@.contains_key(*mlib),
            },
    {
        if let Some(model) = self.get_model(mlib) {
            return Some(&model.md);
        } else {
            return None;
        }
    }

    /// Whether the key that `get_mesh` would read exists.
    pub fn has_mesh(&self, mlib: &MLib, model_path: &str, option: Option<&str>) -> (held: bool)
        ensures
            held == self.holds_key(*mlib, model_path@, tag_text(option)),
    {
        match self.get_model(mlib) {
            Some(model) => {
                let key = mesh_key(option, model_path);
                model.meshes.contains_key(key.as_str())
            },
            None => false,
        }
    }

    /// The mesh bundle of a model, or of one of its variants. `None` for an
    /// identity without entry, and for a key whose bundle was not found when
    /// the registry was built. For an identity with an entry the key must be
    /// one that the build stored.
    pub fn get_mesh(&self, mlib: &MLib, model_path: &str, option: Option<&str>) -> (handle: Option<
        UntypedHandle,
    >)
        requires
            self@.contains_key(*mlib) ==> self.holds_key(*mlib, model_path@, tag_text(option)),
        ensures
            handle == if self@.contains_key(*mlib) {
                self@[*mlib].meshes[variant_key(tag_text(option), model_path@)]
            } else {
                None
            },
    {
        if let Some(model) = self.get_model(mlib) {
            let key = mesh_key(option, model_path);
            match model.meshes.get(key.as_str()) {
                Some(slot) => crate::handle::clone_slot(slot),
                None => None,
            }
        } else {
            None
        }
    }
}

/// Builds the registry: indexes the bundles by derived name, joins every
/// descriptor with the index, and stores each model under its identity.
pub fn process_models(models: &mut Models, bundles: &Vec<MeshBundle>, descriptors: &Vec<ModelData>)
    ensures
        final(models)@ == registry_after(old(models)@, descriptors@, bundle_index(bundles@)),
{
    let index = build_index(bundles);
    let mut i: usize = 0;
    while i < descriptors.len()
        invariant
            i <= descriptors.len(),
            index@ == bundle_index(bundles@),
            models@ == registry_after(
                old(models)@,
                descriptors@.subrange(0, i as int),
                bundle_index(bundles@),
            ),
        decreases descriptors.len() - i,
    {
        proof {
            let upto = descriptors@.subrange(0, i + 1);
            assert(upto.drop_last() =~= descriptors@.subrange(0, i as int));
            assert(upto.last() == descriptors@[i as int]);
        }
        let model = resolve_model(&descriptors[i], &index);
        models.insert(model);
        i = i + 1;
    }
    proof {
        assert(descriptors@.subrange(0, descriptors.len() as int) =~= descriptors@);
    }
}

} // verus!
