//! What holds of the library as a whole, proved from the definitions that the
//! contracts are written in.

use crate::descriptor::{MLib, ModelData};
use crate::extract::{parts_of, SubMeshFound};
use crate::loader::{initial, rank, run, step, LoaderEvent, LoaderView};
use crate::loading::ModelsState;
use crate::names::{derived_name, variant_key};
use crate::registry::{
    bundle_index, lookup, registry_after, resolve, resolved_meshes, tagged_keys, MeshBundle,
    ModelView,
};
use bevy::asset::UntypedHandle;
use vstd::prelude::*;

verus! {

/// The index holds a name exactly if some bundle derives it, and then holds
/// the handle of the last bundle that does.
pub proof fn lemma_index_contents(bundles: Seq<MeshBundle>, name: Seq<char>)
    ensures
        bundle_index(bundles).contains_key(name) <==> exists|k: int|
            0 <= k < bundles.len() && derived_name(#[trigger] bundles[k].path@) == name,
        forall|k: int|
            0 <= k < bundles.len() && derived_name(#[trigger] bundles[k].path@) == name && (forall|
                j: int,
            |
                k < j < bundles.len() ==> derived_name(#[trigger] bundles[j].path@) != name)
                ==> lookup(bundle_index(bundles), name) == Some(bundles[k].handle),
    decreases bundles.len(),
{
    if bundles.len() > 0 {
        let front = bundles.drop_last();
        let n = front.len() as int;
        lemma_index_contents(front, name);
        assert forall|k: int| 0 <= k < n implies front[k] == bundles[k] by {}
        if bundle_index(bundles).contains_key(name) {
            if derived_name(bundles.last().path@) == name {
                assert(derived_name(bundles[n].path@) == name);
            } else {
                let k = choose|k: int|
                    0 <= k < front.len() && derived_name(#[trigger] front[k].path@) == name;
                assert(derived_name(bundles[k].path@) == name);
            }
        }
        if exists|k: int|
            0 <= k < bundles.len() && derived_name(#[trigger] bundles[k].path@) == name {
            let k = choose|k: int|
                0 <= k < bundles.len() && derived_name(#[trigger] bundles[k].path@) == name;
            if k < n {
                assert(derived_name(front[k].path@) == name);
            }
        }
        assert forall|k: int|
            0 <= k < bundles.len() && derived_name(#[trigger] bundles[k].path@) == name && (forall|
                j: int,
            |
                k < j < bundles.len() ==> derived_name(
                    #[trigger] bundles[j].path@,
                ) != name) implies lookup(bundle_index(bundles), name) == Some(
            bundles[k].handle,
        ) by {
            if k < n {
                assert(derived_name(bundles[n].path@) != name);
                assert(derived_name(front[k].path@) == name);
                assert forall|j: int| k < j < front.len() implies derived_name(
                    #[trigger] front[j].path@,
                ) != name by {
                    assert(front[j] == bundles[j]);
                }
            }
        }
    }
}

/// After a build, the entry of an identity is the resolved model of the last
/// descriptor that has this identity.
pub proof fn lemma_last_descriptor_wins(
    start: Map<MLib, ModelView>,
    descriptors: Seq<ModelData>,
    index: Map<Seq<char>, UntypedHandle>,
    i: int,
)
    requires
        0 <= i < descriptors.len(),
        forall|j: int| i < j < descriptors.len() ==> descriptors[j].mlib != descriptors[i].mlib,
    ensures
        registry_after(start, descriptors, index).contains_key(descriptors[i].mlib),
        registry_after(start, descriptors, index)[descriptors[i].mlib] == resolve(
            descriptors[i]@,
            index,
        ),
    decreases descriptors.len(),
{
    let front = descriptors.drop_last();
    if i < front.len() {
        assert(front[i] == descriptors[i]);
        assert forall|j: int| i < j < front.len() implies front[j].mlib != front[i].mlib by {
            assert(front[j] == descriptors[j]);
        }
        lemma_last_descriptor_wins(start, front, index, i);
        assert(descriptors.last() == descriptors[descriptors.len() - 1]);
    }
}

/// An identity that no descriptor has keeps the entry it had before a build,
/// or stays without one.
pub proof fn lemma_untouched_identity(
    start: Map<MLib, ModelView>,
    descriptors: Seq<ModelData>,
    index: Map<Seq<char>, UntypedHandle>,
    id: MLib,
)
    requires
        forall|j: int| 0 <= j < descriptors.len() ==> descriptors[j].mlib != id,
    ensures
        registry_after(start, descriptors, index).contains_key(id) == start.contains_key(id),
        start.contains_key(id) ==> registry_after(start, descriptors, index)[id] == start[id],
    decreases descriptors.len(),
{
    if descriptors.len() > 0 {
        let front = descriptors.drop_last();
        assert forall|j: int| 0 <= j < front.len() implies front[j].mlib != id by {
            assert(front[j] == descriptors[j]);
        }
        lemma_untouched_identity(start, front, index, id);
        assert(descriptors.last() == descriptors[descriptors.len() - 1]);
    }
}

/// Every entry of a registry holds the descriptor of its own identity.
pub open spec fn keyed_by_identity(registry: Map<MLib, ModelView>) -> bool {
    forall|id: MLib| registry.contains_key(id) ==> (#[trigger] registry[id]).md.mlib == id
}

/// A build keeps every entry under the identity of its descriptor.
pub proof fn lemma_build_keeps_identities(
    start: Map<MLib, ModelView>,
    descriptors: Seq<ModelData>,
    index: Map<Seq<char>, UntypedHandle>,
)
    requires
        keyed_by_identity(start),
    ensures
        keyed_by_identity(registry_after(start, descriptors, index)),
    decreases descriptors.len(),
{
    if descriptors.len() > 0 {
        lemma_build_keeps_identities(start, descriptors.drop_last(), index);
    }
}

/// A descriptor without variants, not overridden by a later one of the same
/// identity, has after the build exactly one mesh key, its bare mesh path.
/// The key holds the handle of the bundle of that name where the index has
/// one, and nothing where it has none; the key itself is never missing.
pub proof fn lemma_plain_model_resolved(
    start: Map<MLib, ModelView>,
    descriptors: Seq<ModelData>,
    index: Map<Seq<char>, UntypedHandle>,
    i: int,
)
    requires
        0 <= i < descriptors.len(),
        descriptors[i]@.options is None,
        forall|j: int| i < j < descriptors.len() ==> descriptors[j].mlib != descriptors[i].mlib,
    ensures
        ({
            let registry = registry_after(start, descriptors, index);
            let md = descriptors[i]@;
            let key = variant_key(None, md.model_path);
            &&& registry.contains_key(md.mlib)
            &&& registry[md.mlib].md == md
            &&& registry[md.mlib].meshes.dom() == set![md.model_path]
            &&& registry[md.mlib].meshes.contains_key(key)
            &&& registry[md.mlib].meshes[key] == lookup(index, md.model_path)
            &&& registry[md.mlib].meshes[key] is Some <==> index.contains_key(md.model_path)
        }),
{
    lemma_last_descriptor_wins(start, descriptors, index, i);
    let md = descriptors[i]@;
    assert(resolved_meshes(md, index).dom() =~= set![md.model_path]);
}

/// Two tags in front of one mesh path give one key only if they are one tag.
pub proof fn lemma_key_tells_tag(a: Seq<char>, b: Seq<char>, model_path: Seq<char>)
    requires
        a + model_path == b + model_path,
    ensures
        a == b,
{
    let joined = a + model_path;
    assert(joined.len() == a.len() + model_path.len());
    assert((b + model_path).len() == b.len() + model_path.len());
    assert(a =~= joined.subrange(0, a.len() as int));
    assert(b =~= (b + model_path).subrange(0, b.len() as int));
}

/// The keys of pairwise different tags are as many as the tags.
pub proof fn lemma_tagged_keys_count(tags: Seq<Seq<char>>, model_path: Seq<char>, count: int)
    requires
        0 <= count <= tags.len(),
        forall|i: int, j: int| 0 <= i < j < tags.len() ==> tags[i] != tags[j],
    ensures
        tagged_keys(tags, model_path, count).finite(),
        tagged_keys(tags, model_path, count).len() == count,
    decreases count,
{
    if count == 0 {
        assert(tagged_keys(tags, model_path, 0) =~= Set::<Seq<char>>::empty());
    } else {
        lemma_tagged_keys_count(tags, model_path, count - 1);
        let fewer = tagged_keys(tags, model_path, count - 1);
        let key = tags[count - 1] + model_path;
        if fewer.contains(key) {
            let i = choose|i: int| 0 <= i < count - 1 && key == #[trigger] tags[i] + model_path;
            lemma_key_tells_tag(tags[i], tags[count - 1], model_path);
        }
        assert forall|k: Seq<char>| tagged_keys(tags, model_path, count).contains(
            k,
        ) implies fewer.insert(key).contains(k) by {
            let i = choose|i: int| 0 <= i < count && k == #[trigger] tags[i] + model_path;
            if i < count - 1 {
                assert(fewer.contains(k));
            }
        }
        assert forall|k: Seq<char>| fewer.insert(key).contains(k) implies tagged_keys(
            tags,
            model_path,
            count,
        ).contains(k) by {
            if k == key {
                assert(k == tags[count - 1] + model_path);
            } else {
                let i = choose|i: int| 0 <= i < count - 1 && k == #[trigger] tags[i] + model_path;
                assert(0 <= i < count && k == tags[i] + model_path);
            }
        }
        assert(tagged_keys(tags, model_path, count) =~= fewer.insert(key));
    }
}

/// A descriptor with variant tags, not overridden by a later one of the same
/// identity, has after the build one mesh key per tag, the tag directly
/// followed by the mesh path, and no other key. Every key holds what the
/// index has under the bare mesh path. Where the tags are pairwise
/// different, the keys are as many as the tags.
pub proof fn lemma_variant_model_resolved(
    start: Map<MLib, ModelView>,
    descriptors: Seq<ModelData>,
    index: Map<Seq<char>, UntypedHandle>,
    i: int,
)
    requires
        0 <= i < descriptors.len(),
        descriptors[i]@.options is Some,
        forall|j: int| i < j < descriptors.len() ==> descriptors[j].mlib != descriptors[i].mlib,
    ensures
        ({
            let registry = registry_after(start, descriptors, index);
            let md = descriptors[i]@;
            let tags = md.options->0;
            let meshes = registry[md.mlib].meshes;
            &&& registry.contains_key(md.mlib)
            &&& registry[md.mlib].md == md
            &&& forall|t: int|
                0 <= t < tags.len() ==> meshes.contains_key(
                    variant_key(Some(#[trigger] tags[t]), md.model_path),
                )
            &&& forall|key: Seq<char>|
                meshes.contains_key(key) ==> meshes[key] == lookup(index, md.model_path) && exists|
                    t: int,
                |
                    0 <= t < tags.len() && key == variant_key(
                        Some(#[trigger] tags[t]),
                        md.model_path,
                    )
            &&& (forall|a: int, b: int| 0 <= a < b < tags.len() ==> tags[a] != tags[b])
                ==> meshes.dom().finite() && meshes.dom().len() == tags.len()
        }),
{
    lemma_last_descriptor_wins(start, descriptors, index, i);
    let md = descriptors[i]@;
    let tags = md.options->0;
    let meshes = resolved_meshes(md, index);
    let keys = tagged_keys(tags, md.model_path, tags.len() as int);
    assert(meshes.dom() =~= keys);
    assert forall|t: int| 0 <= t < tags.len() implies meshes.contains_key(
        variant_key(Some(#[trigger] tags[t]), md.model_path),
    ) by {
        assert(keys.contains(tags[t] + md.model_path));
    }
    assert forall|key: Seq<char>| meshes.contains_key(key) implies meshes[key] == lookup(
        index,
        md.model_path,
    ) && exists|t: int|
        0 <= t < tags.len() && key == variant_key(Some(#[trigger] tags[t]), md.model_path) by {
        assert(keys.contains(key));
        let t = choose|t: int| 0 <= t < tags.len() && key == #[trigger] tags[t] + md.model_path;
        assert(key == variant_key(Some(tags[t]), md.model_path));
    }
    if forall|a: int, b: int| 0 <= a < b < tags.len() ==> tags[a] != tags[b] {
        lemma_tagged_keys_count(tags, md.model_path, tags.len() as int);
    }
}

/// An event moves the phase on by at most one rank and never back, and never
/// lowers a completion flag.
pub proof fn lemma_step_forward(s: LoaderView, event: LoaderEvent)
    ensures
        rank(s.state) <= rank(step(s, event).state) <= rank(s.state) + 1,
        s.counts.models ==> step(s, event).counts.models,
        s.counts.gltfs ==> step(s, event).counts.gltfs,
{
}

/// `Ready` is final: no event changes a loader that is ready, neither its
/// phase nor its flags nor its registry.
pub proof fn lemma_ready_is_final(s: LoaderView, event: LoaderEvent)
    requires
        s.state == ModelsState::Ready,
    ensures
        step(s, event) == s,
{
}

/// The first `count` events of a history.
pub open spec fn prefix(events: Seq<LoaderEvent>, count: int) -> Seq<LoaderEvent> {
    events.subrange(0, count)
}

/// Over a history the phase only moves forward, so each of the two
/// transitions happens at most once.
pub proof fn lemma_phase_monotone(events: Seq<LoaderEvent>, early: int, late: int)
    requires
        0 <= early <= late <= events.len(),
    ensures
        rank(run(prefix(events, early)).state) <= rank(run(prefix(events, late)).state),
    decreases late - early,
{
    if early < late {
        lemma_phase_monotone(events, early, late - 1);
        assert(prefix(events, late).drop_last() =~= prefix(events, late - 1));
        lemma_step_forward(run(prefix(events, late - 1)), prefix(events, late).last());
    }
}

/// Once a history has reached `Ready`, whatever follows leaves the loader as
/// it is: later rounds and hand-overs change nothing.
pub proof fn lemma_ready_stays(events: Seq<LoaderEvent>, early: int, late: int)
    requires
        0 <= early <= late <= events.len(),
        run(prefix(events, early)).state == ModelsState::Ready,
    ensures
        run(prefix(events, late)) == run(prefix(events, early)),
    decreases late - early,
{
    if early < late {
        lemma_ready_stays(events, early, late - 1);
        assert(prefix(events, late).drop_last() =~= prefix(events, late - 1));
        lemma_ready_is_final(run(prefix(events, late - 1)), prefix(events, late).last());
    }
}

/// A flag is up only if some round of the history answered "loaded" for its
/// folder; the phase is past `Init` only if both flags are up; and the phase
/// is `Ready` only if the assets were handed over. Until then the registry
/// is empty.
pub proof fn lemma_ready_needs_loads(events: Seq<LoaderEvent>)
    ensures
        run(events).counts.models ==> exists|i: int|
            0 <= i < events.len() && (#[trigger] events[i]).reports_models(),
        run(events).counts.gltfs ==> exists|i: int|
            0 <= i < events.len() && (#[trigger] events[i]).reports_gltfs(),
        run(events).state != ModelsState::Init ==> run(events).counts.is_ready(),
        run(events).state == ModelsState::Ready ==> exists|i: int|
            0 <= i < events.len() && (#[trigger] events[i]) is Build,
        run(events).state != ModelsState::Ready ==> run(events).models == initial().models,
    decreases events.len(),
{
    if events.len() > 0 {
        let front = events.drop_last();
        let last = events.len() - 1;
        lemma_ready_needs_loads(front);
        assert(events.last() == events[last]);
        assert forall|i: int| 0 <= i < front.len() implies front[i] == events[i] by {}
        if run(events).counts.models {
            if run(front).counts.models {
                let i = choose|i: int|
                    0 <= i < front.len() && (#[trigger] front[i]).reports_models();
                assert(events[i] == front[i]);
            } else {
                assert(events[last].reports_models());
            }
        }
        if run(events).counts.gltfs {
            if run(front).counts.gltfs {
                let i = choose|i: int|
                    0 <= i < front.len() && (#[trigger] front[i]).reports_gltfs();
                assert(events[i] == front[i]);
            } else {
                assert(events[last].reports_gltfs());
            }
        }
        if run(events).state == ModelsState::Ready {
            if run(front).state == ModelsState::Ready {
                let i = choose|i: int| 0 <= i < front.len() && (#[trigger] front[i]) is Build;
                assert(events[i] == front[i]);
            } else {
                assert(events[last] is Build);
            }
        }
    }
}

/// A bundle that never loaded gives nothing to render, and no error.
pub proof fn lemma_absent_bundle_is_soft()
    ensures
        parts_of(SubMeshFound::BundleAbsent) == Ok::<
            Option<crate::extract::MeshParts>,
            crate::extract::IntegrityError,
        >(None),
{
}

} // verus!
