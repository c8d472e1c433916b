//! The naming convention that joins descriptors and mesh bundles: a bundle is
//! known by the last segment of its source path without its extension, and a
//! variant of a model by its tag written directly in front of the mesh path.

use vstd::prelude::*;
use vstd::string::*;

verus! {

/// The extension `.gltf`.
pub open spec fn gltf_suffix() -> Seq<char> {
    seq!['.', 'g', 'l', 't', 'f']
}

/// The extension `.glb`.
pub open spec fn glb_suffix() -> Seq<char> {
    seq!['.', 'g', 'l', 'b']
}

/// Position just behind the last `/` of `path`, or 0 where it has none.
pub open spec fn segment_start(path: Seq<char>) -> int
    decreases path.len(),
{
    if path.len() == 0 {
        0
    } else if path.last() == '/' {
        path.len() as int
    } else {
        segment_start(path.drop_last())
    }
}

/// What follows the last `/` of `path`; the whole of it where it has none.
pub open spec fn last_segment(path: Seq<char>) -> Seq<char> {
    path.subrange(segment_start(path), path.len() as int)
}

/// `text` without `suffix` at its end; `text` itself where it does not end so.
pub open spec fn strip_suffix(text: Seq<char>, suffix: Seq<char>) -> Seq<char> {
    if suffix.is_suffix_of(text) {
        text.subrange(0, text.len() - suffix.len())
    } else {
        text
    }
}

/// The name under which the bundle loaded from `path` is indexed.
pub open spec fn derived_name(path: Seq<char>) -> Seq<char> {
    strip_suffix(strip_suffix(last_segment(path), gltf_suffix()), glb_suffix())
}

/// The key of a model's mesh: the tag directly followed by the mesh path, or
/// the bare mesh path where no tag is given.
pub open spec fn variant_key(option: Option<Seq<char>>, model_path: Seq<char>) -> Seq<char> {
    match option {
        Some(tag) => tag + model_path,
        None => model_path,
    }
}

/// The text of an optional tag.
pub open spec fn tag_text(option: Option<&str>) -> Option<Seq<char>> {
    match option {
        Some(tag) => Some(tag@),
        None => None,
    }
}

/// `segment_start` lies inside the path, sits behind a `/` unless it is 0,
/// and no `/` follows it.
pub proof fn lemma_segment_start(path: Seq<char>)
    ensures
        0 <= segment_start(path) <= path.len(),
        segment_start(path) > 0 ==> path[segment_start(path) - 1] == '/',
        forall|i: int| segment_start(path) <= i < path.len() ==> path[i] != '/',
    decreases path.len(),
{
    if path.len() > 0 && path.last() != '/' {
        let front = path.drop_last();
        lemma_segment_start(front);
        assert forall|i: int| segment_start(path) <= i < path.len() implies path[i] != '/' by {
            if i < front.len() {
                assert(front[i] == path[i]);
            }
        }
        if segment_start(path) > 0 {
            assert(front[segment_start(path) - 1] == path[segment_start(path) - 1]);
        }
    }
}

/// The last segment holds no `/`, and the path is some prefix followed by it.
pub proof fn lemma_last_segment(path: Seq<char>)
    ensures
        !last_segment(path).contains('/'),
        path == path.subrange(0, segment_start(path)) + last_segment(path),
        last_segment(path).len() == path.len() - segment_start(path),
{
    lemma_segment_start(path);
    assert(path =~= path.subrange(0, segment_start(path)) + last_segment(path));
}

/// A path without `/` and without either extension at its end is its own name.
pub proof fn lemma_plain_name_kept(path: Seq<char>)
    requires
        !path.contains('/'),
        !gltf_suffix().is_suffix_of(path),
        !glb_suffix().is_suffix_of(path),
    ensures
        derived_name(path) == path,
{
    lemma_no_slash_whole(path);
}

/// A path without `/` is its own last segment.
pub proof fn lemma_no_slash_whole(path: Seq<char>)
    requires
        !path.contains('/'),
    ensures
        segment_start(path) == 0,
        last_segment(path) == path,
    decreases path.len(),
{
    if path.len() > 0 {
        assert(path.last() == path[path.len() - 1]);
        assert(path.contains(path.last()));
        let front = path.drop_last();
        assert forall|i: int| 0 <= i < front.len() implies front[i] != '/' by {
            assert(front[i] == path[i]);
            assert(path.contains(path[i]));
        }
        lemma_no_slash_whole(front);
    }
    assert(path.subrange(0, path.len() as int) =~= path);
}

/// Whether `text` ends with `suffix`.
pub fn ends_with(text: &str, suffix: &str) -> (found: bool)
    ensures
        found == suffix@.is_suffix_of(text@),
{
    let n: usize = text.unicode_len();
    let m: usize = suffix.unicode_len();
    if m > n {
        return false;
    }
    let from: usize = n - m;
    let mut k: usize = 0;
    while k < m
        invariant
            k <= m,
            m <= n,
            from == n - m,
            n == text@.len(),
            m == suffix@.len(),
            forall|j: int| 0 <= j < k ==> text@[from + j] == suffix@[j],
        decreases m - k,
    {
        if text.get_char(from + k) != suffix.get_char(k) {
            proof {
                let tail = text@.subrange(n - m, n as int);
                assert(tail[k as int] == text@[from + k]);
            }
            return false;
        }
        k = k + 1;
    }
    proof {
        assert(suffix@ =~= text@.subrange(n - m, n as int));
    }
    true
}

/// `text` without `suffix` at its end.
pub fn without_suffix<'a>(text: &'a str, suffix: &str) -> (rest: &'a str)
    ensures
        rest@ == strip_suffix(text@, suffix@),
{
    if ends_with(text, suffix) {
        let n: usize = text.unicode_len();
        let m: usize = suffix.unicode_len();
        text.substring_char(0, n - m)
    } else {
        text
    }
}

/// The last segment of `path`.
pub fn path_tail<'a>(path: &'a str) -> (tail: &'a str)
    ensures
        tail@ == last_segment(path@),
{
    let n: usize = path.unicode_len();
    let mut start: usize = 0;
    let mut i: usize = 0;
    while i < n
        invariant
            i <= n,
            n == path@.len(),
            start <= i,
            start == segment_start(path@.subrange(0, i as int)),
        decreases n - i,
    {
        let ghost before = path@.subrange(0, i as int);
        let ghost after = path@.subrange(0, i + 1);
        proof {
            assert(after.drop_last() =~= before);
            assert(after.last() == path@[i as int]);
        }
        if path.get_char(i) == '/' {
            start = i + 1;
        }
        i = i + 1;
    }
    proof {
        assert(path@.subrange(0, n as int) =~= path@);
    }
    path.substring_char(start, n)
}

/// The name under which the bundle loaded from `path` is indexed: the last
/// segment of the path, without `.gltf` and then without `.glb` at its end.
pub fn mesh_name(path: &str) -> (name: String)
    ensures
        name@ == derived_name(path@),
{
    proof {
        reveal_strlit(".gltf");
        reveal_strlit(".glb");
        assert(".gltf"@ =~= gltf_suffix());
        assert(".glb"@ =~= glb_suffix());
    }
    let tail = path_tail(path);
    let stem = without_suffix(tail, ".gltf");
    let name = without_suffix(stem, ".glb");
    name.to_owned()
}

/// The key of a model's mesh for an optional variant tag.
pub fn mesh_key(option: Option<&str>, model_path: &str) -> (key: String)
    ensures
        key@ == variant_key(tag_text(option), model_path@),
{
    match option {
        Some(tag) => tag.to_owned().concat(model_path),
        None => model_path.to_owned(),
    }
}

} // verus!
