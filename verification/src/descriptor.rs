//! Model descriptors: the parsed records that say which mesh a model uses and
//! which variants it comes in.

use vstd::prelude::*;

verus! {

/// The models that exist. The registry keeps one entry per identity.
#[derive(Debug, Clone, Copy, PartialEq, Eq, Structural, Hash)]
pub enum MLib {
    BlueCar,
    RedHouse,
}

impl MLib {
    /// The number under which the registry stores an identity.
    pub open spec fn code_of(&self) -> u64 {
        match self {
            MLib::BlueCar => 0,
            MLib::RedHouse => 1,
        }
    }

    #[verifier::when_used_as_spec(code_of)]
    pub fn code(&self) -> (code: u64)
        ensures
            code == self.code_of(),
    {
        match self {
            MLib::BlueCar => 0,
            MLib::RedHouse => 1,
        }
    }
}

/// Two identities with the same code are the same identity.
pub proof fn lemma_code_injective(a: MLib, b: MLib)
    ensures
        a.code_of() == b.code_of() <==> a == b,
{
}

/// Description of one model. `height_bits` and `scale_bits` are the IEEE-754
/// bit patterns of the display height and of the three scale factors; the
/// library stores them and never reads them.
#[derive(Debug)]
pub struct ModelData {
    pub mlib: MLib,
    pub model_path: String,
    pub label: Option<String>,
    pub height_bits: Option<u32>,
    pub scale_bits: Option<(u32, u32, u32)>,
    pub options: Option<Vec<String>>,
}

/// A descriptor as a mathematical value.
pub struct ModelDataView {
    pub mlib: MLib,
    pub model_path: Seq<char>,
    pub label: Option<Seq<char>>,
    pub height_bits: Option<u32>,
    pub scale_bits: Option<(u32, u32, u32)>,
    pub options: Option<Seq<Seq<char>>>,
}

/// The texts of a list of strings.
pub open spec fn texts(list: Seq<String>) -> Seq<Seq<char>> {
    Seq::new(list.len(), |i: int| list[i]@)
}

impl View for ModelData {
    type V = ModelDataView;

    open spec fn view(&self) -> ModelDataView {
        ModelDataView {
            mlib: self.mlib,
            model_path: self.model_path@,
            label: match self.label {
                Some(text) => Some(text@),
                None => None,
            },
            height_bits: self.height_bits,
            scale_bits: self.scale_bits,
            options: match self.options {
                Some(tags) => Some(texts(tags@)),
                None => None,
            },
        }
    }
}

/// Copies a list of strings.
pub fn clone_texts(list: &Vec<String>) -> (copy: Vec<String>)
    ensures
        texts(copy@) == texts(list@),
{
    let mut copy: Vec<String> = Vec::new();
    let mut i: usize = 0;
    while i < list.len()
        invariant
            i <= list.len(),
            copy.len() == i,
            forall|j: int| 0 <= j < i ==> copy[j]@ == list[j]@,
        decreases list.len() - i,
    {
        copy.push(list[i].clone());
        i = i + 1;
    }
    proof {
        assert(texts(copy@) =~= texts(list@));
    }
    copy
}

impl Clone for ModelData {
    fn clone(&self) -> (copy: Self)
        ensures
            copy@ == self@,
    {
        ModelData {
            mlib: self.mlib,
            model_path: self.model_path.clone(),
            label: match &self.label {
                Some(text) => Some(text.clone()),
                None => None,
            },
            height_bits: self.height_bits,
            scale_bits: self.scale_bits,
            options: match &self.options {
                Some(tags) => Some(clone_texts(tags)),
                None => None,
            },
        }
    }
}

/// Calls `rand::thread_rng` and `Rng::gen_range` on `0..bound`. `gen_range`
/// panics on an empty range, which `requires` rules out, and otherwise
/// returns a value inside the range. Which one is left open.
#[verifier::external_body]
fn random_below(bound: usize) -> (index: usize)
    requires
        bound > 0,
    ensures
        index < bound,
{
    rand::Rng::gen_range(&mut rand::thread_rng(), 0..bound)
}

impl ModelData {
    /// The variant tag at `index`.
    pub fn option_at(&self, index: usize) -> (tag: &str)
        requires
            self@.options is Some,
            index < self@.options->0.len(),
        ensures
            tag@ == self@.options->0[index as int],
    {
        match &self.options {
            Some(tags) => tags[index].as_str(),
            None => "",
        }
    }

    /// One of the declared variant tags, chosen at random; `None` where the
    /// descriptor declares no variants. A declared list must not be empty.
    pub fn get_random_option(&self) -> (tag: Option<&str>)
        requires
            self@.options is Some ==> self@.options->0.len() > 0,
        ensures
            tag is Some <==> self@.options is Some,
            tag is Some ==> self@.options->0.contains(tag->0@),
    {
        match &self.options {
            Some(tags) => {
                let index: usize = random_below(tags.len());
                let tag = self.option_at(index);
                Some(tag)
            },
            None => None,
        }
    }
}

} // verus!
