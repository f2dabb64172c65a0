//! Prompt libraries and the lookup of partial templates in them.

use vstd::prelude::*;
use std::sync::Arc;
use crate::text::{concat2, has_suffix, strip_suffix_text};

verus! {

/// A named prompt template.
#[derive(Clone, Debug)]
pub struct Prompt {
    pub name: String,
    pub template: String,
}

impl Prompt {
    /// A prompt with the given name and template text.
    pub fn new(name: &str, template: &str) -> (r: Self)
        ensures
            r.name@ == name@,
            r.template@ == template@,
    {
        Prompt { name: String::from_str(name), template: String::from_str(template) }
    }
}

/// A collection of prompts with distinct names.
#[derive(Clone, Debug)]
pub struct PromptLibrary {
    pub prompts: Vec<Prompt>,
}

/// Index of the first prompt named `name`, if any.
#[verifier::opaque]
pub open spec fn prompt_index(ps: Seq<Prompt>, name: Seq<char>) -> Option<int> {
    if exists|i: int| 0 <= i < ps.len() && ps[i].name@ == name {
        Some(choose|i: int| 0 <= i < ps.len() && ps[i].name@ == name && forall|j: int|
            0 <= j < i ==> ps[j].name@ != name)
    } else {
        None
    }
}

proof fn lemma_first_index(ps: Seq<Prompt>, name: Seq<char>, i: int)
    requires
        0 <= i < ps.len(),
        ps[i].name@ == name,
        forall|j: int| 0 <= j < i ==> ps[j].name@ != name,
    ensures
        prompt_index(ps, name) == Some(i),
{
    reveal(prompt_index);
    let k = choose|k: int| 0 <= k < ps.len() && ps[k].name@ == name && forall|j: int|
        0 <= j < k ==> ps[j].name@ != name;
    if k < i {
        assert(ps[k].name@ != name);
    }
    if i < k {
        assert(ps[i].name@ != name);
    }
}

impl PromptLibrary {
    /// An empty library.
    pub fn new() -> (r: Self)
        ensures
            r.prompts@.len() == 0,
    {
        PromptLibrary { prompts: Vec::new() }
    }

    /// Adds a prompt, replacing a prompt of the same name.
    pub fn add(&mut self, prompt: Prompt)
        ensures
            prompt_index(old(self).prompts@, prompt.name@) is None ==> final(self).prompts@ == old(
                self,
            ).prompts@.push(prompt),
            prompt_index(old(self).prompts@, prompt.name@) matches Some(i) ==> final(self).prompts@
                == old(self).prompts@.update(i, prompt),
    {
        match self.find(prompt.name.as_str()) {
            Some(i) => {
                self.prompts.set(i, prompt);
            },
            None => {
                self.prompts.push(prompt);
            },
        }
    }

    /// Index of the first prompt named `name`.
    fn find(&self, name: &str) -> (r: Option<usize>)
        ensures
            r is None <==> prompt_index(self.prompts@, name@) is None,
            r matches Some(i) ==> prompt_index(self.prompts@, name@) == Some(i as int) && i
                < self.prompts@.len(),
    {
        reveal(prompt_index);
        let wanted = String::from_str(name);
        let mut i: usize = 0;
        while i < self.prompts.len()
            invariant
                i <= self.prompts@.len(),
                wanted@ == name@,
                forall|j: int| 0 <= j < i ==> self.prompts@[j].name@ != name@,
            decreases self.prompts@.len() - i,
        {
            if self.prompts[i].name == wanted {
                proof {
                    lemma_first_index(self.prompts@, name@, i as int);
                }
                return Some(i);
            }
            i += 1;
        }
        None
    }

    /// The prompt named `name`.
    pub fn get(&self, name: &str) -> (r: Option<&Prompt>)
        ensures
            r is None <==> prompt_index(self.prompts@, name@) is None,
            r is Some ==> *r->Some_0 == self.prompts@[prompt_index(self.prompts@, name@)->Some_0],
    {
        match self.find(name) {
            Some(i) => Some(&self.prompts[i]),
            None => None,
        }
    }

    /// All prompts, in the order they were added.
    pub fn list(&self) -> (r: &Vec<Prompt>)
        ensures
            r == &self.prompts,
    {
        &self.prompts
    }
}

/// File extensions under which a prompt may be stored, in the order tried.
pub open spec fn prompt_extensions() -> Seq<Seq<char>> {
    seq![".md"@, ".markdown"@, ".liquid"@, ".md.liquid"@]
}

/// The extension at position `k`.
fn extension(k: usize) -> (r: &'static str)
    requires
        k < 4,
    ensures
        r@ == prompt_extensions()[k as int],
{
    if k == 0 {
        ".md"
    } else if k == 1 {
        ".markdown"
    } else if k == 2 {
        ".liquid"
    } else {
        ".md.liquid"
    }
}

/// `stem` followed by each of the first `k` extensions whose position is not
/// `skip`, in order.
pub open spec fn variants_upto(stem: Seq<char>, skip: int, k: int) -> Seq<Seq<char>>
    decreases k,
{
    if k <= 0 {
        Seq::empty()
    } else if k - 1 == skip {
        variants_upto(stem, skip, k - 1)
    } else {
        variants_upto(stem, skip, k - 1).push(stem + prompt_extensions()[k - 1])
    }
}

/// `name` with its extension at position `k` removed, when it ends with it.
pub open spec fn stem_for(name: Seq<char>, k: int) -> Option<Seq<char>> {
    let ext = prompt_extensions()[k];
    if has_suffix(name, ext) {
        Some(name.subrange(0, name.len() - ext.len()))
    } else {
        None
    }
}

/// The names tried for the extension at position `k`: when `name` ends with
/// it, the stem alone and then the stem with each other extension.
pub open spec fn stripped_candidates(name: Seq<char>, k: int) -> Seq<Seq<char>> {
    match stem_for(name, k) {
        Some(stem) => seq![stem] + variants_upto(stem, k, 4),
        None => Seq::empty(),
    }
}

/// The names tried, in order, when looking up the partial `name`: the name
/// itself, the name with each extension, and for each extension the name
/// ends with, its stem alone and with each other extension.
#[verifier::opaque]
pub open spec fn partial_candidates(name: Seq<char>) -> Seq<Seq<char>> {
    seq![name] + variants_upto(name, -1, 4) + stripped_candidates(name, 0) + stripped_candidates(
        name,
        1,
    ) + stripped_candidates(name, 2) + stripped_candidates(name, 3)
}

/// The names a prompt can be referred to by as a partial: its own name, and
/// its name without each extension it ends with.
pub open spec fn stems_upto(name: Seq<char>, k: int) -> Seq<Seq<char>>
    decreases k,
{
    if k <= 0 {
        Seq::empty()
    } else {
        match stem_for(name, k - 1) {
            Some(stem) => stems_upto(name, k - 1).push(stem),
            None => stems_upto(name, k - 1),
        }
    }
}

/// The partial names of all prompts, in order.
pub open spec fn partial_names(ps: Seq<Prompt>) -> Seq<Seq<char>>
    decreases ps.len(),
{
    if ps.len() == 0 {
        Seq::empty()
    } else {
        partial_names(ps.drop_last()) + seq![ps.last().name@] + stems_upto(ps.last().name@, 4)
    }
}

/// Position of the first candidate that the library holds a prompt for.
#[verifier::opaque]
pub open spec fn first_found(ps: Seq<Prompt>, cands: Seq<Seq<char>>) -> Option<int> {
    if exists|i: int| 0 <= i < cands.len() && prompt_index(ps, cands[i]) is Some {
        Some(choose|i: int| 0 <= i < cands.len() && prompt_index(ps, cands[i]) is Some && forall|
            j: int,
        | 0 <= j < i ==> prompt_index(ps, cands[j]) is None)
    } else {
        None
    }
}

/// The stem of `name` for the extension at position `k`.
fn stem_of(name: &str, k: usize) -> (r: Option<String>)
    requires
        k < 4,
    ensures
        r is None <==> stem_for(name@, k as int) is None,
        r is Some ==> r->Some_0@ == stem_for(name@, k as int)->Some_0,
{
    strip_suffix_text(name, extension(k))
}

/// Appends `stem` with each extension whose position is not `skip`.
fn push_variants(out: &mut Vec<String>, stem: &str, skip: i64)
    ensures
        final(out)@.map_values(|s: String| s@) == old(out)@.map_values(|s: String| s@)
            + variants_upto(stem@, skip as int, 4),
{
    let ghost base = out@.map_values(|s: String| s@);
    let mut k: usize = 0;
    while k < 4
        invariant
            k <= 4,
            out@.map_values(|s: String| s@) == base + variants_upto(stem@, skip as int, k as int),
        decreases 4 - k,
    {
        let ghost before = out@.map_values(|s: String| s@);
        if k as i64 != skip {
            out.push(concat2(stem, extension(k)));
            assert(out@.map_values(|s: String| s@) =~= before.push(stem@ + prompt_extensions()[k as int]));
        }
        k += 1;
    }
}

/// Appends the stripped candidates for the extension at position `k`.
fn push_stripped(out: &mut Vec<String>, name: &str, k: usize)
    requires
        k < 4,
    ensures
        final(out)@.map_values(|s: String| s@) == old(out)@.map_values(|s: String| s@)
            + stripped_candidates(name@, k as int),
{
    let ghost base = out@.map_values(|s: String| s@);
    match stem_of(name, k) {
        Some(stem) => {
            out.push(stem.clone());
            assert(out@.map_values(|s: String| s@) =~= base + seq![stem@]);
            push_variants(out, stem.as_str(), k as i64);
            assert(base + seq![stem@] + variants_upto(stem@, k as int, 4) =~= base + (seq![stem@]
                + variants_upto(stem@, k as int, 4)));
        },
        None => {
            assert(base + stripped_candidates(name@, k as int) =~= base);
        },
    }
}

/// The names tried, in order, when looking up the partial `name`.
pub fn candidate_names(name: &str) -> (r: Vec<String>)
    ensures
        r@.map_values(|s: String| s@) == partial_candidates(name@),
{
    reveal(partial_candidates);
    let mut out: Vec<String> = Vec::new();
    out.push(String::from_str(name));
    assert(out@.map_values(|s: String| s@) =~= seq![name@]);
    push_variants(&mut out, name, -1);
    push_stripped(&mut out, name, 0);
    push_stripped(&mut out, name, 1);
    push_stripped(&mut out, name, 2);
    push_stripped(&mut out, name, 3);
    out
}

/// A source of partial templates backed by a prompt library: a partial may
/// be named with or without the prompt's file extension.
#[derive(Debug)]
pub struct PromptPartialSource {
    pub library: Arc<PromptLibrary>,
    pub names: Vec<String>,
}

impl PromptPartialSource {
    /// A partial source over `library`; its names are every prompt's name and
    /// that name without each extension it ends with.
    pub fn new(library: Arc<PromptLibrary>) -> (r: Self)
        ensures
            r.library == library,
            r.names@.map_values(|s: String| s@) == partial_names(library.prompts@),
    {
        let mut names: Vec<String> = Vec::new();
        let n = library.prompts.len();
        let mut i: usize = 0;
        while i < n
            invariant
                n == library.prompts@.len(),
                i <= n,
                names@.map_values(|s: String| s@) == partial_names(library.prompts@.subrange(0, i as int)),
            decreases n - i,
        {
            let ghost ps = library.prompts@.subrange(0, i + 1);
            assert(ps.drop_last() =~= library.prompts@.subrange(0, i as int));
            let name = &library.prompts[i].name;
            names.push(name.clone());
            let mut k: usize = 0;
            let ghost base = names@.map_values(|s: String| s@);
            assert(base == partial_names(ps.drop_last()) + seq![name@]);
            assert(base =~= base + stems_upto(name@, 0));
            while k < 4
                invariant
                    k <= 4,
                    names@.map_values(|s: String| s@) == base + stems_upto(name@, k as int),
                decreases 4 - k,
            {
                let ghost before = names@.map_values(|s: String| s@);
                match stem_of(name.as_str(), k) {
                    Some(stem) => {
                        names.push(stem);
                        assert(names@.map_values(|s: String| s@) =~= before.push(
                            stem_for(name@, k as int)->Some_0,
                        ));
                    },
                    None => {},
                }
                k += 1;
            }
            assert(names@.map_values(|s: String| s@) =~= partial_names(ps));
            i += 1;
        }
        assert(library.prompts@.subrange(0, n as int) =~= library.prompts@);
        PromptPartialSource { library, names }
    }

    /// Position of the first of `cands` that the library holds a prompt for.
    fn first_held(&self, cands: &Vec<String>) -> (r: Option<usize>)
        ensures
            r is None <==> first_found(self.library.prompts@, cands@.map_values(|s: String| s@)) is None,
            r matches Some(i) ==> i < cands@.len() && first_found(
                self.library.prompts@,
                cands@.map_values(|s: String| s@),
            ) == Some(i as int) && prompt_index(self.library.prompts@, cands@[i as int]@) is Some,
    {
        reveal(first_found);
        let ghost cs = cands@.map_values(|s: String| s@);
        let ghost ps = self.library.prompts@;
        let mut i: usize = 0;
        while i < cands.len()
            invariant
                i <= cands@.len(),
                cs == cands@.map_values(|s: String| s@),
                ps == self.library.prompts@,
                forall|j: int| 0 <= j < i ==> prompt_index(ps, cs[j]) is None,
            decreases cands@.len() - i,
        {
            assert(cs[i as int] == cands@[i as int]@);
            if self.library.get(cands[i].as_str()).is_some() {
                proof {
                    reveal(first_found);
                    assert(prompt_index(ps, cs[i as int]) is Some);
                    assert(forall|j: int| 0 <= j < i ==> prompt_index(ps, cs[j]) is None);
                    assert(exists|k: int| 0 <= k < cs.len() && prompt_index(ps, cs[k]) is Some && forall|
                        j: int,
                    | 0 <= j < k ==> prompt_index(ps, cs[j]) is None);
                    assert(first_found(ps, cs) is Some);
                    let f = first_found(ps, cs)->Some_0;
                    if f < i {
                        assert(prompt_index(ps, cs[f]) is None);
                    }
                    if (i as int) < f {
                        assert(prompt_index(ps, cs[i as int]) is None);
                    }
                    assert(first_found(ps, cs) == Some(i as int));
                }
                return Some(i);
            }
            i += 1;
        }
        reveal(first_found);
        assert(!exists|j: int| 0 <= j < cs.len() && prompt_index(ps, cs[j]) is Some);
        None
    }

    /// Whether a partial of this name can be found.
    pub fn contains(&self, name: &str) -> (r: bool)
        ensures
            r == first_found(self.library.prompts@, partial_candidates(name@)) is Some,
    {
        let cands = candidate_names(name);
        self.first_held(&cands).is_some()
    }

    /// The partial names this source offers.
    pub fn names(&self) -> (r: Vec<String>)
        ensures
            r@.map_values(|s: String| s@) == self.names@.map_values(|s: String| s@),
    {
        let mut out: Vec<String> = Vec::new();
        let mut i: usize = 0;
        while i < self.names.len()
            invariant
                i <= self.names@.len(),
                out@.map_values(|s: String| s@) == self.names@.subrange(0, i as int).map_values(
                    |s: String| s@,
                ),
            decreases self.names@.len() - i,
        {
            let ghost before = out@.map_values(|s: String| s@);
            out.push(self.names[i].clone());
            assert(out@.map_values(|s: String| s@) =~= before.push(self.names@[i as int]@));
            assert(self.names@.subrange(0, i + 1).map_values(|s: String| s@) =~= self.names@.subrange(
                0,
                i as int,
            ).map_values(|s: String| s@).push(self.names@[i as int]@));
            i += 1;
        }
        assert(self.names@.subrange(0, self.names@.len() as int) =~= self.names@);
        out
    }

    /// The template of the partial `name`: the template of the prompt found
    /// under the first candidate name that the library holds.
    pub fn try_get(&self, name: &str) -> (r: Option<String>)
        ensures
            r is None <==> first_found(self.library.prompts@, partial_candidates(name@)) is None,
            r is Some ==> {
                let ps = self.library.prompts@;
                let i = first_found(ps, partial_candidates(name@))->Some_0;
                r->Some_0@ == ps[prompt_index(ps, partial_candidates(name@)[i])->Some_0].template@
            },
    {
        let cands = candidate_names(name);
        match self.first_held(&cands) {
            None => None,
            Some(i) => match self.library.get(cands[i].as_str()) {
                Some(p) => Some(p.template.clone()),
                None => None,
            },
        }
    }
}

/// Marks a file as a partial template; renders nothing.
#[derive(Clone, Copy, Debug, Default)]
pub struct PartialTag;

impl PartialTag {
    /// The tag.
    pub fn new() -> (r: Self) {
        PartialTag
    }

    /// The tag's name in templates.
    pub fn tag(&self) -> (r: &'static str)
        ensures
            r@ == "partial"@,
    {
        "partial"
    }

    /// What the tag does.
    pub fn description(&self) -> (r: &'static str) {
        "Marks a file as a partial template (no-op)"
    }
}

} // verus!
