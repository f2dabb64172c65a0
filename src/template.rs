//! Template-side logic: which variables a template mentions, and the
//! values it is rendered with.

use vstd::prelude::*;
use crate::entries::{entries_map, Entry};

verus! {

/// What the regex engine yields for `pattern` on `text`: `None` when the
/// pattern does not compile, otherwise the text of capture group 1 in each
/// successive non-overlapping match where that group takes part, in order.
pub uninterp spec fn regex_group_one(pattern: Seq<char>, text: Seq<char>) -> Option<Seq<Seq<char>>>;

/// Relies on `regex::Regex::new` and `regex::Regex::captures_iter`: compiles
/// `pattern` and collects capture group 1 of every match in `text`.
#[verifier::external_body]
fn group_one_captures(pattern: &str, text: &str) -> (r: Option<Vec<String>>)
    ensures
        r is None ==> regex_group_one(pattern@, text@) is None,
        r is Some ==> regex_group_one(pattern@, text@) == Some(
            r->Some_0@.map_values(|s: String| s@),
        ),
{
    match regex::Regex::new(pattern) {
        Ok(re) => Some(
            re.captures_iter(text).filter_map(|c| c.get(1)).map(|m| m.as_str().to_string()).collect(),
        ),
        Err(_) => None,
    }
}

/// Pattern for output tags: `{{ name }}`, `{{ name.field }}`, `{{ name | filter }}`.
pub const VARIABLE_PATTERN: &'static str = r"\{\{\s*(\w+)(?:\.\w+)*\s*(?:\|[^\}]+)?\}\}";

/// Pattern for the variable tested or iterated by `if`, `unless` and `for` tags.
pub const TAG_PATTERN: &'static str = r"\{%\s*(?:if|unless|for\s+\w+\s+in)\s+(\w+)";

/// The captures of a pattern, or nothing when the pattern did not compile.
pub open spec fn captures_or_empty(c: Option<Seq<Seq<char>>>) -> Seq<Seq<char>> {
    match c {
        Some(s) => s,
        None => Seq::empty(),
    }
}

/// `s` with every repeated element after its first occurrence removed.
pub open spec fn dedup(s: Seq<Seq<char>>) -> Seq<Seq<char>>
    decreases s.len(),
{
    if s.len() == 0 {
        Seq::empty()
    } else {
        let prev = dedup(s.drop_last());
        if prev.contains(s.last()) {
            prev
        } else {
            prev.push(s.last())
        }
    }
}

/// Every element of `dedup(s)` is in `s` and conversely; no element repeats.
pub proof fn lemma_dedup(s: Seq<Seq<char>>)
    ensures
        forall|x: Seq<char>| dedup(s).contains(x) <==> s.contains(x),
        dedup(s).no_duplicates(),
    decreases s.len(),
{
    if s.len() > 0 {
        lemma_dedup(s.drop_last());
        let prev = dedup(s.drop_last());
        assert forall|x: Seq<char>| dedup(s).contains(x) <==> s.contains(x) by {
            if s.contains(x) {
                let i = choose|i: int| 0 <= i < s.len() && s[i] == x;
                if i < s.len() - 1 {
                    assert(s.drop_last()[i] == x);
                }
            }
            if s.drop_last().contains(x) {
                let i = choose|i: int| 0 <= i < s.drop_last().len() && s.drop_last()[i] == x;
                assert(s[i] == x);
            }
            if !prev.contains(s.last()) {
                if prev.push(s.last()).contains(x) {
                    let i = choose|i: int| 0 <= i < prev.len() + 1 && prev.push(s.last())[i] == x;
                    if i < prev.len() {
                        assert(prev[i] == x);
                    }
                }
                if prev.contains(x) {
                    let i = choose|i: int| 0 <= i < prev.len() && prev[i] == x;
                    assert(prev.push(s.last())[i] == x);
                }
                assert(prev.push(s.last())[prev.len() as int] == s.last());
            }
        }
    }
}

/// The names that capture group 1 of both patterns found, each once, in the
/// order of their first appearance (output tags first).
pub open spec fn variable_names(var_caps: Seq<Seq<char>>, tag_caps: Seq<Seq<char>>) -> Seq<Seq<char>> {
    dedup(var_caps + tag_caps)
}

/// Appends `item` to `out` unless a string equal to it is already there.
fn push_unique(out: &mut Vec<String>, item: &String)
    ensures
        final(out)@.map_values(|s: String| s@) == (if old(out)@.map_values(|s: String| s@).contains(
            item@,
        ) {
            old(out)@.map_values(|s: String| s@)
        } else {
            old(out)@.map_values(|s: String| s@).push(item@)
        }),
{
    let ghost views = out@.map_values(|s: String| s@);
    let mut seen = false;
    let mut j: usize = 0;
    while j < out.len()
        invariant
            j <= out@.len(),
            views == out@.map_values(|s: String| s@),
            seen == exists|k: int| 0 <= k < j && out@[k]@ == item@,
        decreases out@.len() - j,
    {
        if out[j] == *item {
            seen = true;
        }
        j += 1;
    }
    assert(seen == views.contains(item@)) by {
        if seen {
            let k = choose|k: int| 0 <= k < out@.len() && out@[k]@ == item@;
            assert(views[k] == item@);
        }
        if views.contains(item@) {
            let k = choose|k: int| 0 <= k < views.len() && views[k] == item@;
            assert(out@[k]@ == item@);
        }
    }
    if !seen {
        out.push(item.clone());
        assert(out@.map_values(|s: String| s@) =~= views.push(item@));
    }
}

/// Appends to `out` each element of `items` that is not there yet, in order.
fn push_all_unique(out: &mut Vec<String>, items: &Vec<String>, Ghost(before): Ghost<Seq<Seq<char>>>)
    requires
        old(out)@.map_values(|s: String| s@) == dedup(before),
    ensures
        final(out)@.map_values(|s: String| s@) == dedup(before + items@.map_values(|s: String| s@)),
{
    let ghost iv = items@.map_values(|s: String| s@);
    let mut i: usize = 0;
    while i < items.len()
        invariant
            i <= items@.len(),
            iv == items@.map_values(|s: String| s@),
            out@.map_values(|s: String| s@) == dedup(before + iv.subrange(0, i as int)),
        decreases items@.len() - i,
    {
        let ghost prev = before + iv.subrange(0, i as int);
        let ghost next = before + iv.subrange(0, i + 1);
        assert(next.drop_last() =~= prev);
        assert(next.last() == items@[i as int]@);
        push_unique(out, &items[i]);
        i += 1;
    }
    assert(iv.subrange(0, items@.len() as int) =~= iv);
}

/// Combines the names captured from output tags and from control tags into
/// one list without repeats, keeping the order of first appearance.
pub fn merge_captured_names(var_caps: &Vec<String>, tag_caps: &Vec<String>) -> (r: Vec<String>)
    ensures
        r@.map_values(|s: String| s@) == variable_names(
            var_caps@.map_values(|s: String| s@),
            tag_caps@.map_values(|s: String| s@),
        ),
{
    let mut out: Vec<String> = Vec::new();
    proof {
        assert(out@.map_values(|s: String| s@) =~= dedup(Seq::empty()));
    }
    push_all_unique(&mut out, var_caps, Ghost(Seq::empty()));
    assert(Seq::<Seq<char>>::empty() + var_caps@.map_values(|s: String| s@) =~= var_caps@.map_values(
        |s: String| s@,
    ));
    push_all_unique(&mut out, tag_caps, Ghost(var_caps@.map_values(|s: String| s@)));
    out
}

/// All variable names that a template mentions, each once: the names in
/// output tags and the names tested or iterated by control tags.
pub fn extract_template_variables(template: &str) -> (r: Vec<String>)
    ensures
        r@.map_values(|s: String| s@) == variable_names(
            captures_or_empty(regex_group_one(VARIABLE_PATTERN@, template@)),
            captures_or_empty(regex_group_one(TAG_PATTERN@, template@)),
        ),
        r@.map_values(|s: String| s@).no_duplicates(),
        forall|x: Seq<char>|
            r@.map_values(|s: String| s@).contains(x) <==> (captures_or_empty(
                regex_group_one(VARIABLE_PATTERN@, template@),
            ).contains(x) || captures_or_empty(regex_group_one(TAG_PATTERN@, template@)).contains(
                x,
            )),
{
    let var_caps = match group_one_captures(VARIABLE_PATTERN, template) {
        Some(v) => v,
        None => Vec::new(),
    };
    let tag_caps = match group_one_captures(TAG_PATTERN, template) {
        Some(v) => v,
        None => Vec::new(),
    };
    proof {
        assert(var_caps@.map_values(|s: String| s@) =~= captures_or_empty(
            regex_group_one(VARIABLE_PATTERN@, template@),
        ));
        assert(tag_caps@.map_values(|s: String| s@) =~= captures_or_empty(
            regex_group_one(TAG_PATTERN@, template@),
        ));
    }
    let r = merge_captured_names(&var_caps, &tag_caps);
    proof {
        let a = captures_or_empty(regex_group_one(VARIABLE_PATTERN@, template@));
        let b = captures_or_empty(regex_group_one(TAG_PATTERN@, template@));
        lemma_dedup(a + b);
        assert forall|x: Seq<char>| (a + b).contains(x) <==> (a.contains(x) || b.contains(x)) by {
            if (a + b).contains(x) {
                let i = choose|i: int| 0 <= i < (a + b).len() && (a + b)[i] == x;
                if i < a.len() {
                    assert(a[i] == x);
                } else {
                    assert(b[i - a.len()] == x);
                }
            }
            if a.contains(x) {
                let i = choose|i: int| 0 <= i < a.len() && a[i] == x;
                assert((a + b)[i] == x);
            }
            if b.contains(x) {
                let i = choose|i: int| 0 <= i < b.len() && b[i] == x;
                assert((a + b)[a.len() + i] == x);
            }
        }
    }
    r
}

/// Every variable bound to nil.
pub open spec fn nil_bindings(variables: Seq<Seq<char>>) -> Map<Seq<char>, Option<String>> {
    Map::new(|k: Seq<char>| variables.contains(k), |k: Seq<char>| None)
}

/// A layer of string values, each bound as a scalar.
pub open spec fn scalar_bindings(m: Map<Seq<char>, String>) -> Map<Seq<char>, Option<String>> {
    Map::new(|k: Seq<char>| m.contains_key(k), |k: Seq<char>| Some(m[k]))
}

/// Appends a layer of string values over the bindings so far.
fn push_layer(out: &mut Vec<Entry<Option<String>>>, layer: &Vec<Entry<String>>)
    ensures
        entries_map(final(out)@) == entries_map(old(out)@).union_prefer_right(
            scalar_bindings(entries_map(layer@)),
        ),
{
    let ghost base = entries_map(out@);
    let mut i: usize = 0;
    while i < layer.len()
        invariant
            i <= layer@.len(),
            entries_map(out@) == base.union_prefer_right(
                scalar_bindings(entries_map(layer@.subrange(0, i as int))),
            ),
        decreases layer@.len() - i,
    {
        let ghost before = out@;
        let e = &layer[i];
        out.push(Entry { key: e.key.clone(), value: Some(e.value.clone()) });
        assert(out@.drop_last() =~= before);
        assert(layer@.subrange(0, i + 1).drop_last() =~= layer@.subrange(0, i as int));
        assert(entries_map(out@) =~= base.union_prefer_right(
            scalar_bindings(entries_map(layer@.subrange(0, i + 1))),
        ));
        i += 1;
    }
    assert(layer@.subrange(0, layer@.len() as int) =~= layer@);
}

/// The values a template is rendered with: every variable it mentions is nil
/// unless set, and then configuration values, environment variables and
/// arguments are laid over it in that order, each overriding the one before.
pub fn render_bindings(
    variables: &Vec<String>,
    config: &Vec<Entry<String>>,
    env: &Vec<Entry<String>>,
    args: &Vec<Entry<String>>,
) -> (r: Vec<Entry<Option<String>>>)
    ensures
        entries_map(r@) == nil_bindings(variables@.map_values(|s: String| s@)).union_prefer_right(
            scalar_bindings(entries_map(config@)),
        ).union_prefer_right(scalar_bindings(entries_map(env@))).union_prefer_right(
            scalar_bindings(entries_map(args@)),
        ),
{
    let mut out: Vec<Entry<Option<String>>> = Vec::new();
    let mut i: usize = 0;
    while i < variables.len()
        invariant
            i <= variables@.len(),
            entries_map(out@) == nil_bindings(variables@.subrange(0, i as int).map_values(|s: String| s@)),
        decreases variables@.len() - i,
    {
        let ghost before = out@;
        out.push(Entry { key: variables[i].clone(), value: None });
        assert(out@.drop_last() =~= before);
        assert(variables@.subrange(0, i + 1).map_values(|s: String| s@) =~= variables@.subrange(
            0,
            i as int,
        ).map_values(|s: String| s@).push(variables@[i as int]@));
        let ghost prev = variables@.subrange(0, i as int).map_values(|s: String| s@);
        let ghost x = variables@[i as int]@;
        let ghost nxt = prev.push(x);
        assert forall|k: Seq<char>| nxt.contains(k) <==> (prev.contains(k) || k == x) by {
            if nxt.contains(k) {
                let j = choose|j: int| 0 <= j < nxt.len() && nxt[j] == k;
                if j < prev.len() {
                    assert(prev[j] == k);
                }
            }
            if prev.contains(k) {
                let j = choose|j: int| 0 <= j < prev.len() && prev[j] == k;
                assert(nxt[j] == k);
            }
            if k == x {
                assert(nxt[prev.len() as int] == k);
            }
        }
        assert(entries_map(out@) =~= nil_bindings(nxt));
        i += 1;
    }
    assert(variables@.subrange(0, variables@.len() as int) =~= variables@);
    push_layer(&mut out, config);
    push_layer(&mut out, env);
    push_layer(&mut out, args);
    out
}

} // verus!
