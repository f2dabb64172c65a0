//! Small string-keyed maps kept as vectors of entries; a later entry for a
//! key shadows an earlier one.

use vstd::prelude::*;

verus! {

/// One key/value pair.
#[derive(Clone, Debug, PartialEq)]
pub struct Entry<V> {
    pub key: String,
    pub value: V,
}

/// The map that a list of entries stands for: each key maps to the value of
/// its last entry.
pub open spec fn entries_map<V>(s: Seq<Entry<V>>) -> Map<Seq<char>, V>
    decreases s.len(),
{
    if s.len() == 0 {
        Map::empty()
    } else {
        entries_map(s.drop_last()).insert(s.last().key@, s.last().value)
    }
}

/// Replacing the last entry for a key changes only that key's value.
pub proof fn lemma_update_last_entry<V>(s: Seq<Entry<V>>, i: int, e: Entry<V>)
    requires
        0 <= i < s.len(),
        s[i].key@ == e.key@,
        forall|j: int| i < j < s.len() ==> s[j].key@ != e.key@,
    ensures
        entries_map(s.update(i, e)) == entries_map(s).insert(e.key@, e.value),
    decreases s.len(),
{
    let u = s.update(i, e);
    if i == s.len() - 1 {
        assert(u.drop_last() =~= s.drop_last());
        assert(entries_map(u) =~= entries_map(s).insert(e.key@, e.value));
    } else {
        assert(u.drop_last() =~= s.drop_last().update(i, e));
        lemma_update_last_entry(s.drop_last(), i, e);
        assert(entries_map(u) =~= entries_map(s).insert(e.key@, e.value));
    }
}

/// A key has a value in the map exactly when some entry has that key.
pub proof fn lemma_entries_domain<V>(s: Seq<Entry<V>>, k: Seq<char>)
    ensures
        entries_map(s).contains_key(k) <==> exists|j: int| 0 <= j < s.len() && s[j].key@ == k,
    decreases s.len(),
{
    if s.len() > 0 {
        lemma_entries_domain(s.drop_last(), k);
        if exists|j: int| 0 <= j < s.len() && s[j].key@ == k {
            let j = choose|j: int| 0 <= j < s.len() && s[j].key@ == k;
            if j < s.len() - 1 {
                assert(s.drop_last()[j].key@ == k);
            }
        }
        if exists|j: int| 0 <= j < s.drop_last().len() && s.drop_last()[j].key@ == k {
            let j = choose|j: int| 0 <= j < s.drop_last().len() && s.drop_last()[j].key@ == k;
            assert(s[j].key@ == k);
        }
    }
}

/// The value of the last entry for a key is the map's value for it.
pub proof fn lemma_last_entry_value<V>(s: Seq<Entry<V>>, i: int)
    requires
        0 <= i < s.len(),
        forall|j: int| i < j < s.len() ==> s[j].key@ != s[i].key@,
    ensures
        entries_map(s).contains_key(s[i].key@),
        entries_map(s)[s[i].key@] == s[i].value,
    decreases s.len(),
{
    if i < s.len() - 1 {
        lemma_last_entry_value(s.drop_last(), i);
    }
}

/// Sets `key` to `value`: the entry for the key is replaced, or a new entry
/// is appended when there is none.
pub fn set_entry<V>(entries: &mut Vec<Entry<V>>, key: String, value: V)
    ensures
        entries_map(final(entries)@) == entries_map(old(entries)@).insert(key@, value),
{
    let n = entries.len();
    let mut i: usize = n;
    while i > 0
        invariant
            i <= n,
            n == entries@.len(),
            entries@ == old(entries)@,
            forall|j: int| i <= j < n ==> entries@[j].key@ != key@,
        decreases i,
    {
        if entries[i - 1].key == key {
            let ghost before = entries@;
            let e = Entry { key, value };
            proof {
                lemma_update_last_entry(before, i - 1, e);
            }
            entries.set(i - 1, e);
            return;
        }
        i -= 1;
    }
    let ghost before = entries@;
    entries.push(Entry { key, value });
    assert(entries@.drop_last() =~= before);
}

/// The value stored for `key`, if any.
pub fn get_entry<'a, V>(entries: &'a Vec<Entry<V>>, key: &str) -> (r: Option<&'a V>)
    ensures
        r is None <==> !entries_map(entries@).contains_key(key@),
        r is Some ==> *r->Some_0 == entries_map(entries@)[key@],
{
    let wanted = String::from_str(key);
    let n = entries.len();
    let mut i: usize = n;
    while i > 0
        invariant
            i <= n,
            n == entries@.len(),
            wanted@ == key@,
            forall|j: int| i <= j < n ==> entries@[j].key@ != key@,
        decreases i,
    {
        if entries[i - 1].key == wanted {
            proof {
                lemma_last_entry_value(entries@, i - 1);
            }
            return Some(&entries[i - 1].value);
        }
        i -= 1;
    }
    proof {
        lemma_entries_domain(entries@, key@);
    }
    None
}

} // verus!
