use vstd::prelude::*;
use crate::text::str_eq;

verus! {

/// One keyed entry of a small association list.
pub struct Entry<V> {
    pub key: String,
    pub value: V,
}

/// The map that an association list stands for: a later entry for a key
/// shadows an earlier one.
pub open spec fn entries_map<V>(s: Seq<Entry<V>>) -> Map<Seq<char>, V>
    decreases s.len(),
{
    if s.len() == 0 {
        Map::empty()
    } else {
        entries_map(s.drop_last()).insert(s.last().key@, s.last().value)
    }
}

/// No key occurs twice.
pub open spec fn keys_unique<V>(s: Seq<Entry<V>>) -> bool {
    forall|i: int, j: int| 0 <= i < j < s.len() ==> s[i].key@ != s[j].key@
}

pub proof fn lemma_entries_domain<V>(s: Seq<Entry<V>>, k: Seq<char>)
    ensures
        entries_map(s).contains_key(k) <==> exists|i: int| 0 <= i < s.len() && s[i].key@ == k,
    decreases s.len(),
{
    if s.len() > 0 {
        lemma_entries_domain(s.drop_last(), k);
        if entries_map(s).contains_key(k) {
            if s.last().key@ != k {
                let i = choose|i: int| 0 <= i < s.drop_last().len() && s.drop_last()[i].key@ == k;
                assert(s[i].key@ == k);
            } else {
                assert(s[s.len() - 1].key@ == k);
            }
        }
        if exists|i: int| 0 <= i < s.len() && s[i].key@ == k {
            let i = choose|i: int| 0 <= i < s.len() && s[i].key@ == k;
            if i < s.len() - 1 {
                assert(s.drop_last()[i].key@ == k);
            }
        }
    }
}

pub proof fn lemma_entries_value<V>(s: Seq<Entry<V>>, i: int)
    requires
        keys_unique(s),
        0 <= i < s.len(),
    ensures
        entries_map(s).contains_key(s[i].key@),
        entries_map(s)[s[i].key@] == s[i].value,
    decreases s.len(),
{
    if i < s.len() - 1 {
        assert(keys_unique(s.drop_last()));
        lemma_entries_value(s.drop_last(), i);
        assert(s.drop_last()[i] == s[i]);
        assert(s.last().key@ != s[i].key@);
    }
}

pub proof fn lemma_entries_update<V>(s: Seq<Entry<V>>, i: int, e: Entry<V>)
    requires
        keys_unique(s),
        0 <= i < s.len(),
        e.key@ == s[i].key@,
    ensures
        keys_unique(s.update(i, e)),
        entries_map(s.update(i, e)) == entries_map(s).insert(e.key@, e.value),
    decreases s.len(),
{
    let t = s.update(i, e);
    assert(keys_unique(t));
    if i == s.len() - 1 {
        assert(t.drop_last() =~= s.drop_last());
        assert(entries_map(t) =~= entries_map(s).insert(e.key@, e.value));
    } else {
        assert(keys_unique(s.drop_last()));
        lemma_entries_update(s.drop_last(), i, e);
        assert(t.drop_last() =~= s.drop_last().update(i, e));
        assert(t.last() == s.last());
        assert(s.last().key@ != e.key@);
        assert(entries_map(t) =~= entries_map(s).insert(e.key@, e.value));
    }
}

pub proof fn lemma_entries_push<V>(s: Seq<Entry<V>>, e: Entry<V>)
    requires
        keys_unique(s),
        !entries_map(s).contains_key(e.key@),
    ensures
        keys_unique(s.push(e)),
        entries_map(s.push(e)) == entries_map(s).insert(e.key@, e.value),
{
    let t = s.push(e);
    assert(t.drop_last() =~= s);
    assert forall|i: int, j: int| 0 <= i < j < t.len() implies t[i].key@ != t[j].key@ by {
        if j == s.len() {
            lemma_entries_domain(s, e.key@);
            if t[i].key@ == t[j].key@ {
                assert(s[i].key@ == e.key@);
            }
        }
    }
}

/// Index of the entry for `key`, if any.
pub fn find_entry<V>(v: &Vec<Entry<V>>, key: &str) -> (r: Option<usize>)
    ensures
        match r {
            Some(i) => i < v@.len() && v@[i as int].key@ == key@ && entries_map(v@).contains_key(key@),
            None => !entries_map(v@).contains_key(key@),
        },
{
    let mut i: usize = 0;
    while i < v.len()
        invariant
            i <= v@.len(),
            forall|k: int| 0 <= k < i ==> v@[k].key@ != key@,
        decreases v.len() - i,
    {
        if str_eq(v[i].key.as_str(), key) {
            proof {
                lemma_entries_domain(v@, key@);
                assert(v@[i as int].key@ == key@);
            }
            return Some(i);
        }
        i = i + 1;
    }
    proof {
        lemma_entries_domain(v@, key@);
    }
    None
}

/// Sets the entry for `key` to `value`, adding an entry when there is none.
pub fn set_entry<V>(v: &mut Vec<Entry<V>>, key: String, value: V)
    requires
        keys_unique(old(v)@),
    ensures
        keys_unique(final(v)@),
        entries_map(final(v)@) == entries_map(old(v)@).insert(key@, value),
{
    match find_entry(v, key.as_str()) {
        Some(i) => {
            let e = Entry { key, value };
            proof {
                lemma_entries_update(v@, i as int, e);
            }
            v.set(i, e);
        },
        None => {
            let e = Entry { key, value };
            proof {
                lemma_entries_push(v@, e);
            }
            v.push(e);
        },
    }
}

pub proof fn lemma_entries_remove<V>(s: Seq<Entry<V>>, i: int)
    requires
        keys_unique(s),
        0 <= i < s.len(),
    ensures
        keys_unique(s.remove(i)),
        entries_map(s.remove(i)) == entries_map(s).remove(s[i].key@),
    decreases s.len(),
{
    let k = s[i].key@;
    let t = s.remove(i);
    assert(keys_unique(t)) by {
        assert forall|a: int, b: int| 0 <= a < b < t.len() implies t[a].key@ != t[b].key@ by {
            let a2 = if a < i { a } else { a + 1 };
            let b2 = if b < i { b } else { b + 1 };
            assert(t[a] == s[a2]);
            assert(t[b] == s[b2]);
        }
    }
    if i == s.len() - 1 {
        assert(t =~= s.drop_last());
        lemma_entries_domain(s.drop_last(), k);
        assert forall|j: int| 0 <= j < s.drop_last().len() implies s.drop_last()[j].key@ != k by {
            assert(s[j].key@ != s[i].key@);
        }
        assert(entries_map(t) =~= entries_map(s).remove(k));
    } else {
        assert(keys_unique(s.drop_last()));
        lemma_entries_remove(s.drop_last(), i);
        assert(t.drop_last() =~= s.drop_last().remove(i));
        assert(t.last() == s.last());
        assert(s.last().key@ != k);
        assert(entries_map(t) =~= entries_map(s).remove(k));
    }
}

/// Removes the entry for `key`, if any.
pub fn remove_entry<V>(v: &mut Vec<Entry<V>>, key: &str) -> (found: bool)
    requires
        keys_unique(old(v)@),
    ensures
        keys_unique(final(v)@),
        found == entries_map(old(v)@).contains_key(key@),
        entries_map(final(v)@) == entries_map(old(v)@).remove(key@),
{
    match find_entry(v, key) {
        Some(i) => {
            proof {
                lemma_entries_remove(v@, i as int);
                lemma_entries_value(v@, i as int);
            }
            let _ = v.remove(i);
            true
        },
        None => {
            proof {
                assert(entries_map(v@).remove(key@) =~= entries_map(v@));
            }
            false
        },
    }
}

} // verus!
