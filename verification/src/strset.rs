use vstd::prelude::*;
use crate::text::{str_eq, vec_contains_str, seq_has};

verus! {

/// A finite set of strings, kept in insertion order without repeats.
pub struct StringSet {
    items: Vec<String>,
}

/// The strings of a sequence, as character sequences.
pub open spec fn string_set(items: Seq<String>) -> Set<Seq<char>> {
    Set::new(|k: Seq<char>| seq_has(items, k))
}

/// No string occurs twice.
pub open spec fn strings_unique(items: Seq<String>) -> bool {
    forall|i: int, j: int| 0 <= i < j < items.len() ==> items[i]@ != items[j]@
}

impl View for StringSet {
    type V = Set<Seq<char>>;

    closed spec fn view(&self) -> Set<Seq<char>> {
        string_set(self.items@)
    }
}

impl StringSet {
    /// The members in insertion order.
    pub closed spec fn members(&self) -> Seq<String> {
        self.items@
    }

    /// No member is stored twice.
    pub closed spec fn wf(&self) -> bool {
        strings_unique(self.items@)
    }

    pub proof fn lemma_members(&self)
        ensures
            self@ == string_set(self.members()),
            self@.finite(),
            self.wf() ==> strings_unique(self.members()),
            self.wf() ==> self@.len() == self.members().len(),
    {
        lemma_string_set_finite(self.items@);
        if self.wf() {
            lemma_string_set_len(self.items@);
        }
    }

    /// The empty set.
    pub fn new() -> (r: Self)
        ensures
            r.wf(),
            r@ == Set::<Seq<char>>::empty(),
            r.members().len() == 0,
    {
        let r = StringSet { items: Vec::new() };
        assert(r@ =~= Set::<Seq<char>>::empty());
        r
    }

    /// Whether `s` is a member.
    pub fn contains(&self, s: &str) -> (r: bool)
        ensures
            r == self@.contains(s@),
    {
        vec_contains_str(&self.items, s)
    }

    /// Adds `s`; returns whether it was not a member before.
    pub fn insert(&mut self, s: &str) -> (added: bool)
        requires
            old(self).wf(),
        ensures
            final(self).wf(),
            final(self)@ == old(self)@.insert(s@),
            added == !old(self)@.contains(s@),
    {
        if vec_contains_str(&self.items, s) {
            assert(self@ =~= old(self)@.insert(s@));
            return false;
        }
        let ghost before = self.items@;
        self.items.push(s.to_owned());
        proof {
            assert forall|i: int, j: int| 0 <= i < j < self.items@.len() implies self.items@[i]@ != self.items@[j]@ by {
                if j == before.len() {
                    assert(self.items@[i] == before[i]);
                }
            }
            assert forall|k: Seq<char>| #[trigger] self@.contains(k) == old(self)@.insert(s@).contains(k) by {
                if seq_has(self.items@, k) {
                    let i = choose|i: int| 0 <= i < self.items@.len() && #[trigger] self.items@[i]@ == k;
                    if i < before.len() {
                        assert(before[i]@ == k);
                    }
                }
                if seq_has(before, k) {
                    let i = choose|i: int| 0 <= i < before.len() && #[trigger] before[i]@ == k;
                    assert(self.items@[i]@ == k);
                }
                if k == s@ {
                    assert(self.items@[before.len() as int]@ == k);
                }
            }
            assert(self@ =~= old(self)@.insert(s@));
        }
        true
    }

    /// Removes `s`; returns whether it was a member.
    pub fn remove(&mut self, s: &str) -> (removed: bool)
        requires
            old(self).wf(),
        ensures
            final(self).wf(),
            final(self)@ == old(self)@.remove(s@),
            removed == old(self)@.contains(s@),
    {
        let mut i: usize = 0;
        while i < self.items.len()
            invariant
                self.items@ == old(self).items@,
                strings_unique(self.items@),
                i <= self.items@.len(),
                forall|j: int| 0 <= j < i ==> #[trigger] self.items@[j]@ != s@,
            decreases self.items.len() - i,
        {
            if str_eq(self.items[i].as_str(), s) {
                let ghost before = self.items@;
                let _ = self.items.remove(i);
                proof {
                    assert forall|a: int, b: int| 0 <= a < b < self.items@.len() implies self.items@[a]@ != self.items@[b]@ by {
                        let a2 = if a < i { a } else { a + 1 };
                        let b2 = if b < i { b } else { b + 1 };
                        assert(self.items@[a] == before[a2]);
                        assert(self.items@[b] == before[b2]);
                    }
                    assert forall|k: Seq<char>| #[trigger] self@.contains(k) == old(self)@.remove(s@).contains(k) by {
                        if seq_has(self.items@, k) {
                            let a = choose|a: int| 0 <= a < self.items@.len() && #[trigger] self.items@[a]@ == k;
                            let a2 = if a < i { a } else { a + 1 };
                            assert(self.items@[a] == before[a2]);
                            assert(a2 != i);
                            assert(before[a2]@ != before[i as int]@);
                        }
                        if seq_has(before, k) && k != s@ {
                            let a = choose|a: int| 0 <= a < before.len() && #[trigger] before[a]@ == k;
                            assert(a != i);
                            if a < i {
                                assert(self.items@[a] == before[a]);
                            } else {
                                assert(self.items@[a - 1] == before[a]);
                            }
                        }
                    }
                    assert(self@ =~= old(self)@.remove(s@));
                    assert(seq_has(before, s@)) by {
                        assert(before[i as int]@ == s@);
                    }
                }
                return true;
            }
            i = i + 1;
        }
        proof {
            assert(!seq_has(self.items@, s@));
            assert(self@ =~= old(self)@.remove(s@));
        }
        false
    }

    /// The members, in insertion order.
    pub fn to_vec(&self) -> (v: Vec<String>)
        ensures
            v@ == self.members(),
    {
        self.items.clone()
    }

    /// The number of members.
    pub fn len(&self) -> (n: usize)
        ensures
            n == self.members().len(),
    {
        self.items.len()
    }

    /// The set of the given strings.
    pub fn from_vec(v: Vec<String>) -> (r: Self)
        ensures
            r.wf(),
            r@ == string_set(v@),
    {
        let mut r = StringSet::new();
        let mut i: usize = 0;
        while i < v.len()
            invariant
                i <= v@.len(),
                r.wf(),
                r@ == string_set(v@.take(i as int)),
            decreases v.len() - i,
        {
            let _ = r.insert(v[i].as_str());
            proof {
                assert(string_set(v@.take(i + 1)) =~= string_set(v@.take(i as int)).insert(v@[i as int]@)) by {
                    assert forall|k: Seq<char>| #[trigger] string_set(v@.take(i + 1)).contains(k) == string_set(v@.take(i as int)).insert(v@[i as int]@).contains(k) by {
                        if seq_has(v@.take(i + 1), k) {
                            let a = choose|a: int| 0 <= a < v@.take(i + 1).len() && #[trigger] v@.take(i + 1)[a]@ == k;
                            if a < i {
                                assert(v@.take(i as int)[a] == v@.take(i + 1)[a]);
                            }
                        }
                        if seq_has(v@.take(i as int), k) {
                            let a = choose|a: int| 0 <= a < v@.take(i as int).len() && #[trigger] v@.take(i as int)[a]@ == k;
                            assert(v@.take(i + 1)[a] == v@.take(i as int)[a]);
                        }
                        if k == v@[i as int]@ {
                            assert(v@.take(i + 1)[i as int]@ == k);
                        }
                    }
                }
            }
            i = i + 1;
        }
        proof {
            assert(v@.take(v@.len() as int) =~= v@);
        }
        r
    }

    /// Whether both sets have the same members.
    pub fn same_members(&self, other: &StringSet) -> (r: bool)
        requires
            self.wf(),
            other.wf(),
        ensures
            r == (self@ == other@),
    {
        proof {
            self.lemma_members();
            other.lemma_members();
        }
        if self.items.len() != other.items.len() {
            return false;
        }
        let mut i: usize = 0;
        while i < self.items.len()
            invariant
                i <= self.items@.len(),
                self.items@.len() == other.items@.len(),
                forall|j: int| 0 <= j < i ==> #[trigger] other@.contains(self.items@[j]@),
            decreases self.items.len() - i,
        {
            if !other.contains(self.items[i].as_str()) {
                proof {
                    assert(self@.contains(self.items@[i as int]@));
                }
                return false;
            }
            i = i + 1;
        }
        proof {
            assert(self@.subset_of(other@)) by {
                assert forall|k: Seq<char>| self@.contains(k) implies other@.contains(k) by {
                    let j = choose|j: int| 0 <= j < self.items@.len() && #[trigger] self.items@[j]@ == k;
                }
            }
            vstd::set_lib::lemma_subset_equality(self@, other@);
        }
        true
    }
}

pub proof fn lemma_string_set_finite(items: Seq<String>)
    ensures
        string_set(items).finite(),
    decreases items.len(),
{
    if items.len() == 0 {
        assert(string_set(items) =~= Set::<Seq<char>>::empty());
    } else {
        lemma_string_set_finite(items.drop_last());
        assert(string_set(items) =~= string_set(items.drop_last()).insert(items.last()@)) by {
            assert forall|k: Seq<char>| #[trigger] string_set(items).contains(k) == string_set(items.drop_last()).insert(items.last()@).contains(k) by {
                if seq_has(items, k) {
                    let a = choose|a: int| 0 <= a < items.len() && #[trigger] items[a]@ == k;
                    if a < items.len() - 1 {
                        assert(items.drop_last()[a] == items[a]);
                    }
                }
                if seq_has(items.drop_last(), k) {
                    let a = choose|a: int| 0 <= a < items.drop_last().len() && #[trigger] items.drop_last()[a]@ == k;
                    assert(items[a] == items.drop_last()[a]);
                }
                if k == items.last()@ {
                    assert(items[items.len() - 1]@ == k);
                }
            }
        }
    }
}

pub proof fn lemma_string_set_len(items: Seq<String>)
    requires
        strings_unique(items),
    ensures
        string_set(items).len() == items.len(),
    decreases items.len(),
{
    if items.len() == 0 {
        assert(string_set(items) =~= Set::<Seq<char>>::empty());
    } else {
        let d = items.drop_last();
        assert(strings_unique(d));
        lemma_string_set_len(d);
        lemma_string_set_finite(d);
        assert(string_set(items) =~= string_set(d).insert(items.last()@)) by {
            assert forall|k: Seq<char>| #[trigger] string_set(items).contains(k) == string_set(d).insert(items.last()@).contains(k) by {
                if seq_has(items, k) {
                    let a = choose|a: int| 0 <= a < items.len() && #[trigger] items[a]@ == k;
                    if a < items.len() - 1 {
                        assert(d[a] == items[a]);
                    }
                }
                if seq_has(d, k) {
                    let a = choose|a: int| 0 <= a < d.len() && #[trigger] d[a]@ == k;
                    assert(items[a] == d[a]);
                }
                if k == items.last()@ {
                    assert(items[items.len() - 1]@ == k);
                }
            }
        }
        assert(!string_set(d).contains(items.last()@)) by {
            if seq_has(d, items.last()@) {
                let a = choose|a: int| 0 <= a < d.len() && #[trigger] d[a]@ == items.last()@;
                assert(items[a]@ != items[items.len() - 1]@);
            }
        }
    }
}

} // verus!
