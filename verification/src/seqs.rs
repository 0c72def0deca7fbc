use vstd::prelude::*;

verus! {

/// The elements of `s` at the positions where `flags` holds, in order.
pub open spec fn keep_where<T>(s: Seq<T>, flags: Seq<bool>) -> Seq<T>
    decreases s.len(),
{
    if s.len() == 0 {
        Seq::empty()
    } else {
        let rest = keep_where(s.drop_last(), flags.take(s.len() - 1));
        if flags[s.len() - 1] {
            rest.push(s.last())
        } else {
            rest
        }
    }
}

pub proof fn lemma_keep_where_take<T>(s: Seq<T>, flags: Seq<bool>, i: int)
    requires
        0 <= i < s.len(),
        s.len() <= flags.len(),
    ensures
        keep_where(s.take(i + 1), flags.take(i + 1)) == if flags[i] {
            keep_where(s.take(i), flags.take(i)).push(s[i])
        } else {
            keep_where(s.take(i), flags.take(i))
        },
{
    assert(s.take(i + 1).drop_last() =~= s.take(i));
    assert(flags.take(i + 1).take(i) =~= flags.take(i));
}

pub proof fn lemma_keep_where_len<T>(s: Seq<T>, flags: Seq<bool>)
    requires
        s.len() <= flags.len(),
    ensures
        keep_where(s, flags).len() <= s.len(),
        (forall|k: int| 0 <= k < s.len() ==> flags[k]) ==> keep_where(s, flags) == s,
        (forall|k: int| 0 <= k < s.len() ==> !flags[k]) ==> keep_where(s, flags).len() == 0,
    decreases s.len(),
{
    if s.len() > 0 {
        let f2 = flags.take(s.len() - 1);
        lemma_keep_where_len(s.drop_last(), f2);
        if forall|k: int| 0 <= k < s.len() ==> flags[k] {
            assert forall|k: int| 0 <= k < s.drop_last().len() implies f2[k] by {
                assert(flags[k]);
                assert(f2[k] == flags[k]);
            }
            assert(s.drop_last().push(s.last()) =~= s);
        }
        if forall|k: int| 0 <= k < s.len() ==> !flags[k] {
            assert forall|k: int| 0 <= k < s.drop_last().len() implies !f2[k] by {
                assert(!flags[k]);
                assert(f2[k] == flags[k]);
            }
            assert(!flags[s.len() - 1]);
        }
    }
}

/// Keeping flagged elements is filtering when each flag is the predicate's value.
pub proof fn lemma_keep_where_filter<T>(s: Seq<T>, flags: Seq<bool>, pred: spec_fn(T) -> bool)
    requires
        s.len() <= flags.len(),
        forall|k: int| 0 <= k < s.len() ==> flags[k] == pred(s[k]),
    ensures
        keep_where(s, flags) == s.filter(pred),
    decreases s.len(),
{
    reveal(Seq::filter);
    if s.len() > 0 {
        let f2 = flags.take(s.len() - 1);
        assert forall|k: int| 0 <= k < s.drop_last().len() implies f2[k] == pred(
            s.drop_last()[k],
        ) by {
            assert(flags[k] == pred(s[k]));
        }
        lemma_keep_where_filter(s.drop_last(), f2, pred);
        assert(flags[s.len() - 1] == pred(s[s.len() - 1]));
    }
}

/// Moves out of `v` the elements whose flag holds.
pub fn keep_flagged<T>(v: Vec<T>, flags: &Vec<bool>) -> (out: Vec<T>)
    requires
        v@.len() <= flags@.len(),
    ensures
        out@ == keep_where(v@, flags@),
{
    let ghost orig = v@;
    let mut rest = v;
    let mut out: Vec<T> = Vec::new();
    let n = rest.len();
    let mut i: usize = 0;
    while i < n
        invariant
            n == orig.len(),
            n <= flags@.len(),
            i <= n,
            rest@ == orig.skip(i as int),
            out@ == keep_where(orig.take(i as int), flags@.take(i as int)),
        decreases n - i,
    {
        let x = rest.remove(0);
        proof {
            lemma_keep_where_take(orig, flags@, i as int);
            assert(orig.skip(i as int).drop_first() =~= orig.skip(i + 1));
        }
        if flags[i] {
            out.push(x);
        }
        i = i + 1;
    }
    proof {
        assert(orig.take(n as int) =~= orig);
        assert(keep_where(orig, flags@.take(n as int)) == keep_where(orig, flags@)) by {
            lemma_keep_where_prefix_flags(orig, flags@);
        }
    }
    out
}

/// Only the first `s.len()` flags matter.
pub proof fn lemma_keep_where_prefix_flags<T>(s: Seq<T>, flags: Seq<bool>)
    requires
        s.len() <= flags.len(),
    ensures
        keep_where(s, flags.take(s.len() as int)) == keep_where(s, flags),
    decreases s.len(),
{
    if s.len() > 0 {
        let n = s.len() as int;
        assert(flags.take(n).take(n - 1) =~= flags.take(n - 1));
    }
}

/// Each kept element stands at a flagged position of `s`.
pub proof fn lemma_keep_where_members<T>(s: Seq<T>, flags: Seq<bool>)
    requires
        s.len() <= flags.len(),
    ensures
        forall|j: int|
            0 <= j < keep_where(s, flags).len() ==> exists|i: int|
                0 <= i < s.len() && flags[i] && #[trigger] keep_where(s, flags)[j] == s[i],
    decreases s.len(),
{
    if s.len() > 0 {
        let d = s.drop_last();
        let f2 = flags.take(s.len() - 1);
        lemma_keep_where_members(d, f2);
        let rest = keep_where(d, f2);
        assert forall|j: int| 0 <= j < keep_where(s, flags).len() implies exists|i: int|
            0 <= i < s.len() && flags[i] && #[trigger] keep_where(s, flags)[j] == s[i] by {
            if j < rest.len() {
                assert(keep_where(s, flags)[j] == rest[j]);
                let i = choose|i: int| 0 <= i < d.len() && f2[i] && #[trigger] rest[j] == d[i];
                assert(s[i] == d[i]);
                assert(flags[i] == f2[i]);
            } else {
                assert(keep_where(s, flags)[j] == s[s.len() - 1]);
            }
        }
    }
}

} // verus!
