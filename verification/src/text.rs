use vstd::prelude::*;
use vstd::string::StrSliceExecFns;

verus! {

/// Copies the characters of a string slice into a vector.
pub fn chars_of(s: &str) -> (out: Vec<char>)
    ensures
        out@ == s@,
{
    let n = s.unicode_len();
    let mut out: Vec<char> = Vec::new();
    let mut i: usize = 0;
    while i < n
        invariant
            n == s@.len(),
            i <= n,
            out@ == s@.subrange(0, i as int),
        decreases n - i,
    {
        let c = s.get_char(i);
        out.push(c);
        i = i + 1;
    }
    out
}

/// Character-wise equality of two string slices.
pub fn str_eq(a: &str, b: &str) -> (r: bool)
    ensures
        r == (a@ == b@),
{
    let x = a.to_owned();
    let y = b.to_owned();
    x == y
}

/// `needle` occurs in `hay` starting at position `i`.
pub open spec fn occurs_at(hay: Seq<char>, needle: Seq<char>, i: int) -> bool {
    0 <= i && i + needle.len() <= hay.len() && hay.subrange(i, i + needle.len()) == needle
}

/// `needle` is a contiguous part of `hay`.
pub open spec fn has_substring(hay: Seq<char>, needle: Seq<char>) -> bool {
    exists|i: int| occurs_at(hay, needle, i)
}

fn matches_at(hay: &Vec<char>, needle: &Vec<char>, i: usize) -> (r: bool)
    requires
        i + needle@.len() <= hay@.len(),
        hay@.len() <= usize::MAX,
    ensures
        r == occurs_at(hay@, needle@, i as int),
{
    let mut j: usize = 0;
    while j < needle.len()
        invariant
            i + needle@.len() <= hay@.len(),
            hay@.len() <= usize::MAX,
            j <= needle@.len(),
            forall|k: int| 0 <= k < j ==> hay@[i + k] == needle@[k],
        decreases needle.len() - j,
    {
        if hay[i + j] != needle[j] {
            assert(hay@.subrange(i as int, i + needle@.len())[j as int] != needle@[j as int]);
            return false;
        }
        j = j + 1;
    }
    assert(hay@.subrange(i as int, i + needle@.len()) =~= needle@);
    true
}

/// Whether `needle` occurs as a contiguous part of `hay` (as `str::contains`).
pub fn contains_str(hay: &str, needle: &str) -> (r: bool)
    ensures
        r == has_substring(hay@, needle@),
{
    let h = chars_of(hay);
    let n = chars_of(needle);
    if n.len() > h.len() {
        assert forall|i: int| !occurs_at(hay@, needle@, i) by {}
        return false;
    }
    let last = h.len() - n.len();
    let mut i: usize = 0;
    while i < last
        invariant
            h@ == hay@,
            n@ == needle@,
            h@.len() <= usize::MAX,
            last + n@.len() == h@.len(),
            i <= last,
            forall|k: int| 0 <= k < i ==> !occurs_at(hay@, needle@, k),
        decreases last - i,
    {
        if matches_at(&h, &n, i) {
            return true;
        }
        i = i + 1;
    }
    let found = matches_at(&h, &n, last);
    assert(!found ==> forall|k: int| !occurs_at(hay@, needle@, k));
    found
}

/// `s` with every occurrence of the non-empty pattern `pat` replaced by
/// `rep`, occurrences taken from left to right without overlap (as
/// `str::replace` does).
pub open spec fn replace_all(s: Seq<char>, pat: Seq<char>, rep: Seq<char>) -> Seq<char>
    decreases s.len(),
{
    if pat.len() == 0 || s.len() < pat.len() {
        s
    } else if s.take(pat.len() as int) == pat {
        rep + replace_all(s.skip(pat.len() as int), pat, rep)
    } else {
        seq![s[0]] + replace_all(s.skip(1), pat, rep)
    }
}

/// Replaces every occurrence of the non-empty pattern `pat` in `s` by `rep`.
pub fn replace_str(s: &str, pat: &str, rep: &str) -> (r: String)
    requires
        pat@.len() > 0,
    ensures
        r@ == replace_all(s@, pat@, rep@),
{
    let h = chars_of(s);
    let p = chars_of(pat);
    let n = h.len();
    let plen = p.len();
    let mut out = String::new();
    let mut seg: usize = 0;
    let mut i: usize = 0;
    proof {
        assert(s@.skip(0) =~= s@);
        assert(s@.subrange(0, 0) =~= Seq::<char>::empty());
        assert(out@ + s@.subrange(0, 0) =~= Seq::<char>::empty());
    }
    while plen <= n - i
        invariant
            h@ == s@,
            p@ == pat@,
            n == s@.len(),
            plen == pat@.len(),
            plen > 0,
            seg <= i <= n,
            replace_all(s@, pat@, rep@) == out@ + s@.subrange(seg as int, i as int) + replace_all(
                s@.skip(i as int),
                pat@,
                rep@,
            ),
        decreases n - i,
    {
        let ghost rest = s@.skip(i as int);
        proof {
            assert(rest.take(plen as int) =~= s@.subrange(i as int, i + plen));
        }
        if matches_at(&h, &p, i) {
            let part = s.substring_char(seg, i);
            out.append(part);
            out.append(rep);
            proof {
                assert(rest.skip(plen as int) =~= s@.skip(i + plen));
                assert(s@.subrange((i + plen) as int, (i + plen) as int) =~= Seq::<char>::empty());
            }
            i = i + plen;
            seg = i;
        } else {
            proof {
                assert(rest.skip(1) =~= s@.skip(i + 1));
                assert(s@.subrange(seg as int, i + 1) =~= s@.subrange(seg as int, i as int) + seq![rest[0]]);
            }
            i = i + 1;
        }
    }
    proof {
        assert(s@.subrange(seg as int, i as int) + s@.skip(i as int) =~= s@.subrange(seg as int, n as int));
    }
    let tail = s.substring_char(seg, n);
    out.append(tail);
    out
}

/// Unicode lower-casing of a character sequence, as `str::to_lowercase` computes it.
pub uninterp spec fn lowercase(s: Seq<char>) -> Seq<char>;

/// Calls `str::to_lowercase`. Its result depends on the characters of the
/// argument alone; this contract names it `lowercase` and says no more of it.
#[verifier::external_body]
pub(crate) fn to_lowercase(s: &str) -> (r: String)
    ensures
        r@ == lowercase(s@),
{
    s.to_lowercase()
}

/// Whether two strings are equal once both are lower-cased.
pub fn eq_ignore_case(a: &str, b: &str) -> (r: bool)
    ensures
        r == (lowercase(a@) == lowercase(b@)),
{
    let x = to_lowercase(a);
    let y = to_lowercase(b);
    x == y
}

/// Whether a sequence of strings holds a string with the given characters.
pub open spec fn seq_has(items: Seq<String>, s: Seq<char>) -> bool {
    exists|i: int| 0 <= i < items.len() && #[trigger] items[i]@ == s
}

/// Whether `items` holds a string equal to `s`.
pub fn vec_contains_str(items: &Vec<String>, s: &str) -> (r: bool)
    ensures
        r == seq_has(items@, s@),
{
    let mut i: usize = 0;
    while i < items.len()
        invariant
            i <= items@.len(),
            forall|k: int| 0 <= k < i ==> #[trigger] items@[k]@ != s@,
        decreases items.len() - i,
    {
        if str_eq(items[i].as_str(), s) {
            return true;
        }
        i = i + 1;
    }
    false
}

} // verus!
