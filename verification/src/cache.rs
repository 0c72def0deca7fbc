use vstd::prelude::*;
use crate::market::opt_view;
use crate::text::{contains_str, has_substring, replace_all, replace_str};

verus! {

/// Seconds a cached token's metadata lives.
pub const TOKEN_METADATA_TTL: usize = 3600;

/// Seconds a cached price lives.
pub const PRICE_DATA_TTL: usize = 60;

/// Seconds a cached token list lives.
pub const TOKEN_LIST_TTL: usize = 300;

/// The cache key of a token's metadata.
pub open spec fn metadata_key_spec(token_id: Seq<char>) -> Seq<char> {
    "token:metadata:"@ + token_id
}

/// The cache key of a token's price.
pub open spec fn price_key_spec(token_id: Seq<char>) -> Seq<char> {
    "token:price:"@ + token_id
}

/// The cache key of a token's metadata.
pub fn metadata_key(token_id: &str) -> (k: String)
    ensures
        k@ == metadata_key_spec(token_id@),
{
    let mut k = String::from_str("token:metadata:");
    k.append(token_id);
    k
}

/// The cache key of a token's price.
pub fn price_key(token_id: &str) -> (k: String)
    ensures
        k@ == price_key_spec(token_id@),
{
    let mut k = String::from_str("token:price:");
    k.append(token_id);
    k
}

/// The key under which database metadata of a token is cached (before the
/// cache's prefix is applied).
pub fn token_meta_key(token_id: &str) -> (k: String)
    ensures
        k@ == "token:meta:"@ + token_id@,
{
    let mut k = String::from_str("token:meta:");
    k.append(token_id);
    k
}

/// A caller's key under the cache's prefix: the prefix, a colon, the key.
pub fn prefixed_key(prefix: &str, key: &str) -> (k: String)
    ensures
        k@ == prefix@ + ":"@ + key@,
{
    let mut k = String::from_str(prefix);
    k.append(":");
    k.append(key);
    k
}

/// When a Redis address naming `localhost` cannot be reached, the same
/// address with `127.0.0.1` in its place is tried; for other addresses there
/// is no second try.
pub fn redis_fallback_url(url: &str) -> (r: Option<String>)
    ensures
        has_substring(url@, "localhost"@) ==> r is Some && r->0@ == replace_all(url@, "localhost"@, "127.0.0.1"@),
        !has_substring(url@, "localhost"@) ==> r is None,
{
    if contains_str(url, "localhost") {
        proof {
            reveal_strlit("localhost");
        }
        Some(replace_str(url, "localhost", "127.0.0.1"))
    } else {
        None
    }
}

/// Why the cache refuses a request.
#[derive(PartialEq, Eq, Structural, Clone, Copy, Debug)]
pub enum CacheError {
    /// The cache is switched off.
    Disabled,
    /// The cache is switched on but its connection pool was not made.
    PoolNotInitialized,
}

/// Whether the cache is switched on and whether its connection pool exists.
#[derive(PartialEq, Eq, Structural, Clone, Copy, Debug)]
pub struct CacheStatus {
    pub enabled: bool,
    pub pool_ready: bool,
}

impl CacheStatus {
    /// The cache can serve requests: it is on and has its pool.
    pub fn is_enabled(&self) -> (r: bool)
        ensures
            r == (self.enabled && self.pool_ready),
    {
        self.enabled && self.pool_ready
    }

    /// Checks the cache at start-up: a cache that is on without a pool is an
    /// error; one that is off, or on with its pool, is fine.
    pub fn initialize(&self) -> (r: Result<(), CacheError>)
        ensures
            r == (if self.enabled && !self.pool_ready {
                Err::<(), CacheError>(CacheError::PoolNotInitialized)
            } else {
                Ok::<(), CacheError>(())
            }),
    {
        if self.is_enabled() {
            Ok(())
        } else if !self.enabled {
            Ok(())
        } else {
            Err(CacheError::PoolNotInitialized)
        }
    }

    /// Whether a connection may be taken from the pool.
    pub fn connection_gate(&self) -> (r: Result<(), CacheError>)
        ensures
            r == (if self.enabled && self.pool_ready {
                Ok::<(), CacheError>(())
            } else if self.enabled {
                Err::<(), CacheError>(CacheError::PoolNotInitialized)
            } else {
                Err::<(), CacheError>(CacheError::Disabled)
            }),
    {
        if !self.enabled {
            Err(CacheError::Disabled)
        } else if !self.pool_ready {
            Err(CacheError::PoolNotInitialized)
        } else {
            Ok(())
        }
    }
}

/// `s` with every element after its first occurrence left out, the rest in
/// order.
pub open spec fn first_occurrences(s: Seq<Seq<char>>) -> Seq<Seq<char>>
    decreases s.len(),
{
    if s.len() == 0 {
        s
    } else if first_occurrences(s.drop_last()).contains(s.last()) {
        first_occurrences(s.drop_last())
    } else {
        first_occurrences(s.drop_last()).push(s.last())
    }
}

/// No element occurs twice.
pub open spec fn no_repeats(s: Seq<Seq<char>>) -> bool {
    forall|i: int, j: int| 0 <= i < j < s.len() ==> s[i] != s[j]
}

/// The views of a sequence of strings.
pub open spec fn views(s: Seq<String>) -> Seq<Seq<char>> {
    s.map_values(|x: String| x@)
}

/// What keeping first occurrences keeps: each element of `s` once, nothing
/// else.
pub proof fn lemma_first_occurrences(s: Seq<Seq<char>>)
    ensures
        no_repeats(first_occurrences(s)),
        forall|x: Seq<char>| #[trigger] first_occurrences(s).contains(x) <==> s.contains(x),
    decreases s.len(),
{
    if s.len() > 0 {
        let d = s.drop_last();
        lemma_first_occurrences(d);
        let r = first_occurrences(d);
        assert forall|x: Seq<char>| #[trigger] first_occurrences(s).contains(x) <==> s.contains(x) by {
            if s.contains(x) {
                let j = choose|j: int| 0 <= j < s.len() && s[j] == x;
                if j < s.len() - 1 {
                    assert(d[j] == x);
                    assert(d.contains(x));
                    assert(r.contains(x));
                    let k = choose|k: int| 0 <= k < r.len() && r[k] == x;
                    if !r.contains(s.last()) {
                        assert(r.push(s.last())[k] == x);
                    }
                } else if !r.contains(s.last()) {
                    assert(r.push(s.last())[r.len() as int] == x);
                }
            }
            if first_occurrences(s).contains(x) {
                if r.contains(x) {
                    assert(d.contains(x));
                    let k = choose|k: int| 0 <= k < d.len() && d[k] == x;
                    assert(s[k] == x);
                } else {
                    let k = choose|k: int| 0 <= k < first_occurrences(s).len() && first_occurrences(s)[k] == x;
                    if k < r.len() {
                        assert(r[k] == x);
                    }
                    assert(s[s.len() - 1] == x);
                }
            }
        }
        if !r.contains(s.last()) {
            let full = r.push(s.last());
            assert forall|i: int, j: int| 0 <= i < j < full.len() implies full[i] != full[j] by {
                if j == full.len() - 1 {
                    assert(full[i] == r[i]);
                } else {
                    assert(full[i] == r[i] && full[j] == r[j]);
                }
            }
        }
    }
}

/// The tokens to write back to the database, each once: the prioritised
/// ones first, then the pending ones not already listed.
pub fn flush_token_order(priority: Vec<String>, pending: Vec<String>) -> (out: Vec<String>)
    ensures
        views(out@) == first_occurrences(views(priority@) + views(pending@)),
{
    let mut all = priority;
    let mut rest = pending;
    let ghost a0 = all@;
    let ghost b0 = rest@;
    all.append(&mut rest);
    let ghost combined = views(all@);
    proof {
        assert(combined =~= views(a0) + views(b0));
    }
    let mut out: Vec<String> = Vec::new();
    let mut i: usize = 0;
    proof {
        assert(views(out@) =~= first_occurrences(combined.take(0)));
    }
    while i < all.len()
        invariant
            i <= all@.len(),
            combined == views(all@),
            views(out@) == first_occurrences(combined.take(i as int)),
        decreases all.len() - i,
    {
        let ghost t = combined.take(i + 1);
        proof {
            assert(t.drop_last() =~= combined.take(i as int));
            assert(t.last() == all@[i as int]@);
        }
        let seen = crate::text::vec_contains_str(&out, all[i].as_str());
        proof {
            assert(seen == views(out@).contains(all@[i as int]@)) by {
                if seen {
                    let k = choose|k: int| 0 <= k < out@.len() && #[trigger] out@[k]@ == all@[i as int]@;
                    assert(views(out@)[k] == all@[i as int]@);
                }
                if views(out@).contains(all@[i as int]@) {
                    let k = choose|k: int| 0 <= k < views(out@).len() && views(out@)[k] == all@[i as int]@;
                    assert(out@[k]@ == all@[i as int]@);
                }
            }
        }
        if !seen {
            let ghost before = out@;
            out.push(all[i].clone());
            proof {
                assert(views(out@) =~= views(before).push(all@[i as int]@));
            }
        }
        i = i + 1;
    }
    proof {
        assert(combined.take(all@.len() as int) =~= combined);
    }
    out
}

/// The tokens written back list each token once, and exactly the tokens
/// that were prioritised or pending.
pub proof fn law_flush_order(priority: Seq<String>, pending: Seq<String>)
    ensures
        no_repeats(first_occurrences(views(priority) + views(pending))),
        forall|x: Seq<char>| #[trigger] first_occurrences(views(priority) + views(pending)).contains(x)
            <==> (views(priority).contains(x) || views(pending).contains(x)),
{
    let c = views(priority) + views(pending);
    lemma_first_occurrences(c);
    assert forall|x: Seq<char>| #[trigger] c.contains(x) <==> (views(priority).contains(x) || views(pending).contains(x)) by {
        if c.contains(x) {
            let j = choose|j: int| 0 <= j < c.len() && c[j] == x;
            if j < views(priority).len() {
                assert(views(priority)[j] == x);
            } else {
                assert(views(pending)[j - views(priority).len()] == x);
            }
        }
        if views(priority).contains(x) {
            let j = choose|j: int| 0 <= j < views(priority).len() && views(priority)[j] == x;
            assert(c[j] == x);
        }
        if views(pending).contains(x) {
            let j = choose|j: int| 0 <= j < views(pending).len() && views(pending)[j] == x;
            assert(c[j + views(priority).len()] == x);
        }
    }
}

/// The entry at `k` of a pipeline's replies, or none past their end.
pub open spec fn reply_at(replies: Seq<Option<String>>, k: int) -> Option<Seq<char>> {
    if 0 <= k < replies.len() {
        opt_view(replies[k])
    } else {
        None
    }
}

fn clone_reply(replies: &Vec<Option<String>>, k: usize) -> (r: Option<String>)
    ensures
        opt_view(r) == reply_at(replies@, k as int),
{
    if k < replies.len() {
        match &replies[k] {
            Some(s) => Some(s.clone()),
            None => None,
        }
    } else {
        None
    }
}

/// The replies of a pipeline that read, for each of `count` tokens in turn,
/// the metadata key and then the price key, paired per token: token `i`
/// gets replies `2i` and `2i + 1`, a missing reply counting as none.
pub fn pair_pipeline_replies(count: usize, replies: &Vec<Option<String>>) -> (pairs: Vec<(Option<String>, Option<String>)>)
    requires
        count <= usize::MAX / 2,
    ensures
        pairs@.len() == count,
        forall|i: int|
            0 <= i < count ==> opt_view(#[trigger] pairs@[i].0) == reply_at(replies@, 2 * i) && opt_view(
                pairs@[i].1,
            ) == reply_at(replies@, 2 * i + 1),
{
    let mut pairs: Vec<(Option<String>, Option<String>)> = Vec::new();
    let mut i: usize = 0;
    while i < count
        invariant
            i <= count <= usize::MAX / 2,
            pairs@.len() == i,
            forall|j: int|
                0 <= j < i ==> opt_view(#[trigger] pairs@[j].0) == reply_at(replies@, 2 * j) && opt_view(
                    pairs@[j].1,
                ) == reply_at(replies@, 2 * j + 1),
        decreases count - i,
    {
        let meta = clone_reply(replies, 2 * i);
        let price = clone_reply(replies, 2 * i + 1);
        pairs.push((meta, price));
        i = i + 1;
    }
    pairs
}

/// Keys `2j` and `2j + 1` are the price and metadata keys of token `j`.
pub open spec fn flush_pair(keys: Seq<String>, tokens: Seq<String>, j: int) -> bool {
    &&& keys[2 * j]@ == price_key_spec(tokens[j]@)
    &&& keys[2 * j + 1]@ == metadata_key_spec(tokens[j]@)
}

/// The keys a flush clears: for each token, its price key and then its
/// metadata key.
pub fn flush_keys(tokens: &Vec<String>) -> (keys: Vec<String>)
    requires
        tokens@.len() <= usize::MAX / 2,
    ensures
        keys@.len() == 2 * tokens@.len(),
        forall|j: int| 0 <= j < tokens@.len() ==> #[trigger] flush_pair(keys@, tokens@, j),
{
    let mut keys: Vec<String> = Vec::new();
    let mut i: usize = 0;
    while i < tokens.len()
        invariant
            i <= tokens@.len() <= usize::MAX / 2,
            keys@.len() == 2 * i,
            forall|j: int| 0 <= j < i ==> #[trigger] flush_pair(keys@, tokens@, j),
        decreases tokens.len() - i,
    {
        let p = price_key(tokens[i].as_str());
        let m = metadata_key(tokens[i].as_str());
        let ghost before = keys@;
        keys.push(p);
        keys.push(m);
        proof {
            assert forall|j: int| 0 <= j < i + 1 implies #[trigger] flush_pair(keys@, tokens@, j) by {
                if j < i {
                    assert(flush_pair(before, tokens@, j));
                    assert(keys@[2 * j] == before[2 * j]);
                    assert(keys@[2 * j + 1] == before[2 * j + 1]);
                } else {
                    assert(keys@[2 * j] == p);
                    assert(keys@[2 * j + 1] == m);
                }
            }
        }
        i = i + 1;
    }
    keys
}

/// A token is loaded into the cache at start-up when its metadata or its
/// price is missing there.
pub fn needs_preload(metadata_cached: bool, price_cached: bool) -> (r: bool)
    ensures
        r == (!metadata_cached || !price_cached),
{
    !metadata_cached || !price_cached
}

} // verus!
