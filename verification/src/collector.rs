use vstd::prelude::*;
use crate::market::{MarketProvider, backoff_after, doubled_backoff, law_backoff_sequence, MAX_COLLECTION_BACKOFF_SECS};
use crate::bus::pow2;
use crate::strset::{StringSet, string_set, strings_unique};

verus! {

/// The tokens the collector streams prices for.
pub struct WatchList {
    tokens: StringSet,
}

impl View for WatchList {
    type V = Set<Seq<char>>;

    closed spec fn view(&self) -> Set<Seq<char>> {
        self.tokens@
    }
}

impl WatchList {
    /// No token is stored twice.
    pub closed spec fn wf(&self) -> bool {
        self.tokens.wf()
    }

    /// No token is watched.
    pub fn new() -> (r: Self)
        ensures
            r.wf(),
            r@ == Set::<Seq<char>>::empty(),
    {
        WatchList { tokens: StringSet::new() }
    }

    /// The watched tokens, each once.
    pub fn tokens(&self) -> (v: Vec<String>)
        requires
            self.wf(),
        ensures
            string_set(v@) == self@,
            strings_unique(v@),
    {
        proof {
            self.tokens.lemma_members();
        }
        self.tokens.to_vec()
    }

    /// Replaces the watched tokens by `new_tokens`. When the set of tokens
    /// changes while the stream is connected, the stream must reconnect to
    /// subscribe to the new set; the result says whether it must.
    pub fn update_tracked_tokens(&mut self, new_tokens: Vec<String>, ws_connected: bool) -> (reconnect: bool)
        requires
            old(self).wf(),
        ensures
            final(self).wf(),
            (final(self)@, reconnect) == watch_update(old(self)@, new_tokens@, ws_connected),
            final(self)@ == string_set(new_tokens@),
            reconnect == (ws_connected && exists|t: Seq<char>|
                old(self)@.contains(t) != #[trigger] string_set(new_tokens@).contains(t)),
    {
        proof {
            law_reconnect_on_membership_change(old(self)@, new_tokens@, ws_connected);
        }
        let next = StringSet::from_vec(new_tokens);
        let changed = !self.tokens.same_members(&next);
        if changed {
            self.tokens = next;
        }
        changed && ws_connected
    }
}

/// The watched set after an update with `new_tokens`, and whether the
/// stream must reconnect: it must when it is connected and the set changed.
pub open spec fn watch_update(before: Set<Seq<char>>, new_tokens: Seq<String>, ws_connected: bool) -> (Set<Seq<char>>, bool) {
    (string_set(new_tokens), ws_connected && before != string_set(new_tokens))
}

/// An update asks for a reconnection exactly when the stream is connected
/// and some token was added to or removed from the watched set; the watched
/// set becomes the new tokens.
pub proof fn law_reconnect_on_membership_change(before: Set<Seq<char>>, new_tokens: Seq<String>, ws_connected: bool)
    ensures
        watch_update(before, new_tokens, ws_connected).0 == string_set(new_tokens),
        watch_update(before, new_tokens, ws_connected).1 == (ws_connected && exists|t: Seq<char>|
            before.contains(t) != #[trigger] string_set(new_tokens).contains(t)),
{
    let after = string_set(new_tokens);
    if before != after {
        if !(exists|t: Seq<char>| before.contains(t) != #[trigger] after.contains(t)) {
            assert(before =~= after);
        }
    } else {
        assert(forall|t: Seq<char>| before.contains(t) == #[trigger] after.contains(t));
    }
}

/// Updating the watched tokens twice with the same tokens never asks for a
/// second reconnection, and the second update leaves the set as the first
/// left it.
pub proof fn law_update_tracked_tokens_idempotent(
    before: Set<Seq<char>>,
    new_tokens: Seq<String>,
    first_connected: bool,
    second_connected: bool,
)
    ensures
        ({
            let (after_first, _) = watch_update(before, new_tokens, first_connected);
            let (after_second, reconnect) = watch_update(after_first, new_tokens, second_connected);
            after_second == after_first && !reconnect
        }),
{
}

/// Price updates are written in batches of at most this many.
pub const FLUSH_BATCH_SIZE: usize = 20;

/// A non-empty batch is written at least this often, in milliseconds.
pub const FLUSH_INTERVAL_MS: u64 = 100;

/// Whether the batch of price updates is written now: it is not empty, and
/// it is full or the flush interval has passed since the last write.
pub fn should_flush_batch(batch_len: usize, elapsed_ms: u64) -> (r: bool)
    ensures
        r == (batch_len > 0 && (elapsed_ms >= FLUSH_INTERVAL_MS || batch_len >= FLUSH_BATCH_SIZE)),
{
    batch_len > 0 && (elapsed_ms >= FLUSH_INTERVAL_MS || batch_len >= FLUSH_BATCH_SIZE)
}

/// Whether the collector's provider streams prices; without a provider it
/// does not.
pub fn has_websocket_support(provider: &Option<MarketProvider>) -> (r: bool)
    ensures
        r == (match provider {
            Some(p) => p.is_coincap(),
            None => false,
        }),
{
    match provider {
        Some(p) => p.supports_websocket(),
        None => false,
    }
}

/// What the streaming task does at the top of its loop.
#[derive(PartialEq, Eq, Structural, Clone, Copy, Debug)]
pub enum WsTaskStep {
    /// No token is watched yet: wait five seconds.
    WaitForTokens,
    /// The provider cannot stream: wait thirty seconds.
    NoStreamSupport,
    /// Connect for the watched tokens.
    Connect,
}

/// The streaming task's next step.
pub fn ws_task_step(watched_count: usize, supports_websocket: bool) -> (r: WsTaskStep)
    ensures
        watched_count == 0 ==> r == WsTaskStep::WaitForTokens,
        watched_count > 0 && !supports_websocket ==> r == WsTaskStep::NoStreamSupport,
        watched_count > 0 && supports_websocket ==> r == WsTaskStep::Connect,
{
    if watched_count == 0 {
        WsTaskStep::WaitForTokens
    } else if !supports_websocket {
        WsTaskStep::NoStreamSupport
    } else {
        WsTaskStep::Connect
    }
}

/// After a connection attempt (`connected` tells whether it succeeded) with
/// the back-off `backoff`: whether the stream counts as connected, the wait
/// before the next attempt, and the back-off that follows. On success there
/// is no wait and the back-off returns to one second; on failure the task
/// waits the back-off and doubles it, up to a minute.
pub open spec fn connect_step(connected: bool, backoff: u64) -> (bool, Option<u64>, u64) {
    if connected {
        (true, None, 1)
    } else {
        (false, Some(backoff), doubled_backoff(backoff))
    }
}

/// The step after a connection attempt; see `connect_step`.
pub fn ws_connect_outcome(connected: bool, backoff_secs: u64) -> (r: (bool, Option<u64>, u64))
    requires
        1 <= backoff_secs <= MAX_COLLECTION_BACKOFF_SECS,
    ensures
        r == connect_step(connected, backoff_secs),
        1 <= r.2 <= MAX_COLLECTION_BACKOFF_SECS,
{
    if connected {
        return (true, None, 1);
    }
    let doubled = backoff_secs * 2;
    let next = if doubled < MAX_COLLECTION_BACKOFF_SECS { doubled } else { MAX_COLLECTION_BACKOFF_SECS };
    (false, Some(backoff_secs), next)
}

/// The back-off after a run of connection attempts (`attempts`, in order,
/// true for a success) that began with the back-off `start`.
pub open spec fn backoff_after_attempts(start: u64, attempts: Seq<bool>) -> u64
    decreases attempts.len(),
{
    if attempts.len() == 0 {
        start
    } else {
        connect_step(attempts.last(), backoff_after_attempts(start, attempts.drop_last())).2
    }
}

/// `k` failed attempts in a row.
pub open spec fn failures(k: nat) -> Seq<bool> {
    Seq::new(k, |i: int| false)
}

proof fn lemma_failures_from_reset(start: u64, before: Seq<bool>, k: nat)
    requires
        backoff_after_attempts(start, before) == 1,
    ensures
        backoff_after_attempts(start, before + failures(k)) == backoff_after(k),
    decreases k,
{
    if k == 0 {
        assert(before + failures(0) =~= before);
    } else {
        lemma_failures_from_reset(start, before, (k - 1) as nat);
        let s = before + failures(k);
        assert(s.drop_last() =~= before + failures((k - 1) as nat));
        assert(s.last() == false);
    }
}

/// Connection failures back off exponentially: when the task starts (with a
/// back-off of one second) or after a successful connection, the `j`-th
/// failure in a row leaves the stream disconnected and waits 2^(j-1)
/// seconds, capped at a minute, before the next attempt; a success leaves
/// the stream connected with no wait and the back-off at one second.
pub proof fn law_ws_connect_backoff(before: Seq<bool>, j: nat)
    requires
        j >= 1,
        before.len() == 0 || before.last(),
    ensures
        ({
            let b = backoff_after_attempts(1, before + failures((j - 1) as nat));
            let pw = pow2((j - 1) as nat);
            &&& !connect_step(false, b).0
            &&& connect_step(false, b).1 == Some((if pw < MAX_COLLECTION_BACKOFF_SECS {
                pw
            } else {
                MAX_COLLECTION_BACKOFF_SECS as nat
            }) as u64)
            &&& connect_step(true, b) == (true, None::<u64>, 1u64)
        }),
{
    law_backoff_sequence((j - 1) as nat);
    lemma_failures_from_reset(1, before, (j - 1) as nat);
}

/// Why the streaming tasks cannot be set up.
#[derive(PartialEq, Eq, Structural, Clone, Copy, Debug)]
pub enum WsSetupError {
    /// No market provider has been chosen yet.
    NoProvider,
}

/// Whether the streaming tasks are started: an error without a provider;
/// none (the setup is skipped, successfully) when the provider cannot
/// stream; otherwise they start.
pub fn ws_setup(provider: &Option<MarketProvider>) -> (r: Result<bool, WsSetupError>)
    ensures
        provider is None ==> r == Err::<bool, WsSetupError>(WsSetupError::NoProvider),
        provider matches Some(p) ==> r == Ok::<bool, WsSetupError>(p.is_coincap()),
{
    match provider {
        None => Err(WsSetupError::NoProvider),
        Some(p) => Ok(p.supports_websocket()),
    }
}

/// What ends the streaming task's wait while it is connected.
#[derive(PartialEq, Eq, Structural, Clone, Copy, Debug)]
pub enum WsWaitOutcome {
    /// A reconnection was requested: disconnect, mark the stream down and
    /// connect again.
    Reconnect,
    /// The five-minute heartbeat found the stream down: leave the loop.
    StreamDown,
    /// The heartbeat found the stream up: keep waiting.
    StillUp,
}

/// The streaming task's step after its wait: a reconnection request wins;
/// otherwise the heartbeat checks whether the stream is still connected.
pub fn ws_wait_outcome(reconnect_requested: bool, ws_connected: bool) -> (r: WsWaitOutcome)
    ensures
        reconnect_requested ==> r == WsWaitOutcome::Reconnect,
        !reconnect_requested && !ws_connected ==> r == WsWaitOutcome::StreamDown,
        !reconnect_requested && ws_connected ==> r == WsWaitOutcome::StillUp,
{
    if reconnect_requested {
        WsWaitOutcome::Reconnect
    } else if !ws_connected {
        WsWaitOutcome::StreamDown
    } else {
        WsWaitOutcome::StillUp
    }
}

} // verus!
