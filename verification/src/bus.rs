use vstd::prelude::*;
use crate::assoc::{Entry, entries_map, keys_unique, find_entry, set_entry, lemma_entries_domain, lemma_entries_value, lemma_entries_update, lemma_entries_push};
use crate::clock::{instant_now, millis_since, random_u64};
use std::time::Instant;
use crate::text::str_eq;
use crate::seqs::{keep_where, keep_flagged, lemma_keep_where_filter, lemma_keep_where_len, lemma_keep_where_members};

verus! {

/// Bookkeeping for one subscriber of a topic. `sender` is the channel end
/// the bus delivers to; the bus itself never sends, it only keeps the count
/// of consecutive failed deliveries that its caller reports.
pub struct SubscriberInfo<S> {
    pub sender: S,
    pub subscriber_id: u64,
    pub consecutive_failures: u32,
    pub last_failed: Option<u64>,
    pub is_reconnecting: bool,
    pub actor_type: String,
}

impl<S> SubscriberInfo<S> {
    /// A fresh subscriber with a random identifier (drawn from the operating
    /// system's source) and a clean failure record; none when no identifier
    /// could be drawn.
    pub fn new(sender: S, actor_type: String) -> (r: Option<Self>)
        ensures
            r matches Some(sub) ==> {
                &&& sub.sender == sender
                &&& sub.actor_type == actor_type
                &&& sub.consecutive_failures == 0
                &&& sub.last_failed is None
                &&& !sub.is_reconnecting
            },
    {
        match random_u64() {
            Some(id) => Some(SubscriberInfo::with_id(sender, actor_type, id)),
            None => None,
        }
    }

    /// A subscriber with the given identifier and a clean failure record.
    pub fn with_id(sender: S, actor_type: String, subscriber_id: u64) -> (r: Self)
        ensures
            r.sender == sender,
            r.actor_type == actor_type,
            r.subscriber_id == subscriber_id,
            r.consecutive_failures == 0,
            r.last_failed is None,
            !r.is_reconnecting,
    {
        SubscriberInfo {
            sender,
            subscriber_id,
            consecutive_failures: 0,
            last_failed: None,
            is_reconnecting: false,
            actor_type,
        }
    }

    /// The only subscriber of a topic left without any: its identifier is
    /// random when the system's source gives one and 0 otherwise, which is
    /// unique in its topic either way.
    fn sole_subscriber(sender: S, actor_type: String) -> (r: Self)
        ensures
            r.sender == sender,
            r.actor_type == actor_type,
            r.consecutive_failures == 0,
            r.last_failed is None,
            !r.is_reconnecting,
    {
        let id = match random_u64() {
            Some(id) => id,
            None => 0,
        };
        SubscriberInfo::with_id(sender, actor_type, id)
    }
}

/// Whether `id` is used by none of `subs`.
pub open spec fn id_unused<S>(subs: Seq<SubscriberInfo<S>>, id: u64) -> bool {
    forall|j: int| 0 <= j < subs.len() ==> (#[trigger] subs[j]).subscriber_id != id
}

fn id_is_unused<S>(subs: &Vec<SubscriberInfo<S>>, id: u64) -> (r: bool)
    ensures
        r == id_unused(subs@, id),
{
    let mut j: usize = 0;
    while j < subs.len()
        invariant
            j <= subs@.len(),
            forall|k: int| 0 <= k < j ==> (#[trigger] subs@[k]).subscriber_id != id,
        decreases subs.len() - j,
    {
        if subs[j].subscriber_id == id {
            return false;
        }
        j = j + 1;
    }
    true
}


/// The subscribers of one event type.
pub struct Topic<S> {
    pub name: String,
    pub subscribers: Vec<SubscriberInfo<S>>,
}

/// The last event seen for a token: when, and the event's rendering.
pub struct TokenEventInfo {
    pub last_event_time: u64,
    pub last_event_type: String,
}

impl TokenEventInfo {
    /// Records `event_type` as seen now, by `bus`'s clock.
    pub fn new<S>(event_type: String, bus: &mut MessageBus<S>) -> (r: Self)
        requires
            old(bus).wf(),
        ensures
            final(bus).wf(),
            r.last_event_type == event_type,
            r.last_event_time >= old(bus).clock_floor(),
            r.last_event_time == final(bus).clock_floor(),
            final(bus).topics() == old(bus).topics(),
            final(bus).token_events() == old(bus).token_events(),
            final(bus).deduplication_window() == old(bus).deduplication_window(),
            final(bus).buy_order_locks() == old(bus).buy_order_locks(),
            final(bus).recovery() == old(bus).recovery(),
    {
        let t = bus.clock_ms();
        TokenEventInfo { last_event_time: t, last_event_type: event_type }
    }

    /// Records `event_type` as seen at `time_ms`.
    pub fn seen_at(event_type: String, time_ms: u64) -> (r: Self)
        ensures
            r.last_event_type == event_type,
            r.last_event_time == time_ms,
    {
        TokenEventInfo { last_event_time: time_ms, last_event_type: event_type }
    }
}

/// When recovery was last attempted for an event type, and how many attempts
/// have been made since the counter was last reset.
pub struct RecoveryRecord {
    pub last_attempt: Option<u64>,
    pub attempts: u64,
}

/// Milliseconds from `then` to `now`, zero when the clock stands before `then`.
pub open spec fn elapsed(now: u64, then: u64) -> int {
    if now >= then {
        now - then
    } else {
        0
    }
}

fn elapsed_ms(now: u64, then: u64) -> (r: u64)
    ensures
        r == elapsed(now, then),
{
    if now >= then {
        now - then
    } else {
        0
    }
}

/// Topic names are pairwise distinct.
pub open spec fn names_unique<S>(topics: Seq<Topic<S>>) -> bool {
    forall|i: int, j: int|
        0 <= i < topics.len() && 0 <= j < topics.len() && i != j ==> topics[i].name@
            != topics[j].name@
}

/// Whether a topic with this name exists.
pub open spec fn has_topic<S>(topics: Seq<Topic<S>>, name: Seq<char>) -> bool {
    exists|i: int| 0 <= i < topics.len() && topics[i].name@ == name
}

/// The position of the topic with this name (meaningful when it exists).
pub open spec fn topic_pos<S>(topics: Seq<Topic<S>>, name: Seq<char>) -> int {
    choose|i: int| 0 <= i < topics.len() && topics[i].name@ == name
}

/// The subscribers registered for an event type; none when the topic is absent.
pub open spec fn subscribers_for<S>(topics: Seq<Topic<S>>, name: Seq<char>) -> Seq<
    SubscriberInfo<S>,
> {
    if has_topic(topics, name) {
        topics[topic_pos(topics, name)].subscribers@
    } else {
        Seq::empty()
    }
}

pub proof fn lemma_topic_pos<S>(topics: Seq<Topic<S>>, i: int)
    requires
        names_unique(topics),
        0 <= i < topics.len(),
    ensures
        has_topic(topics, topics[i].name@),
        topic_pos(topics, topics[i].name@) == i,
        subscribers_for(topics, topics[i].name@) == topics[i].subscribers@,
{
    assert(has_topic(topics, topics[i].name@));
}

/// Replacing the subscribers of topic `i` changes what `subscribers_for`
/// gives for that name only.
pub proof fn lemma_topic_update<S>(topics: Seq<Topic<S>>, i: int, t: Topic<S>)
    requires
        names_unique(topics),
        0 <= i < topics.len(),
        t.name@ == topics[i].name@,
    ensures
        names_unique(topics.update(i, t)),
        forall|n: Seq<char>| #[trigger]
            has_topic(topics.update(i, t), n) == has_topic(topics, n),
        subscribers_for(topics.update(i, t), t.name@) == t.subscribers@,
        forall|n: Seq<char>|
            n != t.name@ ==> #[trigger] subscribers_for(topics.update(i, t), n)
                == subscribers_for(topics, n),
{
    let u = topics.update(i, t);
    assert(names_unique(u));
    assert forall|n: Seq<char>| #[trigger] has_topic(u, n) == has_topic(topics, n) by {
        if has_topic(u, n) {
            let j = choose|j: int| 0 <= j < u.len() && u[j].name@ == n;
            assert(topics[j].name@ == n);
        }
        if has_topic(topics, n) {
            let j = choose|j: int| 0 <= j < topics.len() && topics[j].name@ == n;
            assert(u[j].name@ == n);
        }
    }
    lemma_topic_pos(u, i);
    assert forall|n: Seq<char>| n != t.name@ implies #[trigger] subscribers_for(u, n)
        == subscribers_for(topics, n) by {
        if has_topic(topics, n) {
            let j = topic_pos(topics, n);
            lemma_topic_pos(topics, j);
            assert(j != i);
            lemma_topic_pos(u, j);
        }
    }
}

/// Whether an event rendered as `event_key` for `token` repeats the last one
/// recorded for that token within the deduplication window.
pub open spec fn is_duplicate_event(
    events: Map<Seq<char>, TokenEventInfo>,
    token: Seq<char>,
    event_key: Seq<char>,
    now: u64,
    window: u64,
) -> bool {
    &&& events.contains_key(token)
    &&& events[token].last_event_type@ == event_key
    &&& elapsed(now, events[token].last_event_time) < window
}

/// A buy order for `token` was let through less than 120 s ago.
pub open spec fn buy_order_locked(locks: Map<Seq<char>, u64>, token: Seq<char>, now: u64) -> bool {
    locks.contains_key(token) && elapsed(now, locks[token]) < 120_000
}

/// The buy-order locks younger than 180 s.
pub open spec fn prune_locks(locks: Map<Seq<char>, u64>, now: u64) -> Map<Seq<char>, u64> {
    Map::new(|k: Seq<char>| locks.contains_key(k) && elapsed(now, locks[k]) < 180_000, |k: Seq<char>| locks[k])
}

/// 2 to the power `n`.
pub open spec fn pow2(n: nat) -> nat
    decreases n,
{
    if n == 0 {
        1
    } else {
        2 * pow2((n - 1) as nat)
    }
}

/// Seconds to wait after `attempts` recovery attempts: none before the first,
/// then 2^attempts, at most 30.
pub open spec fn recovery_backoff_secs(attempts: u64) -> int {
    if attempts == 0 {
        0
    } else if pow2(attempts as nat) < 30 {
        pow2(attempts as nat) as int
    } else {
        30
    }
}

/// Attempts recorded for an event type (zero when none are).
pub open spec fn attempts_of(rec: Map<Seq<char>, RecoveryRecord>, ev: Seq<char>) -> u64 {
    if rec.contains_key(ev) {
        rec[ev].attempts
    } else {
        0
    }
}

/// Milliseconds since the last recovery attempt; an hour when none is recorded.
pub open spec fn since_last_attempt(rec: Map<Seq<char>, RecoveryRecord>, ev: Seq<char>, now: u64) -> int {
    if rec.contains_key(ev) && rec[ev].last_attempt is Some {
        elapsed(now, rec[ev].last_attempt->0)
    } else {
        3_600_000
    }
}

/// Whether enough time has passed to attempt recovery for an event type.
pub open spec fn recovery_allowed(rec: Map<Seq<char>, RecoveryRecord>, ev: Seq<char>, now: u64) -> bool {
    since_last_attempt(rec, ev, now) > recovery_backoff_secs(attempts_of(rec, ev)) * 1000
}

/// `x + 1`, staying at the maximum.
pub open spec fn sat_inc64(x: u64) -> u64 {
    if x < u64::MAX {
        (x + 1) as u64
    } else {
        x
    }
}

proof fn lemma_pow2_big(n: nat)
    requires
        n >= 5,
    ensures
        pow2(n) >= 32,
    decreases n,
{
    reveal_with_fuel(pow2, 6);
    if n > 5 {
        lemma_pow2_big((n - 1) as nat);
    }
}

fn backoff_secs(attempts: u64) -> (r: u64)
    ensures
        r == recovery_backoff_secs(attempts),
        r <= 30,
{
    reveal_with_fuel(pow2, 5);
    if attempts == 0 {
        0
    } else if attempts >= 5 {
        proof {
            lemma_pow2_big(attempts as nat);
        }
        30
    } else if attempts == 1 {
        2
    } else if attempts == 2 {
        4
    } else if attempts == 3 {
        8
    } else {
        16
    }
}

/// Keeps the entries whose time lies less than 180 s before `now`.
fn retain_fresh(v: Vec<Entry<u64>>, now: u64) -> (out: Vec<Entry<u64>>)
    requires
        keys_unique(v@),
    ensures
        keys_unique(out@),
        entries_map(out@) == prune_locks(entries_map(v@), now),
{
    let ghost orig = v@;
    let mut rest = v;
    let mut out: Vec<Entry<u64>> = Vec::new();
    let n = rest.len();
    let mut i: usize = 0;
    proof {
        assert(orig.take(0) =~= Seq::<Entry<u64>>::empty());
        assert(entries_map(out@) =~= prune_locks(entries_map(orig.take(0)), now));
    }
    while i < n
        invariant
            n == orig.len(),
            keys_unique(orig),
            i <= n,
            rest@ == orig.skip(i as int),
            keys_unique(out@),
            entries_map(out@) == prune_locks(entries_map(orig.take(i as int)), now),
        decreases n - i,
    {
        let e = rest.remove(0);
        proof {
            assert(orig.skip(i as int).drop_first() =~= orig.skip(i + 1));
            assert(e == orig[i as int]);
            let pre = orig.take(i as int);
            assert(orig.take(i + 1).drop_last() =~= pre);
            assert(orig.take(i + 1).last() == e);
            lemma_entries_domain(pre, e.key@);
            assert forall|j: int| 0 <= j < pre.len() implies pre[j].key@ != e.key@ by {
                assert(orig[j].key@ != orig[i as int].key@);
            }
        }
        if elapsed_ms(now, e.value) < 180_000 {
            proof {
                let pre = orig.take(i as int);
                assert(!entries_map(out@).contains_key(e.key@));
                lemma_entries_push(out@, e);
                assert(entries_map(out@.push(e)) =~= prune_locks(
                    entries_map(pre).insert(e.key@, e.value),
                    now,
                ));
            }
            out.push(e);
        } else {
            proof {
                let pre = orig.take(i as int);
                assert(entries_map(out@) =~= prune_locks(
                    entries_map(pre).insert(e.key@, e.value),
                    now,
                ));
            }
        }
        i = i + 1;
    }
    proof {
        assert(orig.take(n as int) =~= orig);
    }
    out
}

/// `x + 1`, staying at the maximum.
pub open spec fn sat_inc32(x: u32) -> u32 {
    if x < u32::MAX {
        (x + 1) as u32
    } else {
        x
    }
}

/// A subscriber after one more failed delivery at `now`.
pub open spec fn bumped<S>(s: SubscriberInfo<S>, now: u64) -> SubscriberInfo<S> {
    SubscriberInfo { consecutive_failures: sat_inc32(s.consecutive_failures), last_failed: Some(now), ..s }
}

/// One more failure takes the subscriber to the reconnection threshold (25),
/// and it is not already reconnecting.
pub open spec fn trips<S>(s: SubscriberInfo<S>) -> bool {
    sat_inc32(s.consecutive_failures) >= 25 && !s.is_reconnecting
}

/// A subscriber after a successful delivery: no longer reconnecting, and its
/// failure record cleared when it had one.
pub open spec fn cleared<S>(s: SubscriberInfo<S>) -> SubscriberInfo<S> {
    SubscriberInfo {
        is_reconnecting: false,
        consecutive_failures: 0,
        last_failed: if s.consecutive_failures > 0 {
            None
        } else {
            s.last_failed
        },
        ..s
    }
}

/// A successful delivery ends a subscriber's run of consecutive failures:
/// afterwards it has no failures, no time of last failure, and is not
/// reconnecting. A failed delivery extends the run by one (held at the
/// largest count) and records its time.
pub proof fn law_delivery_ends_or_extends_run<S>(s: SubscriberInfo<S>, now: u64)
    requires
        record_consistent(s),
    ensures
        cleared(s).consecutive_failures == 0,
        cleared(s).last_failed is None,
        !cleared(s).is_reconnecting,
        cleared(s).subscriber_id == s.subscriber_id,
        bumped(s, now).last_failed == Some(now),
        bumped(s, now).consecutive_failures > 0,
        bumped(s, now).consecutive_failures >= s.consecutive_failures,
        bumped(s, now).subscriber_id == s.subscriber_id,
{
}

/// What the caller of `record_delivery` is to do next.
pub enum DeliveryAction {
    /// The event type had no subscribers; nothing was sent.
    NothingSent,
    /// Every subscriber took the event.
    AllDelivered,
    /// Some deliveries failed; the failures are recorded.
    SomeFailed,
    /// The subscriber at `index` reached the reconnection threshold and is now
    /// marked reconnecting: run maintenance.
    Reconnect { index: usize },
    /// Every delivery failed and recovery is allowed: ask the supervisor to
    /// restart the actors, run maintenance, then reset the attempt count.
    Recover,
}

/// A subscriber that maintenance keeps before its channel is probed: fewer
/// than 5 consecutive failures, and not stuck reconnecting for over 60 s.
pub open spec fn survives_policy<S>(s: SubscriberInfo<S>, now: u64) -> bool {
    &&& s.consecutive_failures < 5
    &&& !(s.is_reconnecting && s.last_failed is Some && elapsed(now, s.last_failed->0) > 60_000)
}

/// Which subscribers maintenance keeps: those that pass the policy and whose
/// channel answered the probe.
pub open spec fn maintenance_flags<S>(subs: Seq<SubscriberInfo<S>>, alive: Seq<bool>, now: u64) -> Seq<bool> {
    Seq::new(subs.len(), |k: int| survives_policy(subs[k], now) && alive[k])
}

/// The number of subscribers over all topics.
pub open spec fn total_subscribers<S>(topics: Seq<Topic<S>>) -> int
    decreases topics.len(),
{
    if topics.len() == 0 {
        0
    } else {
        total_subscribers(topics.drop_last()) + topics.last().subscribers@.len()
    }
}

/// The actor that serves an event type, as the recovery channel records it.
pub open spec fn recovery_actor_type(topic: Seq<char>) -> Seq<char> {
    if topic == "market"@ {
        "MarketDataActor"@
    } else if topic == "strategy"@ {
        "StrategyActor"@
    } else if topic == "risk"@ {
        "RiskManagerActor"@
    } else if topic == "execution"@ {
        "ExecutionActor"@
    } else if topic == "database"@ {
        "DatabaseActor"@
    } else {
        "UnknownActor"@
    }
}

/// The event types whose actors the supervisor can restart.
pub open spec fn restartable_event_type(ev: Seq<char>) -> bool {
    ev == "strategy"@ || ev == "risk"@ || ev == "execution"@ || ev == "market"@ || ev == "database"@
}

/// The actor type recorded for a recovery channel of `topic`.
pub fn actor_type_for_topic(topic: &str) -> (r: String)
    ensures
        r@ == recovery_actor_type(topic@),
{
    if str_eq(topic, "market") {
        "MarketDataActor".to_owned()
    } else if str_eq(topic, "strategy") {
        "StrategyActor".to_owned()
    } else if str_eq(topic, "risk") {
        "RiskManagerActor".to_owned()
    } else if str_eq(topic, "execution") {
        "ExecutionActor".to_owned()
    } else if str_eq(topic, "database") {
        "DatabaseActor".to_owned()
    } else {
        "UnknownActor".to_owned()
    }
}

/// The actors (by their registered names) to restart when the bus of
/// `event_type` fails: the one of the same name for the five known types,
/// none otherwise.
pub fn supervisor_restart_targets(event_type: &str) -> (r: Vec<String>)
    ensures
        restartable_event_type(event_type@) ==> r@.len() == 1 && r@[0]@ == event_type@,
        !restartable_event_type(event_type@) ==> r@.len() == 0,
{
    let mut r: Vec<String> = Vec::new();
    if str_eq(event_type, "strategy") || str_eq(event_type, "risk") || str_eq(event_type, "execution")
        || str_eq(event_type, "market") || str_eq(event_type, "database") {
        r.push(event_type.to_owned());
    }
    r
}

/// The event types the database actor subscribes to, in order: it records
/// what the market, strategy, risk and execution actors publish.
pub fn database_subscription_topics() -> (r: Vec<String>)
    ensures
        r@.len() == 4,
        r@[0]@ == "market"@,
        r@[1]@ == "strategy"@,
        r@[2]@ == "risk"@,
        r@[3]@ == "execution"@,
{
    let mut r: Vec<String> = Vec::new();
    r.push(String::from_str("market"));
    r.push(String::from_str("strategy"));
    r.push(String::from_str("risk"));
    r.push(String::from_str("execution"));
    r
}

/// The name under which a connection from an event type to an actor is
/// reported: the source, an arrow, the target.
pub fn connection_id(source: &str, target: &str) -> (r: String)
    ensures
        r@ == source@ + "\u{2192}"@ + target@,
{
    let mut r = String::from_str(source);
    r.append("\u{2192}");
    r.append(target);
    r
}

/// The characters of an optional string slice.
pub open spec fn opt_str_view(o: Option<&str>) -> Option<Seq<char>> {
    match o {
        Some(t) => Some(t@),
        None => None,
    }
}

impl<S> MessageBus<S> {
    /// The deduplication done before publishing, for an event about `token`
    /// (if any; `is_buy` for an executed buy order) rendered as `key`, at
    /// `now`: the bus goes from `before` to `after` and `deliver` tells
    /// whether the event goes on. An event about no token always goes on and
    /// changes nothing; otherwise a buy order within 120 s of the last one let
    /// through for the token, or a repeat of the token's last event within
    /// the window, is held back; a buy order let through sets the token's
    /// lock (dropping locks over 180 s old), and a delivered event becomes the
    /// token's last.
    pub open spec fn admission(
        before: Self,
        after: Self,
        token: Option<Seq<char>>,
        is_buy: bool,
        key: Seq<char>,
        now: u64,
        deliver: bool,
    ) -> bool {
        &&& after.topics() == before.topics()
        &&& after.deduplication_window() == before.deduplication_window()
        &&& after.recovery() == before.recovery()
        &&& match token {
            None => {
                &&& deliver
                &&& after.token_events() == before.token_events()
                &&& after.buy_order_locks() == before.buy_order_locks()
            },
            Some(t) => {
                let locked = is_buy && buy_order_locked(before.buy_order_locks(), t, now);
                let dup = is_duplicate_event(before.token_events(), t, key, now, before.deduplication_window());
                &&& deliver == (!locked && !dup)
                &&& (is_buy && !locked) ==> after.buy_order_locks() == prune_locks(
                    before.buy_order_locks().insert(t, now),
                    now,
                )
                &&& !(is_buy && !locked) ==> after.buy_order_locks() == before.buy_order_locks()
                &&& deliver ==> {
                    &&& after.token_events().contains_key(t)
                    &&& after.token_events()[t].last_event_type@ == key
                    &&& after.token_events()[t].last_event_time == now
                    &&& after.token_events().remove(t) == before.token_events().remove(t)
                }
                &&& !deliver ==> after.token_events() == before.token_events()
            },
        }
    }
}

/// A subscriber with no failures in a row has no time of last failure.
pub open spec fn record_consistent<S>(s: SubscriberInfo<S>) -> bool {
    s.consecutive_failures == 0 ==> s.last_failed is None
}

/// Every subscriber's failure record is consistent.
pub open spec fn records_consistent<S>(topics: Seq<Topic<S>>) -> bool {
    forall|i: int, j: int|
        0 <= i < topics.len() && 0 <= j < topics[i].subscribers@.len() ==> #[trigger] record_consistent(
            topics[i].subscribers@[j],
        )
}

proof fn lemma_records_replace<S>(before: Seq<Topic<S>>, after: Seq<Topic<S>>, i: int, new_subs: Seq<SubscriberInfo<S>>)
    requires
        records_consistent(before),
        0 <= i < before.len(),
        after.len() == before.len(),
        forall|j: int| 0 <= j < before.len() && j != i ==> #[trigger] after[j] == before[j],
        after[i].subscribers@ == new_subs,
        forall|k: int| 0 <= k < new_subs.len() ==> #[trigger] record_consistent(new_subs[k]),
    ensures
        records_consistent(after),
{
    assert forall|a: int, b: int| 0 <= a < after.len() && 0 <= b < after[a].subscribers@.len() implies #[trigger] record_consistent(
        after[a].subscribers@[b],
    ) by {
        if a != i {
            assert(after[a] == before[a]);
        } else {
            assert(after[a].subscribers@[b] == new_subs[b]);
        }
    }
}

proof fn lemma_kept_consistent<S>(s: Seq<SubscriberInfo<S>>, flags: Seq<bool>)
    requires
        s.len() <= flags.len(),
        forall|k: int| 0 <= k < s.len() ==> #[trigger] record_consistent(s[k]),
    ensures
        forall|k: int| 0 <= k < keep_where(s, flags).len() ==> #[trigger] record_consistent(keep_where(s, flags)[k]),
{
    lemma_keep_where_members(s, flags);
    assert forall|k: int| 0 <= k < keep_where(s, flags).len() implies #[trigger] record_consistent(keep_where(s, flags)[k]) by {
        let i = choose|i: int| 0 <= i < s.len() && flags[i] && #[trigger] keep_where(s, flags)[k] == s[i];
        assert(record_consistent(s[i]));
    }
}

/// What one maintenance pass did.
pub struct MaintenanceReport {
    /// Subscribers removed over all topics.
    pub removed: usize,
    /// Topics that lost subscribers and are now empty, in topic order.
    pub recovery_topics: Vec<String>,
}

/// `x`, or the largest `usize` when `x` is larger.
pub open spec fn min_usize(x: int) -> int {
    if x <= usize::MAX {
        x
    } else {
        usize::MAX as int
    }
}

/// The subscribers of `t` that a maintenance pass at `now` keeps, given which
/// channels answered the probe.
pub open spec fn kept_subscribers<S>(t: Topic<S>, alive: Seq<bool>, now: u64) -> Seq<SubscriberInfo<S>> {
    keep_where(t.subscribers@, maintenance_flags(t.subscribers@, alive, now))
}

/// Maintenance removes every subscriber `t` had, and it had some.
pub open spec fn emptied_by<S>(t: Topic<S>, alive: Seq<bool>, now: u64) -> bool {
    t.subscribers@.len() > 0 && kept_subscribers(t, alive, now).len() == 0
}

/// A recovery subscriber just registered for `topic`: no failures, not
/// reconnecting, with the actor type that serves the topic.
pub open spec fn fresh_recovery<S>(s: SubscriberInfo<S>, topic: Seq<char>) -> bool {
    &&& s.consecutive_failures == 0
    &&& s.last_failed is None
    &&& !s.is_reconnecting
    &&& s.actor_type@ == recovery_actor_type(topic)
}

/// How many subscribers the first `n` topics keep in maintenance.
pub open spec fn kept_total<S>(topics: Seq<Topic<S>>, alive: Seq<Vec<bool>>, now: u64, n: int) -> int
    decreases n,
{
    if n <= 0 {
        0
    } else {
        kept_total(topics, alive, now, n - 1) + kept_subscribers(topics[n - 1], alive[n - 1]@, now).len()
    }
}

/// The names of the first `n` topics that maintenance empties, in order.
pub open spec fn emptied_names<S>(topics: Seq<Topic<S>>, alive: Seq<Vec<bool>>, now: u64, n: int) -> Seq<Seq<char>>
    decreases n,
{
    if n <= 0 {
        Seq::empty()
    } else {
        let r = emptied_names(topics, alive, now, n - 1);
        if emptied_by(topics[n - 1], alive[n - 1]@, now) {
            r.push(topics[n - 1].name@)
        } else {
            r
        }
    }
}

proof fn lemma_total_take<S>(topics: Seq<Topic<S>>, i: int)
    requires
        0 <= i < topics.len(),
    ensures
        total_subscribers(topics.take(i + 1)) == total_subscribers(topics.take(i))
            + topics[i].subscribers@.len(),
{
    assert(topics.take(i + 1).drop_last() =~= topics.take(i));
}

/// A topic list that differs from `old` only in the subscribers of topic `i`.
pub proof fn lemma_replace<S>(old: Seq<Topic<S>>, new: Seq<Topic<S>>, i: int)
    requires
        names_unique(old),
        0 <= i < old.len(),
        new.len() == old.len(),
        new[i].name@ == old[i].name@,
        forall|j: int| 0 <= j < old.len() && j != i ==> new[j] == old[j],
    ensures
        names_unique(new),
        forall|n: Seq<char>| #[trigger] has_topic(new, n) == has_topic(old, n),
        subscribers_for(new, old[i].name@) == new[i].subscribers@,
        forall|n: Seq<char>|
            n != old[i].name@ ==> #[trigger] subscribers_for(new, n) == subscribers_for(old, n),
{
    assert(new =~= old.update(i, new[i]));
    lemma_topic_update(old, i, new[i]);
}

/// The message bus's registry of subscribers together with its
/// deduplication and recovery bookkeeping. Times are in milliseconds.
pub struct MessageBus<S> {
    topics: Vec<Topic<S>>,
    token_events: Vec<Entry<TokenEventInfo>>,
    deduplication_window_ms: u64,
    buy_order_locks: Vec<Entry<u64>>,
    recovery: Vec<Entry<RecoveryRecord>>,
    started: Instant,
    last_clock_ms: u64,
}

impl<S> MessageBus<S> {
    /// The topics with their subscribers, in registration order.
    pub closed spec fn topics(&self) -> Seq<Topic<S>> {
        self.topics@
    }

    /// The last event seen per token.
    pub closed spec fn token_events(&self) -> Map<Seq<char>, TokenEventInfo> {
        entries_map(self.token_events@)
    }

    /// The window within which a repeated event for a token is dropped.
    pub closed spec fn deduplication_window(&self) -> u64 {
        self.deduplication_window_ms
    }

    /// When a buy order was last let through, per token.
    pub closed spec fn buy_order_locks(&self) -> Map<Seq<char>, u64> {
        entries_map(self.buy_order_locks@)
    }

    /// Recovery attempts per event type.
    pub closed spec fn recovery(&self) -> Map<Seq<char>, RecoveryRecord> {
        entries_map(self.recovery@)
    }

    /// The latest reading of the bus's clock; no later reading is smaller.
    pub closed spec fn clock_floor(&self) -> u64 {
        self.last_clock_ms
    }

    /// The registry's internal consistency: no duplicate names or keys.
    pub closed spec fn wf(&self) -> bool {
        &&& names_unique(self.topics@)
        &&& records_consistent(self.topics@)
        &&& keys_unique(self.token_events@)
        &&& keys_unique(self.buy_order_locks@)
        &&& keys_unique(self.recovery@)
    }

    /// On a well-formed bus, a subscriber with no failures in a row has no
    /// time of last failure.
    pub proof fn lemma_records_consistent(&self)
        requires
            self.wf(),
        ensures
            records_consistent(self.topics()),
    {
    }

    /// An empty bus with the 100 ms deduplication window.
    pub fn new() -> (r: Self)
        ensures
            r.wf(),
            r.topics().len() == 0,
            r.token_events() == Map::<Seq<char>, TokenEventInfo>::empty(),
            r.deduplication_window() == 100,
            r.clock_floor() == 0,
            r.buy_order_locks() == Map::<Seq<char>, u64>::empty(),
            r.recovery() == Map::<Seq<char>, RecoveryRecord>::empty(),
    {
        MessageBus {
            topics: Vec::new(),
            token_events: Vec::new(),
            deduplication_window_ms: 100,
            buy_order_locks: Vec::new(),
            recovery: Vec::new(),
            started: instant_now(),
            last_clock_ms: 0,
        }
    }

    /// The bus's clock: whole milliseconds since the bus was made, read from
    /// the monotonic clock and passed through `advance_clock`, so a reading
    /// is never smaller than the one before it. The value depends on when it
    /// is read.
    pub fn clock_ms(&mut self) -> (ms: u64)
        requires
            old(self).wf(),
        ensures
            final(self).wf(),
            ms >= old(self).clock_floor(),
            final(self).clock_floor() == ms,
            final(self).topics() == old(self).topics(),
            final(self).token_events() == old(self).token_events(),
            final(self).deduplication_window() == old(self).deduplication_window(),
            final(self).buy_order_locks() == old(self).buy_order_locks(),
            final(self).recovery() == old(self).recovery(),
    {
        let reading = millis_since(&self.started);
        self.advance_clock(reading)
    }

    /// Takes a reading of the monotonic clock (`reading`, whole milliseconds
    /// since the bus was made): the bus's clock becomes the larger of its
    /// previous value and the reading, and that value is returned.
    pub fn advance_clock(&mut self, reading: u64) -> (ms: u64)
        requires
            old(self).wf(),
        ensures
            final(self).wf(),
            ms == clock_after(old(self).clock_floor(), reading),
            ms >= reading,
            ms >= old(self).clock_floor(),
            ms == reading || ms == old(self).clock_floor(),
            final(self).clock_floor() == ms,
            final(self).topics() == old(self).topics(),
            final(self).token_events() == old(self).token_events(),
            final(self).deduplication_window() == old(self).deduplication_window(),
            final(self).buy_order_locks() == old(self).buy_order_locks(),
            final(self).recovery() == old(self).recovery(),
    {
        if reading > self.last_clock_ms {
            self.last_clock_ms = reading;
        }
        self.last_clock_ms
    }

    fn find_topic(&self, name: &str) -> (r: Option<usize>)
        ensures
            match r {
                Some(i) => i < self.topics@.len() && self.topics@[i as int].name@ == name@,
                None => !has_topic(self.topics@, name@),
            },
    {
        let mut i: usize = 0;
        while i < self.topics.len()
            invariant
                i <= self.topics@.len(),
                forall|k: int| 0 <= k < i ==> self.topics@[k].name@ != name@,
            decreases self.topics.len() - i,
        {
            if str_eq(self.topics[i].name.as_str(), name) {
                return Some(i);
            }
            i = i + 1;
        }
        None
    }

    /// The topics in registration order.
    pub fn topic_list(&self) -> (r: &Vec<Topic<S>>)
        ensures
            r@ == self.topics(),
    {
        &self.topics
    }

    /// The subscribers of an event type, when the topic exists.
    pub fn subscribers(&self, event_type: &str) -> (r: Option<&Vec<SubscriberInfo<S>>>)
        requires
            self.wf(),
        ensures
            match r {
                Some(v) => has_topic(self.topics(), event_type@) && v@ == subscribers_for(
                    self.topics(),
                    event_type@,
                ),
                None => !has_topic(self.topics(), event_type@),
            },
    {
        match self.find_topic(event_type) {
            Some(i) => {
                proof {
                    lemma_topic_pos(self.topics@, i as int);
                }
                Some(&self.topics[i].subscribers)
            },
            None => None,
        }
    }

    /// The number of subscribers of each event type, in topic order.
    pub fn debug_subscriber_count(&self) -> (counts: Vec<(String, usize)>)
        ensures
            counts@.len() == self.topics().len(),
            forall|i: int|
                0 <= i < counts@.len() ==> (#[trigger] counts@[i]).0@ == self.topics()[i].name@ && counts@[i].1
                    == self.topics()[i].subscribers@.len(),
    {
        let mut counts: Vec<(String, usize)> = Vec::new();
        let mut i: usize = 0;
        while i < self.topics.len()
            invariant
                i <= self.topics@.len(),
                counts@.len() == i,
                forall|j: int|
                    0 <= j < i ==> (#[trigger] counts@[j]).0@ == self.topics@[j].name@ && counts@[j].1
                        == self.topics@[j].subscribers@.len(),
            decreases self.topics.len() - i,
        {
            counts.push((self.topics[i].name.clone(), self.topics[i].subscribers.len()));
            i = i + 1;
        }
        counts
    }

    /// Registers `sender` for events of `event_type`, creating the topic if
    /// needed, under a random identifier (from the operating system's source)
    /// that no subscriber of the event type uses yet. A drawn identifier that
    /// is taken is drawn again, up to four times, and then the identifier one
    /// above the largest in use is taken. Returns the identifier; none, with
    /// nothing changed, when the random source fails or no identifier is
    /// left. What a given identifier does is `subscribe_with_id`'s contract.
    pub fn subscribe(&mut self, event_type: String, sender: S) -> (r: Option<u64>)
        requires
            old(self).wf(),
        ensures
            final(self).wf(),
            r is None ==> *final(self) == *old(self),
            r matches Some(id) ==> Self::subscribed(*old(self), *final(self), event_type, sender, id),
    {
        let mut pending = sender;
        let mut attempt: u32 = 0;
        while attempt < 4
            invariant
                old(self).wf(),
                *self == *old(self),
                pending == sender,
                attempt <= 4,
            decreases 4 - attempt,
        {
            let id = match random_u64() {
                Some(id) => id,
                None => {
                    return None;
                },
            };
            match self.subscribe_with_id(event_type.clone(), pending, id) {
                Ok(()) => {
                    return Some(id);
                },
                Err(back) => {
                    pending = back;
                },
            }
            attempt = attempt + 1;
        }
        match self.id_above_all(event_type.as_str()) {
            Some(id) => match self.subscribe_with_id(event_type, pending, id) {
                Ok(()) => Some(id),
                Err(_) => None,
            },
            None => None,
        }
    }

    /// The bus `after` is `before` with `sender` registered for `event_type`
    /// under `id`, an identifier that no subscriber of the event type used:
    /// the new subscriber comes last, with a clean failure record, and
    /// nothing else changes.
    pub open spec fn subscribed(before: Self, after: Self, event_type: String, sender: S, id: u64) -> bool {
        &&& id_unused(subscribers_for(before.topics(), event_type@), id)
        &&& has_topic(after.topics(), event_type@)
        &&& subscribers_for(after.topics(), event_type@) == subscribers_for(before.topics(), event_type@).push(
            (SubscriberInfo {
                sender,
                subscriber_id: id,
                consecutive_failures: 0,
                last_failed: None,
                is_reconnecting: false,
                actor_type: event_type,
            }),
        )
        &&& forall|n: Seq<char>|
            n != event_type@ ==> #[trigger] subscribers_for(after.topics(), n) == subscribers_for(before.topics(), n)
        &&& forall|n: Seq<char>| has_topic(before.topics(), n) ==> #[trigger] has_topic(after.topics(), n)
        &&& after.token_events() == before.token_events()
        &&& after.deduplication_window() == before.deduplication_window()
        &&& after.buy_order_locks() == before.buy_order_locks()
        &&& after.recovery() == before.recovery()
        &&& after.clock_floor() == before.clock_floor()
    }

    /// Registers `sender` for events of `event_type` under `id` when no
    /// subscriber of the event type uses that identifier; otherwise nothing
    /// changes and the sender is handed back.
    pub fn subscribe_with_id(&mut self, event_type: String, sender: S, id: u64) -> (r: Result<(), S>)
        requires
            old(self).wf(),
        ensures
            final(self).wf(),
            r is Ok == id_unused(subscribers_for(old(self).topics(), event_type@), id),
            r is Ok ==> Self::subscribed(*old(self), *final(self), event_type, sender, id),
            r matches Err(back) ==> back == sender && *final(self) == *old(self),
    {
        let unused = match self.subscribers(event_type.as_str()) {
            Some(subs) => id_is_unused(subs, id),
            None => true,
        };
        if !unused {
            return Err(sender);
        }
        let actor_type = event_type.clone();
        let sub = SubscriberInfo::with_id(sender, actor_type, id);
        self.add_subscriber(event_type, sub);
        proof {
            let got = subscribers_for(self.topics(), event_type@);
            assert(got =~= subscribers_for(old(self).topics(), event_type@).push(sub));
        }
        Ok(())
    }

    /// The identifier one above the largest that a subscriber of
    /// `event_type` uses (1 when there is none); none when the largest is
    /// already the greatest 64-bit number.
    pub fn id_above_all(&self, event_type: &str) -> (r: Option<u64>)
        requires
            self.wf(),
        ensures
            r matches Some(id) ==> id_unused(subscribers_for(self.topics(), event_type@), id)
                && forall|j: int|
                    0 <= j < subscribers_for(self.topics(), event_type@).len() ==> (#[trigger] subscribers_for(
                        self.topics(),
                        event_type@,
                    )[j]).subscriber_id < id,
            r is None ==> exists|j: int|
                0 <= j < subscribers_for(self.topics(), event_type@).len() && (#[trigger] subscribers_for(
                    self.topics(),
                    event_type@,
                )[j]).subscriber_id == u64::MAX,
    {
        let subs = match self.subscribers(event_type) {
            Some(subs) => subs,
            None => {
                return Some(1);
            },
        };
        let mut largest: u64 = 0;
        let mut j: usize = 0;
        while j < subs.len()
            invariant
                j <= subs@.len(),
                forall|k: int| 0 <= k < j ==> (#[trigger] subs@[k]).subscriber_id <= largest,
                j > 0 ==> exists|k: int| 0 <= k < j && (#[trigger] subs@[k]).subscriber_id == largest,
            decreases subs.len() - j,
        {
            if j == 0 || subs[j].subscriber_id > largest {
                largest = subs[j].subscriber_id;
                assert(subs@[j as int].subscriber_id == largest);
            }
            j = j + 1;
        }
        if subs.len() > 0 && largest == u64::MAX {
            None
        } else if largest < u64::MAX {
            Some(largest + 1)
        } else {
            Some(1)
        }
    }

    fn add_subscriber(&mut self, event_type: String, sub: SubscriberInfo<S>)
        requires
            old(self).wf(),
            record_consistent(sub),
        ensures
            final(self).wf(),
            final(self).clock_floor() == old(self).clock_floor(),
            has_topic(final(self).topics(), event_type@),
            subscribers_for(final(self).topics(), event_type@).len() == subscribers_for(
                old(self).topics(),
                event_type@,
            ).len() + 1,
            subscribers_for(final(self).topics(), event_type@).drop_last() == subscribers_for(
                old(self).topics(),
                event_type@,
            ),
            subscribers_for(final(self).topics(), event_type@).last() == sub,
            forall|n: Seq<char>|
                n != event_type@ ==> #[trigger] subscribers_for(final(self).topics(), n)
                    == subscribers_for(old(self).topics(), n),
            forall|n: Seq<char>|
                has_topic(old(self).topics(), n) ==> #[trigger] has_topic(
                    final(self).topics(),
                    n,
                ),
            final(self).token_events() == old(self).token_events(),
            final(self).deduplication_window() == old(self).deduplication_window(),
            final(self).buy_order_locks() == old(self).buy_order_locks(),
            final(self).recovery() == old(self).recovery(),
    {
        match self.find_topic(event_type.as_str()) {
            Some(i) => {
                let mut t = self.topics.remove(i);
                proof {
                    lemma_topic_pos(old(self).topics@, i as int);
                }
                t.subscribers.push(sub);
                self.topics.insert(i, t);
                proof {
                    assert(self.topics@ =~= old(self).topics@.update(i as int, t));
                    lemma_topic_update(old(self).topics@, i as int, t);
                    assert(t.subscribers@.drop_last() =~= old(self).topics@[i as int].subscribers@);
                }
            },
            None => {
                let mut subs: Vec<SubscriberInfo<S>> = Vec::new();
                subs.push(sub);
                let t = Topic { name: event_type, subscribers: subs };
                self.topics.push(t);
                proof {
                    let old_t = old(self).topics@;
                    let u = self.topics@;
                    assert(u =~= old_t.push(t));
                    assert(names_unique(u)) by {
                        assert forall|a: int, b: int|
                            0 <= a < u.len() && 0 <= b < u.len() && a != b implies u[a].name@
                            != u[b].name@ by {
                            if a == old_t.len() {
                                assert(!(0 <= b < old_t.len() && old_t[b].name@ == t.name@));
                            }
                            if b == old_t.len() {
                                assert(!(0 <= a < old_t.len() && old_t[a].name@ == t.name@));
                            }
                        }
                    }
                    lemma_topic_pos(u, old_t.len() as int);
                    assert(t.subscribers@.drop_last() =~= Seq::<SubscriberInfo<S>>::empty());
                    assert forall|n: Seq<char>| n != event_type@ implies #[trigger] subscribers_for(
                        u,
                        n,
                    ) == subscribers_for(old_t, n) by {
                        if has_topic(old_t, n) {
                            let j = topic_pos(old_t, n);
                            lemma_topic_pos(old_t, j);
                            assert(u[j] == old_t[j]);
                            lemma_topic_pos(u, j);
                        } else {
                            if has_topic(u, n) {
                                let j = choose|j: int| 0 <= j < u.len() && u[j].name@ == n;
                                assert(old_t[j].name@ == n);
                            }
                        }
                    }
                    assert forall|n: Seq<char>| has_topic(old_t, n) implies #[trigger] has_topic(
                        u,
                        n,
                    ) by {
                        let j = choose|j: int| 0 <= j < old_t.len() && old_t[j].name@ == n;
                        assert(u[j].name@ == n);
                    }
                }
            },
        }
    }

    fn swap_subscribers(&mut self, i: usize, subs: Vec<SubscriberInfo<S>>) -> (r: Vec<
        SubscriberInfo<S>,
    >)
        requires
            i < old(self).topics@.len(),
        ensures
            final(self).topics@.len() == old(self).topics@.len(),
            final(self).topics@[i as int].name == old(self).topics@[i as int].name,
            final(self).topics@[i as int].subscribers@ == subs@,
            forall|j: int|
                0 <= j < old(self).topics@.len() && j != i ==> final(self).topics@[j] == old(
                    self,
                ).topics@[j],
            r@ == old(self).topics@[i as int].subscribers@,
            final(self).token_events@ == old(self).token_events@,
            final(self).deduplication_window_ms == old(self).deduplication_window_ms,
            final(self).buy_order_locks@ == old(self).buy_order_locks@,
            final(self).recovery@ == old(self).recovery@,
            final(self).last_clock_ms == old(self).last_clock_ms,
    {
        let mut t = self.topics.remove(i);
        let mut tmp = subs;
        std::mem::swap(&mut t.subscribers, &mut tmp);
        self.topics.insert(i, t);
        tmp
    }

    /// Removes the subscriber with the given identifier from an event type.
    /// Returns whether one was removed.
    pub fn unsubscribe(&mut self, event_type: &str, subscriber_id: u64) -> (removed: bool)
        requires
            old(self).wf(),
        ensures
            final(self).wf(),
            final(self).clock_floor() == old(self).clock_floor(),
            subscribers_for(final(self).topics(), event_type@) == subscribers_for(
                old(self).topics(),
                event_type@,
            ).filter(|s: SubscriberInfo<S>| s.subscriber_id != subscriber_id),
            removed == (subscribers_for(final(self).topics(), event_type@).len()
                < subscribers_for(old(self).topics(), event_type@).len()),
            forall|n: Seq<char>|
                n != event_type@ ==> #[trigger] subscribers_for(final(self).topics(), n)
                    == subscribers_for(old(self).topics(), n),
            forall|n: Seq<char>| #[trigger]
                has_topic(final(self).topics(), n) == has_topic(old(self).topics(), n),
            final(self).token_events() == old(self).token_events(),
            final(self).deduplication_window() == old(self).deduplication_window(),
            final(self).buy_order_locks() == old(self).buy_order_locks(),
            final(self).recovery() == old(self).recovery(),
    {
        let ghost pred = |s: SubscriberInfo<S>| s.subscriber_id != subscriber_id;
        match self.find_topic(event_type) {
            None => {
                proof {
                    reveal(Seq::filter);
                }
                false
            },
            Some(i) => {
                proof {
                    lemma_topic_pos(self.topics@, i as int);
                }
                let n = self.topics[i].subscribers.len();
                let mut flags: Vec<bool> = Vec::new();
                let mut k: usize = 0;
                while k < n
                    invariant
                        i < self.topics@.len(),
                        n == self.topics@[i as int].subscribers@.len(),
                        k <= n,
                        flags@.len() == k,
                        forall|j: int|
                            0 <= j < k ==> flags@[j] == (self.topics@[i as int].subscribers@[j].subscriber_id
                                != subscriber_id),
                    decreases n - k,
                {
                    flags.push(self.topics[i].subscribers[k].subscriber_id != subscriber_id);
                    k = k + 1;
                }
                let old_subs = self.swap_subscribers(i, Vec::new());
                let ghost orig = old_subs@;
                let kept = keep_flagged(old_subs, &flags);
                proof {
                    lemma_keep_where_filter(orig, flags@, pred);
                    lemma_keep_where_len(orig, flags@);
                }
                let removed = kept.len() < n;
                let ghost kept_subs = kept@;
                proof {
                    assert forall|q: int| 0 <= q < orig.len() implies #[trigger] record_consistent(orig[q]) by {
                        assert(record_consistent(old(self).topics@[i as int].subscribers@[q]));
                    }
                    lemma_kept_consistent(orig, flags@);
                }
                let _ = self.swap_subscribers(i, kept);
                proof {
                    lemma_replace(old(self).topics@, self.topics@, i as int);
                    lemma_records_replace(old(self).topics@, self.topics@, i as int, kept_subs);
                }
                removed
            },
        }
    }

    /// The number of subscribers of an event type (zero when it has none).
    pub fn get_subscriber_count(&self, event_type: &str) -> (n: usize)
        requires
            self.wf(),
        ensures
            n == subscribers_for(self.topics(), event_type@).len(),
    {
        match self.find_topic(event_type) {
            Some(i) => {
                proof {
                    lemma_topic_pos(self.topics@, i as int);
                }
                self.topics[i].subscribers.len()
            },
            None => 0,
        }
    }

    /// Whether an event for `token_id`, rendered as `event_type`, repeats the
    /// token's last event within the deduplication window.
    pub fn should_deduplicate(&self, token_id: &str, event_type: &str, now_ms: u64) -> (r: bool)
        requires
            self.wf(),
        ensures
            r == is_duplicate_event(
                self.token_events(),
                token_id@,
                event_type@,
                now_ms,
                self.deduplication_window(),
            ),
    {
        match find_entry(&self.token_events, token_id) {
            Some(i) => {
                proof {
                    lemma_entries_value(self.token_events@, i as int);
                }
                let info = &self.token_events[i].value;
                str_eq(info.last_event_type.as_str(), event_type) && elapsed_ms(
                    now_ms,
                    info.last_event_time,
                ) < self.deduplication_window_ms
            },
            None => false,
        }
    }

    /// Records `event_type` as the last event for `token_id`, seen at `now_ms`.
    pub fn update_token_event(&mut self, token_id: &str, event_type: &str, now_ms: u64)
        requires
            old(self).wf(),
        ensures
            final(self).wf(),
            final(self).clock_floor() == old(self).clock_floor(),
            final(self).token_events().contains_key(token_id@),
            final(self).token_events()[token_id@].last_event_type@ == event_type@,
            final(self).token_events()[token_id@].last_event_time == now_ms,
            final(self).token_events().remove(token_id@) == old(self).token_events().remove(
                token_id@,
            ),
            final(self).topics() == old(self).topics(),
            final(self).deduplication_window() == old(self).deduplication_window(),
            final(self).buy_order_locks() == old(self).buy_order_locks(),
            final(self).recovery() == old(self).recovery(),
    {
        let info = TokenEventInfo::seen_at(event_type.to_owned(), now_ms);
        set_entry(&mut self.token_events, token_id.to_owned(), info);
        proof {
            assert(entries_map(self.token_events@).remove(token_id@) =~= entries_map(
                old(self).token_events@,
            ).remove(token_id@));
        }
    }

    /// Whether a buy order for `token_id` repeats one let through less than
    /// 120 s ago. When it does not, the token's lock is set to `now_ms` and
    /// locks older than 180 s are dropped.
    pub fn should_deduplicate_buy_order(&mut self, token_id: &str, now_ms: u64) -> (r: bool)
        requires
            old(self).wf(),
        ensures
            final(self).wf(),
            final(self).clock_floor() == old(self).clock_floor(),
            r == buy_order_locked(old(self).buy_order_locks(), token_id@, now_ms),
            r ==> final(self).buy_order_locks() == old(self).buy_order_locks(),
            !r ==> final(self).buy_order_locks() == prune_locks(
                old(self).buy_order_locks().insert(token_id@, now_ms),
                now_ms,
            ),
            final(self).topics() == old(self).topics(),
            final(self).token_events() == old(self).token_events(),
            final(self).deduplication_window() == old(self).deduplication_window(),
            final(self).recovery() == old(self).recovery(),
    {
        match find_entry(&self.buy_order_locks, token_id) {
            Some(i) => {
                proof {
                    lemma_entries_value(self.buy_order_locks@, i as int);
                }
                if elapsed_ms(now_ms, self.buy_order_locks[i].value) < 120_000 {
                    return true;
                }
            },
            None => {},
        }
        set_entry(&mut self.buy_order_locks, token_id.to_owned(), now_ms);
        let mut locks: Vec<Entry<u64>> = Vec::new();
        std::mem::swap(&mut locks, &mut self.buy_order_locks);
        self.buy_order_locks = retain_fresh(locks, now_ms);
        false
    }

    /// The deduplication done before an event is published. `token_id` is the
    /// token the event concerns, if any; `is_buy_execution` marks an executed
    /// buy order; `event_key` is the event's full rendering. Returns whether the
    /// event goes on to its subscribers.
    pub fn admit_event_at(
        &mut self,
        token_id: Option<&str>,
        is_buy_execution: bool,
        event_key: &str,
        now_ms: u64,
    ) -> (deliver: bool)
        requires
            old(self).wf(),
        ensures
            final(self).wf(),
            final(self).clock_floor() == old(self).clock_floor(),
            final(self).topics() == old(self).topics(),
            final(self).deduplication_window() == old(self).deduplication_window(),
            final(self).recovery() == old(self).recovery(),
            match token_id {
                None => {
                    &&& deliver
                    &&& final(self).token_events() == old(self).token_events()
                    &&& final(self).buy_order_locks() == old(self).buy_order_locks()
                },
                Some(t) => {
                    let locked = is_buy_execution && buy_order_locked(
                        old(self).buy_order_locks(),
                        t@,
                        now_ms,
                    );
                    let dup = is_duplicate_event(
                        old(self).token_events(),
                        t@,
                        event_key@,
                        now_ms,
                        old(self).deduplication_window(),
                    );
                    &&& deliver == (!locked && !dup)
                    &&& (is_buy_execution && !locked) ==> final(self).buy_order_locks()
                        == prune_locks(old(self).buy_order_locks().insert(t@, now_ms), now_ms)
                    &&& !(is_buy_execution && !locked) ==> final(self).buy_order_locks() == old(
                        self,
                    ).buy_order_locks()
                    &&& deliver ==> {
                        &&& final(self).token_events().contains_key(t@)
                        &&& final(self).token_events()[t@].last_event_type@ == event_key@
                        &&& final(self).token_events()[t@].last_event_time == now_ms
                        &&& final(self).token_events().remove(t@) == old(self).token_events().remove(t@)
                    }
                    &&& !deliver ==> final(self).token_events() == old(self).token_events()
                },
            },
    {
        match token_id {
            None => true,
            Some(t) => {
                if is_buy_execution {
                    if self.should_deduplicate_buy_order(t, now_ms) {
                        return false;
                    }
                }
                if self.should_deduplicate(t, event_key, now_ms) {
                    return false;
                }
                self.update_token_event(t, event_key, now_ms);
                true
            },
        }
    }

    /// Applies `admit_event_at` at the bus's clock reading (`clock_ms`). An
    /// event about no token always goes on and changes nothing.
    pub fn admit_event(&mut self, token_id: Option<&str>, is_buy_execution: bool, event_key: &str) -> (deliver: bool)
        requires
            old(self).wf(),
        ensures
            final(self).wf(),
            final(self).clock_floor() >= old(self).clock_floor(),
            final(self).topics() == old(self).topics(),
            token_id is None ==> deliver && *final(self) == *old(self),
            exists|now: u64|
                now >= old(self).clock_floor() && #[trigger] Self::admission(
                    *old(self),
                    *final(self),
                    opt_str_view(token_id),
                    is_buy_execution,
                    event_key@,
                    now,
                    deliver,
                ),
    {
        if token_id.is_none() {
            proof {
                assert(Self::admission(
                    *old(self),
                    *self,
                    opt_str_view(token_id),
                    is_buy_execution,
                    event_key@,
                    old(self).clock_floor(),
                    true,
                ));
            }
            return true;
        }
        let now = self.clock_ms();
        let deliver = self.admit_event_at(token_id, is_buy_execution, event_key, now);
        proof {
            assert(Self::admission(*old(self), *self, opt_str_view(token_id), is_buy_execution, event_key@, now, deliver));
        }
        deliver
    }

    /// Decides whether recovery may be attempted for an event type now, with an
    /// exponential backoff (2^attempts seconds, at most 30) between attempts.
    /// When it may, the attempt is recorded.
    pub fn recovery_gate(&mut self, event_type: &str, now_ms: u64) -> (allowed: bool)
        requires
            old(self).wf(),
        ensures
            final(self).wf(),
            final(self).clock_floor() == old(self).clock_floor(),
            allowed == recovery_allowed(old(self).recovery(), event_type@, now_ms),
            allowed ==> final(self).recovery() == old(self).recovery().insert(
                event_type@,
                RecoveryRecord {
                    last_attempt: Some(now_ms),
                    attempts: sat_inc64(attempts_of(old(self).recovery(), event_type@)),
                },
            ),
            !allowed ==> final(self).recovery() == old(self).recovery(),
            final(self).topics() == old(self).topics(),
            final(self).token_events() == old(self).token_events(),
            final(self).deduplication_window() == old(self).deduplication_window(),
            final(self).buy_order_locks() == old(self).buy_order_locks(),
    {
        let (since, attempts) = match find_entry(&self.recovery, event_type) {
            Some(i) => {
                proof {
                    lemma_entries_value(self.recovery@, i as int);
                }
                let since = match self.recovery[i].value.last_attempt {
                    Some(t) => elapsed_ms(now_ms, t),
                    None => 3_600_000,
                };
                (since, self.recovery[i].value.attempts)
            },
            None => (3_600_000, 0),
        };
        let backoff = backoff_secs(attempts);
        if since > backoff * 1000 {
            let next = if attempts < u64::MAX {
                attempts + 1
            } else {
                attempts
            };
            set_entry(
                &mut self.recovery,
                event_type.to_owned(),
                RecoveryRecord { last_attempt: Some(now_ms), attempts: next },
            );
            true
        } else {
            false
        }
    }

    /// Sets the recovery attempt count of an event type back to zero.
    pub fn reset_recovery_attempts(&mut self, event_type: &str)
        requires
            old(self).wf(),
        ensures
            final(self).wf(),
            final(self).clock_floor() == old(self).clock_floor(),
            final(self).recovery() == old(self).recovery().insert(
                event_type@,
                RecoveryRecord {
                    last_attempt: if old(self).recovery().contains_key(event_type@) {
                        old(self).recovery()[event_type@].last_attempt
                    } else {
                        None
                    },
                    attempts: 0,
                },
            ),
            final(self).topics() == old(self).topics(),
            final(self).token_events() == old(self).token_events(),
            final(self).deduplication_window() == old(self).deduplication_window(),
            final(self).buy_order_locks() == old(self).buy_order_locks(),
    {
        let last = match find_entry(&self.recovery, event_type) {
            Some(i) => {
                proof {
                    lemma_entries_value(self.recovery@, i as int);
                }
                self.recovery[i].value.last_attempt
            },
            None => None,
        };
        set_entry(&mut self.recovery, event_type.to_owned(), RecoveryRecord { last_attempt: last, attempts: 0 });
    }

    /// Records the outcome of delivering one event to the subscribers of
    /// `event_type` (`outcomes[k]` for the subscriber at position `k`) and says
    /// what is to happen next. `should_recover` is what `recovery_gate` gave
    /// for this event.
    #[verifier::loop_isolation(false)]
    pub fn record_delivery(
        &mut self,
        event_type: &str,
        outcomes: &Vec<bool>,
        should_recover: bool,
        now_ms: u64,
    ) -> (action: DeliveryAction)
        requires
            old(self).wf(),
            has_topic(old(self).topics(), event_type@),
            outcomes@.len() == subscribers_for(old(self).topics(), event_type@).len(),
        ensures
            final(self).wf(),
            final(self).clock_floor() == old(self).clock_floor(),
            forall|n: Seq<char>| #[trigger]
                has_topic(final(self).topics(), n) == has_topic(old(self).topics(), n),
            forall|n: Seq<char>|
                n != event_type@ ==> #[trigger] subscribers_for(final(self).topics(), n)
                    == subscribers_for(old(self).topics(), n),
            final(self).token_events() == old(self).token_events(),
            final(self).deduplication_window() == old(self).deduplication_window(),
            final(self).buy_order_locks() == old(self).buy_order_locks(),
            ({
                let olds = subscribers_for(old(self).topics(), event_type@);
                let news = subscribers_for(final(self).topics(), event_type@);
                let n = outcomes@.len() as int;
                let out = outcomes@;
                match action {
                    DeliveryAction::NothingSent => {
                        &&& n == 0
                        &&& news == olds
                        &&& final(self).recovery() == old(self).recovery()
                    },
                    DeliveryAction::AllDelivered => {
                        &&& n > 0
                        &&& forall|k: int| 0 <= k < n ==> out[k]
                        &&& news == olds
                        &&& final(self).recovery() == old(self).recovery().insert(
                            event_type@,
                            RecoveryRecord {
                                last_attempt: if old(self).recovery().contains_key(event_type@) {
                                    old(self).recovery()[event_type@].last_attempt
                                } else {
                                    None
                                },
                                attempts: 0,
                            },
                        )
                    },
                    DeliveryAction::Reconnect { index } => {
                        &&& index < n
                        &&& !out[index as int]
                        &&& trips(olds[index as int])
                        &&& forall|j: int| 0 <= j < index && !out[j] ==> !trips(olds[j])
                        &&& news.len() == n
                        &&& forall|j: int|
                            0 <= j < n ==> #[trigger] news[j] == if j < index && !out[j] {
                                bumped(olds[j], now_ms)
                            } else if j == index {
                                SubscriberInfo { is_reconnecting: true, ..bumped(olds[j], now_ms) }
                            } else {
                                olds[j]
                            }
                        &&& final(self).recovery() == old(self).recovery()
                    },
                    DeliveryAction::Recover => {
                        &&& n > 0
                        &&& should_recover
                        &&& forall|k: int| 0 <= k < n ==> !out[k] && !trips(#[trigger] olds[k])
                        &&& news.len() == n
                        &&& forall|j: int| 0 <= j < n ==> #[trigger] news[j] == bumped(olds[j], now_ms)
                        &&& final(self).recovery() == old(self).recovery()
                    },
                    DeliveryAction::SomeFailed => {
                        &&& exists|k: int| 0 <= k < n && !out[k]
                        &&& forall|k: int| 0 <= k < n && !out[k] ==> !trips(#[trigger] olds[k])
                        &&& !(should_recover && forall|k: int| 0 <= k < n ==> !out[k])
                        &&& news.len() == n
                        &&& forall|j: int|
                            0 <= j < n ==> #[trigger] news[j] == if out[j] {
                                cleared(olds[j])
                            } else {
                                bumped(olds[j], now_ms)
                            }
                        &&& final(self).recovery() == old(self).recovery()
                    },
                }
            }),
            action is SomeFailed ==> {
                let news = subscribers_for(final(self).topics(), event_type@);
                let olds = subscribers_for(old(self).topics(), event_type@);
                &&& news.len() == olds.len()
                &&& forall|k: int|
                    0 <= k < outcomes@.len() && outcomes@[k] ==> {
                        &&& (#[trigger] news[k]).consecutive_failures == 0
                        &&& news[k].last_failed is None
                        &&& !news[k].is_reconnecting
                    }
                &&& forall|k: int|
                    0 <= k < outcomes@.len() && !outcomes@[k] ==> {
                        &&& (#[trigger] news[k]).last_failed == Some(now_ms)
                        &&& news[k].consecutive_failures > 0
                        &&& news[k].consecutive_failures >= olds[k].consecutive_failures
                    }
            },
    {
        proof {
            assert forall|k: int| 0 <= k < subscribers_for(old(self).topics(), event_type@).len() implies ({
                let s = #[trigger] subscribers_for(old(self).topics(), event_type@)[k];
                &&& cleared(s).consecutive_failures == 0
                &&& cleared(s).last_failed is None
                &&& !cleared(s).is_reconnecting
                &&& bumped(s, now_ms).last_failed == Some(now_ms)
                &&& bumped(s, now_ms).consecutive_failures > 0
                &&& bumped(s, now_ms).consecutive_failures >= s.consecutive_failures
            }) by {
                let pos = topic_pos(old(self).topics(), event_type@);
                lemma_topic_pos(old(self).topics@, pos);
                assert(record_consistent(old(self).topics@[pos].subscribers@[k]));
                law_delivery_ends_or_extends_run(subscribers_for(old(self).topics(), event_type@)[k], now_ms);
            }
        }
        let ti = match self.find_topic(event_type) {
            Some(i) => i,
            None => {
                return DeliveryAction::NothingSent;
            },
        };
        proof {
            lemma_topic_pos(self.topics@, ti as int);
        }
        let n = outcomes.len();
        let mut success: usize = 0;
        let mut any_failed = false;
        let mut k: usize = 0;
        while k < n
            invariant
                n == outcomes@.len(),
                k <= n,
                success <= k,
                success == 0 ==> forall|j: int| 0 <= j < k ==> !outcomes@[j],
                success > 0 ==> exists|j: int| 0 <= j < k && outcomes@[j],
                success == k ==> forall|j: int| 0 <= j < k ==> outcomes@[j],
                any_failed == exists|j: int| 0 <= j < k && !outcomes@[j],
            decreases n - k,
        {
            if outcomes[k] {
                success = success + 1;
            } else {
                any_failed = true;
            }
            k = k + 1;
        }
        if !any_failed {
            proof {
                if n > 0 {
                    assert(outcomes@[0]);
                }
            }
            if success > 0 {
                self.reset_recovery_attempts(event_type);
                return DeliveryAction::AllDelivered;
            }
            return DeliveryAction::NothingSent;
        }
        let mut subs = self.swap_subscribers(ti, Vec::new());
        let ghost olds = subs@;
        let ghost mid_topics = self.topics@;
        let mut k: usize = 0;
        while k < n
            invariant
                self.last_clock_ms == old(self).last_clock_ms,
                self.topics@ == mid_topics,
                self.token_events@ == old(self).token_events@,
                self.buy_order_locks@ == old(self).buy_order_locks@,
                self.recovery@ == old(self).recovery@,
                self.deduplication_window_ms == old(self).deduplication_window_ms,
                n == outcomes@.len(),
                olds.len() == n,
                subs@.len() == n,
                k <= n,
                forall|j: int| 0 <= j < k && !outcomes@[j] ==> !trips(#[trigger] olds[j]),
                forall|j: int|
                    0 <= j < n ==> #[trigger] subs@[j] == if j < k && !outcomes@[j] {
                        bumped(olds[j], now_ms)
                    } else {
                        olds[j]
                    },
            decreases n - k,
        {
            if !outcomes[k] {
                let before = subs[k].consecutive_failures;
                let was_reconnecting = subs[k].is_reconnecting;
                let after = if before < u32::MAX {
                    before + 1
                } else {
                    before
                };
                subs[k].consecutive_failures = after;
                subs[k].last_failed = Some(now_ms);
                if after >= 25 && !was_reconnecting {
                    subs[k].is_reconnecting = true;
                    let ghost final_subs = subs@;
                    proof {
                        assert forall|q: int| 0 <= q < final_subs.len() implies #[trigger] record_consistent(final_subs[q]) by {
                            assert(record_consistent(old(self).topics@[ti as int].subscribers@[q]));
                        }
                    }
                    let _ = self.swap_subscribers(ti, subs);
                    proof {
                        lemma_replace(old(self).topics@, self.topics@, ti as int);
                        lemma_records_replace(old(self).topics@, self.topics@, ti as int, final_subs);
                    }
                    return DeliveryAction::Reconnect { index: k };
                }
            }
            k = k + 1;
        }
        if success == 0 && should_recover {
            let ghost final_subs = subs@;
            proof {
                assert forall|q: int| 0 <= q < final_subs.len() implies #[trigger] record_consistent(final_subs[q]) by {
                    assert(record_consistent(old(self).topics@[ti as int].subscribers@[q]));
                }
            }
            let _ = self.swap_subscribers(ti, subs);
            proof {
                lemma_replace(old(self).topics@, self.topics@, ti as int);
                lemma_records_replace(old(self).topics@, self.topics@, ti as int, final_subs);
            }
            return DeliveryAction::Recover;
        }
        let mut k: usize = 0;
        while k < n
            invariant
                self.last_clock_ms == old(self).last_clock_ms,
                self.topics@ == mid_topics,
                self.token_events@ == old(self).token_events@,
                self.buy_order_locks@ == old(self).buy_order_locks@,
                self.recovery@ == old(self).recovery@,
                self.deduplication_window_ms == old(self).deduplication_window_ms,
                n == outcomes@.len(),
                olds.len() == n,
                subs@.len() == n,
                k <= n,
                forall|j: int| 0 <= j < n && !outcomes@[j] ==> !trips(#[trigger] olds[j]),
                forall|j: int|
                    0 <= j < n ==> #[trigger] subs@[j] == if !outcomes@[j] {
                        bumped(olds[j], now_ms)
                    } else if j < k {
                        cleared(olds[j])
                    } else {
                        olds[j]
                    },
            decreases n - k,
        {
            if outcomes[k] {
                subs[k].is_reconnecting = false;
                if subs[k].consecutive_failures > 0 {
                    subs[k].consecutive_failures = 0;
                    subs[k].last_failed = None;
                }
            }
            k = k + 1;
        }
        let ghost final_subs = subs@;
        proof {
            assert forall|q: int| 0 <= q < final_subs.len() implies #[trigger] record_consistent(final_subs[q]) by {
                assert(record_consistent(old(self).topics@[ti as int].subscribers@[q]));
            }
        }
        let _ = self.swap_subscribers(ti, subs);
        proof {
            lemma_replace(old(self).topics@, self.topics@, ti as int);
            lemma_records_replace(old(self).topics@, self.topics@, ti as int, final_subs);
        }
        DeliveryAction::SomeFailed
    }

    /// For each topic and subscriber, whether the subscriber passes the
    /// maintenance policy at `now_ms` and so is to have its channel probed.
    pub fn maintenance_probe_plan(&self, now_ms: u64) -> (plan: Vec<Vec<bool>>)
        ensures
            plan@.len() == self.topics().len(),
            forall|i: int|
                0 <= i < plan@.len() ==> #[trigger] plan@[i]@.len()
                    == self.topics()[i].subscribers@.len(),
            forall|i: int, j: int|
                0 <= i < plan@.len() && 0 <= j < plan@[i]@.len() ==> plan@[i]@[j] == survives_policy(
                    self.topics()[i].subscribers@[j],
                    now_ms,
                ),
    {
        let mut plan: Vec<Vec<bool>> = Vec::new();
        let mut i: usize = 0;
        while i < self.topics.len()
            invariant
                i <= self.topics@.len(),
                plan@.len() == i,
                forall|a: int|
                    0 <= a < i ==> #[trigger] plan@[a]@.len() == self.topics@[a].subscribers@.len(),
                forall|a: int, b: int|
                    0 <= a < i && 0 <= b < plan@[a]@.len() ==> plan@[a]@[b] == survives_policy(
                        self.topics@[a].subscribers@[b],
                        now_ms,
                    ),
            decreases self.topics.len() - i,
        {
            let subs = &self.topics[i].subscribers;
            let mut row: Vec<bool> = Vec::new();
            let mut j: usize = 0;
            while j < subs.len()
                invariant
                    j <= subs@.len(),
                    row@.len() == j,
                    forall|b: int| 0 <= b < j ==> row@[b] == survives_policy(subs@[b], now_ms),
                decreases subs.len() - j,
            {
                row.push(Self::passes_policy(&subs[j], now_ms));
                j = j + 1;
            }
            plan.push(row);
            i = i + 1;
        }
        plan
    }

    fn passes_policy(s: &SubscriberInfo<S>, now_ms: u64) -> (r: bool)
        ensures
            r == survives_policy(*s, now_ms),
    {
        if s.consecutive_failures >= 5 {
            return false;
        }
        if s.is_reconnecting {
            match s.last_failed {
                Some(t) => {
                    if elapsed_ms(now_ms, t) > 60_000 {
                        return false;
                    }
                },
                None => {},
            }
        }
        true
    }

    /// One maintenance pass: drops, in every topic, the subscribers that fail
    /// the policy at `now_ms` or whose channel did not answer the probe
    /// (`alive[i][j]` for subscriber `j` of topic `i`). A topic that loses all
    /// its subscribers gets one fresh recovery subscriber, on a channel that
    /// `new_sender` makes. Reports how many subscribers were removed and which
    /// topics were emptied.
    #[verifier::spinoff_prover]
    #[verifier::rlimit(60)]
    pub fn perform_maintenance<F: Fn() -> S>(&mut self, now_ms: u64, alive: &Vec<Vec<bool>>, new_sender: F) -> (report: MaintenanceReport)
        requires
            old(self).wf(),
            alive@.len() == old(self).topics().len(),
            forall|i: int|
                0 <= i < alive@.len() ==> #[trigger] alive@[i]@.len() == old(self).topics()[i].subscribers@.len(),
            new_sender.requires(()),
        ensures
            final(self).wf(),
            final(self).clock_floor() == old(self).clock_floor(),
            final(self).topics().len() == old(self).topics().len(),
            forall|i: int|
                0 <= i < old(self).topics().len() ==> {
                    let t = old(self).topics()[i];
                    let f = #[trigger] final(self).topics()[i];
                    &&& f.name == t.name
                    &&& !emptied_by(t, alive@[i]@, now_ms) ==> f.subscribers@ == kept_subscribers(t, alive@[i]@, now_ms)
                    &&& emptied_by(t, alive@[i]@, now_ms) ==> f.subscribers@.len() == 1 && fresh_recovery(
                        f.subscribers@[0],
                        t.name@,
                    )
                },
            report.removed == min_usize(
                total_subscribers(old(self).topics()) - kept_total(old(self).topics(), alive@, now_ms, old(self).topics().len() as int),
            ),
            report.recovery_topics@.map_values(|x: String| x@) == emptied_names(
                old(self).topics(),
                alive@,
                now_ms,
                old(self).topics().len() as int,
            ),
            final(self).token_events() == old(self).token_events(),
            final(self).deduplication_window() == old(self).deduplication_window(),
            final(self).buy_order_locks() == old(self).buy_order_locks(),
            final(self).recovery() == old(self).recovery(),
    {
        let ghost orig = self.topics@;
        let ghost al = alive@;
        let mut removed: usize = 0;
        let mut recovery_topics: Vec<String> = Vec::new();
        let mut i: usize = 0;
        while i < self.topics.len()
            invariant
                self.last_clock_ms == old(self).last_clock_ms,
                names_unique(orig),
                records_consistent(orig),
                records_consistent(self.topics@),
                new_sender.requires(()),
                al == alive@,
                self.topics@.len() == orig.len(),
                alive@.len() == orig.len(),
                forall|a: int| 0 <= a < alive@.len() ==> #[trigger] alive@[a]@.len() == orig[a].subscribers@.len(),
                i <= orig.len(),
                forall|a: int| 0 <= a < orig.len() ==> (#[trigger] self.topics@[a]).name == orig[a].name,
                forall|a: int|
                    0 <= a < i ==> {
                        let f = #[trigger] self.topics@[a];
                        &&& !emptied_by(orig[a], alive@[a]@, now_ms) ==> f.subscribers@ == kept_subscribers(orig[a], alive@[a]@, now_ms)
                        &&& emptied_by(orig[a], alive@[a]@, now_ms) ==> f.subscribers@.len() == 1 && fresh_recovery(
                            f.subscribers@[0],
                            orig[a].name@,
                        )
                    },
                forall|a: int| i <= a < orig.len() ==> #[trigger] self.topics@[a] == orig[a],
                removed == min_usize(total_subscribers(orig.take(i as int)) - kept_total(orig, al, now_ms, i as int)),
                kept_total(orig, al, now_ms, i as int) <= total_subscribers(orig.take(i as int)),
                recovery_topics@.map_values(|x: String| x@) == emptied_names(orig, al, now_ms, i as int),
                self.token_events@ == old(self).token_events@,
                self.buy_order_locks@ == old(self).buy_order_locks@,
                self.recovery@ == old(self).recovery@,
                self.deduplication_window_ms == old(self).deduplication_window_ms,
                keys_unique(self.token_events@),
                keys_unique(self.buy_order_locks@),
                keys_unique(self.recovery@),
            decreases orig.len() - i,
        {
            let ghost before = self.topics@;
            let subs = self.swap_subscribers(i, Vec::new());
            let ghost old_subs = subs@;
            assert(old_subs == orig[i as int].subscribers@);
            let n = subs.len();
            let mut flags: Vec<bool> = Vec::new();
            let mut j: usize = 0;
            while j < n
                invariant
                    n == old_subs.len(),
                    subs@ == old_subs,
                    i < alive@.len(),
                    alive@[i as int]@.len() == n,
                    j <= n,
                    flags@.len() == j,
                    forall|b: int| 0 <= b < j ==> flags@[b] == maintenance_flags(old_subs, alive@[i as int]@, now_ms)[b],
                decreases n - j,
            {
                let keep = Self::passes_policy(&subs[j], now_ms) && alive[i][j];
                flags.push(keep);
                j = j + 1;
            }
            proof {
                assert(flags@ =~= maintenance_flags(old_subs, alive@[i as int]@, now_ms));
            }
            let kept = keep_flagged(subs, &flags);
            proof {
                lemma_keep_where_len(old_subs, flags@);
                assert(kept@ == kept_subscribers(orig[i as int], alive@[i as int]@, now_ms));
            }
            let kept_len = kept.len();
            let emptied = n > 0 && kept_len == 0;
            proof {
                assert forall|q: int| 0 <= q < old_subs.len() implies #[trigger] record_consistent(old_subs[q]) by {
                    assert(record_consistent(orig[i as int].subscribers@[q]));
                }
                lemma_kept_consistent(old_subs, flags@);
            }
            if emptied {
                let sender = new_sender();
                let sub = SubscriberInfo::sole_subscriber(sender, actor_type_for_topic(self.topics[i].name.as_str()));
                let mut fresh: Vec<SubscriberInfo<S>> = Vec::new();
                fresh.push(sub);
                let ghost fresh_subs = fresh@;
                let _ = self.swap_subscribers(i, fresh);
                proof {
                    assert(record_consistent(fresh_subs[0]));
                    lemma_records_replace(before, self.topics@, i as int, fresh_subs);
                }
            } else {
                let ghost kept_subs = kept@;
                let _ = self.swap_subscribers(i, kept);
                proof {
                    lemma_records_replace(before, self.topics@, i as int, kept_subs);
                }
            }
            proof {
                lemma_total_take(orig, i as int);
                assert(kept_total(orig, al, now_ms, i + 1) == kept_total(orig, al, now_ms, i as int) + kept_len);
            }
            let d = n - kept_len;
            removed = if removed <= usize::MAX - d {
                removed + d
            } else {
                usize::MAX
            };
            let ghost rt_before = recovery_topics@;
            if emptied {
                recovery_topics.push(self.topics[i].name.clone());
            }
            proof {
                assert(emptied == emptied_by(orig[i as int], al[i as int]@, now_ms));
                if emptied {
                    assert(recovery_topics@.map_values(|x: String| x@) =~= rt_before.map_values(|x: String| x@).push(
                        orig[i as int].name@,
                    ));
                } else {
                    assert(recovery_topics@ == rt_before);
                }
            }
            i = i + 1;
        }
        proof {
            assert(orig.take(orig.len() as int) =~= orig);
            assert(names_unique(self.topics@)) by {
                assert forall|a: int, b: int|
                    0 <= a < self.topics@.len() && 0 <= b < self.topics@.len() && a != b implies self.topics@[a].name@
                    != self.topics@[b].name@ by {
                    assert(self.topics@[a].name == orig[a].name);
                    assert(self.topics@[b].name == orig[b].name);
                }
            }
        }
        let report = MaintenanceReport { removed, recovery_topics };
        report
    }

    /// After maintenance emptied `topic`, registers `sender` there as its
    /// recovery channel (with the actor type that serves the topic). Does
    /// nothing, and returns false, unless the topic exists and is empty.
    pub fn add_recovery_subscriber(&mut self, topic: &str, sender: S) -> (added: bool)
        requires
            old(self).wf(),
        ensures
            final(self).wf(),
            final(self).clock_floor() == old(self).clock_floor(),
            added == (has_topic(old(self).topics(), topic@) && subscribers_for(old(self).topics(), topic@).len() == 0),
            added ==> {
                let s = subscribers_for(final(self).topics(), topic@);
                &&& s.len() == 1
                &&& s[0].sender == sender
                &&& s[0].actor_type@ == recovery_actor_type(topic@)
                &&& s[0].consecutive_failures == 0
                &&& s[0].last_failed is None
                &&& !s[0].is_reconnecting
            },
            !added ==> final(self).topics() == old(self).topics(),
            forall|n: Seq<char>| #[trigger]
                has_topic(final(self).topics(), n) == has_topic(old(self).topics(), n),
            forall|n: Seq<char>|
                n != topic@ ==> #[trigger] subscribers_for(final(self).topics(), n)
                    == subscribers_for(old(self).topics(), n),
            final(self).token_events() == old(self).token_events(),
            final(self).deduplication_window() == old(self).deduplication_window(),
            final(self).buy_order_locks() == old(self).buy_order_locks(),
            final(self).recovery() == old(self).recovery(),
    {
        match self.find_topic(topic) {
            None => false,
            Some(i) => {
                proof {
                    lemma_topic_pos(self.topics@, i as int);
                }
                if self.topics[i].subscribers.len() != 0 {
                    return false;
                }
                let sub = SubscriberInfo::sole_subscriber(sender, actor_type_for_topic(topic));
                let mut v: Vec<SubscriberInfo<S>> = Vec::new();
                v.push(sub);
                let _ = self.swap_subscribers(i, v);
                proof {
                    lemma_replace(old(self).topics@, self.topics@, i as int);
                }
                true
            },
        }
    }

    /// Drops every subscriber of an event type (the first step of recreating
    /// its channels). Returns how many there were.
    pub fn clear_topic(&mut self, event_type: &str) -> (count: usize)
        requires
            old(self).wf(),
        ensures
            final(self).wf(),
            final(self).clock_floor() == old(self).clock_floor(),
            count == subscribers_for(old(self).topics(), event_type@).len(),
            subscribers_for(final(self).topics(), event_type@).len() == 0,
            forall|n: Seq<char>| #[trigger]
                has_topic(final(self).topics(), n) == has_topic(old(self).topics(), n),
            forall|n: Seq<char>|
                n != event_type@ ==> #[trigger] subscribers_for(final(self).topics(), n)
                    == subscribers_for(old(self).topics(), n),
            final(self).token_events() == old(self).token_events(),
            final(self).deduplication_window() == old(self).deduplication_window(),
            final(self).buy_order_locks() == old(self).buy_order_locks(),
            final(self).recovery() == old(self).recovery(),
    {
        match self.find_topic(event_type) {
            None => 0,
            Some(i) => {
                proof {
                    lemma_topic_pos(self.topics@, i as int);
                }
                let old_subs = self.swap_subscribers(i, Vec::new());
                proof {
                    lemma_replace(old(self).topics@, self.topics@, i as int);
                }
                old_subs.len()
            },
        }
    }

    /// Whether some subscriber of an event type has failed 100 times in a row,
    /// which calls for maintenance before publishing.
    pub fn needs_emergency_maintenance(&self, event_type: &str) -> (r: bool)
        requires
            self.wf(),
        ensures
            r == exists|k: int|
                0 <= k < subscribers_for(self.topics(), event_type@).len()
                    && #[trigger] subscribers_for(self.topics(), event_type@)[k].consecutive_failures >= 100,
    {
        match self.subscribers(event_type) {
            None => false,
            Some(subs) => {
                let mut k: usize = 0;
                while k < subs.len()
                    invariant
                        subs@ == subscribers_for(self.topics(), event_type@),
                        k <= subs@.len(),
                        forall|j: int| 0 <= j < k ==> #[trigger] subs@[j].consecutive_failures < 100,
                    decreases subs.len() - k,
                {
                    if subs[k].consecutive_failures >= 100 {
                        return true;
                    }
                    k = k + 1;
                }
                false
            },
        }
    }

    /// Whether an event type's delivery is failing persistently: all of its
    /// (one or more) subscribers have failed at least 20 times in a row, or
    /// one has failed 100 times.
    pub fn has_persistent_failures(&self, event_type: &str) -> (r: bool)
        requires
            self.wf(),
        ensures
            ({
                let subs = subscribers_for(self.topics(), event_type@);
                r == ((subs.len() > 0 && forall|k: int|
                    0 <= k < subs.len() ==> #[trigger] subs[k].consecutive_failures >= 20) || exists|k: int|
                    0 <= k < subs.len() && #[trigger] subs[k].consecutive_failures >= 100)
            }),
    {
        match self.subscribers(event_type) {
            None => false,
            Some(subs) => {
                let mut all_failing = subs.len() > 0;
                let mut critical = false;
                let mut k: usize = 0;
                while k < subs.len()
                    invariant
                        subs@ == subscribers_for(self.topics(), event_type@),
                        k <= subs@.len(),
                        all_failing == (subs@.len() > 0 && forall|j: int| 0 <= j < k ==> #[trigger] subs@[j].consecutive_failures >= 20),
                        critical == exists|j: int| 0 <= j < k && #[trigger] subs@[j].consecutive_failures >= 100,
                    decreases subs.len() - k,
                {
                    if subs[k].consecutive_failures < 20 {
                        all_failing = false;
                    }
                    if subs[k].consecutive_failures >= 100 {
                        critical = true;
                    }
                    k = k + 1;
                }
                all_failing || critical
            },
        }
    }
}

proof fn lemma_pow2_positive(n: nat)
    ensures
        pow2(n) >= 1,
    decreases n,
{
    if n > 0 {
        lemma_pow2_positive((n - 1) as nat);
    }
}

proof fn lemma_pow2_monotone(a: nat, b: nat)
    requires
        a <= b,
    ensures
        pow2(a) <= pow2(b),
    decreases b,
{
    if a < b {
        lemma_pow2_monotone(a, (b - 1) as nat);
        lemma_pow2_positive((b - 1) as nat);
    }
}

/// Over two admissions of the same event (not a buy order) for one token:
/// when the first was delivered at `first`, the second at `later`, once the
/// deduplication window has passed, is delivered as well; within the window
/// it is held back.
pub proof fn law_repeat_after_window_delivered<S>(
    b0: MessageBus<S>,
    b1: MessageBus<S>,
    b2: MessageBus<S>,
    token: Seq<char>,
    key: Seq<char>,
    first: u64,
    later: u64,
    d2: bool,
)
    requires
        MessageBus::admission(b0, b1, Some(token), false, key, first, true),
        MessageBus::admission(b1, b2, Some(token), false, key, later, d2),
        first <= later,
    ensures
        later - first >= b0.deduplication_window() ==> d2,
        later - first < b0.deduplication_window() ==> !d2,
{
}

/// Once an event for a token has been delivered at `first`, the same event
/// for that token is a duplicate at any later time within the
/// deduplication window, so it is not delivered again.
pub proof fn law_repeat_event_suppressed(
    events: Map<Seq<char>, TokenEventInfo>,
    token: Seq<char>,
    event_key: Seq<char>,
    first: u64,
    later: u64,
    window: u64,
)
    requires
        events.contains_key(token),
        events[token].last_event_type@ == event_key,
        events[token].last_event_time == first,
        first <= later,
        later - first < window,
    ensures
        is_duplicate_event(events, token, event_key, later, window),
{
}

/// A buy order let through for a token at `first` locks further buy orders
/// for that token for 120 seconds.
pub proof fn law_buy_order_lock(locks: Map<Seq<char>, u64>, token: Seq<char>, first: u64, later: u64)
    requires
        first <= later,
        later - first < 120_000,
    ensures
        buy_order_locked(prune_locks(locks.insert(token, first), first), token, later),
{
}

/// Over two admissions of executed buy orders for one token: when the first
/// (at `first`) found the token unlocked, whether or not it was delivered,
/// the second within 120 seconds is held back.
pub proof fn law_second_buy_held_back<S>(
    b0: MessageBus<S>,
    b1: MessageBus<S>,
    b2: MessageBus<S>,
    token: Seq<char>,
    key1: Seq<char>,
    key2: Seq<char>,
    first: u64,
    later: u64,
    d1: bool,
    d2: bool,
)
    requires
        MessageBus::admission(b0, b1, Some(token), true, key1, first, d1),
        !buy_order_locked(b0.buy_order_locks(), token, first),
        MessageBus::admission(b1, b2, Some(token), true, key2, later, d2),
        first <= later,
        later - first < 120_000,
    ensures
        !d2,
{
    law_buy_order_lock(b0.buy_order_locks(), token, first, later);
}

/// The bus's clock after taking `reading` when it stood at `floor`.
pub open spec fn clock_after(floor: u64, reading: u64) -> u64 {
    if reading > floor {
        reading
    } else {
        floor
    }
}

/// The bus's clock follows the monotonic clock: once a reading has reached
/// the bus's clock, two readings `r1 <= r2` taken in turn move the bus's
/// clock to `r1` and then to `r2`, so the bus's clock advances by exactly
/// the time that passed between them; a reading never moves it back.
pub proof fn law_clock_follows_readings(floor: u64, r1: u64, r2: u64)
    requires
        floor <= r1 <= r2,
    ensures
        clock_after(floor, r1) == r1,
        clock_after(clock_after(floor, r1), r2) == r2,
        clock_after(clock_after(floor, r1), r2) - clock_after(floor, r1) == r2 - r1,
        forall|r: u64| #[trigger] clock_after(floor, r) >= floor && clock_after(floor, r) >= r,
{
}

/// The wait between recovery attempts never exceeds 30 seconds, and it
/// never shrinks as attempts accumulate.
pub proof fn law_recovery_backoff(a: u64, b: u64)
    ensures
        0 <= recovery_backoff_secs(a) <= 30,
        a <= b ==> recovery_backoff_secs(a) <= recovery_backoff_secs(b),
{
    if 0 < a <= b {
        lemma_pow2_monotone(a as nat, b as nat);
    }
}

/// Unsubscribing the identifier that a subscription was given restores the
/// event type's subscribers as they were before it: `subscribe` gives an
/// identifier that none of them uses.
pub proof fn law_unsubscribe_undoes_subscribe<S>(subs: Seq<SubscriberInfo<S>>, added: SubscriberInfo<S>)
    requires
        id_unused(subs, added.subscriber_id),
    ensures
        subs.push(added).filter(|s: SubscriberInfo<S>| s.subscriber_id != added.subscriber_id) == subs,
    decreases subs.len(),
{
    let pred = |s: SubscriberInfo<S>| s.subscriber_id != added.subscriber_id;
    reveal(Seq::filter);
    assert(subs.push(added).drop_last() =~= subs);
    if subs.len() > 0 {
        let d = subs.drop_last();
        assert forall|i: int| 0 <= i < d.len() implies (#[trigger] d[i]).subscriber_id != added.subscriber_id by {
            assert(d[i] == subs[i]);
        }
        law_unsubscribe_undoes_subscribe(d, added);
        assert(d.push(added).drop_last() =~= d);
        assert(d.filter(pred) == d);
        assert(subs.last().subscriber_id != added.subscriber_id);
        assert(subs.filter(pred) =~= d.filter(pred).push(subs.last()));
        assert(d.push(subs.last()) =~= subs);
    } else {
        assert(subs.filter(pred) =~= subs);
    }
}

/// Maintenance keeps no subscriber with five or more consecutive failures,
/// nor one stuck reconnecting for over a minute, nor one whose channel did
/// not answer; it never adds subscribers.
pub proof fn law_maintenance_keeps_healthy<S>(subs: Seq<SubscriberInfo<S>>, alive: Seq<bool>, now: u64)
    requires
        alive.len() == subs.len(),
    ensures
        keep_where(subs, maintenance_flags(subs, alive, now)).len() <= subs.len(),
        forall|j: int|
            0 <= j < keep_where(subs, maintenance_flags(subs, alive, now)).len() ==> survives_policy(
                #[trigger] keep_where(subs, maintenance_flags(subs, alive, now))[j],
                now,
            ) && keep_where(subs, maintenance_flags(subs, alive, now))[j].consecutive_failures < 5,
{
    let flags = maintenance_flags(subs, alive, now);
    lemma_keep_where_len(subs, flags);
    lemma_keep_where_members(subs, flags);
    assert forall|j: int| 0 <= j < keep_where(subs, flags).len() implies survives_policy(
        #[trigger] keep_where(subs, flags)[j],
        now,
    ) by {
        let i = choose|i: int| 0 <= i < subs.len() && flags[i] && #[trigger] keep_where(subs, flags)[j] == subs[i];
        assert(flags[i] == (survives_policy(subs[i], now) && alive[i]));
    }
}

} // verus!
