use vstd::prelude::*;
use crate::assoc::{
    Entry, entries_map, keys_unique, find_entry, set_entry, remove_entry, lemma_entries_value,
    lemma_entries_update, lemma_entries_domain,
};
use crate::clock::now_millis;
use crate::text::{str_eq, contains_str, to_lowercase, has_substring, lowercase};

verus! {

/// Actor health status levels.
#[derive(PartialEq, Eq, Structural, Clone, Copy, Debug)]
pub enum ActorHealthStatus {
    /// No recent failures.
    Good,
    /// Some failures, still operational.
    Degraded,
    /// Critical; may not be functioning.
    Critical,
}

/// What the supervisor knows of one actor. `last_failure` is in
/// milliseconds since the Unix epoch.
#[derive(Clone, Copy, Debug)]
pub struct ActorState {
    pub is_running: bool,
    pub failure_count: u32,
    pub last_failure: Option<i64>,
    pub health_status: ActorHealthStatus,
}

/// The state of an actor just registered: stopped and healthy.
pub open spec fn initial_state() -> ActorState {
    ActorState { is_running: false, failure_count: 0, last_failure: None, health_status: ActorHealthStatus::Good }
}

impl ActorState {
    /// A new actor state, stopped and healthy.
    pub fn new() -> (r: Self)
        ensures
            r == initial_state(),
    {
        ActorState { is_running: false, failure_count: 0, last_failure: None, health_status: ActorHealthStatus::Good }
    }
}

/// A registered actor: its handle and its tracked state.
pub struct ActorSlot<R> {
    pub actor: R,
    pub state: ActorState,
}

/// What one health probe of an actor found.
#[derive(PartialEq, Eq, Structural, Clone, Copy, Debug)]
pub enum HealthProbe {
    /// The actor answered with a status; `running` tells whether it reports
    /// itself running.
    Status { running: bool },
    /// The actor answered with something other than a status.
    UnexpectedResponse,
    /// The actor answered with an error.
    ErrorResponse,
    /// The reply channel closed without an answer.
    ReceiveFailed,
    /// No answer within the time limit.
    TimedOut,
    /// The query could not be sent.
    SendFailed,
}

/// What the health monitor is to do after a probe.
#[derive(PartialEq, Eq, Structural, Clone, Copy, Debug)]
pub enum HealthAction {
    /// Go on with the next actor.
    Continue,
    /// Send the actor a start command and end this round of checks.
    AttemptRecovery,
}

/// The actors the monitor tries to restart when they stop.
pub open spec fn is_critical_actor(id: Seq<char>) -> bool {
    id == "market"@ || id == "strategy"@ || id == "risk"@ || id == "execution"@
}

/// `x + 1`, staying at the maximum.
pub open spec fn sat_inc(x: u32) -> u32 {
    if x < u32::MAX {
        (x + 1) as u32
    } else {
        x
    }
}

/// A state after one more failure at `now`, with the given health.
pub open spec fn failed(st: ActorState, now: i64, health: ActorHealthStatus) -> ActorState {
    ActorState { failure_count: sat_inc(st.failure_count), last_failure: Some(now), health_status: health, ..st }
}

/// Health after `n` failures: critical from the third on.
pub open spec fn health_for_failures(n: u32) -> ActorHealthStatus {
    if n >= 3 {
        ActorHealthStatus::Critical
    } else {
        ActorHealthStatus::Degraded
    }
}

/// How a probe changes an actor's state, and what the monitor does next.
pub open spec fn probe_transition(st: ActorState, probe: HealthProbe, now: i64, id: Seq<char>) -> (ActorState, HealthAction) {
    match probe {
        HealthProbe::Status { running } => {
            if st.is_running != running {
                if running {
                    (ActorState { is_running: true, failure_count: 0, health_status: ActorHealthStatus::Good, ..st }, HealthAction::Continue)
                } else {
                    let st2 = failed(ActorState { is_running: false, ..st }, now, health_for_failures(sat_inc(st.failure_count)));
                    if sat_inc(st.failure_count) < 3 && is_critical_actor(id) {
                        (st2, HealthAction::AttemptRecovery)
                    } else {
                        (st2, HealthAction::Continue)
                    }
                }
            } else if running {
                (ActorState { health_status: ActorHealthStatus::Good, ..st }, HealthAction::Continue)
            } else {
                (st, HealthAction::Continue)
            }
        },
        HealthProbe::UnexpectedResponse => (st, HealthAction::Continue),
        HealthProbe::ErrorResponse => (failed(st, now, health_for_failures(sat_inc(st.failure_count))), HealthAction::Continue),
        HealthProbe::ReceiveFailed => (failed(st, now, health_for_failures(sat_inc(st.failure_count))), HealthAction::Continue),
        HealthProbe::TimedOut => (failed(st, now, ActorHealthStatus::Critical), HealthAction::Continue),
        HealthProbe::SendFailed => (failed(st, now, ActorHealthStatus::Critical), HealthAction::Continue),
    }
}

/// The registry after a probe of `id` found at `now`, and the monitor's next
/// step: a registered actor's state follows `probe_transition`; an unknown id
/// changes nothing.
pub open spec fn probe_applied<R>(
    before: Map<Seq<char>, ActorSlot<R>>,
    after: Map<Seq<char>, ActorSlot<R>>,
    id: Seq<char>,
    probe: HealthProbe,
    now: i64,
    action: HealthAction,
) -> bool {
    if before.contains_key(id) {
        let (st, act) = probe_transition(before[id].state, probe, now, id);
        &&& after == before.insert(id, ActorSlot { actor: before[id].actor, state: st })
        &&& action == act
    } else {
        &&& after == before
        &&& action == HealthAction::Continue
    }
}

/// Whether an actor's status text reports it running.
pub fn status_reports_running(status: &str) -> (r: bool)
    ensures
        r == has_substring(status@, "running: true"@),
{
    contains_str(status, "running: true")
}

fn is_critical_actor_exec(id: &str) -> (r: bool)
    ensures
        r == is_critical_actor(id@),
{
    str_eq(id, "market") || str_eq(id, "strategy") || str_eq(id, "risk") || str_eq(id, "execution")
}

/// Whether a registered actor id answers to an actor type in an emergency
/// reconnection: the same text, one contained in the other ignoring case, or
/// one of the known name pairs.
pub open spec fn actor_matches(id: Seq<char>, actor_type: Seq<char>) -> bool {
    ||| id == actor_type
    ||| has_substring(lowercase(id), lowercase(actor_type))
    ||| has_substring(lowercase(actor_type), lowercase(id))
    ||| (id == "strategy"@ && actor_type == "StrategyActor"@) || (id == "StrategyActor"@ && actor_type == "strategy"@)
    ||| (id == "risk"@ && actor_type == "RiskManagerActor"@) || (id == "RiskManagerActor"@ && actor_type == "risk"@)
    ||| (id == "execution"@ && actor_type == "ExecutionActor"@) || (id == "ExecutionActor"@ && actor_type == "execution"@)
    ||| (id == "market"@ && actor_type == "MarketDataActor"@) || (id == "MarketDataActor"@ && actor_type == "market"@)
    ||| (id == "database"@ && actor_type == "DatabaseActor"@) || (id == "DatabaseActor"@ && actor_type == "database"@)
}

/// Decides `actor_matches` for two strings.
pub fn actor_id_matches(id: &str, actor_type: &str) -> (r: bool)
    ensures
        r == actor_matches(id@, actor_type@),
{
    if str_eq(id, actor_type) {
        return true;
    }
    let id_lower = to_lowercase(id);
    let type_lower = to_lowercase(actor_type);
    if contains_str(id_lower.as_str(), type_lower.as_str()) || contains_str(type_lower.as_str(), id_lower.as_str()) {
        return true;
    }
    (str_eq(id, "strategy") && str_eq(actor_type, "StrategyActor")) || (str_eq(id, "StrategyActor") && str_eq(actor_type, "strategy"))
        || (str_eq(id, "risk") && str_eq(actor_type, "RiskManagerActor")) || (str_eq(id, "RiskManagerActor") && str_eq(actor_type, "risk"))
        || (str_eq(id, "execution") && str_eq(actor_type, "ExecutionActor")) || (str_eq(id, "ExecutionActor") && str_eq(actor_type, "execution"))
        || (str_eq(id, "market") && str_eq(actor_type, "MarketDataActor")) || (str_eq(id, "MarketDataActor") && str_eq(actor_type, "market"))
        || (str_eq(id, "database") && str_eq(actor_type, "DatabaseActor")) || (str_eq(id, "DatabaseActor") && str_eq(actor_type, "database"))
}

/// The keys of `entries` that answer to `actor_type`, in order.
pub open spec fn matching_keys<V>(entries: Seq<Entry<V>>, actor_type: Seq<char>) -> Seq<Seq<char>>
    decreases entries.len(),
{
    if entries.len() == 0 {
        Seq::empty()
    } else {
        let rest = matching_keys(entries.drop_last(), actor_type);
        if actor_matches(entries.last().key@, actor_type) {
            rest.push(entries.last().key@)
        } else {
            rest
        }
    }
}

/// A key is among the matching keys exactly when some entry has it and it
/// answers to the actor type.
pub proof fn lemma_matching_keys<V>(entries: Seq<Entry<V>>, actor_type: Seq<char>, key: Seq<char>)
    ensures
        matching_keys(entries, actor_type).contains(key) <==> (actor_matches(key, actor_type)
            && exists|a: int| 0 <= a < entries.len() && entries[a].key@ == key),
    decreases entries.len(),
{
    if entries.len() > 0 {
        let d = entries.drop_last();
        lemma_matching_keys(d, actor_type, key);
        let rest = matching_keys(d, actor_type);
        if actor_matches(entries.last().key@, actor_type) {
            let full = rest.push(entries.last().key@);
            if full.contains(key) {
                let j = choose|j: int| 0 <= j < full.len() && full[j] == key;
                if j < rest.len() {
                    assert(rest[j] == key);
                    let a = choose|a: int| 0 <= a < d.len() && d[a].key@ == key;
                    assert(entries[a] == d[a]);
                } else {
                    assert(entries[entries.len() - 1].key@ == key);
                }
            }
            if actor_matches(key, actor_type) && exists|a: int| 0 <= a < entries.len() && entries[a].key@ == key {
                let a = choose|a: int| 0 <= a < entries.len() && entries[a].key@ == key;
                if a < entries.len() - 1 {
                    assert(d[a] == entries[a]);
                    assert(rest.contains(key));
                    let j = choose|j: int| 0 <= j < rest.len() && rest[j] == key;
                    assert(full[j] == key);
                } else {
                    assert(full[full.len() - 1] == key);
                }
            }
        } else {
            if rest.contains(key) {
                let a = choose|a: int| 0 <= a < d.len() && d[a].key@ == key;
                assert(entries[a] == d[a]);
            }
            if actor_matches(key, actor_type) && exists|a: int| 0 <= a < entries.len() && entries[a].key@ == key {
                let a = choose|a: int| 0 <= a < entries.len() && entries[a].key@ == key;
                if a < entries.len() - 1 {
                    assert(d[a] == entries[a]);
                } else {
                    assert(entries.last().key@ == key);
                }
            }
        }
    }
}

/// One actor's line in the health report.
pub struct ActorReport {
    pub id: String,
    pub running: bool,
    pub health: ActorHealthStatus,
    pub failure_count: u32,
    pub last_failure: Option<i64>,
}

/// The supervisor's health report.
pub struct HealthReport {
    pub supervisor_running: bool,
    pub total_actors: usize,
    pub running_actors: usize,
    pub failing_actors: usize,
    pub overall_health: ActorHealthStatus,
    pub actors: Vec<ActorReport>,
}

/// Rows that report a running actor.
pub open spec fn count_running(rows: Seq<ActorReport>) -> int
    decreases rows.len(),
{
    if rows.len() == 0 {
        0
    } else {
        count_running(rows.drop_last()) + if rows.last().running { 1int } else { 0int }
    }
}

/// Rows that report at least one failure.
pub open spec fn count_failing(rows: Seq<ActorReport>) -> int
    decreases rows.len(),
{
    if rows.len() == 0 {
        0
    } else {
        count_failing(rows.drop_last()) + if rows.last().failure_count > 0 { 1int } else { 0int }
    }
}

/// Overall health from the number of failing actors.
pub open spec fn overall_health(failing: int) -> ActorHealthStatus {
    if failing > 2 {
        ActorHealthStatus::Critical
    } else if failing > 0 {
        ActorHealthStatus::Degraded
    } else {
        ActorHealthStatus::Good
    }
}

/// The failing actors of a report are exactly its rows with at least one
/// failure, whatever their health, and the running actors its rows that
/// report running; the overall health is good exactly when no row reports a
/// failure.
pub proof fn law_report_counts(rows: Seq<ActorReport>)
    ensures
        count_failing(rows) == rows.filter(|r: ActorReport| r.failure_count > 0).len(),
        count_running(rows) == rows.filter(|r: ActorReport| r.running).len(),
        (overall_health(count_failing(rows)) == ActorHealthStatus::Good) == (forall|k: int|
            0 <= k < rows.len() ==> (#[trigger] rows[k]).failure_count == 0),
    decreases rows.len(),
{
    reveal(Seq::filter);
    if rows.len() > 0 {
        law_report_counts(rows.drop_last());
        lemma_counts_bounded(rows.drop_last());
        let d = rows.drop_last();
        if forall|k: int| 0 <= k < rows.len() ==> (#[trigger] rows[k]).failure_count == 0 {
            assert forall|k: int| 0 <= k < d.len() implies (#[trigger] d[k]).failure_count == 0 by {
                assert(d[k] == rows[k]);
            }
        } else {
            let k = choose|k: int| 0 <= k < rows.len() && (#[trigger] rows[k]).failure_count != 0;
            if k < rows.len() - 1 {
                assert(d[k] == rows[k]);
            }
        }
    }
}

/// In a health report, neither the running nor the failing actors outnumber
/// the actors reported.
pub proof fn lemma_counts_bounded(rows: Seq<ActorReport>)
    ensures
        0 <= count_running(rows) <= rows.len(),
        0 <= count_failing(rows) <= rows.len(),
    decreases rows.len(),
{
    if rows.len() > 0 {
        lemma_counts_bounded(rows.drop_last());
    }
}

/// The supervisor's registry of actors (with handles of type `R`) and their
/// tracked health.
pub struct SupervisorActor<R> {
    entries: Vec<Entry<ActorSlot<R>>>,
    running: bool,
    health_check_interval: u64,
}

impl<R> SupervisorActor<R> {
    /// The registered actors by id.
    pub closed spec fn slots(&self) -> Map<Seq<char>, ActorSlot<R>> {
        entries_map(self.entries@)
    }

    /// The registered actors in registration order.
    pub closed spec fn slot_list(&self) -> Seq<Entry<ActorSlot<R>>> {
        self.entries@
    }

    /// Whether the supervisor itself is running.
    pub closed spec fn is_running(&self) -> bool {
        self.running
    }

    /// Seconds between health checks.
    pub closed spec fn interval(&self) -> u64 {
        self.health_check_interval
    }

    /// No actor id is registered twice, and the list is what `slots` maps.
    pub closed spec fn wf(&self) -> bool {
        keys_unique(self.entries@)
    }

    /// The registry in registration order and the registry by id describe
    /// the same actors, each id once.
    pub proof fn lemma_slot_list(&self)
        requires
            self.wf(),
        ensures
            keys_unique(self.slot_list()),
            self.slots() == entries_map(self.slot_list()),
    {
    }

    /// A running supervisor with no actors and a 30 s health-check interval.
    pub fn new() -> (r: Self)
        ensures
            r.wf(),
            r.slots() == Map::<Seq<char>, ActorSlot<R>>::empty(),
            r.slot_list().len() == 0,
            r.is_running(),
            r.interval() == 30,
    {
        SupervisorActor { entries: Vec::new(), running: true, health_check_interval: 30 }
    }

    /// Sets the health-check interval.
    pub fn with_health_check_interval(self, interval_seconds: u64) -> (r: Self)
        ensures
            r.slots() == self.slots(),
            r.slot_list() == self.slot_list(),
            r.wf() == self.wf(),
            r.is_running() == self.is_running(),
            r.interval() == interval_seconds,
    {
        let mut s = self;
        s.health_check_interval = interval_seconds;
        s
    }

    /// Changes the health-check interval (a configuration update).
    pub fn set_health_check_interval(&mut self, interval_seconds: u64)
        ensures
            final(self).slots() == old(self).slots(),
            final(self).slot_list() == old(self).slot_list(),
            final(self).wf() == old(self).wf(),
            final(self).is_running() == old(self).is_running(),
            final(self).interval() == interval_seconds,
    {
        self.health_check_interval = interval_seconds;
    }

    /// The health-check interval in seconds.
    pub fn health_check_interval(&self) -> (r: u64)
        ensures
            r == self.interval(),
    {
        self.health_check_interval
    }

    /// Marks the supervisor started or stopped.
    pub fn set_supervisor_running(&mut self, running: bool)
        ensures
            final(self).slots() == old(self).slots(),
            final(self).slot_list() == old(self).slot_list(),
            final(self).wf() == old(self).wf(),
            final(self).is_running() == running,
            final(self).interval() == old(self).interval(),
    {
        self.running = running;
    }

    /// Registers (or re-registers) an actor under `id`, with a fresh state.
    pub fn register_actor(&mut self, id: String, actor: R)
        requires
            old(self).wf(),
        ensures
            final(self).wf(),
            final(self).slots() == register_slots(old(self).slots(), id@, actor),
            final(self).is_running() == old(self).is_running(),
            final(self).interval() == old(self).interval(),
    {
        set_entry(&mut self.entries, id, ActorSlot { actor, state: ActorState::new() });
    }

    /// Removes the actor registered under `id`, if any.
    pub fn unregister_actor(&mut self, id: &str)
        requires
            old(self).wf(),
        ensures
            final(self).wf(),
            final(self).slots() == old(self).slots().remove(id@),
            final(self).is_running() == old(self).is_running(),
            final(self).interval() == old(self).interval(),
    {
        let _ = remove_entry(&mut self.entries, id);
    }

    /// The handle of the actor registered under `id`.
    pub fn get_actor(&self, id: &str) -> (r: Option<&R>)
        requires
            self.wf(),
        ensures
            (match r {
                Some(a) => Some(*a),
                None => None::<R>,
            }) == actor_under(self.slots(), id@),
    {
        match find_entry(&self.entries, id) {
            Some(i) => {
                proof {
                    lemma_entries_value(self.entries@, i as int);
                }
                Some(&self.entries[i].value.actor)
            },
            None => None,
        }
    }

    /// The tracked state of the actor registered under `id`.
    pub fn get_state(&self, id: &str) -> (r: Option<ActorState>)
        requires
            self.wf(),
        ensures
            r == state_under(self.slots(), id@),
    {
        match find_entry(&self.entries, id) {
            Some(i) => {
                proof {
                    lemma_entries_value(self.entries@, i as int);
                }
                Some(self.entries[i].value.state)
            },
            None => None,
        }
    }

    /// The number of registered actors.
    pub fn actor_count(&self) -> (n: usize)
        ensures
            n == self.slot_list().len(),
    {
        self.entries.len()
    }

    /// The registered ids, in registration order.
    pub fn actor_ids(&self) -> (ids: Vec<String>)
        ensures
            ids@.len() == self.slot_list().len(),
            forall|k: int| 0 <= k < ids@.len() ==> #[trigger] ids@[k]@ == self.slot_list()[k].key@,
    {
        let mut ids: Vec<String> = Vec::new();
        let mut k: usize = 0;
        while k < self.entries.len()
            invariant
                k <= self.entries@.len(),
                ids@.len() == k,
                forall|j: int| 0 <= j < k ==> #[trigger] ids@[j]@ == self.entries@[j].key@,
            decreases self.entries.len() - k,
        {
            ids.push(self.entries[k].key.clone());
            k = k + 1;
        }
        ids
    }

    /// Replaces the state of the actor under `id` with `new_state`; nothing
    /// happens when `id` is unknown.
    fn put_state(&mut self, id: &str, new_state: ActorState) -> (found: bool)
        requires
            old(self).wf(),
        ensures
            final(self).wf(),
            found == old(self).slots().contains_key(id@),
            found ==> final(self).slots() == old(self).slots().insert(
                id@,
                ActorSlot { actor: old(self).slots()[id@].actor, state: new_state },
            ),
            !found ==> final(self).slots() == old(self).slots(),
            final(self).slot_list().len() == old(self).slot_list().len(),
            final(self).is_running() == old(self).is_running(),
            final(self).interval() == old(self).interval(),
    {
        match find_entry(&self.entries, id) {
            Some(i) => {
                proof {
                    lemma_entries_value(self.entries@, i as int);
                }
                let ghost before = self.entries@;
                self.entries[i].value.state = new_state;
                proof {
                    let e = self.entries@[i as int];
                    assert(self.entries@ =~= before.update(i as int, e));
                    lemma_entries_update(before, i as int, e);
                }
                true
            },
            None => {
                proof {
                    lemma_entries_domain(self.entries@, id@);
                }
                false
            },
        }
    }

    /// Records the result of sending a start command while starting all
    /// actors: the actor is running exactly when the command went out.
    pub fn record_start(&mut self, id: &str, sent_ok: bool)
        requires
            old(self).wf(),
        ensures
            final(self).wf(),
            old(self).slots().contains_key(id@) ==> final(self).slots() == old(self).slots().insert(
                id@,
                ActorSlot {
                    actor: old(self).slots()[id@].actor,
                    state: ActorState { is_running: sent_ok, ..old(self).slots()[id@].state },
                },
            ),
            !old(self).slots().contains_key(id@) ==> final(self).slots() == old(self).slots(),
            final(self).is_running() == old(self).is_running(),
            final(self).interval() == old(self).interval(),
    {
        if let Some(st) = self.get_state(id) {
            let _ = self.put_state(id, ActorState { is_running: sent_ok, ..st });
        }
    }

    /// Records the result of sending a stop command: a stop that went out
    /// marks the actor stopped; a failed one changes nothing.
    pub fn record_stop(&mut self, id: &str, sent_ok: bool)
        requires
            old(self).wf(),
        ensures
            final(self).wf(),
            (old(self).slots().contains_key(id@) && sent_ok) ==> final(self).slots() == old(self).slots().insert(
                id@,
                ActorSlot {
                    actor: old(self).slots()[id@].actor,
                    state: ActorState { is_running: false, ..old(self).slots()[id@].state },
                },
            ),
            !(old(self).slots().contains_key(id@) && sent_ok) ==> final(self).slots() == old(self).slots(),
            final(self).is_running() == old(self).is_running(),
            final(self).interval() == old(self).interval(),
    {
        if sent_ok {
            if let Some(st) = self.get_state(id) {
                let _ = self.put_state(id, ActorState { is_running: false, ..st });
            }
        }
    }

    /// Records a restart (a stop, then a start) of the actor under `id`: its
    /// failure record is cleared and it counts as running; it is `Degraded`
    /// when the start command went out and `Good` otherwise. Returns false,
    /// changing nothing, when no actor has that id.
    pub fn record_restart(&mut self, id: &str, stop_ok: bool, start_ok: bool) -> (found: bool)
        requires
            old(self).wf(),
        ensures
            final(self).wf(),
            found == old(self).slots().contains_key(id@),
            found ==> final(self).slots() == old(self).slots().insert(
                id@,
                ActorSlot {
                    actor: old(self).slots()[id@].actor,
                    state: ActorState {
                        is_running: true,
                        failure_count: 0,
                        last_failure: None,
                        health_status: if start_ok {
                            ActorHealthStatus::Degraded
                        } else {
                            ActorHealthStatus::Good
                        },
                    },
                },
            ),
            !found ==> final(self).slots() == old(self).slots(),
            final(self).is_running() == old(self).is_running(),
            final(self).interval() == old(self).interval(),
    {
        let _ = stop_ok;
        let health = if start_ok {
            ActorHealthStatus::Degraded
        } else {
            ActorHealthStatus::Good
        };
        self.put_state(
            id,
            ActorState { is_running: true, failure_count: 0, last_failure: None, health_status: health },
        )
    }

    /// Applies one health probe of the actor under `id`, found at `now_ms`,
    /// and says what the monitor does next. Unknown ids change nothing.
    pub fn apply_health_probe(&mut self, id: &str, probe: HealthProbe, now_ms: i64) -> (action: HealthAction)
        requires
            old(self).wf(),
        ensures
            final(self).wf(),
            old(self).slots().contains_key(id@) ==> {
                let (st, act) = probe_transition(old(self).slots()[id@].state, probe, now_ms, id@);
                &&& final(self).slots() == old(self).slots().insert(id@, ActorSlot { actor: old(self).slots()[id@].actor, state: st })
                &&& action == act
            },
            !old(self).slots().contains_key(id@) ==> final(self).slots() == old(self).slots() && action == HealthAction::Continue,
            final(self).is_running() == old(self).is_running(),
            final(self).interval() == old(self).interval(),
    {
        let st = match self.get_state(id) {
            Some(st) => st,
            None => {
                return HealthAction::Continue;
            },
        };
        let bumped = if st.failure_count < u32::MAX {
            st.failure_count + 1
        } else {
            st.failure_count
        };
        let degraded_or_critical = if bumped >= 3 {
            ActorHealthStatus::Critical
        } else {
            ActorHealthStatus::Degraded
        };
        let (new_state, action) = match probe {
            HealthProbe::Status { running } => {
                if st.is_running != running {
                    if running {
                        (ActorState { is_running: true, failure_count: 0, health_status: ActorHealthStatus::Good, ..st }, HealthAction::Continue)
                    } else {
                        let st2 = ActorState {
                            is_running: false,
                            failure_count: bumped,
                            last_failure: Some(now_ms),
                            health_status: degraded_or_critical,
                        };
                        if bumped < 3 && is_critical_actor_exec(id) {
                            (st2, HealthAction::AttemptRecovery)
                        } else {
                            (st2, HealthAction::Continue)
                        }
                    }
                } else if running {
                    (ActorState { health_status: ActorHealthStatus::Good, ..st }, HealthAction::Continue)
                } else {
                    (st, HealthAction::Continue)
                }
            },
            HealthProbe::UnexpectedResponse => (st, HealthAction::Continue),
            HealthProbe::ErrorResponse | HealthProbe::ReceiveFailed => {
                (ActorState { failure_count: bumped, last_failure: Some(now_ms), health_status: degraded_or_critical, ..st }, HealthAction::Continue)
            },
            HealthProbe::TimedOut | HealthProbe::SendFailed => {
                (ActorState { failure_count: bumped, last_failure: Some(now_ms), health_status: ActorHealthStatus::Critical, ..st }, HealthAction::Continue)
            },
        };
        let _ = self.put_state(id, new_state);
        action
    }

    /// Applies `apply_health_probe` at the system clock's time. An unknown id
    /// needs no time: nothing changes and the monitor goes on. For a
    /// registered actor, none comes back, and nothing changes, when the clock
    /// cannot be read as a time after 1970 that fits in an `i64`.
    pub fn apply_health_probe_now(&mut self, id: &str, probe: HealthProbe) -> (r: Option<HealthAction>)
        requires
            old(self).wf(),
        ensures
            final(self).wf(),
            final(self).slots().dom() == old(self).slots().dom(),
            !old(self).slots().contains_key(id@) ==> final(self).slots() == old(self).slots() && r == Some(
                HealthAction::Continue,
            ),
            r is None ==> final(self).slots() == old(self).slots(),
            r is Some ==> exists|now: i64|
                now >= 0 && #[trigger] probe_applied(old(self).slots(), final(self).slots(), id@, probe, now, r->0),
            final(self).is_running() == old(self).is_running(),
            final(self).interval() == old(self).interval(),
    {
        if self.get_state(id).is_none() {
            let r = Some(HealthAction::Continue);
            proof {
                assert(probe_applied(old(self).slots(), self.slots(), id@, probe, 0, r->0));
            }
            return r;
        }
        let now: i64 = match now_millis() {
            Some(t) => {
                if t <= 0x7fff_ffff_ffff_ffffu64 {
                    t as i64
                } else {
                    return None;
                }
            },
            None => {
                return None;
            },
        };
        let action = self.apply_health_probe(id, probe, now);
        let r = Some(action);
        proof {
            assert(final(self).slots().dom() =~= old(self).slots().dom());
            assert(probe_applied(old(self).slots(), self.slots(), id@, probe, now, r->0));
        }
        r
    }

    /// The ids that answer to `actor_type` for an emergency reconnection, in
    /// registration order.
    pub fn matching_actor_ids(&self, actor_type: &str) -> (ids: Vec<String>)
        requires
            self.wf(),
        ensures
            ids@.map_values(|x: String| x@) == matching_keys(self.slot_list(), actor_type@),
    {
        let mut ids: Vec<String> = Vec::new();
        let mut k: usize = 0;
        while k < self.entries.len()
            invariant
                k <= self.entries@.len(),
                ids@.map_values(|x: String| x@) == matching_keys(self.entries@.take(k as int), actor_type@),
            decreases self.entries.len() - k,
        {
            let ghost before = ids@;
            proof {
                assert(self.entries@.take(k + 1).drop_last() =~= self.entries@.take(k as int));
            }
            if actor_id_matches(self.entries[k].key.as_str(), actor_type) {
                ids.push(self.entries[k].key.clone());
                proof {
                    assert(ids@.map_values(|x: String| x@) =~= before.map_values(|x: String| x@).push(self.entries@[k as int].key@));
                }
            }
            k = k + 1;
        }
        proof {
            assert(self.entries@.take(self.entries@.len() as int) =~= self.entries@);
        }
        ids
    }

    /// `mark_emergency` at the system clock's time. Returns whether the
    /// clock could be read (as a time after 1970 that fits in an `i64`);
    /// when it could not, nothing changes.
    pub fn mark_emergency_now(&mut self, id: &str) -> (marked: bool)
        requires
            old(self).wf(),
        ensures
            final(self).wf(),
            !marked ==> final(self).slots() == old(self).slots(),
            marked ==> exists|now: i64|
                now >= 0 && (old(self).slots().contains_key(id@) ==> final(self).slots() == old(self).slots().insert(
                    id@,
                    ActorSlot {
                        actor: old(self).slots()[id@].actor,
                        state: #[trigger] failed(old(self).slots()[id@].state, now, ActorHealthStatus::Critical),
                    },
                )) && (!old(self).slots().contains_key(id@) ==> final(self).slots() == old(self).slots()),
            final(self).is_running() == old(self).is_running(),
            final(self).interval() == old(self).interval(),
    {
        let now: i64 = match now_millis() {
            Some(t) => {
                if t <= 0x7fff_ffff_ffff_ffffu64 {
                    t as i64
                } else {
                    return false;
                }
            },
            None => {
                return false;
            },
        };
        self.mark_emergency(id, now);
        true
    }

    /// Records how an emergency reconnection of the actor under `id` ended:
    /// when its start command went out the actor is running again; when it
    /// could not be sent nothing changes.
    pub fn finish_emergency_restart(&mut self, id: &str, start_sent_ok: bool)
        requires
            old(self).wf(),
        ensures
            final(self).wf(),
            start_sent_ok && old(self).slots().contains_key(id@) ==> final(self).slots() == old(self).slots().insert(
                id@,
                ActorSlot {
                    actor: old(self).slots()[id@].actor,
                    state: ActorState { is_running: true, ..old(self).slots()[id@].state },
                },
            ),
            !(start_sent_ok && old(self).slots().contains_key(id@)) ==> final(self).slots() == old(self).slots(),
            final(self).is_running() == old(self).is_running(),
            final(self).interval() == old(self).interval(),
    {
        if start_sent_ok {
            if let Some(st) = self.get_state(id) {
                let _ = self.put_state(id, ActorState { is_running: true, ..st });
            }
        }
    }

    /// Records that an emergency reconnection of the actor under `id` begins
    /// at `now_ms`: one more failure, and critical health.
    pub fn mark_emergency(&mut self, id: &str, now_ms: i64)
        requires
            old(self).wf(),
        ensures
            final(self).wf(),
            old(self).slots().contains_key(id@) ==> final(self).slots() == old(self).slots().insert(
                id@,
                ActorSlot { actor: old(self).slots()[id@].actor, state: failed(old(self).slots()[id@].state, now_ms, ActorHealthStatus::Critical) },
            ),
            !old(self).slots().contains_key(id@) ==> final(self).slots() == old(self).slots(),
            final(self).is_running() == old(self).is_running(),
            final(self).interval() == old(self).interval(),
    {
        if let Some(st) = self.get_state(id) {
            let bumped = if st.failure_count < u32::MAX {
                st.failure_count + 1
            } else {
                st.failure_count
            };
            let _ = self.put_state(
                id,
                ActorState { failure_count: bumped, last_failure: Some(now_ms), health_status: ActorHealthStatus::Critical, ..st },
            );
        }
    }

    /// The health report: one row per actor, the counts of running and of
    /// failing actors, and the overall health (critical above two failing
    /// actors, degraded with one or two, good with none).
    pub fn get_health_report(&self) -> (report: HealthReport)
        requires
            self.wf(),
        ensures
            report.supervisor_running == self.is_running(),
            report.actors@.len() == self.slot_list().len(),
            report.total_actors == self.slot_list().len(),
            forall|k: int| 0 <= k < report.actors@.len() ==> {
                let row = #[trigger] report.actors@[k];
                let st = self.slot_list()[k].value.state;
                &&& row.id@ == self.slot_list()[k].key@
                &&& row.running == st.is_running
                &&& row.health == st.health_status
                &&& row.failure_count == st.failure_count
                &&& row.last_failure == st.last_failure
            },
            report.running_actors == count_running(report.actors@),
            report.failing_actors == count_failing(report.actors@),
            report.overall_health == overall_health(report.failing_actors as int),
            report.failing_actors == report.actors@.filter(|r: ActorReport| r.failure_count > 0).len(),
            report.running_actors == report.actors@.filter(|r: ActorReport| r.running).len(),
            (report.overall_health == ActorHealthStatus::Good) == (forall|k: int|
                0 <= k < report.actors@.len() ==> (#[trigger] report.actors@[k]).failure_count == 0),
    {
        let mut rows: Vec<ActorReport> = Vec::new();
        let mut running_count: usize = 0;
        let mut failing_count: usize = 0;
        let mut k: usize = 0;
        while k < self.entries.len()
            invariant
                k <= self.entries@.len(),
                rows@.len() == k,
                forall|j: int| 0 <= j < k ==> {
                    let row = #[trigger] rows@[j];
                    let st = self.entries@[j].value.state;
                    &&& row.id@ == self.entries@[j].key@
                    &&& row.running == st.is_running
                    &&& row.health == st.health_status
                    &&& row.failure_count == st.failure_count
                    &&& row.last_failure == st.last_failure
                },
                running_count == count_running(rows@),
                failing_count == count_failing(rows@),
            decreases self.entries.len() - k,
        {
            let st = self.entries[k].value.state;
            let row = ActorReport {
                id: self.entries[k].key.clone(),
                running: st.is_running,
                health: st.health_status,
                failure_count: st.failure_count,
                last_failure: st.last_failure,
            };
            let ghost before = rows@;
            proof {
                lemma_counts_bounded(before);
            }
            if st.is_running {
                running_count = running_count + 1;
            }
            if st.failure_count > 0 {
                failing_count = failing_count + 1;
            }
            rows.push(row);
            proof {
                assert(rows@.drop_last() =~= before);
            }
            k = k + 1;
        }
        let overall = if failing_count > 2 {
            ActorHealthStatus::Critical
        } else if failing_count > 0 {
            ActorHealthStatus::Degraded
        } else {
            ActorHealthStatus::Good
        };
        proof {
            law_report_counts(rows@);
        }
        HealthReport {
            supervisor_running: self.running,
            total_actors: self.entries.len(),
            running_actors: running_count,
            failing_actors: failing_count,
            overall_health: overall,
            actors: rows,
        }
    }
}

/// The registry after `actor` is registered under `id`, in its initial state.
pub open spec fn register_slots<R>(slots: Map<Seq<char>, ActorSlot<R>>, id: Seq<char>, actor: R) -> Map<Seq<char>, ActorSlot<R>> {
    slots.insert(id, ActorSlot { actor, state: initial_state() })
}

/// The actor registered under `id`, if any.
pub open spec fn actor_under<R>(slots: Map<Seq<char>, ActorSlot<R>>, id: Seq<char>) -> Option<R> {
    if slots.contains_key(id) {
        Some(slots[id].actor)
    } else {
        None
    }
}

/// The state tracked under `id`, if any.
pub open spec fn state_under<R>(slots: Map<Seq<char>, ActorSlot<R>>, id: Seq<char>) -> Option<ActorState> {
    if slots.contains_key(id) {
        Some(slots[id].state)
    } else {
        None
    }
}

/// Looking up an id just registered finds that actor in its initial state
/// (stopped, healthy, no failures); other ids are found as before; after
/// unregistering an id, nothing is found under it.
pub proof fn law_register_lookup<R>(slots: Map<Seq<char>, ActorSlot<R>>, id: Seq<char>, actor: R, other: Seq<char>)
    ensures
        actor_under(register_slots(slots, id, actor), id) == Some(actor),
        state_under(register_slots(slots, id, actor), id) == Some(initial_state()),
        other != id ==> actor_under(register_slots(slots, id, actor), other) == actor_under(slots, other),
        other != id ==> state_under(register_slots(slots, id, actor), other) == state_under(slots, other),
        actor_under(slots.remove(id), id) is None,
        other != id ==> actor_under(slots.remove(id), other) == actor_under(slots, other),
{
}

/// What a health probe does to an actor's record: an actor that reports
/// itself running is healthy again; a probe that times out or cannot be sent
/// makes it critical; every other failure adds one to its count; and the
/// monitor tries to restart only a critical actor (market, strategy, risk,
/// execution) that it found stopped with fewer than three failures. From the
/// third failure on, a failing actor is critical.
pub proof fn law_probe_transition(st: ActorState, probe: HealthProbe, now: i64, id: Seq<char>)
    ensures
        probe == (HealthProbe::Status { running: true }) ==> probe_transition(st, probe, now, id).0.is_running
            && probe_transition(st, probe, now, id).0.health_status == ActorHealthStatus::Good,
        (probe == HealthProbe::TimedOut || probe == HealthProbe::SendFailed) ==> probe_transition(st, probe, now, id).0.health_status
            == ActorHealthStatus::Critical && probe_transition(st, probe, now, id).0.failure_count == sat_inc(
            st.failure_count,
        ) && probe_transition(st, probe, now, id).0.last_failure == Some(now),
        (probe == HealthProbe::ErrorResponse || probe == HealthProbe::ReceiveFailed) ==> probe_transition(st, probe, now, id).0.failure_count
            == sat_inc(st.failure_count),
        probe_transition(st, probe, now, id).1 == HealthAction::AttemptRecovery ==> is_critical_actor(id)
            && !probe_transition(st, probe, now, id).0.is_running && probe_transition(st, probe, now, id).0.failure_count < 3,
        (probe == HealthProbe::ErrorResponse || probe == HealthProbe::ReceiveFailed) && sat_inc(st.failure_count) >= 3
            ==> probe_transition(st, probe, now, id).0.health_status == ActorHealthStatus::Critical,
{
}

/// The overall health only worsens as more actors fail.
pub proof fn law_overall_health_monotone(a: int, b: int)
    requires
        0 <= a <= b,
    ensures
        overall_health(a) == ActorHealthStatus::Critical ==> overall_health(b) == ActorHealthStatus::Critical,
        overall_health(a) != ActorHealthStatus::Good ==> overall_health(b) != ActorHealthStatus::Good,
{
}

} // verus!
