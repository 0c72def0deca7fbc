use vstd::prelude::*;
use crate::assoc::{Entry, entries_map, keys_unique, find_entry, set_entry, remove_entry,
    lemma_entries_domain};
use crate::strset::StringSet;
use crate::text::{eq_ignore_case, lowercase, to_lowercase, contains_str, has_substring};

verus! {

/// The stage a DEX transaction has reached.
#[derive(PartialEq, Eq, Structural, Clone, Copy, Debug)]
pub enum TxPhase {
    Queued,
    Pending,
    Confirmed,
    Success,
    Failed,
    Dropped,
}

/// A transaction in one of these stages will not change any more.
pub open spec fn phase_is_terminal(p: TxPhase) -> bool {
    p == TxPhase::Success || p == TxPhase::Failed || p == TxPhase::Dropped
}

/// The status text under which a stage is logged.
pub open spec fn phase_label(p: TxPhase) -> Seq<char> {
    match p {
        TxPhase::Queued => "Queued"@,
        TxPhase::Pending => "Pending"@,
        TxPhase::Confirmed => "Confirmed"@,
        TxPhase::Success => "Success"@,
        TxPhase::Failed => "Failed"@,
        TxPhase::Dropped => "Dropped"@,
    }
}

impl TxPhase {
    /// Whether the stage is final.
    pub fn is_terminal(&self) -> (r: bool)
        ensures
            r == phase_is_terminal(*self),
    {
        match self {
            TxPhase::Success | TxPhase::Failed | TxPhase::Dropped => true,
            _ => false,
        }
    }

    /// The status text of the stage.
    pub fn label(&self) -> (r: String)
        ensures
            r@ == phase_label(*self),
    {
        match self {
            TxPhase::Queued => String::from_str("Queued"),
            TxPhase::Pending => String::from_str("Pending"),
            TxPhase::Confirmed => String::from_str("Confirmed"),
            TxPhase::Success => String::from_str("Success"),
            TxPhase::Failed => String::from_str("Failed"),
            TxPhase::Dropped => String::from_str("Dropped"),
        }
    }
}

/// What is known of one tracked transaction: its stage and the full status
/// as the DEX client reported it.
pub struct TrackedTx<St> {
    pub phase: TxPhase,
    pub status: St,
}

/// The transactions whose status the execution actor follows, by id.
pub struct TxTracker<St> {
    entries: Vec<Entry<TrackedTx<St>>>,
}

/// The ids of the entries whose stage is not final, in order.
pub open spec fn pollable_ids<St>(entries: Seq<Entry<TrackedTx<St>>>) -> Seq<Seq<char>>
    decreases entries.len(),
{
    if entries.len() == 0 {
        Seq::empty()
    } else {
        let rest = pollable_ids(entries.drop_last());
        if phase_is_terminal(entries.last().value.phase) {
            rest
        } else {
            rest.push(entries.last().key@)
        }
    }
}

impl<St> View for TxTracker<St> {
    type V = Map<Seq<char>, TrackedTx<St>>;

    closed spec fn view(&self) -> Map<Seq<char>, TrackedTx<St>> {
        entries_map(self.entries@)
    }
}

impl<St> TxTracker<St> {
    /// No id is stored twice.
    pub closed spec fn wf(&self) -> bool {
        keys_unique(self.entries@)
    }

    /// The ids to poll, in the order the transactions were first tracked.
    pub closed spec fn poll_order(&self) -> Seq<Seq<char>> {
        pollable_ids(self.entries@)
    }

    /// No transaction is tracked.
    pub fn new() -> (r: Self)
        ensures
            r.wf(),
            r@ == Map::<Seq<char>, TrackedTx<St>>::empty(),
    {
        let r = TxTracker { entries: Vec::new() };
        assert(r@ =~= Map::<Seq<char>, TrackedTx<St>>::empty());
        r
    }

    /// Whether `tx_id` is tracked.
    pub fn is_tracked(&self, tx_id: &str) -> (r: bool)
        ensures
            r == self@.contains_key(tx_id@),
    {
        find_entry(&self.entries, tx_id).is_some()
    }

    /// The stage of `tx_id`, if tracked.
    pub fn phase_of(&self, tx_id: &str) -> (r: Option<TxPhase>)
        requires
            self.wf(),
        ensures
            r == (if self@.contains_key(tx_id@) { Some(self@[tx_id@].phase) } else { None::<TxPhase> }),
    {
        match find_entry(&self.entries, tx_id) {
            Some(i) => {
                proof {
                    crate::assoc::lemma_entries_value(self.entries@, i as int);
                }
                Some(self.entries[i].value.phase)
            },
            None => None,
        }
    }

    /// A submitted transaction: it is tracked as queued with `status`, unless
    /// it is tracked already, in which case nothing changes. Returns whether
    /// it was added.
    pub fn track_submitted(&mut self, tx_id: String, status: St) -> (added: bool)
        requires
            old(self).wf(),
        ensures
            final(self).wf(),
            added == !old(self)@.contains_key(tx_id@),
            added ==> final(self)@ == old(self)@.insert(tx_id@, TrackedTx { phase: TxPhase::Queued, status }),
            !added ==> final(self)@ == old(self)@,
    {
        if find_entry(&self.entries, tx_id.as_str()).is_some() {
            return false;
        }
        set_entry(&mut self.entries, tx_id, TrackedTx { phase: TxPhase::Queued, status });
        true
    }

    /// Stops tracking `tx_id` (a closed position clears its transaction).
    pub fn remove(&mut self, tx_id: &str)
        requires
            old(self).wf(),
        ensures
            final(self).wf(),
            final(self)@ == old(self)@.remove(tx_id@),
    {
        let _ = remove_entry(&mut self.entries, tx_id);
    }

    /// The ids to poll: every tracked transaction whose stage is not final.
    pub fn ids_to_poll(&self) -> (ids: Vec<String>)
        requires
            self.wf(),
        ensures
            ids@.map_values(|x: String| x@) == self.poll_order(),
    {
        let mut ids: Vec<String> = Vec::new();
        let mut k: usize = 0;
        while k < self.entries.len()
            invariant
                k <= self.entries@.len(),
                ids@.map_values(|x: String| x@) == pollable_ids(self.entries@.take(k as int)),
            decreases self.entries.len() - k,
        {
            let ghost before = ids@;
            proof {
                assert(self.entries@.take(k + 1).drop_last() =~= self.entries@.take(k as int));
            }
            if !self.entries[k].value.phase.is_terminal() {
                ids.push(self.entries[k].key.clone());
                proof {
                    assert(ids@.map_values(|x: String| x@) =~= before.map_values(|x: String| x@).push(
                        self.entries@[k as int].key@,
                    ));
                }
            }
            k = k + 1;
        }
        proof {
            assert(self.entries@.take(self.entries@.len() as int) =~= self.entries@);
        }
        ids
    }

    /// Takes in a status polled for `tx_id`, in stage `phase`; `changed` tells
    /// whether it differs from the status tracked for it. The update is
    /// published when the status changed or the transaction was not tracked;
    /// the new status is then tracked, and a transaction that reached a final
    /// stage stops being tracked. Returns whether to publish.
    pub fn apply_polled(&mut self, tx_id: String, phase: TxPhase, status: St, changed: bool) -> (publish: bool)
        requires
            old(self).wf(),
        ensures
            final(self).wf(),
            publish == (changed || !old(self)@.contains_key(tx_id@)),
            publish && phase_is_terminal(phase) ==> final(self)@ == old(self)@.remove(tx_id@),
            publish && !phase_is_terminal(phase) ==> final(self)@ == old(self)@.insert(
                tx_id@,
                TrackedTx { phase, status },
            ),
            !publish ==> final(self)@ == old(self)@,
    {
        let known = find_entry(&self.entries, tx_id.as_str()).is_some();
        let publish = changed || !known;
        if !publish {
            return false;
        }
        if phase.is_terminal() {
            let _ = remove_entry(&mut self.entries, tx_id.as_str());
        } else {
            set_entry(&mut self.entries, tx_id, TrackedTx { phase, status });
        }
        true
    }
}

proof fn lemma_pollable_ids<St>(entries: Seq<Entry<TrackedTx<St>>>, k: Seq<char>)
    ensures
        pollable_ids(entries).contains(k) ==> exists|i: int|
            0 <= i < entries.len() && entries[i].key@ == k && !phase_is_terminal(#[trigger] entries[i].value.phase),
    decreases entries.len(),
{
    if entries.len() > 0 {
        let d = entries.drop_last();
        lemma_pollable_ids(d, k);
        let rest = pollable_ids(d);
        if pollable_ids(entries).contains(k) {
            if !phase_is_terminal(entries.last().value.phase) && k == entries.last().key@ {
                assert(entries[entries.len() - 1].key@ == k);
            } else {
                if !phase_is_terminal(entries.last().value.phase) {
                    let j = choose|j: int| 0 <= j < rest.push(entries.last().key@).len() && rest.push(entries.last().key@)[j] == k;
                    assert(j < rest.len());
                    assert(rest[j] == k);
                }
                assert(rest.contains(k));
                let i = choose|i: int| 0 <= i < d.len() && d[i].key@ == k && !phase_is_terminal(#[trigger] d[i].value.phase);
                assert(entries[i] == d[i]);
            }
        }
    }
}

proof fn lemma_pollable_ids_complete<St>(entries: Seq<Entry<TrackedTx<St>>>, k: Seq<char>)
    requires
        keys_unique(entries),
    ensures
        entries_map(entries).contains_key(k) && !phase_is_terminal(entries_map(entries)[k].phase)
            ==> pollable_ids(entries).contains(k),
    decreases entries.len(),
{
    if entries.len() > 0 {
        let d = entries.drop_last();
        assert(keys_unique(d));
        lemma_pollable_ids_complete(d, k);
        let rest = pollable_ids(d);
        if entries_map(entries).contains_key(k) && !phase_is_terminal(entries_map(entries)[k].phase) {
            if entries.last().key@ == k {
                assert(pollable_ids(entries) == rest.push(k));
                assert(pollable_ids(entries)[rest.len() as int] == k);
            } else {
                assert(entries_map(d).contains_key(k));
                assert(rest.contains(k));
                let j = choose|j: int| 0 <= j < rest.len() && rest[j] == k;
                if !phase_is_terminal(entries.last().value.phase) {
                    assert(pollable_ids(entries)[j] == k);
                }
            }
        }
    }
}

impl<St> TxTracker<St> {
    /// The ids to poll are exactly the tracked transactions that have not
    /// reached a final stage: a transaction in a final stage is never polled
    /// again, and every other tracked one is.
    pub proof fn law_polled_ids_not_final(&self, k: Seq<char>)
        requires
            self.wf(),
        ensures
            self.poll_order().contains(k) <==> self@.contains_key(k) && !phase_is_terminal(self@[k].phase),
    {
        lemma_pollable_ids(self.entries@, k);
        lemma_pollable_ids_complete(self.entries@, k);
        if self.poll_order().contains(k) {
            let i = choose|i: int|
                0 <= i < self.entries@.len() && self.entries@[i].key@ == k && !phase_is_terminal(#[trigger] self.entries@[i].value.phase);
            crate::assoc::lemma_entries_value(self.entries@, i);
        }
    }
}

/// The tokens whose position is being checked right now; a check of a token
/// is skipped while another one is under way.
pub struct ProcessingSet {
    tokens: StringSet,
}

impl View for ProcessingSet {
    type V = Set<Seq<char>>;

    closed spec fn view(&self) -> Set<Seq<char>> {
        self.tokens@
    }
}

impl ProcessingSet {
    /// No token is stored twice.
    pub closed spec fn wf(&self) -> bool {
        self.tokens.wf()
    }

    /// No check is under way.
    pub fn new() -> (r: Self)
        ensures
            r.wf(),
            r@ == Set::<Seq<char>>::empty(),
    {
        ProcessingSet { tokens: StringSet::new() }
    }

    /// Claims the check of `token_id`: false, and nothing changes, when a
    /// check of it is under way; else it is marked and the claim succeeds.
    pub fn try_begin(&mut self, token_id: &str) -> (claimed: bool)
        requires
            old(self).wf(),
        ensures
            final(self).wf(),
            (final(self)@, claimed) == claim(old(self)@, token_id@),
    {
        self.tokens.insert(token_id)
    }

    /// Ends the check of `token_id`.
    pub fn finish(&mut self, token_id: &str)
        requires
            old(self).wf(),
        ensures
            final(self).wf(),
            final(self)@ == release(old(self)@, token_id@),
    {
        let _ = self.tokens.remove(token_id);
    }
}

/// The claims after `token` is claimed, and whether the claim succeeded:
/// it succeeds when no check of the token is under way.
pub open spec fn claim(before: Set<Seq<char>>, token: Seq<char>) -> (Set<Seq<char>>, bool) {
    (before.insert(token), !before.contains(token))
}

/// The claims after the check of `token` finishes.
pub open spec fn release(before: Set<Seq<char>>, token: Seq<char>) -> Set<Seq<char>> {
    before.remove(token)
}

/// A check claimed for a token cannot be claimed again until it finishes,
/// and once finished it can be claimed anew; claims of other tokens are not
/// affected.
pub proof fn law_processing_exclusive(before: Set<Seq<char>>, token: Seq<char>, other: Seq<char>)
    ensures
        ({
            let (claimed, _) = claim(before, token);
            &&& !claim(claimed, token).1
            &&& claim(release(claimed, token), token).1
            &&& other != token ==> claim(claimed, other).1 == claim(before, other).1
        }),
{
}

/// The number of consecutive failed position checks after which the checks
/// back off.
pub const CHECK_FAILURES_BEFORE_BACKOFF: u32 = 3;

/// After a periodic position check (`ok` tells whether it succeeded) that
/// followed `failures` consecutive failures: the new count of consecutive
/// failures, and the pause in seconds before the next check when the checks
/// back off, which is five seconds per failure once more than three failed in
/// a row.
pub fn position_check_outcome(failures: u32, ok: bool) -> (r: (u32, Option<u64>))
    requires
        failures < 0x7fff_ffff,
    ensures
        ok ==> r == (0u32, None::<u64>),
        !ok ==> r.0 == failures + 1,
        !ok && failures + 1 > CHECK_FAILURES_BEFORE_BACKOFF ==> r.1 == Some((5 * (failures + 1)) as u64),
        !ok && failures + 1 <= CHECK_FAILURES_BEFORE_BACKOFF ==> r.1 is None,
{
    if ok {
        return (0, None);
    }
    let n = failures + 1;
    if n > CHECK_FAILURES_BEFORE_BACKOFF {
        (n, Some(5 * (n as u64)))
    } else {
        (n, None)
    }
}

/// Whether two token ids name the same token: they are equal once
/// lower-cased.
pub open spec fn same_token(a: Seq<char>, b: Seq<char>) -> bool {
    lowercase(a) == lowercase(b)
}

/// The index of the first position (given by its token id) for `token_id`,
/// compared without regard to case.
pub fn find_position_index(position_tokens: &Vec<String>, token_id: &str) -> (r: Option<usize>)
    ensures
        match r {
            Some(i) => i < position_tokens@.len() && same_token(position_tokens@[i as int]@, token_id@)
                && forall|j: int| 0 <= j < i ==> !same_token(#[trigger] position_tokens@[j]@, token_id@),
            None => forall|j: int| 0 <= j < position_tokens@.len() ==> !same_token(#[trigger] position_tokens@[j]@, token_id@),
        },
{
    let mut i: usize = 0;
    while i < position_tokens.len()
        invariant
            i <= position_tokens@.len(),
            forall|j: int| 0 <= j < i ==> !same_token(#[trigger] position_tokens@[j]@, token_id@),
        decreases position_tokens.len() - i,
    {
        if eq_ignore_case(position_tokens[i].as_str(), token_id) {
            return Some(i);
        }
        i = i + 1;
    }
    None
}

/// Whether there is a position to sell for `token_id`: the database holds
/// one, or one is held in memory.
pub fn has_position_to_sell(in_database: bool, position_tokens: &Vec<String>, token_id: &str) -> (r: bool)
    ensures
        r == (in_database || exists|j: int| 0 <= j < position_tokens@.len() && same_token(#[trigger] position_tokens@[j]@, token_id@)),
{
    let found = find_position_index(position_tokens, token_id);
    in_database || found.is_some()
}

/// Why a buy order is not placed.
#[derive(PartialEq, Eq, Structural, Clone, Copy, Debug)]
pub enum BuyRefusal {
    /// The execution actor is not running: the assessment is ignored.
    NotRunning,
    /// The token's price data could not be read: an API error.
    PriceDataUnavailable,
    /// Whether the token exists could not be checked: a database error.
    ExistenceCheckFailed,
    /// The token is not in the database: a not-found error.
    UnknownToken,
    /// No positive entry price is known: the order is skipped.
    NoEntryPrice,
    /// The position size is not positive: the order is skipped.
    NoPositionSize,
}

/// The checks before a buy order, in the order they are made: the actor
/// runs; the price data were read (`price_data_read`); the existence check
/// answered (`token_known` is none when it failed) and the token is known;
/// the entry price and then the size are positive.
pub fn buy_precheck(
    running: bool,
    price_data_read: bool,
    token_known: Option<bool>,
    entry_price_positive: bool,
    size_positive: bool,
) -> (r: Result<(), BuyRefusal>)
    ensures
        r == (if !running {
            Err(BuyRefusal::NotRunning)
        } else if !price_data_read {
            Err(BuyRefusal::PriceDataUnavailable)
        } else if token_known is None {
            Err(BuyRefusal::ExistenceCheckFailed)
        } else if token_known == Some(false) {
            Err(BuyRefusal::UnknownToken)
        } else if !entry_price_positive {
            Err(BuyRefusal::NoEntryPrice)
        } else if !size_positive {
            Err(BuyRefusal::NoPositionSize)
        } else {
            Ok(())
        }),
{
    if !running {
        Err(BuyRefusal::NotRunning)
    } else if !price_data_read {
        Err(BuyRefusal::PriceDataUnavailable)
    } else {
        match token_known {
            None => Err(BuyRefusal::ExistenceCheckFailed),
            Some(false) => Err(BuyRefusal::UnknownToken),
            Some(true) => {
                if !entry_price_positive {
                    Err(BuyRefusal::NoEntryPrice)
                } else if !size_positive {
                    Err(BuyRefusal::NoPositionSize)
                } else {
                    Ok(())
                }
            },
        }
    }
}

/// Whether a database error says that the position already exists (it was
/// created concurrently), which is not taken for a failure.
pub fn is_unique_violation(error_text: &str) -> (r: bool)
    ensures
        r == has_substring(error_text@, "UNIQUE constraint failed"@),
{
    contains_str(error_text, "UNIQUE constraint failed")
}

/// Which copy of a position a sell works from.
#[derive(PartialEq, Eq, Structural, Clone, Copy, Debug)]
pub enum SellSource {
    /// The database's copy, preferred whenever it exists.
    Database,
    /// The copy held in memory.
    Memory,
    /// There is nothing to sell.
    Nothing,
}

/// The copy a sell works from: the database's when it holds the position,
/// else the one in memory, else none.
pub fn sell_source(in_database: bool, in_memory: bool) -> (r: SellSource)
    ensures
        in_database ==> r == SellSource::Database,
        !in_database && in_memory ==> r == SellSource::Memory,
        !in_database && !in_memory ==> r == SellSource::Nothing,
{
    if in_database {
        SellSource::Database
    } else if in_memory {
        SellSource::Memory
    } else {
        SellSource::Nothing
    }
}

/// What the execution actor does with a risk assessment.
#[derive(PartialEq, Eq, Structural, Clone, Copy, Debug)]
pub enum AssessmentRoute {
    /// The actor is stopped: the assessment is ignored, whatever its signal.
    Ignored,
    /// Place a buy order.
    Buy,
    /// Sell the position.
    Sell,
    /// Neither buy nor sell: nothing to do.
    NoAction,
}

/// Routes a risk assessment: nothing happens while the actor is stopped;
/// otherwise a buy signal goes to the buy order and a sell signal to the sell
/// order.
pub fn route_risk_assessment(running: bool, is_buy: bool, is_sell: bool) -> (r: AssessmentRoute)
    ensures
        !running ==> r == AssessmentRoute::Ignored,
        running && is_buy ==> r == AssessmentRoute::Buy,
        running && !is_buy && is_sell ==> r == AssessmentRoute::Sell,
        running && !is_buy && !is_sell ==> r == AssessmentRoute::NoAction,
{
    if !running {
        AssessmentRoute::Ignored
    } else if is_buy {
        AssessmentRoute::Buy
    } else if is_sell {
        AssessmentRoute::Sell
    } else {
        AssessmentRoute::NoAction
    }
}

/// After a buy order (`order_ok` tells whether the exchange accepted it):
/// an accepted order adds `new_position` after the held ones, and one
/// order-executed event is to be published; a refused one changes nothing
/// and publishes nothing. Returns whether to publish.
pub fn apply_buy_result<P>(positions: &mut Vec<P>, new_position: P, order_ok: bool) -> (publish: bool)
    ensures
        publish == order_ok,
        order_ok ==> final(positions)@ == old(positions)@.push(new_position),
        !order_ok ==> final(positions)@ == old(positions)@,
{
    if order_ok {
        positions.push(new_position);
    }
    order_ok
}

/// After the sell swap for the position at `index` (`swap_ok` tells whether
/// it went through): a completed swap removes that position, keeping the
/// others in order, and one order-executed event is to be published; a
/// failed one changes nothing. Returns whether to publish.
pub fn apply_sell_result<P>(positions: &mut Vec<P>, index: usize, swap_ok: bool) -> (publish: bool)
    requires
        index < old(positions)@.len(),
    ensures
        publish == swap_ok,
        swap_ok ==> final(positions)@ == old(positions)@.remove(index as int),
        !swap_ok ==> final(positions)@ == old(positions)@,
{
    if swap_ok {
        let _ = positions.remove(index);
    }
    swap_ok
}

/// The ids an executed order, buy or sell, is published under: the
/// canonical (lower-cased) id and the provider's id as given.
pub fn order_event_ids(token_id: &str) -> (r: (String, String))
    ensures
        r.0@ == lowercase(token_id@),
        r.1@ == token_id@,
{
    (to_lowercase(token_id), String::from_str(token_id))
}

} // verus!
