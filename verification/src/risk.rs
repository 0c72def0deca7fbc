use vstd::prelude::*;
use crate::strset::{StringSet, string_set, strings_unique};
use crate::text::{lowercase, to_lowercase, str_eq};
use crate::execution::{find_position_index, same_token};

verus! {

/// The tokens whose trading the risk manager has halted.
pub struct HaltedTokens {
    tokens: StringSet,
}

impl View for HaltedTokens {
    type V = Set<Seq<char>>;

    closed spec fn view(&self) -> Set<Seq<char>> {
        self.tokens@
    }
}

impl HaltedTokens {
    /// No token is stored twice.
    pub closed spec fn wf(&self) -> bool {
        self.tokens.wf()
    }

    /// No token is halted.
    pub fn new() -> (r: Self)
        ensures
            r.wf(),
            r@ == Set::<Seq<char>>::empty(),
    {
        HaltedTokens { tokens: StringSet::new() }
    }

    /// Whether trading of `token_id` is halted.
    pub fn is_halted(&self, token_id: &str) -> (r: bool)
        ensures
            r == self@.contains(token_id@),
    {
        self.tokens.contains(token_id)
    }
}

/// Halts trading of `token_id`. The reason only goes to the caller's log.
pub fn halt_token_trading(halted: &mut HaltedTokens, token_id: &str, reason: &str)
    requires
        old(halted).wf(),
    ensures
        final(halted).wf(),
        final(halted)@ == old(halted)@.insert(token_id@),
{
    let _ = halted.tokens.insert(token_id);
}

/// Lifts a halt on `token_id` (a manual override); nothing changes for a
/// token that was not halted.
pub fn resume_token_trading(halted: &mut HaltedTokens, token_id: &str)
    requires
        old(halted).wf(),
    ensures
        final(halted).wf(),
        final(halted)@ == old(halted)@.remove(token_id@),
{
    let _ = halted.tokens.remove(token_id);
}

/// The halted tokens, each once.
pub fn get_halted_tokens(halted: &HaltedTokens) -> (v: Vec<String>)
    requires
        halted.wf(),
    ensures
        string_set(v@) == halted@,
        strings_unique(v@),
{
    proof {
        halted.tokens.lemma_members();
    }
    halted.tokens.to_vec()
}

/// Whether a trade of `token_id` may go ahead: the token is not halted, the
/// daily loss and the drawdown are below their limits, and the token's own
/// risk score is not above its threshold. The three limit checks compare
/// amounts of money and scores, which the caller evaluates.
pub fn is_trading_allowed(
    halted: &HaltedTokens,
    token_id: &str,
    daily_loss_exceeded: bool,
    drawdown_exceeded: bool,
    token_risk_high: bool,
) -> (r: bool)
    ensures
        r == (!halted@.contains(token_id@) && !daily_loss_exceeded && !drawdown_exceeded
            && !token_risk_high),
{
    if halted.is_halted(token_id) {
        return false;
    }
    if daily_loss_exceeded {
        return false;
    }
    if drawdown_exceeded {
        return false;
    }
    if token_risk_high {
        return false;
    }
    true
}

/// The limit name under which a token's excessive risk score is reported.
pub open spec fn token_risk_limit(symbol: Seq<char>) -> Seq<char> {
    "token_risk_"@ + symbol
}

/// The limit name under which a token's extreme volatility is reported.
pub open spec fn volatility_limit(symbol: Seq<char>) -> Seq<char> {
    "volatility_risk_"@ + symbol
}

/// The limits exceeded for `symbol`, in the order they are reported: first
/// the token's risk score, then its volatility. Each is published as a
/// limit event; publishing stops at the first failure.
pub fn check_risk_limits(symbol: &str, risk_score_high: bool, volatility_high: bool) -> (exceeded: Vec<String>)
    ensures
        exceeded@.len() == (if risk_score_high { 1int } else { 0int }) + (if volatility_high {
            1int
        } else {
            0int
        }),
        risk_score_high ==> exceeded@[0]@ == token_risk_limit(symbol@),
        volatility_high ==> exceeded@.last()@ == volatility_limit(symbol@),
{
    let mut exceeded: Vec<String> = Vec::new();
    if risk_score_high {
        let mut name = String::from_str("token_risk_");
        name.append(symbol);
        exceeded.push(name);
    }
    if volatility_high {
        let mut name = String::from_str("volatility_risk_");
        name.append(symbol);
        exceeded.push(name);
    }
    exceeded
}

/// After the token-risk limit event for `symbol` was offered to the bus:
/// when it was published the token is halted and the check goes on (to the
/// volatility limit); when publishing failed nothing is halted and the check
/// ends with that failure. Returns whether the check goes on.
pub fn halt_after_risk_publish(halted: &mut HaltedTokens, symbol: &str, published: bool) -> (goes_on: bool)
    requires
        old(halted).wf(),
    ensures
        final(halted).wf(),
        goes_on == published,
        published ==> final(halted)@ == old(halted)@.insert(symbol@),
        !published ==> final(halted)@ == old(halted)@,
{
    if published {
        let _ = halted.tokens.insert(symbol);
    }
    published
}

/// The portfolio-wide limits exceeded, in the order they are reported:
/// `overall_daily_loss`, then `overall_drawdown`.
pub fn check_overall_risk_limits(daily_loss_exceeded: bool, drawdown_exceeded: bool) -> (exceeded: Vec<String>)
    ensures
        exceeded@.len() == (if daily_loss_exceeded { 1int } else { 0int }) + (if drawdown_exceeded {
            1int
        } else {
            0int
        }),
        daily_loss_exceeded ==> exceeded@[0]@ == "overall_daily_loss"@,
        drawdown_exceeded ==> exceeded@.last()@ == "overall_drawdown"@,
{
    let mut exceeded: Vec<String> = Vec::new();
    if daily_loss_exceeded {
        exceeded.push(String::from_str("overall_daily_loss"));
    }
    if drawdown_exceeded {
        exceeded.push(String::from_str("overall_drawdown"));
    }
    exceeded
}

/// How severe a market anomaly is reported to be.
#[derive(PartialEq, Eq, Structural, Clone, Copy, Debug)]
pub enum Severity {
    High,
    Medium,
    Low,
}

/// The severity named by a report, read without regard to case: `high`,
/// `medium`, and anything else counts as low.
pub open spec fn severity_of(text: Seq<char>) -> Severity {
    if lowercase(text) == "high"@ {
        Severity::High
    } else if lowercase(text) == "medium"@ {
        Severity::Medium
    } else {
        Severity::Low
    }
}

/// Reads the severity of an anomaly report.
pub fn classify_severity(severity: &str) -> (r: Severity)
    ensures
        r == severity_of(severity@),
{
    let lowered = to_lowercase(severity);
    if str_eq(lowered.as_str(), "high") {
        Severity::High
    } else if str_eq(lowered.as_str(), "medium") {
        Severity::Medium
    } else {
        Severity::Low
    }
}

/// A halt that a market anomaly caused.
pub struct AnomalyHalt {
    /// The token halted, lower-cased.
    pub token_id: String,
    /// The reason published with the halt.
    pub reason: String,
}

/// The reason published when a high-severity anomaly halts a token.
pub open spec fn anomaly_reason(anomaly_type: Seq<char>, description: Seq<char>) -> Seq<char> {
    "High severity market anomaly: "@ + anomaly_type + " - "@ + description
}

/// A high-severity anomaly halts the token (its id lower-cased); the halt is
/// announced only when the token was not halted already. Anomalies of lower
/// severity halt nothing.
pub fn halt_on_anomaly(
    halted: &mut HaltedTokens,
    token_id: &str,
    anomaly_type: &str,
    description: &str,
    severity: &str,
) -> (announce: Option<AnomalyHalt>)
    requires
        old(halted).wf(),
    ensures
        final(halted).wf(),
        severity_of(severity@) != Severity::High ==> final(halted)@ == old(halted)@ && announce is None,
        severity_of(severity@) == Severity::High ==> final(halted)@ == old(halted)@.insert(lowercase(token_id@)),
        severity_of(severity@) == Severity::High ==> (announce is Some <==> !old(halted)@.contains(lowercase(token_id@))),
        announce matches Some(h) ==> h.token_id@ == lowercase(token_id@) && h.reason@ == anomaly_reason(anomaly_type@, description@),
{
    if classify_severity(severity) != Severity::High {
        return None;
    }
    let normalized = to_lowercase(token_id);
    let added = halted.tokens.insert(normalized.as_str());
    if !added {
        return None;
    }
    let mut reason = String::from_str("High severity market anomaly: ");
    reason.append(anomaly_type);
    reason.append(" - ");
    reason.append(description);
    Some(AnomalyHalt { token_id: normalized, reason })
}

/// What becomes of a strategy signal before the token is looked up.
#[derive(PartialEq, Eq, Structural, Clone, Copy, Debug)]
pub enum SignalGate {
    /// The risk manager is not running: the signal is dropped.
    NotRunning,
    /// Trading of the token is halted: the signal is ignored.
    Halted,
    /// The signal goes on to the check that the token exists.
    CheckToken,
}

/// Screens a strategy signal for `token_id`; the halt list is consulted with
/// the lower-cased id.
pub fn screen_signal(running: bool, halted: &HaltedTokens, token_id: &str) -> (r: SignalGate)
    ensures
        !running ==> r == SignalGate::NotRunning,
        running && halted@.contains(lowercase(token_id@)) ==> r == SignalGate::Halted,
        running && !halted@.contains(lowercase(token_id@)) ==> r == SignalGate::CheckToken,
{
    if !running {
        return SignalGate::NotRunning;
    }
    let normalized = to_lowercase(token_id);
    if halted.is_halted(normalized.as_str()) {
        SignalGate::Halted
    } else {
        SignalGate::CheckToken
    }
}

/// The reason published when a signal names a token the database lacks.
pub fn unknown_token_reason(token_id: &str) -> (r: String)
    ensures
        r@ == "Token '"@ + token_id@ + "' (normalized to '"@ + lowercase(token_id@) + "') not found in database."@,
{
    let normalized = to_lowercase(token_id);
    let mut r = String::from_str("Token '");
    r.append(token_id);
    r.append("' (normalized to '");
    r.append(normalized.as_str());
    r.append("') not found in database.");
    r
}

/// What becomes of a strategy signal once the token has been looked up.
#[derive(PartialEq, Eq, Clone, Debug)]
pub enum SignalVerdict {
    /// The lookup failed: the signal is dropped, and nothing is published.
    Discard,
    /// The token is unknown: exactly one invalid-signal event is published,
    /// under the id the signal came with, and processing stops.
    Invalid { token_id: String, reason: String },
    /// The token is known: processing goes on under the lower-cased id.
    Proceed { token_id: String },
}

/// Judges a signal for `token_id` after the lookup of its lower-cased id
/// (`found` is none when the lookup failed).
pub fn signal_after_lookup(token_id: &str, found: Option<bool>) -> (r: SignalVerdict)
    ensures
        found is None ==> r == SignalVerdict::Discard,
        found == Some(false) ==> (r matches SignalVerdict::Invalid { token_id: t, reason } && t@ == token_id@
            && reason@ == "Token '"@ + token_id@ + "' (normalized to '"@ + lowercase(token_id@)
            + "') not found in database."@),
        found == Some(true) ==> (r matches SignalVerdict::Proceed { token_id: t } && t@ == lowercase(token_id@)),
{
    match found {
        None => SignalVerdict::Discard,
        Some(false) => SignalVerdict::Invalid {
            token_id: String::from_str(token_id),
            reason: unknown_token_reason(token_id),
        },
        Some(true) => SignalVerdict::Proceed { token_id: to_lowercase(token_id) },
    }
}

/// The outcome of a risk-limit check of `symbol` whose breaches were offered
/// to the bus in order: the token-risk breach (when `risk_score_high`) and,
/// unless that publish failed, the volatility breach (when
/// `volatility_high`). `risk_published` and `volatility_published` tell
/// whether each publish succeeded; one that was not attempted is not looked
/// at. The token is halted exactly when its risk-score breach was published;
/// without a high risk score the halt list is left alone. The result is the
/// name of the limit whose publish failed, if any.
pub fn settle_risk_limits(
    halted: &mut HaltedTokens,
    symbol: &str,
    risk_score_high: bool,
    risk_published: bool,
    volatility_high: bool,
    volatility_published: bool,
) -> (r: Result<(), String>)
    requires
        old(halted).wf(),
    ensures
        final(halted).wf(),
        risk_score_high && risk_published ==> final(halted)@ == old(halted)@.insert(symbol@),
        !(risk_score_high && risk_published) ==> final(halted)@ == old(halted)@,
        risk_score_high && !risk_published ==> (r matches Err(name) && name@ == token_risk_limit(symbol@)),
        !(risk_score_high && !risk_published) && volatility_high && !volatility_published ==> (r matches Err(
            name,
        ) && name@ == volatility_limit(symbol@)),
        !(risk_score_high && !risk_published) && !(volatility_high && !volatility_published) ==> r is Ok,
{
    if risk_score_high {
        if !halt_after_risk_publish(halted, symbol, risk_published) {
            let mut name = String::from_str("token_risk_");
            name.append(symbol);
            return Err(name);
        }
    }
    if volatility_high && !volatility_published {
        let mut name = String::from_str("volatility_risk_");
        name.append(symbol);
        return Err(name);
    }
    Ok(())
}

/// Why an open position is to be sold.
#[derive(PartialEq, Eq, Debug, Clone, Copy)]
pub enum ExitRule {
    StopLoss,
    TakeProfit,
    TrailingStop,
    HoldTimeExceeded,
}

/// The exit rule that fires for a position after a price update, in order of
/// precedence: the stop loss; else the take profit; else, while the price is
/// above the entry price, the trailing stop; else, under the mock strategy,
/// the holding time. `stop_loss_hit` and the others tell whether each
/// threshold was crossed. None when no rule fires.
pub fn exit_rule(
    stop_loss_hit: bool,
    take_profit_hit: bool,
    in_profit: bool,
    trailing_stop_hit: bool,
    mock_strategy: bool,
    hold_time_exceeded: bool,
) -> (r: Option<ExitRule>)
    ensures
        r == (if stop_loss_hit {
            Some(ExitRule::StopLoss)
        } else if take_profit_hit {
            Some(ExitRule::TakeProfit)
        } else if in_profit && trailing_stop_hit {
            Some(ExitRule::TrailingStop)
        } else if mock_strategy && hold_time_exceeded {
            Some(ExitRule::HoldTimeExceeded)
        } else {
            None
        }),
{
    if stop_loss_hit {
        Some(ExitRule::StopLoss)
    } else if take_profit_hit {
        Some(ExitRule::TakeProfit)
    } else if in_profit && trailing_stop_hit {
        Some(ExitRule::TrailingStop)
    } else if mock_strategy && hold_time_exceeded {
        Some(ExitRule::HoldTimeExceeded)
    } else {
        None
    }
}

/// What becomes of a strategy signal for a known token.
#[derive(PartialEq, Eq, Clone, Debug)]
pub enum SignalStep {
    /// The signal is dropped: a sell with no open position, or a buy for a
    /// token already held.
    Ignore,
    /// A limit is reached: one limit event under this name is published and
    /// the signal goes no further.
    LimitExceeded { limit_type: String },
    /// The signal goes on to sizing and assessment.
    Assess,
}

/// Whether one of the open positions (given by their token ids) is for
/// `token_id`, compared without regard to case.
pub open spec fn holds_position(position_tokens: Seq<String>, token_id: Seq<char>) -> bool {
    exists|j: int| 0 <= j < position_tokens.len() && same_token(#[trigger] position_tokens[j]@, token_id)
}

/// The checks a strategy signal for a known token passes, in order: a sell
/// needs an open position for the token and a buy needs none
/// (`position_tokens` are the open positions' token ids, `token_id` the
/// lower-cased id the signal goes on under); then, once the token's price
/// data have been read, a daily loss at or over its maximum and then a
/// drawdown at or over its maximum stop the signal with a limit event.
pub fn signal_after_checks(
    is_buy: bool,
    is_sell: bool,
    position_tokens: &Vec<String>,
    token_id: &str,
    daily_loss_reached: bool,
    drawdown_reached: bool,
) -> (r: SignalStep)
    ensures
        is_sell && !holds_position(position_tokens@, token_id@) ==> r == SignalStep::Ignore,
        !is_sell && is_buy && holds_position(position_tokens@, token_id@) ==> r == SignalStep::Ignore,
        !(is_sell && !holds_position(position_tokens@, token_id@)) && !(!is_sell && is_buy && holds_position(
            position_tokens@,
            token_id@,
        )) ==> {
            &&& daily_loss_reached ==> (r matches SignalStep::LimitExceeded { limit_type } && limit_type@
                == "daily_loss"@)
            &&& !daily_loss_reached && drawdown_reached ==> (r matches SignalStep::LimitExceeded { limit_type }
                && limit_type@ == "drawdown"@)
            &&& !daily_loss_reached && !drawdown_reached ==> r == SignalStep::Assess
        },
{
    if is_sell || is_buy {
        let found = find_position_index(position_tokens, token_id);
        proof {
            if found is Some {
                let i = found->0 as int;
                assert(same_token(position_tokens@[i]@, token_id@));
            }
        }
        if is_sell && found.is_none() {
            return SignalStep::Ignore;
        }
        if !is_sell && is_buy && found.is_some() {
            return SignalStep::Ignore;
        }
    }
    if daily_loss_reached {
        SignalStep::LimitExceeded { limit_type: String::from_str("daily_loss") }
    } else if drawdown_reached {
        SignalStep::LimitExceeded { limit_type: String::from_str("drawdown") }
    } else {
        SignalStep::Assess
    }
}

} // verus!
