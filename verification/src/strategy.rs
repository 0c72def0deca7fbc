use vstd::prelude::*;

verus! {

/// What reaches the strategy actor, by what its handling depends on.
pub enum StrategyMessage {
    /// A new price for a token.
    PriceUpdate { token_id: String },
    /// Any other market event (volume, errors, status checks, new tokens,
    /// anomalies, recovery requests): only logged.
    OtherMarketEvent,
    /// An event from another actor: ignored.
    OtherEvent,
    Start,
    Stop,
    /// New settings; only the entry threshold is read from them.
    UpdateConfig,
    /// A maintenance command: nothing to do here.
    Maintenance,
    GetStatus,
    GetMetrics,
    /// Any other query: answered as unsupported.
    OtherQuery,
}

/// What the strategy actor does with a message.
#[derive(PartialEq, Eq, Debug)]
pub enum StrategyAction {
    /// Nothing beyond logging.
    Nothing,
    /// Analyse the token's latest price data for an entry, in a task of its own.
    AnalyzeEntry { token_id: String },
    /// Apply the threshold from the new settings.
    ApplyConfig,
    /// Answer with this status text.
    ReplyStatus { status: String },
    /// Answer with the metrics; `running` is the actor's state.
    ReplyMetrics { running: bool },
    /// Answer that the query is not supported.
    ReplyUnsupported,
}

/// The status text of the strategy actor.
pub open spec fn strategy_status(running: bool) -> Seq<char> {
    "StrategyActor running: "@ + (if running { "true"@ } else { "false"@ })
}

/// One message handled by the strategy actor that is `running` or not: the
/// action to perform. Price updates are analysed only while running; queries
/// are answered whatever the state. Handling a message never changes the
/// running state: the start and stop commands are only acknowledged, and the
/// actor is started and stopped through its lifecycle calls.
pub fn strategy_step(running: bool, msg: &StrategyMessage) -> (r: StrategyAction)
    ensures
        match msg {
            StrategyMessage::PriceUpdate { token_id } => if running {
                r matches StrategyAction::AnalyzeEntry { token_id: t } && t@ == token_id@
            } else {
                r == StrategyAction::Nothing
            },
            StrategyMessage::UpdateConfig => r == StrategyAction::ApplyConfig,
            StrategyMessage::GetStatus => r matches StrategyAction::ReplyStatus { status } && status@
                == strategy_status(running),
            StrategyMessage::GetMetrics => r == (StrategyAction::ReplyMetrics { running }),
            StrategyMessage::OtherQuery => r == StrategyAction::ReplyUnsupported,
            _ => r == StrategyAction::Nothing,
        },
{
    match msg {
        StrategyMessage::PriceUpdate { token_id } => {
            if running {
                StrategyAction::AnalyzeEntry { token_id: token_id.clone() }
            } else {
                StrategyAction::Nothing
            }
        },
        StrategyMessage::UpdateConfig => StrategyAction::ApplyConfig,
        StrategyMessage::GetStatus => {
            let mut status = String::from_str("StrategyActor running: ");
            if running {
                status.append("true");
            } else {
                status.append("false");
            }
            StrategyAction::ReplyStatus { status }
        },
        StrategyMessage::GetMetrics => StrategyAction::ReplyMetrics { running },
        StrategyMessage::OtherQuery => StrategyAction::ReplyUnsupported,
        _ => StrategyAction::Nothing,
    }
}

} // verus!
