use vstd::prelude::*;

verus! {

/// The kinds of event that travel on the message bus.
#[derive(PartialEq, Eq, Structural, Clone, Copy, Debug)]
pub enum EventType {
    Market,
    Strategy,
    Risk,
    Execution,
    Database,
    DexTransaction,
}

/// Queries an actor answers.
#[derive(PartialEq, Eq, Structural, Clone, Copy, Debug)]
pub enum Query {
    GetStatus,
    GetMetrics,
    GetMaintenanceStatus,
    GetNativeBalance,
}

/// The name of an event type as its `Debug` form prints it; actors subscribe
/// to the bus under these names.
pub open spec fn event_type_name(t: EventType) -> Seq<char> {
    match t {
        EventType::Market => "Market"@,
        EventType::Strategy => "Strategy"@,
        EventType::Risk => "Risk"@,
        EventType::Execution => "Execution"@,
        EventType::Database => "Database"@,
        EventType::DexTransaction => "DexTransaction"@,
    }
}

impl EventType {
    /// The topic name of this event type.
    pub fn topic_name(&self) -> (r: String)
        ensures
            r@ == event_type_name(*self),
    {
        match self {
            EventType::Market => String::from_str("Market"),
            EventType::Strategy => String::from_str("Strategy"),
            EventType::Risk => String::from_str("Risk"),
            EventType::Execution => String::from_str("Execution"),
            EventType::Database => String::from_str("Database"),
            EventType::DexTransaction => String::from_str("DexTransaction"),
        }
    }
}

/// The event types the risk manager listens to: every type but its own.
pub fn risk_manager_subscriptions() -> (r: Vec<EventType>)
    ensures
        r@ == seq![
            EventType::Market,
            EventType::Strategy,
            EventType::Execution,
            EventType::Database,
            EventType::DexTransaction,
        ],
{
    let mut r: Vec<EventType> = Vec::new();
    r.push(EventType::Market);
    r.push(EventType::Strategy);
    r.push(EventType::Execution);
    r.push(EventType::Database);
    r.push(EventType::DexTransaction);
    r
}

} // verus!
