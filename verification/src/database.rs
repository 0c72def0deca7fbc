use vstd::prelude::*;
use crate::market::opt_view;
use crate::execution::{TxPhase, phase_label};
use crate::text::{lowercase, to_lowercase};
use crate::clock::fill_random;

verus! {

/// Milliseconds in an hour.
pub const MILLIS_PER_HOUR: i64 = 3_600_000;

/// When maintenance last ran and when it runs next (in milliseconds since
/// the epoch): the next run is the configured number of hours after the
/// last; before any run neither is known.
pub fn maintenance_status(last_run_ms: Option<i64>, interval_hours: u64) -> (r: (Option<i64>, Option<i64>))
    requires
        last_run_ms matches Some(t) ==> i64::MIN <= t + interval_hours * MILLIS_PER_HOUR <= i64::MAX,
    ensures
        r.0 == last_run_ms,
        r.1 == (match last_run_ms {
            Some(t) => Some((t + interval_hours * MILLIS_PER_HOUR) as i64),
            None => None::<i64>,
        }),
{
    match last_run_ms {
        Some(t) => {
            let hours = interval_hours as i128;
            let next: i128 = (t as i128) + hours * 3_600_000i128;
            (Some(t), Some(next as i64))
        },
        None => (None, None),
    }
}

/// Where a database write goes.
#[derive(PartialEq, Eq, Structural, Clone, Copy, Debug)]
pub enum WriteRoute {
    /// The write carries a zero or negative amount: it is dropped.
    Skip,
    /// Into the Redis-backed queue.
    Enqueue,
    /// Straight to the fallback path, there being no queue.
    Fallback,
}

/// Routes a trade or position-close write: one with a zero or negative price
/// or size is dropped; otherwise it goes to the queue when there is one, and
/// to the fallback path when there is none (or, later, when the queue
/// refuses it).
pub fn route_trade_write(amounts_positive: bool, queue_available: bool) -> (r: WriteRoute)
    ensures
        !amounts_positive ==> r == WriteRoute::Skip,
        amounts_positive && queue_available ==> r == WriteRoute::Enqueue,
        amounts_positive && !queue_available ==> r == WriteRoute::Fallback,
{
    if !amounts_positive {
        WriteRoute::Skip
    } else if queue_available {
        WriteRoute::Enqueue
    } else {
        WriteRoute::Fallback
    }
}

/// Routes a position update: to the queue when there is one, else to the
/// fallback path.
pub fn route_position_update(queue_available: bool) -> (r: WriteRoute)
    ensures
        r == (if queue_available { WriteRoute::Enqueue } else { WriteRoute::Fallback }),
{
    if queue_available {
        WriteRoute::Enqueue
    } else {
        WriteRoute::Fallback
    }
}

/// The provider id under which a closed position is recorded: the one the
/// database holds for the token, or the canonical id when none was found.
pub fn resolve_provider_id(canonical_token_id: &str, found: Option<String>) -> (r: String)
    ensures
        r@ == (match opt_view(found) {
            Some(p) => p,
            None => canonical_token_id@,
        }),
{
    match found {
        Some(p) => p,
        None => String::from_str(canonical_token_id),
    }
}

/// The events the database actor acts upon, with the plain values the
/// writes take from them (times in milliseconds since the epoch; prices and
/// sizes stay with the caller, which says only whether they are positive).
pub enum DbEvent {
    /// A token seen for the first time.
    NewTokenDiscovered { token_id: String, name: String, symbol: String },
    /// An executed order; `quantity_positive` and `price_positive` tell
    /// whether the quantity and the price per token are above zero.
    OrderExecuted {
        canonical_token_id: String,
        provider_token_id: String,
        is_buy: bool,
        quantity_positive: bool,
        price_positive: bool,
        timestamp_ms: i64,
    },
    /// A new price and profit for an open position.
    PositionUpdate { token_id: String, timestamp_ms: i64 },
    /// The risk manager opened a position.
    PositionOpened { token_id: String, timestamp_ms: i64 },
    /// The risk manager closed a position; `amounts_positive` tells whether
    /// its exit price and size are above zero.
    PositionClosed { token_id: String, amounts_positive: bool, delete_position: bool, timestamp_ms: i64 },
    /// A DEX transaction reached a new stage.
    DexStatusUpdated { tx_id: String, phase: TxPhase },
    /// Any other event: it is only logged.
    Other,
}

/// One write the database actor performs for an event. The prices and sizes
/// that go with a write are the event's own.
#[derive(PartialEq, Eq, Clone, Debug)]
pub enum DbAction {
    /// Make sure the token has a record.
    EnsureTokenExists { token_id: String },
    /// Set the token's symbol and name.
    UpdateTokenMetadata { token_id: String, symbol: String, name: String },
    /// Store the token's first price, with volume zero.
    StoreInitialPrice { token_id: String },
    /// Record a position opened at the event's price and size, and its trade.
    RecordPositionWithTrade { token_id: String, provider_id: String, entry_time_ms: i64 },
    /// Hand a trade (not a position close) to the trade queue or its fallback.
    QueueTrade { canonical_token_id: String, provider_token_id: String, is_buy: bool, timestamp_ms: i64 },
    /// Hand a position update to the position queue or its fallback.
    QueuePositionUpdate { token_id: String, timestamp_ms: i64 },
    /// Look up the position's provider id (the canonical id when none is
    /// found) and hand the close to the trade queue or its fallback.
    ResolveProviderAndQueueClose { token_id: String, delete_position: bool, timestamp_ms: i64 },
    /// Log the transaction's new status under its status text.
    LogDexStatus { tx_id: String, status_text: String },
}

/// A database write, by the characters of its values.
pub enum DbWrite {
    EnsureTokenExists { token_id: Seq<char> },
    UpdateTokenMetadata { token_id: Seq<char>, symbol: Seq<char>, name: Seq<char> },
    StoreInitialPrice { token_id: Seq<char> },
    RecordPositionWithTrade { token_id: Seq<char>, provider_id: Seq<char>, entry_time_ms: i64 },
    QueueTrade { canonical_token_id: Seq<char>, provider_token_id: Seq<char>, is_buy: bool, timestamp_ms: i64 },
    QueuePositionUpdate { token_id: Seq<char>, timestamp_ms: i64 },
    ResolveProviderAndQueueClose { token_id: Seq<char>, delete_position: bool, timestamp_ms: i64 },
    LogDexStatus { tx_id: Seq<char>, status_text: Seq<char> },
}

impl View for DbAction {
    type V = DbWrite;

    open spec fn view(&self) -> DbWrite {
        match self {
            DbAction::EnsureTokenExists { token_id } => DbWrite::EnsureTokenExists { token_id: token_id@ },
            DbAction::UpdateTokenMetadata { token_id, symbol, name } => DbWrite::UpdateTokenMetadata {
                token_id: token_id@,
                symbol: symbol@,
                name: name@,
            },
            DbAction::StoreInitialPrice { token_id } => DbWrite::StoreInitialPrice { token_id: token_id@ },
            DbAction::RecordPositionWithTrade { token_id, provider_id, entry_time_ms } => DbWrite::RecordPositionWithTrade {
                token_id: token_id@,
                provider_id: provider_id@,
                entry_time_ms: *entry_time_ms,
            },
            DbAction::QueueTrade { canonical_token_id, provider_token_id, is_buy, timestamp_ms } => DbWrite::QueueTrade {
                canonical_token_id: canonical_token_id@,
                provider_token_id: provider_token_id@,
                is_buy: *is_buy,
                timestamp_ms: *timestamp_ms,
            },
            DbAction::QueuePositionUpdate { token_id, timestamp_ms } => DbWrite::QueuePositionUpdate {
                token_id: token_id@,
                timestamp_ms: *timestamp_ms,
            },
            DbAction::ResolveProviderAndQueueClose { token_id, delete_position, timestamp_ms } => DbWrite::ResolveProviderAndQueueClose {
                token_id: token_id@,
                delete_position: *delete_position,
                timestamp_ms: *timestamp_ms,
            },
            DbAction::LogDexStatus { tx_id, status_text } => DbWrite::LogDexStatus { tx_id: tx_id@, status_text: status_text@ },
        }
    }
}

/// The writes for an event, in the order they are made: a new token is
/// recorded under its lower-cased id with its symbol and name and a first
/// price; a buy records the position (under both ids, entered at the
/// event's time) and its trade, unless nothing was bought; a sell with a
/// positive price and quantity is queued as a sell trade; a position update
/// is queued; an opened position is recorded under its token id; a closed
/// one with positive amounts is queued under its provider id; a DEX status
/// change is logged under its stage's text.
pub open spec fn db_actions(ev: DbEvent) -> Seq<DbWrite> {
    match ev {
        DbEvent::NewTokenDiscovered { token_id, name, symbol } => seq![
            DbWrite::EnsureTokenExists { token_id: lowercase(token_id@) },
            DbWrite::UpdateTokenMetadata { token_id: lowercase(token_id@), symbol: symbol@, name: name@ },
            DbWrite::StoreInitialPrice { token_id: lowercase(token_id@) },
        ],
        DbEvent::OrderExecuted {
            canonical_token_id,
            provider_token_id,
            is_buy,
            quantity_positive,
            price_positive,
            timestamp_ms,
        } => if is_buy {
            if quantity_positive {
                seq![
                    DbWrite::RecordPositionWithTrade {
                        token_id: canonical_token_id@,
                        provider_id: provider_token_id@,
                        entry_time_ms: timestamp_ms,
                    },
                ]
            } else {
                Seq::empty()
            }
        } else if quantity_positive && price_positive {
            seq![
                DbWrite::QueueTrade {
                    canonical_token_id: canonical_token_id@,
                    provider_token_id: provider_token_id@,
                    is_buy: false,
                    timestamp_ms,
                },
            ]
        } else {
            Seq::empty()
        },
        DbEvent::PositionUpdate { token_id, timestamp_ms } => seq![
            DbWrite::QueuePositionUpdate { token_id: token_id@, timestamp_ms },
        ],
        DbEvent::PositionOpened { token_id, timestamp_ms } => seq![
            DbWrite::RecordPositionWithTrade { token_id: token_id@, provider_id: token_id@, entry_time_ms: timestamp_ms },
        ],
        DbEvent::PositionClosed { token_id, amounts_positive, delete_position, timestamp_ms } => if amounts_positive {
            seq![DbWrite::ResolveProviderAndQueueClose { token_id: token_id@, delete_position, timestamp_ms }]
        } else {
            Seq::empty()
        },
        DbEvent::DexStatusUpdated { tx_id, phase } => seq![
            DbWrite::LogDexStatus { tx_id: tx_id@, status_text: phase_label(phase) },
        ],
        DbEvent::Other => Seq::empty(),
    }
}

/// The writes the database actor makes for an event (see `db_actions`).
pub fn plan_db_event(ev: &DbEvent) -> (actions: Vec<DbAction>)
    ensures
        actions@.map_values(|a: DbAction| a@) == db_actions(*ev),
{
    let mut actions: Vec<DbAction> = Vec::new();
    match ev {
        DbEvent::NewTokenDiscovered { token_id, name, symbol } => {
            let n = to_lowercase(token_id.as_str());
            actions.push(DbAction::EnsureTokenExists { token_id: n.clone() });
            actions.push(DbAction::UpdateTokenMetadata { token_id: n.clone(), symbol: symbol.clone(), name: name.clone() });
            actions.push(DbAction::StoreInitialPrice { token_id: n });
        },
        DbEvent::OrderExecuted {
            canonical_token_id,
            provider_token_id,
            is_buy,
            quantity_positive,
            price_positive,
            timestamp_ms,
        } => {
            if *is_buy {
                if *quantity_positive {
                    actions.push(
                        DbAction::RecordPositionWithTrade {
                            token_id: canonical_token_id.clone(),
                            provider_id: provider_token_id.clone(),
                            entry_time_ms: *timestamp_ms,
                        },
                    );
                }
            } else if *quantity_positive && *price_positive {
                actions.push(
                    DbAction::QueueTrade {
                        canonical_token_id: canonical_token_id.clone(),
                        provider_token_id: provider_token_id.clone(),
                        is_buy: false,
                        timestamp_ms: *timestamp_ms,
                    },
                );
            }
        },
        DbEvent::PositionUpdate { token_id, timestamp_ms } => {
            actions.push(DbAction::QueuePositionUpdate { token_id: token_id.clone(), timestamp_ms: *timestamp_ms });
        },
        DbEvent::PositionOpened { token_id, timestamp_ms } => {
            actions.push(
                DbAction::RecordPositionWithTrade {
                    token_id: token_id.clone(),
                    provider_id: token_id.clone(),
                    entry_time_ms: *timestamp_ms,
                },
            );
        },
        DbEvent::PositionClosed { token_id, amounts_positive, delete_position, timestamp_ms } => {
            if *amounts_positive {
                actions.push(
                    DbAction::ResolveProviderAndQueueClose {
                        token_id: token_id.clone(),
                        delete_position: *delete_position,
                        timestamp_ms: *timestamp_ms,
                    },
                );
            }
        },
        DbEvent::DexStatusUpdated { tx_id, phase } => {
            actions.push(DbAction::LogDexStatus { tx_id: tx_id.clone(), status_text: phase.label() });
        },
        DbEvent::Other => {},
    }
    proof {
        assert(actions@.map_values(|a: DbAction| a@) =~= db_actions(*ev));
    }
    actions
}

/// The hyphenated text form of a random (version 4) UUID: 36 characters,
/// hyphens at positions 8, 13, 18 and 23, lower-case hexadecimal digits
/// elsewhere, the version digit `4` at position 14 and one of `8`, `9`, `a`,
/// `b` (the variant) at position 19.
pub open spec fn uuid_text_form(s: Seq<char>) -> bool {
    &&& s.len() == 36
    &&& forall|k: int|
        0 <= k < 36 ==> if k == 8 || k == 13 || k == 18 || k == 23 {
            s[k] == '-'
        } else {
            ('0' <= #[trigger] s[k] <= '9') || ('a' <= s[k] <= 'f')
        }
    &&& s[14] == '4'
    &&& (s[19] == '8' || s[19] == '9' || s[19] == 'a' || s[19] == 'b')
}

/// The lower-case hexadecimal digit of a value below 16.
pub open spec fn hex_digit(n: u8) -> char {
    if n < 10 {
        (48 + n) as char
    } else {
        (87 + n) as char
    }
}

/// Byte `i` of a random (version 4) UUID made from `bytes`: byte 6 carries
/// the version (its high four bits become 4), byte 8 the variant (its high
/// two bits become 10); the others are the bytes as given.
pub open spec fn uuid_v4_byte(bytes: Seq<u8>, i: int) -> u8 {
    if i == 6 {
        (bytes[6] & 0x0f) | 0x40
    } else if i == 8 {
        (bytes[8] & 0x3f) | 0x80
    } else {
        bytes[i]
    }
}

/// How many hyphens stand before position `k` of the hyphenated text.
pub open spec fn hyphens_before(k: int) -> int {
    if k < 8 {
        0
    } else if k < 13 {
        1
    } else if k < 18 {
        2
    } else if k < 23 {
        3
    } else {
        4
    }
}

/// The hyphenated lower-case text of the random UUID made from 16 bytes:
/// two hexadecimal digits per byte, high digit first, in groups of 8, 4, 4,
/// 4 and 12 digits joined by hyphens.
pub open spec fn uuid_v4_text(bytes: Seq<u8>) -> Seq<char> {
    Seq::new(
        36,
        |k: int|
            if k == 8 || k == 13 || k == 18 || k == 23 {
                '-'
            } else {
                let p = k - hyphens_before(k);
                let b = uuid_v4_byte(bytes, p / 2);
                if p % 2 == 0 {
                    hex_digit(b / 16)
                } else {
                    hex_digit(b % 16)
                }
            },
    )
}

/// The UUID that `uuid::Builder::from_random_bytes` builds from `bytes`
/// (setting the version and variant bits), in the hyphenated lower-case
/// form its `Display` prints: exactly `uuid_v4_text(bytes)`.
#[verifier::external_body]
fn uuid_text_from_bytes(bytes: &Vec<u8>) -> (s: String)
    requires
        bytes@.len() == 16,
    ensures
        s@ == uuid_v4_text(bytes@),
        uuid_text_form(s@),
{
    let mut raw = [0u8; 16];
    raw.copy_from_slice(bytes.as_slice());
    uuid::Builder::from_random_bytes(raw).into_uuid().to_string()
}

/// The kinds of queued database write.
#[derive(PartialEq, Eq, Structural, Clone, Copy, Debug)]
pub enum OperationKind {
    PositionUpdate,
    Trade,
    PositionClose,
}

/// The prefix of a queued write's identifier.
pub open spec fn operation_prefix(kind: OperationKind) -> Seq<char> {
    match kind {
        OperationKind::PositionUpdate => "pos_update_"@,
        OperationKind::Trade => "trade_"@,
        OperationKind::PositionClose => "close_"@,
    }
}

/// A new identifier for a queued write: the kind's prefix followed by the
/// random UUID made from 16 bytes of the operating system's source; none
/// when that source fails. What given bytes give is
/// `operation_id_from_bytes`'s contract.
pub fn operation_id(kind: OperationKind) -> (r: Option<String>)
    ensures
        r matches Some(id) ==> {
            &&& id@.len() == operation_prefix(kind).len() + 36
            &&& id@.subrange(0, operation_prefix(kind).len() as int) == operation_prefix(kind)
            &&& uuid_text_form(id@.subrange(operation_prefix(kind).len() as int, id@.len() as int))
            &&& exists|bytes: Seq<u8>| bytes.len() == 16 && id@ == operation_prefix(kind) + #[trigger] uuid_v4_text(bytes)
        },
{
    let mut bytes: Vec<u8> = vec![0u8; 16];
    if !fill_random(&mut bytes) {
        return None;
    }
    let id = operation_id_from_bytes(kind, &bytes);
    proof {
        assert(bytes@.len() == 16 && id@ == operation_prefix(kind) + uuid_v4_text(bytes@));
    }
    Some(id)
}

/// The identifier for a queued write made from 16 random bytes: the kind's
/// prefix followed by the random UUID that those bytes make.
pub fn operation_id_from_bytes(kind: OperationKind, bytes: &Vec<u8>) -> (id: String)
    requires
        bytes@.len() == 16,
    ensures
        id@ == operation_prefix(kind) + uuid_v4_text(bytes@),
        id@.len() == operation_prefix(kind).len() + 36,
        uuid_text_form(id@.subrange(operation_prefix(kind).len() as int, id@.len() as int)),
{
    let mut id = match kind {
        OperationKind::PositionUpdate => String::from_str("pos_update_"),
        OperationKind::Trade => String::from_str("trade_"),
        OperationKind::PositionClose => String::from_str("close_"),
    };
    let ghost prefix = id@;
    let u = uuid_text_from_bytes(bytes);
    id.append(u.as_str());
    proof {
        assert(id@.subrange(prefix.len() as int, id@.len() as int) =~= u@);
    }
    id
}

} // verus!
