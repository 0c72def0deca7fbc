use vstd::prelude::*;
use crate::bus::pow2;
use crate::text::{lowercase, seq_has, to_lowercase, vec_contains_str};

verus! {

/// The API keys of the market-data services, as the configuration holds them.
pub struct ApiKeys {
    pub coincap: Option<String>,
    pub coingecko: Option<String>,
}

/// The market-data provider chosen for a configuration, with the key it is
/// built with.
pub enum MarketProvider {
    /// CoinCap: polling and a price WebSocket.
    CoinCap { api_key: Option<String> },
    /// CoinGecko: polling only; its public API needs no key.
    CoinGecko { api_key: Option<String> },
}

/// Events emitted by market data providers.
#[derive(Debug, Clone)]
pub enum MarketProviderEvent<D> {
    Connected,
    Disconnected,
    Data(D),
    Error(String),
}

/// The provider chosen for the keys: CoinCap when its key is present (it
/// streams prices), else CoinGecko with its key when that is present, else
/// CoinGecko's public API without a key.
pub open spec fn chosen_provider(coincap: Option<Seq<char>>, coingecko: Option<Seq<char>>) -> (bool, Option<Seq<char>>) {
    if coincap is Some {
        (true, coincap)
    } else if coingecko is Some {
        (false, coingecko)
    } else {
        (false, None)
    }
}

/// A configured CoinCap key always wins: the streaming provider is chosen
/// with that key, whatever the CoinGecko key. Without a CoinCap key,
/// CoinGecko is chosen with its key if there is one, and without a key
/// otherwise.
pub proof fn law_coincap_key_wins(coincap: Option<Seq<char>>, coingecko: Option<Seq<char>>)
    ensures
        coincap is Some ==> chosen_provider(coincap, coingecko) == (true, coincap),
        coincap is None ==> chosen_provider(coincap, coingecko) == (false, coingecko),
{
}

/// The view of an optional string.
pub open spec fn opt_view(o: Option<String>) -> Option<Seq<char>> {
    match o {
        Some(s) => Some(s@),
        None => None,
    }
}

impl MarketProvider {
    /// Whether this is the CoinCap provider.
    pub open spec fn is_coincap(&self) -> bool {
        self is CoinCap
    }

    /// The key the provider is built with.
    pub open spec fn key(&self) -> Option<Seq<char>> {
        match self {
            MarketProvider::CoinCap { api_key } => opt_view(*api_key),
            MarketProvider::CoinGecko { api_key } => opt_view(*api_key),
        }
    }

    /// The provider's display name.
    pub fn name(&self) -> (r: &'static str)
        ensures
            r@ == (if self.is_coincap() { "CoinCap"@ } else { "CoinGecko"@ }),
    {
        match self {
            MarketProvider::CoinCap { .. } => "CoinCap",
            MarketProvider::CoinGecko { .. } => "CoinGecko",
        }
    }

    /// Whether the provider can stream prices over a WebSocket.
    pub fn supports_websocket(&self) -> (r: bool)
        ensures
            r == self.is_coincap(),
    {
        match self {
            MarketProvider::CoinCap { .. } => true,
            MarketProvider::CoinGecko { .. } => false,
        }
    }
}

fn clone_opt(o: &Option<String>) -> (r: Option<String>)
    ensures
        opt_view(r) == opt_view(*o),
{
    match o {
        Some(s) => Some(s.clone()),
        None => None,
    }
}

/// Selects the market-data provider for the configured keys, preferring one
/// that streams prices.
pub fn create_market_api(keys: &ApiKeys) -> (p: MarketProvider)
    ensures
        (p.is_coincap(), p.key()) == chosen_provider(opt_view(keys.coincap), opt_view(keys.coingecko)),
        keys.coincap is Some ==> p.is_coincap() && p.key() == opt_view(keys.coincap),
        keys.coincap is None ==> !p.is_coincap() && p.key() == opt_view(keys.coingecko),
{
    if keys.coincap.is_some() {
        return MarketProvider::CoinCap { api_key: clone_opt(&keys.coincap) };
    }
    if keys.coingecko.is_some() {
        return MarketProvider::CoinGecko { api_key: clone_opt(&keys.coingecko) };
    }
    MarketProvider::CoinGecko { api_key: None }
}

/// How many tokens a CoinGecko market query asks for: the top 250 in a wide
/// scan, the top 100 otherwise.
pub fn coingecko_market_limit(wide_scan: bool) -> (n: usize)
    ensures
        n == (if wide_scan { 250usize } else { 100usize }),
{
    if wide_scan {
        250
    } else {
        100
    }
}

/// Whether a market update for `token_id` is processed: always in a wide
/// scan or when no token is watched, else only when the lower-cased
/// identifier is among the watched tokens.
pub fn should_process_token(wide_scan: bool, watched: &Vec<String>, token_id: &str) -> (r: bool)
    ensures
        r == (wide_scan || watched@.len() == 0 || seq_has(watched@, lowercase(token_id@))),
{
    if wide_scan || watched.len() == 0 {
        return true;
    }
    let lowered = to_lowercase(token_id);
    vec_contains_str(watched, lowered.as_str())
}

/// How many WebSocket connection attempts are made before falling back to
/// polling.
pub const MAX_WS_CONNECTION_ATTEMPTS: u32 = 5;

/// What to do before the next WebSocket connection attempt.
#[derive(PartialEq, Eq, Structural, Clone, Copy, Debug)]
pub enum WsAttempt {
    /// Make attempt number `attempt` (counted from 1).
    Connect { attempt: u32 },
    /// Every attempt failed: poll instead.
    FallBackToPolling,
}

/// The step after `failed` consecutive failed connection attempts.
pub fn next_ws_attempt(failed: u32) -> (r: WsAttempt)
    ensures
        failed < MAX_WS_CONNECTION_ATTEMPTS ==> r == (WsAttempt::Connect { attempt: (failed + 1) as u32 }),
        failed >= MAX_WS_CONNECTION_ATTEMPTS ==> r == WsAttempt::FallBackToPolling,
{
    if failed < MAX_WS_CONNECTION_ATTEMPTS {
        WsAttempt::Connect { attempt: failed + 1 }
    } else {
        WsAttempt::FallBackToPolling
    }
}

proof fn lemma_pow2_small(k: nat)
    requires
        k <= 3,
    ensures
        pow2(k) <= 8,
{
    reveal_with_fuel(pow2, 4);
    if k == 0 {
    } else if k == 1 {
    } else if k == 2 {
    } else {
    }
}

/// Seconds to wait after failed attempt number `attempt`: 1, 2, 4, 8, 16.
pub fn ws_retry_backoff_secs(attempt: u32) -> (secs: u64)
    requires
        1 <= attempt <= MAX_WS_CONNECTION_ATTEMPTS,
    ensures
        secs == pow2((attempt - 1) as nat),
{
    let mut secs: u64 = 1;
    let mut i: u32 = 1;
    while i < attempt
        invariant
            1 <= i <= attempt <= MAX_WS_CONNECTION_ATTEMPTS,
            secs == pow2((i - 1) as nat),
        decreases attempt - i,
    {
        proof {
            lemma_pow2_small((i - 1) as nat);
            reveal_with_fuel(pow2, 2);
        }
        secs = secs * 2;
        i = i + 1;
        proof {
            assert(pow2((i - 1) as nat) == 2 * pow2((i - 2) as nat));
        }
    }
    secs
}

/// Period, in seconds, of the supplemental poll while streaming: the scan
/// interval, but at least five minutes.
pub fn supplemental_poll_secs(scan_interval: u64) -> (secs: u64)
    ensures
        secs == (if scan_interval > 300 { scan_interval } else { 300 }),
{
    if scan_interval > 300 {
        scan_interval
    } else {
        300
    }
}

/// Silence, in seconds, after which the stream is taken for stale: twice the
/// scan interval, but at least ten minutes.
pub fn ws_inactivity_threshold_secs(scan_interval: u64) -> (secs: u64)
    requires
        scan_interval * 2 <= u64::MAX,
    ensures
        secs == (if scan_interval * 2 > 600 { scan_interval * 2 } else { 600 }),
{
    let twice = scan_interval * 2;
    if twice > 600 {
        twice
    } else {
        600
    }
}

/// Longest wait, in seconds, between restarts of the market-data loop.
pub const MAX_COLLECTION_BACKOFF_SECS: u64 = 60;

/// What the collection task does once the market-data loop has returned.
#[derive(PartialEq, Eq, Structural, Clone, Copy, Debug)]
pub enum CollectionStep {
    /// The actor is no longer running: end the task (with the loop's error, if any).
    Finish,
    /// The loop ended cleanly while the actor still runs: restart after five seconds.
    RestartAfterPause,
    /// The loop failed: retry after `secs` seconds.
    RetryAfter { secs: u64 },
}

/// The back-off after a failure: twice the last one, at most a minute.
pub open spec fn doubled_backoff(backoff_secs: u64) -> u64 {
    if backoff_secs * 2 < MAX_COLLECTION_BACKOFF_SECS {
        (backoff_secs * 2) as u64
    } else {
        MAX_COLLECTION_BACKOFF_SECS
    }
}

/// The back-off after `n` failures in a row, starting from one second.
pub open spec fn backoff_after(n: nat) -> u64
    decreases n,
{
    if n == 0 {
        1
    } else {
        doubled_backoff(backoff_after((n - 1) as nat))
    }
}

/// After `n` consecutive failures the wait is 2^n seconds, capped at a
/// minute: 1, 2, 4, 8, 16, 32, 60, 60, ...
pub proof fn law_backoff_sequence(n: nat)
    ensures
        backoff_after(n) == (if pow2(n) < MAX_COLLECTION_BACKOFF_SECS { pow2(n) } else { MAX_COLLECTION_BACKOFF_SECS as nat }),
    decreases n,
{
    if n > 0 {
        law_backoff_sequence((n - 1) as nat);
        reveal_with_fuel(pow2, 2);
        assert(pow2(n) == 2 * pow2((n - 1) as nat));
    }
}

/// The collection task's decision after the loop returned (`loop_ok` tells
/// whether it returned without error), with the back-off that applies to the
/// next failure. The back-off starts at one second, doubles after each
/// failure up to a minute, and falls back to one second after a clean run.
pub fn collection_step(running: bool, loop_ok: bool, backoff_secs: u64) -> (r: (CollectionStep, u64))
    requires
        1 <= backoff_secs <= MAX_COLLECTION_BACKOFF_SECS,
    ensures
        !running ==> r == (CollectionStep::Finish, backoff_secs),
        running && loop_ok ==> r == (CollectionStep::RestartAfterPause, 1u64),
        running && !loop_ok ==> r == (CollectionStep::RetryAfter { secs: backoff_secs }, doubled_backoff(backoff_secs)),
        1 <= r.1 <= MAX_COLLECTION_BACKOFF_SECS,
{
    if !running {
        return (CollectionStep::Finish, backoff_secs);
    }
    if loop_ok {
        return (CollectionStep::RestartAfterPause, 1);
    }
    let doubled = backoff_secs * 2;
    let next = if doubled < MAX_COLLECTION_BACKOFF_SECS { doubled } else { MAX_COLLECTION_BACKOFF_SECS };
    (CollectionStep::RetryAfter { secs: backoff_secs }, next)
}

/// Why a CoinCap WebSocket connection is refused before it is attempted.
#[derive(PartialEq, Eq, Structural, Clone, Copy, Debug)]
pub enum WsPreflightError {
    /// No token to subscribe to.
    NoTokens,
    /// CoinCap's stream needs an API key.
    NoApiKey,
}

/// The checks before a CoinCap WebSocket connection: there must be tokens to
/// track, then an API key.
pub fn coincap_ws_preflight(tokens: &Vec<String>, api_key: &Option<String>) -> (r: Result<(), WsPreflightError>)
    ensures
        tokens@.len() == 0 ==> r == Err::<(), WsPreflightError>(WsPreflightError::NoTokens),
        tokens@.len() > 0 && api_key is None ==> r == Err::<(), WsPreflightError>(WsPreflightError::NoApiKey),
        tokens@.len() > 0 && api_key is Some ==> r is Ok,
{
    if tokens.len() == 0 {
        return Err(WsPreflightError::NoTokens);
    }
    if api_key.is_none() {
        return Err(WsPreflightError::NoApiKey);
    }
    Ok(())
}

/// The strings joined with `sep` between neighbours.
pub open spec fn joined(items: Seq<String>, sep: Seq<char>) -> Seq<char>
    decreases items.len(),
{
    if items.len() == 0 {
        Seq::empty()
    } else if items.len() == 1 {
        items[0]@
    } else {
        joined(items.drop_last(), sep) + sep + items.last()@
    }
}

/// The address of CoinCap's price stream for the given assets.
pub open spec fn coincap_ws_url_spec(tokens: Seq<String>) -> Seq<char> {
    "wss://ws.coincap.io/prices?assets="@ + joined(tokens, ","@)
}

/// Appends the strings to `out`, separated by commas.
fn append_joined(out: &mut String, items: &Vec<String>)
    ensures
        final(out)@ == old(out)@ + joined(items@, ","@),
{
    let mut i: usize = 0;
    let ghost start = out@;
    while i < items.len()
        invariant
            i <= items@.len(),
            out@ == start + joined(items@.take(i as int), ","@),
        decreases items.len() - i,
    {
        if i > 0 {
            out.append(",");
        }
        out.append(items[i].as_str());
        proof {
            let t = items@.take(i + 1);
            assert(t.drop_last() =~= items@.take(i as int));
            assert(t.last() == items@[i as int]);
            if i == 0 {
                assert(joined(items@.take(0), ","@) =~= Seq::<char>::empty());
            }
        }
        i = i + 1;
    }
    proof {
        assert(items@.take(items@.len() as int) =~= items@);
    }
}

/// The address of CoinCap's price stream for the given assets: the stream's
/// base address followed by the asset identifiers, comma-separated.
pub fn coincap_ws_url(tokens: &Vec<String>) -> (url: String)
    ensures
        url@ == coincap_ws_url_spec(tokens@),
{
    let mut url = String::from_str("wss://ws.coincap.io/prices?assets=");
    append_joined(&mut url, tokens);
    url
}

/// The value of the `Authorization` header sent with an API key.
pub fn bearer_header(api_key: &str) -> (h: String)
    ensures
        h@ == "Bearer "@ + api_key@,
{
    let mut h = String::from_str("Bearer ");
    h.append(api_key);
    h
}

/// How a CoinGecko HTTP status is taken.
#[derive(PartialEq, Eq, Structural, Clone, Copy, Debug)]
pub enum CoinGeckoReply {
    /// 200: the body is the data.
    Data,
    /// 429: rate limited; the caller waits before the error is returned.
    RateLimited,
    /// Any other status is an API error.
    ApiError,
}

/// Seconds to wait after CoinGecko answers that the rate limit is exceeded.
pub const COINGECKO_RETRY_DELAY_SECS: u64 = 30;

/// Classifies a CoinGecko HTTP status.
pub fn classify_coingecko_status(status: u16) -> (r: CoinGeckoReply)
    ensures
        status == 200 ==> r == CoinGeckoReply::Data,
        status == 429 ==> r == CoinGeckoReply::RateLimited,
        status != 200 && status != 429 ==> r == CoinGeckoReply::ApiError,
{
    if status == 200 {
        CoinGeckoReply::Data
    } else if status == 429 {
        CoinGeckoReply::RateLimited
    } else {
        CoinGeckoReply::ApiError
    }
}

} // verus!
