use vstd::prelude::*;
use crate::assoc::{Entry, entries_map, keys_unique, find_entry, set_entry};
use crate::text::{lowercase, to_lowercase, str_eq};

verus! {

/// The address a contract-creating transaction is sent to.
pub open spec fn zero_address() -> Seq<char> {
    "0x0000000000000000000000000000000000000000"@
}

/// The kind shown for a transaction: a contract creation when it is sent to
/// the zero address, a transfer otherwise.
pub fn transaction_kind(to_address: &str) -> (r: String)
    ensures
        r@ == (if to_address@ == zero_address() { "Contract Creation"@ } else { "Transfer"@ }),
{
    if str_eq(to_address, "0x0000000000000000000000000000000000000000") {
        String::from_str("Contract Creation")
    } else {
        String::from_str("Transfer")
    }
}

/// The Etherscan query for the balance of `address`.
pub fn balance_url(address: &str) -> (url: String)
    ensures
        url@ == "https://api.etherscan.io/api/module=account&action=balance&address="@ + address@
            + "&tag=latest"@,
{
    let mut url = String::from_str("https://api.etherscan.io/api/module=account&action=balance&address=");
    url.append(address);
    url.append("&tag=latest");
    url
}

/// The Etherscan query for the token transfers of `address`, newest first.
pub fn token_transfers_url(address: &str) -> (url: String)
    ensures
        url@ == "https://api.etherscan.io/api/module=account&action=tokentx&address="@ + address@
            + "&sort=desc"@,
{
    let mut url = String::from_str("https://api.etherscan.io/api/module=account&action=tokentx&address=");
    url.append(address);
    url.append("&sort=desc");
    url
}

/// The Etherscan query for the transactions of `address`, newest first.
pub fn transactions_url(address: &str) -> (url: String)
    ensures
        url@ == "https://api.etherscan.io/api/module=account&action=txlist&address="@ + address@
            + "&sort=desc"@,
{
    let mut url = String::from_str("https://api.etherscan.io/api/module=account&action=txlist&address=");
    url.append(address);
    url.append("&sort=desc");
    url
}

/// Why DEX statistics cannot be fetched.
pub open spec fn raydium_refusal(chain: Seq<char>) -> Seq<char> {
    "Raydium is only available on Solana, not on "@ + chain
}

/// Raydium runs on Solana only: the chain, read without regard to case,
/// must be `solana`; otherwise the refusal names the chain.
pub fn raydium_chain_check(chain: &str) -> (r: Result<(), String>)
    ensures
        lowercase(chain@) == "solana"@ ==> r is Ok,
        lowercase(chain@) != "solana"@ ==> (r matches Err(msg) && msg@ == raydium_refusal(chain@)),
{
    let lowered = to_lowercase(chain);
    if str_eq(lowered.as_str(), "solana") {
        Ok(())
    } else {
        let mut msg = String::from_str("Raydium is only available on Solana, not on ");
        msg.append(chain);
        Err(msg)
    }
}

/// One token transfer as read from Etherscan: the token's name and symbol,
/// and the balance it leaves, already formatted.
pub struct TransferRow {
    pub token_name: String,
    pub token_symbol: String,
    pub balance: String,
}

/// A token held, as shown: its name and its formatted balance.
pub struct Holding {
    pub name: String,
    pub balance: String,
}

/// The holdings that a list of transfers, newest first, leaves, by symbol:
/// a symbol keeps the name of its first transfer and takes the balance of
/// its last.
pub open spec fn holdings_of(rows: Seq<TransferRow>) -> Map<Seq<char>, (Seq<char>, Seq<char>)>
    decreases rows.len(),
{
    if rows.len() == 0 {
        Map::empty()
    } else {
        let m = holdings_of(rows.drop_last());
        let r = rows.last();
        if m.contains_key(r.token_symbol@) {
            m.insert(r.token_symbol@, (m[r.token_symbol@].0, r.balance@))
        } else {
            m.insert(r.token_symbol@, (r.token_name@, r.balance@))
        }
    }
}

/// The views of the holdings kept by symbol.
pub open spec fn holding_views(m: Map<Seq<char>, Holding>) -> Map<Seq<char>, (Seq<char>, Seq<char>)> {
    Map::new(|k: Seq<char>| m.contains_key(k), |k: Seq<char>| (m[k].name@, m[k].balance@))
}

/// Gathers the transfers into one holding per symbol, each symbol once. (The
/// order of the holdings is not part of the result's meaning.)
pub fn merge_token_holdings(rows: &Vec<TransferRow>) -> (holdings: Vec<Entry<Holding>>)
    ensures
        keys_unique(holdings@),
        holding_views(entries_map(holdings@)) == holdings_of(rows@),
{
    let mut holdings: Vec<Entry<Holding>> = Vec::new();
    let mut i: usize = 0;
    proof {
        assert(holding_views(entries_map(holdings@)) =~= holdings_of(rows@.take(0)));
    }
    while i < rows.len()
        invariant
            i <= rows@.len(),
            keys_unique(holdings@),
            holding_views(entries_map(holdings@)) == holdings_of(rows@.take(i as int)),
        decreases rows.len() - i,
    {
        let row = &rows[i];
        let ghost before = entries_map(holdings@);
        let ghost t = rows@.take(i + 1);
        proof {
            assert(t.drop_last() =~= rows@.take(i as int));
            assert(t.last() == rows@[i as int]);
        }
        let name = match find_entry(&holdings, row.token_symbol.as_str()) {
            Some(k) => {
                proof {
                    crate::assoc::lemma_entries_value(holdings@, k as int);
                }
                holdings[k].value.name.clone()
            },
            None => row.token_name.clone(),
        };
        let h = Holding { name, balance: row.balance.clone() };
        set_entry(&mut holdings, row.token_symbol.clone(), h);
        proof {
            assert(holding_views(entries_map(holdings@)) =~= holdings_of(t));
        }
        i = i + 1;
    }
    proof {
        assert(rows@.take(rows@.len() as int) =~= rows@);
    }
    holdings
}

} // verus!
