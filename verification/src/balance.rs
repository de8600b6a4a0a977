//! Reading the balances of wallets from the ledger's answers.

use crate::json::{json_of, member_of, parse_json, whole_of, JsonView};
use vstd::prelude::*;

verus! {

/// What came back for the balance request of one wallet.
#[derive(Clone, Debug, PartialEq, Eq)]
pub enum BalanceReply {
    /// The request failed; the text says how.
    Failed(String),
    /// An answer came, and its body could not be read.
    Unreadable,
    /// The body of the answer.
    Body(Vec<u8>),
}

/// The balance that a JSON document holds: the whole number at the member
/// `value` of its member `result`.
pub open spec fn balance_in(document: JsonView) -> Option<u64> {
    match member_of(document, "result"@) {
        Some(result) => match member_of(result, "value"@) {
            Some(value) => whole_of(value),
            None => None,
        },
        None => None,
    }
}

/// What a reply's body holds: nothing where it is no JSON text, else the
/// balance that the document holds, if any.
pub open spec fn found_in(document: Option<JsonView>) -> Option<Option<u64>> {
    match document {
        Some(document) => Some(balance_in(document)),
        None => None,
    }
}

/// What a body holds: nothing where it is no JSON text, an empty balance
/// where the JSON text has no whole number at `result.value`, else that
/// number.
fn read_balance(body: &[u8]) -> (found: Option<Option<u64>>)
    ensures
        found == found_in(json_of(body@)),
{
    let document = match parse_json(body) {
        Some(document) => document,
        None => {
            return None;
        },
    };
    let result = match document.member("result") {
        Some(result) => result,
        None => {
            return Some(None);
        },
    };
    match result.member("value") {
        Some(value) => Some(value.whole()),
        None => Some(None),
    }
}

/// The balance, or the message, for what a body holds.
pub open spec fn balance_outcome(found: Option<Option<u64>>) -> Result<u64, Seq<char>> {
    match found {
        None => Err("Failed to parse JSON response"@),
        Some(None) => Err("Failed to parse balance"@),
        Some(Some(balance)) => Ok(balance),
    }
}

/// A balance or a message as plain values.
pub open spec fn outcome_view(outcome: Result<u64, String>) -> Result<u64, Seq<char>> {
    match outcome {
        Ok(balance) => Ok(balance),
        Err(message) => Err(message@),
    }
}

/// The balance, or the message, for what a body holds: see
/// [`balance_outcome`].
pub fn balance_result(found: Option<Option<u64>>) -> (outcome: Result<u64, String>)
    ensures
        outcome_view(outcome) == balance_outcome(found),
{
    match found {
        None => Err(String::from_str("Failed to parse JSON response")),
        Some(None) => Err(String::from_str("Failed to parse balance")),
        Some(Some(balance)) => Ok(balance),
    }
}

/// The balance of `wallet` as the reply gives it, or the message that says
/// why it gives none. A failed request keeps its own message; an answer that
/// cannot be read counts as one that is no JSON text. A body gives the whole
/// number at the member `value` of the member `result` of its JSON document.
pub fn get_balance(wallet: String, reply: BalanceReply) -> (result: (String, Result<u64, String>))
    ensures
        result.0@ == wallet@,
        match reply {
            BalanceReply::Failed(message) => outcome_view(result.1) == Err::<u64, Seq<char>>(
                message@,
            ),
            BalanceReply::Unreadable => outcome_view(result.1) == balance_outcome(None),
            BalanceReply::Body(body) => outcome_view(result.1) == balance_outcome(
                found_in(json_of(body@)),
            ),
        },
{
    match reply {
        BalanceReply::Failed(message) => (wallet, Err(message)),
        BalanceReply::Unreadable => (wallet, balance_result(None)),
        BalanceReply::Body(body) => {
            let found = read_balance(body.as_slice());
            (wallet, balance_result(found))
        },
    }
}

/// The entries of `joined` that are not `None`, in order.
pub open spec fn finished<T>(joined: Seq<Option<T>>) -> Seq<T>
    decreases joined.len(),
{
    if joined.len() == 0 {
        Seq::empty()
    } else {
        match joined.last() {
            Some(item) => finished(joined.drop_last()).push(item),
            None => finished(joined.drop_last()),
        }
    }
}

/// Gathers the balances of a batch of wallets. Each wallet was asked on its
/// own; `joined` holds, in the order of the wallets, what each request gave,
/// and `None` for a request that broke off. The result holds what the
/// requests gave, in the same order, without those that broke off.
pub fn get_balances(joined: Vec<Option<(String, Result<u64, String>)>>) -> (results: Vec<
    (String, Result<u64, String>),
>)
    ensures
        results@ == finished(joined@),
{
    let mut results: Vec<(String, Result<u64, String>)> = Vec::new();
    let ghost all = joined@;
    for item in iter: joined
        invariant
            iter.seq() == all,
            results@ == finished(all.take(iter.index() as int)),
    {
        proof {
            let next = all.take(iter.index() + 1);
            assert(next.drop_last() == all.take(iter.index() as int));
            assert(next.last() == item);
        }
        match item {
            Some(result) => {
                results.push(result);
            },
            None => {},
        }
    }
    assert(all.take(all.len() as int) == all);
    results
}

} // verus!
