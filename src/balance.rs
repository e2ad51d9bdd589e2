use vstd::prelude::*;
use vstd::string::StringExecFns;

use crate::codec::{decoded, AccountInfo};
use crate::hexcode::{encode_hex, hex_text};

verus! {

/// Why a balance could not be read.
#[derive(Clone, Copy, Debug, PartialEq, Eq, Structural)]
pub enum BalanceError {
    /// The node answered with bytes that are not an account record.
    Decode,
    /// The node could not be reached, or answered with something other than a value.
    Unknown,
}

/// The node at the endpoint could not be reached.
#[derive(Clone, Copy, Debug, PartialEq, Eq, Structural)]
pub struct ConnectionError;

/// What a node answers to a storage query.
#[derive(Debug)]
pub enum QueryResponse {
    /// The raw bytes held in the storage slot.
    Value(Vec<u8>),
    /// A description of the node's types rather than a stored value.
    Meta,
    /// Nothing is stored there.
    Void,
}

/// How the node's answer to a storage query is read: no bytes means that
/// nothing is stored there, any other bytes are the stored value.
pub fn query_response(bytes: Vec<u8>) -> (r: QueryResponse)
    ensures
        bytes@.len() == 0 <==> r is Void,
        r matches QueryResponse::Value(v) ==> v@ == bytes@,
        !(r is Meta),
{
    if bytes.len() == 0 {
        QueryResponse::Void
    } else {
        QueryResponse::Value(bytes)
    }
}

/// The free balance that a query outcome yields.
pub open spec fn free_balance_of(outcome: Result<QueryResponse, ConnectionError>) -> Result<
    u128,
    BalanceError,
> {
    match outcome {
        Ok(QueryResponse::Value(bytes)) => if bytes@.len() < 80 {
            Err(BalanceError::Decode)
        } else {
            Ok(decoded(bytes@).data.free)
        },
        _ => Err(BalanceError::Unknown),
    }
}

/// Reads the free balance out of the node's answer to an account query.
/// A connection failure, or an answer that is not a value, is `Unknown`; a
/// value too short to be an account record is `Decode`.
pub fn free_balance(outcome: Result<QueryResponse, ConnectionError>) -> (r: Result<
    u128,
    BalanceError,
>)
    ensures
        r == free_balance_of(outcome),
{
    match outcome {
        Ok(QueryResponse::Value(bytes)) => match AccountInfo::decode(bytes.as_slice()) {
            Ok(info) => Ok(info.data.free),
            Err(_) => Err(BalanceError::Decode),
        },
        _ => Err(BalanceError::Unknown),
    }
}

/// Decimal places between a display unit of a balance and the ledger's
/// base unit.
pub const DECIMALS: u8 = 12;

/// The node that queries and transfers are sent to.
pub open spec fn node_url() -> Seq<char> {
    "wss://rococo-rpc.polkadot.io/"@
}

/// The address of `path` on the node.
pub fn endpoint_url(path: &str) -> (r: String)
    ensures
        r@ == node_url() + path@,
{
    String::from_str("wss://rococo-rpc.polkadot.io/").concat(path)
}

/// The storage path of an account's record.
pub open spec fn account_path(address: Seq<char>) -> Seq<char> {
    "system/account/"@ + address
}

/// The storage path of the account record stored under `address`.
pub fn account_query_path(address: &str) -> (r: String)
    ensures
        r@ == account_path(address@),
{
    String::from_str("system/account/").concat(address)
}

/// How an account is named in queries: `0x` and its public key in hex.
pub fn account_address(public: &[u8]) -> (r: String)
    ensures
        r@ == seq!['0', 'x'] + hex_text(public@),
{
    let digits = encode_hex(public);
    let r = String::from_str("0x").concat(digits.as_str());
    proof {
        reveal_strlit("0x");
    }
    assert(r@ =~= seq!['0', 'x'] + hex_text(public@));
    r
}

} // verus!
