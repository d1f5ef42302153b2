//! Common types shared by all transaction kinds.

use vstd::prelude::*;
use crate::errors::LighterError;

verus! {

/// Transaction options for customizing transaction parameters.
#[derive(Debug, Clone)]
pub struct TransactOpts {
    pub from_account_index: Option<i64>,
    pub api_key_index: Option<u8>,
    pub expired_at: i64,
    pub nonce: Option<i64>,
    pub dry_run: bool,
}

impl Default for TransactOpts {
    /// All fields absent or zero.
    fn default() -> (r: TransactOpts)
        ensures
            r.from_account_index is None,
            r.api_key_index is None,
            r.expired_at == 0,
            r.nonce is None,
            !r.dry_run,
    {
        TransactOpts {
            from_account_index: None,
            api_key_index: None,
            expired_at: 0,
            nonce: None,
            dry_run: false,
        }
    }
}

/// What every transaction type offers: its type tag, its validation
/// rule, and the hash recorded after signing.
pub trait TxInfo {
    /// The transaction type tag.
    spec fn tx_type_spec(&self) -> u8;

    /// The exact outcome of validation: `Ok` or the first failing check's
    /// error.
    spec fn validate_spec(&self) -> Result<(), LighterError>;

    /// The recorded signed hash, if any.
    spec fn tx_hash_spec(&self) -> Option<String>;

    /// Get the transaction type identifier.
    fn get_tx_type(&self) -> (t: u8)
        ensures
            t == self.tx_type_spec(),
    ;

    /// Get the transaction hash, if the transaction was signed.
    fn get_tx_hash(&self) -> (h: Option<String>)
        ensures
            h is Some <==> self.tx_hash_spec() is Some,
            h matches Option::Some(x) ==> (self.tx_hash_spec() matches Option::Some(y) && x@
                == y@),
    ;

    /// Validate the transaction.
    fn validate(&self) -> (r: Result<(), LighterError>)
        ensures
            r == self.validate_spec(),
    ;
}

/// Copy an optional signed hash, preserving its text.
pub fn clone_opt_string(h: &Option<String>) -> (r: Option<String>)
    ensures
        r is Some <==> h is Some,
        r matches Option::Some(x) ==> (h matches Option::Some(y) && x@ == y@),
{
    match h {
        Some(s) => Some(s.clone()),
        None => None,
    }
}

/// Response from the transaction submission endpoint.
#[derive(Debug, Clone)]
pub struct TxResponse {
    pub code: u16,
    pub tx_hash: Option<String>,
    pub message: Option<String>,
}

/// Order information used in order-related transactions.
#[derive(Debug, Clone)]
pub struct OrderInfo {
    pub market_index: u8,
    pub client_order_index: i64,
    pub base_amount: i64,
    pub price: u32,
    pub is_ask: u8,
    pub order_type: u8,
    pub time_in_force: u8,
    pub reduce_only: u8,
    pub trigger_price: u32,
    pub order_expiry: i64,
}

} // verus!
