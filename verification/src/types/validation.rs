//! Standalone validation helpers for transaction fields.

use vstd::prelude::*;
use crate::constants::{MIN_ACCOUNT_INDEX, MAX_ACCOUNT_INDEX, MAX_API_KEY_INDEX, MAX_MARKET_INDEX};
use crate::errors::LighterError;

verus! {

/// Validate an account index: `Ok` exactly when it lies within the
/// account index range; too-low and too-high each get their own error.
pub fn validate_account_index(index: i64) -> (r: Result<(), LighterError>)
    ensures
        r is Ok <==> (MIN_ACCOUNT_INDEX <= index <= MAX_ACCOUNT_INDEX),
        index < MIN_ACCOUNT_INDEX ==> r == Result::<(), LighterError>::Err(
            LighterError::AccountIndexTooLow(index),
        ),
        index > MAX_ACCOUNT_INDEX ==> r == Result::<(), LighterError>::Err(
            LighterError::AccountIndexTooHigh(index),
        ),
{
    if index < MIN_ACCOUNT_INDEX {
        return Err(LighterError::AccountIndexTooLow(index));
    }
    if index > MAX_ACCOUNT_INDEX {
        return Err(LighterError::AccountIndexTooHigh(index));
    }
    Ok(())
}

/// Validate an API key index: `Ok` exactly when it does not exceed the
/// maximum.
pub fn validate_api_key_index(index: u8) -> (r: Result<(), LighterError>)
    ensures
        r is Ok <==> index <= MAX_API_KEY_INDEX,
        index > MAX_API_KEY_INDEX ==> r == Result::<(), LighterError>::Err(
            LighterError::ApiKeyIndexTooHigh(index),
        ),
{
    if index > MAX_API_KEY_INDEX {
        return Err(LighterError::ApiKeyIndexTooHigh(index));
    }
    Ok(())
}

/// Validate a market index: `Ok` exactly when it does not exceed the
/// maximum.
pub fn validate_market_index(index: u8) -> (r: Result<(), LighterError>)
    ensures
        r is Ok <==> index <= MAX_MARKET_INDEX,
        index > MAX_MARKET_INDEX ==> r == Result::<(), LighterError>::Err(
            LighterError::MarketIndexTooHigh(index),
        ),
{
    if index > MAX_MARKET_INDEX {
        return Err(LighterError::MarketIndexTooHigh(index));
    }
    Ok(())
}

} // verus!
