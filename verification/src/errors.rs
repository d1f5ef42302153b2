//! Error types for the crate.
//!
//! `LighterError` covers validation failures (each carrying the offending
//! value), parsing failures at the market-data boundary, and the
//! configuration errors of the surrounding clients.

use vstd::prelude::*;

verus! {

/// Main error type.
///
/// Validation errors carry the rejected value; message-bearing variants
/// carry the offending input rather than a formatted description, so no
/// formatting machinery is needed inside verified code.
#[derive(Debug)]
pub enum LighterError {
    // Account and API key errors
    AccountIndexTooLow(i64),
    AccountIndexTooHigh(i64),
    ApiKeyIndexTooLow(u8),
    ApiKeyIndexTooHigh(u8),
    // Market errors
    MarketIndexTooLow(u8),
    MarketIndexTooHigh(u8),
    MarketIndexMismatch,
    // Order errors
    ClientOrderIndexTooLow(i64),
    ClientOrderIndexTooHigh(i64),
    ClientOrderIndexNotNil,
    OrderIndexTooLow(i64),
    OrderIndexTooHigh(i64),
    BaseAmountTooLow(i64),
    BaseAmountTooHigh(i64),
    BaseAmountsNotEqual,
    BaseAmountNotNil,
    PriceTooLow(u32),
    PriceTooHigh(u32),
    IsAskInvalid,
    OrderTypeInvalid,
    OrderTimeInForceInvalid,
    OrderReduceOnlyInvalid,
    OrderTriggerPriceInvalid,
    OrderExpiryInvalid,
    GroupingTypeInvalid,
    OrderGroupSizeInvalid,
    // Pool errors
    PublicPoolIndexTooLow(i64),
    PublicPoolIndexTooHigh(i64),
    InvalidPoolOperatorFee,
    InvalidPoolStatus,
    PoolInitialTotalSharesTooLow(i64),
    PoolInitialTotalSharesTooHigh(i64),
    PoolMinOperatorShareRateTooLow,
    PoolMinOperatorShareRateTooHigh,
    PoolMintShareAmountTooLow(i64),
    PoolMintShareAmountTooHigh(i64),
    PoolBurnShareAmountTooLow(i64),
    PoolBurnShareAmountTooHigh(i64),
    // Transfer and withdrawal errors
    WithdrawalAmountTooLow(u64),
    WithdrawalAmountTooHigh(u64),
    TransferAmountTooLow(i64),
    TransferAmountTooHigh(i64),
    TransferFeeNegative,
    TransferFeeTooHigh,
    ToAccountIndexTooLow(i64),
    ToAccountIndexTooHigh(i64),
    FromAccountIndexTooLow(i64),
    FromAccountIndexTooHigh(i64),
    // Margin errors
    InitialMarginFractionTooLow,
    InitialMarginFractionTooHigh(u16),
    InvalidMarginMode,
    InvalidUpdateMarginDirection,
    // General errors
    NonceTooLow(i64),
    ExpiredAtInvalid,
    PubKeyInvalid,
    InvalidSignature,
    InvalidCancelAllTimeInForce,
    CancelAllTimeIsNotInRange,
    CancelAllTimeIsNotNil,
    CancelModeInvalid,
    // Cryptographic errors
    InvalidPrivateKeyLength { expected: usize, actual: usize },
    InvalidPublicKeyLength { expected: usize, actual: usize },
    HexParseError(hex::FromHexError),
    CryptoError(String),
    // Network errors (raised by the surrounding clients)
    ApiError(String),
    InvalidResponse(String),
    Timeout,
    // Generic errors
    MissingField(String),
    InvalidConfiguration(String),
    ValidationError(String),
    Other(String),
}

/// Errors from the native signing boundary.
#[derive(Debug)]
pub enum FFIError {
    Signing(String),
    Nonce(String),
    Unknown(String),
    Generic(String),
}

/// Result type alias using `LighterError`.
pub type Result<T> = core::result::Result<T, LighterError>;

/// `hex::FromHexError` is the error type of the `hex` crate's decoder;
/// it is declared here so it can travel inside `LighterError`.
#[verifier::external_type_specification]
#[verifier::external_body]
pub struct ExFromHexError(hex::FromHexError);

} // verus!
