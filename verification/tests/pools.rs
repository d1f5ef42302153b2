//! Validation of pool-related transaction types.

use lighter_rs::constants::{
    TX_TYPE_L2_CREATE_PUBLIC_POOL, TX_TYPE_L2_UPDATE_PUBLIC_POOL, TX_TYPE_L2_MINT_SHARES,
    TX_TYPE_L2_BURN_SHARES,
};
use lighter_rs::errors::LighterError;
use lighter_rs::types::common::TxInfo;
use lighter_rs::types::pools::{
    L2BurnSharesTxInfo, L2CreatePublicPoolTxInfo, L2MintSharesTxInfo, L2UpdatePublicPoolTxInfo,
};

#[test]
fn test_create_public_pool_validation_success() {
    let tx_info = L2CreatePublicPoolTxInfo {
        account_index: 12345,
        api_key_index: 0,
        operator_fee: 10000,
        initial_total_shares: 1000000000,
        min_operator_share_rate: 5000,
        expired_at: 1000000,
        nonce: 1,
        signed_hash: None,
    };

    assert!(tx_info.validate().is_ok());
    assert_eq!(tx_info.get_tx_type(), TX_TYPE_L2_CREATE_PUBLIC_POOL);
}

#[test]
fn test_create_public_pool_invalid_operator_fee() {
    let tx_info = L2CreatePublicPoolTxInfo {
        account_index: 12345,
        api_key_index: 0,
        operator_fee: -1,
        initial_total_shares: 1000000000,
        min_operator_share_rate: 5000,
        expired_at: 1000000,
        nonce: 1,
        signed_hash: None,
    };

    let result = tx_info.validate();
    assert!(result.is_err());
    assert!(matches!(
        result.unwrap_err(),
        LighterError::InvalidPoolOperatorFee
    ));
}

#[test]
fn test_create_public_pool_shares_too_low() {
    let tx_info = L2CreatePublicPoolTxInfo {
        account_index: 12345,
        api_key_index: 0,
        operator_fee: 10000,
        initial_total_shares: 100,
        min_operator_share_rate: 5000,
        expired_at: 1000000,
        nonce: 1,
        signed_hash: None,
    };

    let result = tx_info.validate();
    assert!(result.is_err());
}

#[test]
fn test_update_public_pool_validation_success() {
    let tx_info = L2UpdatePublicPoolTxInfo {
        account_index: 12345,
        api_key_index: 0,
        public_pool_index: 100,
        status: 1,
        operator_fee: 10000,
        min_operator_share_rate: 5000,
        expired_at: 1000000,
        nonce: 1,
        signed_hash: None,
    };

    assert!(tx_info.validate().is_ok());
    assert_eq!(tx_info.get_tx_type(), TX_TYPE_L2_UPDATE_PUBLIC_POOL);
}

#[test]
fn test_update_public_pool_invalid_status() {
    let tx_info = L2UpdatePublicPoolTxInfo {
        account_index: 12345,
        api_key_index: 0,
        public_pool_index: 100,
        status: 2,
        operator_fee: 10000,
        min_operator_share_rate: 5000,
        expired_at: 1000000,
        nonce: 1,
        signed_hash: None,
    };

    let result = tx_info.validate();
    assert!(result.is_err());
    assert!(matches!(result.unwrap_err(), LighterError::InvalidPoolStatus));
}

#[test]
fn test_mint_shares_validation_success() {
    let tx_info = L2MintSharesTxInfo {
        account_index: 12345,
        api_key_index: 0,
        public_pool_index: 100,
        share_amount: 100000,
        expired_at: 1000000,
        nonce: 1,
        signed_hash: None,
    };

    assert!(tx_info.validate().is_ok());
    assert_eq!(tx_info.get_tx_type(), TX_TYPE_L2_MINT_SHARES);
}

#[test]
fn test_mint_shares_amount_too_low() {
    let tx_info = L2MintSharesTxInfo {
        account_index: 12345,
        api_key_index: 0,
        public_pool_index: 100,
        share_amount: 0,
        expired_at: 1000000,
        nonce: 1,
        signed_hash: None,
    };

    let result = tx_info.validate();
    assert!(result.is_err());
}

#[test]
fn test_burn_shares_validation_success() {
    let tx_info = L2BurnSharesTxInfo {
        account_index: 12345,
        api_key_index: 0,
        public_pool_index: 100,
        share_amount: 100000,
        expired_at: 1000000,
        nonce: 1,
        signed_hash: None,
    };

    assert!(tx_info.validate().is_ok());
    assert_eq!(tx_info.get_tx_type(), TX_TYPE_L2_BURN_SHARES);
}

#[test]
fn test_burn_shares_amount_too_low() {
    let tx_info = L2BurnSharesTxInfo {
        account_index: 12345,
        api_key_index: 0,
        public_pool_index: 100,
        share_amount: 0,
        expired_at: 1000000,
        nonce: 1,
        signed_hash: None,
    };

    let result = tx_info.validate();
    assert!(result.is_err());
}
