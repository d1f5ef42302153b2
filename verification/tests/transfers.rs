//! Validation of transfer and withdrawal transaction types.

use lighter_rs::constants::{
    MARGIN_ADD_TO_ISOLATED, TX_TYPE_L2_TRANSFER, TX_TYPE_L2_WITHDRAW, TX_TYPE_L2_CHANGE_PUB_KEY,
    TX_TYPE_L2_UPDATE_LEVERAGE, TX_TYPE_L2_UPDATE_MARGIN, TX_TYPE_L2_CREATE_SUB_ACCOUNT,
};
use lighter_rs::errors::LighterError;
use lighter_rs::types::common::TxInfo;
use lighter_rs::types::transfers::{
    L2ChangePubKeyTxInfo, L2CreateSubAccountTxInfo, L2TransferTxInfo, L2UpdateLeverageTxInfo,
    L2UpdateMarginTxInfo, L2WithdrawTxInfo,
};

#[test]
fn test_transfer_validation_success() {
    let tx_info = L2TransferTxInfo {
        from_account_index: 12345,
        api_key_index: 0,
        to_account_index: 54321,
        usdc_amount: 1000000,
        fee: 1000,
        memo: [0u8; 32],
        expired_at: 1000000,
        nonce: 1,
        signed_hash: None,
    };

    assert!(tx_info.validate().is_ok());
    assert_eq!(tx_info.get_tx_type(), TX_TYPE_L2_TRANSFER);
}

#[test]
fn test_transfer_amount_too_low() {
    let tx_info = L2TransferTxInfo {
        from_account_index: 12345,
        api_key_index: 0,
        to_account_index: 54321,
        usdc_amount: 0,
        fee: 1000,
        memo: [0u8; 32],
        expired_at: 1000000,
        nonce: 1,
        signed_hash: None,
    };

    let result = tx_info.validate();
    assert!(result.is_err());
}

#[test]
fn test_transfer_negative_fee() {
    let tx_info = L2TransferTxInfo {
        from_account_index: 12345,
        api_key_index: 0,
        to_account_index: 54321,
        usdc_amount: 1000000,
        fee: -1,
        memo: [0u8; 32],
        expired_at: 1000000,
        nonce: 1,
        signed_hash: None,
    };

    let result = tx_info.validate();
    assert!(result.is_err());
    assert!(matches!(
        result.unwrap_err(),
        LighterError::TransferFeeNegative
    ));
}

#[test]
fn test_withdraw_validation_success() {
    let tx_info = L2WithdrawTxInfo {
        from_account_index: 12345,
        api_key_index: 0,
        usdc_amount: 1000000,
        expired_at: 1000000,
        nonce: 1,
        signed_hash: None,
    };

    assert!(tx_info.validate().is_ok());
    assert_eq!(tx_info.get_tx_type(), TX_TYPE_L2_WITHDRAW);
}

#[test]
fn test_change_pub_key_validation_success() {
    let tx_info = L2ChangePubKeyTxInfo {
        account_index: 12345,
        api_key_index: 0,
        pub_key: vec![0u8; 40],
        expired_at: 1000000,
        nonce: 1,
        signed_hash: None,
    };

    assert!(tx_info.validate().is_ok());
    assert_eq!(tx_info.get_tx_type(), TX_TYPE_L2_CHANGE_PUB_KEY);
}

#[test]
fn test_change_pub_key_invalid_length() {
    let tx_info = L2ChangePubKeyTxInfo {
        account_index: 12345,
        api_key_index: 0,
        pub_key: vec![0u8; 20],
        expired_at: 1000000,
        nonce: 1,
        signed_hash: None,
    };

    let result = tx_info.validate();
    assert!(result.is_err());
    assert!(matches!(result.unwrap_err(), LighterError::PubKeyInvalid));
}

#[test]
fn test_update_leverage_validation_success() {
    let tx_info = L2UpdateLeverageTxInfo {
        account_index: 12345,
        api_key_index: 0,
        market_index: 0,
        initial_margin_fraction: 5000,
        margin_mode: 0,
        expired_at: 1000000,
        nonce: 1,
        signed_hash: None,
    };

    assert!(tx_info.validate().is_ok());
    assert_eq!(tx_info.get_tx_type(), TX_TYPE_L2_UPDATE_LEVERAGE);
}

#[test]
fn test_update_margin_validation_success() {
    let tx_info = L2UpdateMarginTxInfo {
        account_index: 12345,
        api_key_index: 0,
        market_index: 0,
        usdc_amount: 1000000,
        direction: MARGIN_ADD_TO_ISOLATED,
        expired_at: 1000000,
        nonce: 1,
        signed_hash: None,
    };

    assert!(tx_info.validate().is_ok());
    assert_eq!(tx_info.get_tx_type(), TX_TYPE_L2_UPDATE_MARGIN);
}

#[test]
fn test_update_margin_invalid_direction() {
    let tx_info = L2UpdateMarginTxInfo {
        account_index: 12345,
        api_key_index: 0,
        market_index: 0,
        usdc_amount: 1000000,
        direction: 2,
        expired_at: 1000000,
        nonce: 1,
        signed_hash: None,
    };

    let result = tx_info.validate();
    assert!(result.is_err());
    assert!(matches!(
        result.unwrap_err(),
        LighterError::InvalidUpdateMarginDirection
    ));
}

#[test]
fn test_create_sub_account_validation_success() {
    let tx_info = L2CreateSubAccountTxInfo {
        account_index: 12345,
        api_key_index: 0,
        expired_at: 1000000,
        nonce: 1,
        signed_hash: None,
    };

    assert!(tx_info.validate().is_ok());
    assert_eq!(tx_info.get_tx_type(), TX_TYPE_L2_CREATE_SUB_ACCOUNT);
}
