//! Validation of order-related transaction types.

use lighter_rs::constants::{
    ORDER_TYPE_LIMIT, TIME_IN_FORCE_GOOD_TILL_TIME, MAX_ACCOUNT_INDEX, CANCEL_ALL_IMMEDIATE,
    GROUPING_TYPE_ONE_CANCELS_THE_OTHER, TX_TYPE_L2_CREATE_ORDER, TX_TYPE_L2_CANCEL_ORDER,
    TX_TYPE_L2_MODIFY_ORDER, TX_TYPE_L2_CANCEL_ALL_ORDERS, TX_TYPE_L2_CREATE_GROUPED_ORDERS,
};
use lighter_rs::errors::LighterError;
use lighter_rs::types::common::{OrderInfo, TxInfo};
use lighter_rs::types::orders::{
    L2CancelAllOrdersTxInfo, L2CancelOrderTxInfo, L2CreateGroupedOrdersTxInfo, L2CreateOrderTxInfo,
    L2ModifyOrderTxInfo,
};

fn create_valid_order_info() -> OrderInfo {
    OrderInfo {
        market_index: 0,
        client_order_index: 1,
        base_amount: 1000000,
        price: 100000000,
        is_ask: 0,
        order_type: ORDER_TYPE_LIMIT,
        time_in_force: TIME_IN_FORCE_GOOD_TILL_TIME,
        reduce_only: 0,
        trigger_price: 0,
        order_expiry: 0,
    }
}

#[test]
fn test_create_order_validation_success() {
    let tx_info = L2CreateOrderTxInfo {
        account_index: 12345,
        api_key_index: 0,
        order_info: create_valid_order_info(),
        expired_at: 1000000,
        nonce: 1,
        signed_hash: None,
    };

    assert!(tx_info.validate().is_ok());
}

#[test]
fn test_create_order_account_index_too_low() {
    let tx_info = L2CreateOrderTxInfo {
        account_index: -1,
        api_key_index: 0,
        order_info: create_valid_order_info(),
        expired_at: 1000000,
        nonce: 1,
        signed_hash: None,
    };

    let result = tx_info.validate();
    assert!(result.is_err());
    assert!(matches!(
        result.unwrap_err(),
        LighterError::AccountIndexTooLow(_)
    ));
}

#[test]
fn test_create_order_account_index_too_high() {
    let tx_info = L2CreateOrderTxInfo {
        account_index: MAX_ACCOUNT_INDEX + 1,
        api_key_index: 0,
        order_info: create_valid_order_info(),
        expired_at: 1000000,
        nonce: 1,
        signed_hash: None,
    };

    let result = tx_info.validate();
    assert!(result.is_err());
    assert!(matches!(
        result.unwrap_err(),
        LighterError::AccountIndexTooHigh(_)
    ));
}

#[test]
fn test_create_order_api_key_index_too_high() {
    let tx_info = L2CreateOrderTxInfo {
        account_index: 12345,
        api_key_index: 255,
        order_info: create_valid_order_info(),
        expired_at: 1000000,
        nonce: 1,
        signed_hash: None,
    };

    let result = tx_info.validate();
    assert!(result.is_err());
    assert!(matches!(
        result.unwrap_err(),
        LighterError::ApiKeyIndexTooHigh(_)
    ));
}

#[test]
fn test_create_order_price_too_low() {
    let mut order_info = create_valid_order_info();
    order_info.price = 0;

    let tx_info = L2CreateOrderTxInfo {
        account_index: 12345,
        api_key_index: 0,
        order_info,
        expired_at: 1000000,
        nonce: 1,
        signed_hash: None,
    };

    let result = tx_info.validate();
    assert!(result.is_err());
    assert!(matches!(result.unwrap_err(), LighterError::PriceTooLow(_)));
}

#[test]
fn test_create_order_is_ask_invalid() {
    let mut order_info = create_valid_order_info();
    order_info.is_ask = 2;

    let tx_info = L2CreateOrderTxInfo {
        account_index: 12345,
        api_key_index: 0,
        order_info,
        expired_at: 1000000,
        nonce: 1,
        signed_hash: None,
    };

    let result = tx_info.validate();
    assert!(result.is_err());
    assert!(matches!(result.unwrap_err(), LighterError::IsAskInvalid));
}

#[test]
fn test_create_order_nonce_too_low() {
    let tx_info = L2CreateOrderTxInfo {
        account_index: 12345,
        api_key_index: 0,
        order_info: create_valid_order_info(),
        expired_at: 1000000,
        nonce: -1,
        signed_hash: None,
    };

    let result = tx_info.validate();
    assert!(result.is_err());
    assert!(matches!(result.unwrap_err(), LighterError::NonceTooLow(_)));
}

#[test]
fn test_create_order_tx_type() {
    let tx_info = L2CreateOrderTxInfo {
        account_index: 12345,
        api_key_index: 0,
        order_info: create_valid_order_info(),
        expired_at: 1000000,
        nonce: 1,
        signed_hash: None,
    };

    assert_eq!(tx_info.get_tx_type(), TX_TYPE_L2_CREATE_ORDER);
}

#[test]
fn test_cancel_order_validation_success() {
    let tx_info = L2CancelOrderTxInfo {
        account_index: 12345,
        api_key_index: 0,
        market_index: 0,
        index: 123456,
        expired_at: 1000000,
        nonce: 1,
        signed_hash: None,
    };

    assert!(tx_info.validate().is_ok());
    assert_eq!(tx_info.get_tx_type(), TX_TYPE_L2_CANCEL_ORDER);
}

#[test]
fn test_cancel_order_market_index_too_high() {
    let tx_info = L2CancelOrderTxInfo {
        account_index: 12345,
        api_key_index: 0,
        market_index: 255,
        index: 123456,
        expired_at: 1000000,
        nonce: 1,
        signed_hash: None,
    };

    let result = tx_info.validate();
    assert!(result.is_err());
    assert!(matches!(
        result.unwrap_err(),
        LighterError::MarketIndexTooHigh(_)
    ));
}

#[test]
fn test_modify_order_validation_success() {
    let tx_info = L2ModifyOrderTxInfo {
        account_index: 12345,
        api_key_index: 0,
        market_index: 0,
        index: 123456,
        base_amount: 2000000,
        price: 105000000,
        trigger_price: 0,
        expired_at: 1000000,
        nonce: 1,
        signed_hash: None,
    };

    assert!(tx_info.validate().is_ok());
    assert_eq!(tx_info.get_tx_type(), TX_TYPE_L2_MODIFY_ORDER);
}

#[test]
fn test_cancel_all_orders_validation_success() {
    let tx_info = L2CancelAllOrdersTxInfo {
        account_index: 12345,
        api_key_index: 0,
        time_in_force: CANCEL_ALL_IMMEDIATE,
        time: 1000000,
        expired_at: 1000000,
        nonce: 1,
        signed_hash: None,
    };

    assert!(tx_info.validate().is_ok());
    assert_eq!(tx_info.get_tx_type(), TX_TYPE_L2_CANCEL_ALL_ORDERS);
}

#[test]
fn test_create_grouped_orders_validation_success() {
    let tx_info = L2CreateGroupedOrdersTxInfo {
        account_index: 12345,
        api_key_index: 0,
        grouping_type: GROUPING_TYPE_ONE_CANCELS_THE_OTHER,
        orders: vec![create_valid_order_info(), create_valid_order_info()],
        expired_at: 1000000,
        nonce: 1,
        signed_hash: None,
    };

    assert!(tx_info.validate().is_ok());
    assert_eq!(tx_info.get_tx_type(), TX_TYPE_L2_CREATE_GROUPED_ORDERS);
}

#[test]
fn test_create_grouped_orders_too_many_orders() {
    let tx_info = L2CreateGroupedOrdersTxInfo {
        account_index: 12345,
        api_key_index: 0,
        grouping_type: GROUPING_TYPE_ONE_CANCELS_THE_OTHER,
        orders: vec![
            create_valid_order_info(),
            create_valid_order_info(),
            create_valid_order_info(),
            create_valid_order_info(),
        ],
        expired_at: 1000000,
        nonce: 1,
        signed_hash: None,
    };

    let result = tx_info.validate();
    assert!(result.is_err());
    assert!(matches!(
        result.unwrap_err(),
        LighterError::OrderGroupSizeInvalid
    ));
}

#[test]
fn test_get_tx_hash_roundtrip() {
    let mut tx_info = L2CreateOrderTxInfo {
        account_index: 12345,
        api_key_index: 0,
        order_info: create_valid_order_info(),
        expired_at: 1000000,
        nonce: 1,
        signed_hash: None,
    };
    assert!(tx_info.get_tx_hash().is_none());

    tx_info.signed_hash = Some("deadbeef".to_string());
    assert_eq!(tx_info.get_tx_hash().unwrap(), "deadbeef");
}
