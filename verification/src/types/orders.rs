//! Order-related transaction types.

use vstd::prelude::*;
use crate::constants::{
    TX_TYPE_L2_CREATE_ORDER, TX_TYPE_L2_CANCEL_ORDER, TX_TYPE_L2_MODIFY_ORDER,
    TX_TYPE_L2_CANCEL_ALL_ORDERS, TX_TYPE_L2_CREATE_GROUPED_ORDERS, MIN_ACCOUNT_INDEX,
    MAX_ACCOUNT_INDEX, MAX_API_KEY_INDEX, MAX_MARKET_INDEX, MIN_ORDER_PRICE, MIN_NONCE,
    MAX_GROUPED_ORDER_COUNT,
};
use crate::errors::LighterError;
use crate::types::common::{OrderInfo, TxInfo, clone_opt_string};

verus! {

/// Create order transaction request.
#[derive(Debug, Clone)]
pub struct CreateOrderTxReq {
    pub market_index: u8,
    pub client_order_index: i64,
    pub base_amount: i64,
    pub price: u32,
    pub is_ask: u8,
    pub order_type: u8,
    pub time_in_force: u8,
    pub reduce_only: u8,
    pub trigger_price: u32,
    pub order_expiry: i64,
}

/// Cancel order transaction request.
#[derive(Debug, Clone)]
pub struct CancelOrderTxReq {
    pub market_index: u8,
    pub index: i64,
}

/// Modify order transaction request.
#[derive(Debug, Clone)]
pub struct ModifyOrderTxReq {
    pub market_index: u8,
    pub index: i64,
    pub base_amount: i64,
    pub price: u32,
    pub trigger_price: u32,
}

/// Cancel all orders transaction request.
#[derive(Debug, Clone)]
pub struct CancelAllOrdersTxReq {
    pub time_in_force: u8,
    pub time: i64,
}

/// Create grouped orders transaction request.
#[derive(Debug, Clone)]
pub struct CreateGroupedOrdersTxReq {
    pub grouping_type: u8,
    pub orders: Vec<CreateOrderTxReq>,
}

/// L2 create order transaction info.
#[derive(Debug, Clone)]
pub struct L2CreateOrderTxInfo {
    pub account_index: i64,
    pub api_key_index: u8,
    pub order_info: OrderInfo,
    pub expired_at: i64,
    pub nonce: i64,
    pub signed_hash: Option<String>,
}

impl L2CreateOrderTxInfo {
    /// The exact outcome of the order-field checks.
    pub open spec fn order_info_spec(&self) -> Result<(), LighterError> {
        let order = self.order_info;
        if order.market_index > MAX_MARKET_INDEX {
            Result::Err(LighterError::MarketIndexTooHigh(order.market_index))
        } else if order.price < MIN_ORDER_PRICE {
            Result::Err(LighterError::PriceTooLow(order.price))
        } else if order.is_ask != 0 && order.is_ask != 1 {
            Result::Err(LighterError::IsAskInvalid)
        } else {
            Result::Ok(())
        }
    }

    /// Check the order fields: market index in range, price positive,
    /// the ask flag 0 or 1.
    pub fn validate_order_info(&self) -> (r: Result<(), LighterError>)
        ensures
            r == self.order_info_spec(),
    {
        let order = &self.order_info;
        if order.market_index > MAX_MARKET_INDEX {
            return Err(LighterError::MarketIndexTooHigh(order.market_index));
        }
        if order.price < MIN_ORDER_PRICE {
            return Err(LighterError::PriceTooLow(order.price));
        }
        if order.is_ask != 0 && order.is_ask != 1 {
            return Err(LighterError::IsAskInvalid);
        }
        Ok(())
    }
}

impl TxInfo for L2CreateOrderTxInfo {
    open spec fn tx_type_spec(&self) -> u8 {
        TX_TYPE_L2_CREATE_ORDER
    }

    open spec fn validate_spec(&self) -> Result<(), LighterError> {
        if self.account_index < MIN_ACCOUNT_INDEX {
            Result::Err(LighterError::AccountIndexTooLow(self.account_index))
        } else if self.account_index > MAX_ACCOUNT_INDEX {
            Result::Err(LighterError::AccountIndexTooHigh(self.account_index))
        } else if self.api_key_index > MAX_API_KEY_INDEX {
            Result::Err(LighterError::ApiKeyIndexTooHigh(self.api_key_index))
        } else if self.order_info_spec() is Err {
            self.order_info_spec()
        } else if self.nonce < MIN_NONCE {
            Result::Err(LighterError::NonceTooLow(self.nonce))
        } else {
            Result::Ok(())
        }
    }

    open spec fn tx_hash_spec(&self) -> Option<String> {
        self.signed_hash
    }

    fn get_tx_type(&self) -> u8 {
        TX_TYPE_L2_CREATE_ORDER
    }

    fn get_tx_hash(&self) -> Option<String> {
        clone_opt_string(&self.signed_hash)
    }

    fn validate(&self) -> Result<(), LighterError> {
        if self.account_index < MIN_ACCOUNT_INDEX {
            return Err(LighterError::AccountIndexTooLow(self.account_index));
        }
        if self.account_index > MAX_ACCOUNT_INDEX {
            return Err(LighterError::AccountIndexTooHigh(self.account_index));
        }
        if self.api_key_index > MAX_API_KEY_INDEX {
            return Err(LighterError::ApiKeyIndexTooHigh(self.api_key_index));
        }
        match self.validate_order_info() {
            Ok(()) => (),
            Err(e) => {
                return Err(e);
            },
        }
        if self.nonce < MIN_NONCE {
            return Err(LighterError::NonceTooLow(self.nonce));
        }
        Ok(())
    }
}

/// L2 cancel order transaction info.
#[derive(Debug, Clone)]
pub struct L2CancelOrderTxInfo {
    pub account_index: i64,
    pub api_key_index: u8,
    pub market_index: u8,
    pub index: i64,
    pub expired_at: i64,
    pub nonce: i64,
    pub signed_hash: Option<String>,
}

impl TxInfo for L2CancelOrderTxInfo {
    open spec fn tx_type_spec(&self) -> u8 {
        TX_TYPE_L2_CANCEL_ORDER
    }

    open spec fn validate_spec(&self) -> Result<(), LighterError> {
        if self.account_index < MIN_ACCOUNT_INDEX || self.account_index > MAX_ACCOUNT_INDEX {
            Result::Err(LighterError::AccountIndexTooLow(self.account_index))
        } else if self.market_index > MAX_MARKET_INDEX {
            Result::Err(LighterError::MarketIndexTooHigh(self.market_index))
        } else if self.nonce < MIN_NONCE {
            Result::Err(LighterError::NonceTooLow(self.nonce))
        } else {
            Result::Ok(())
        }
    }

    open spec fn tx_hash_spec(&self) -> Option<String> {
        self.signed_hash
    }

    fn get_tx_type(&self) -> u8 {
        TX_TYPE_L2_CANCEL_ORDER
    }

    fn get_tx_hash(&self) -> Option<String> {
        clone_opt_string(&self.signed_hash)
    }

    fn validate(&self) -> Result<(), LighterError> {
        if self.account_index < MIN_ACCOUNT_INDEX || self.account_index > MAX_ACCOUNT_INDEX {
            return Err(LighterError::AccountIndexTooLow(self.account_index));
        }
        if self.market_index > MAX_MARKET_INDEX {
            return Err(LighterError::MarketIndexTooHigh(self.market_index));
        }
        if self.nonce < MIN_NONCE {
            return Err(LighterError::NonceTooLow(self.nonce));
        }
        Ok(())
    }
}

/// L2 modify order transaction info.
#[derive(Debug, Clone)]
pub struct L2ModifyOrderTxInfo {
    pub account_index: i64,
    pub api_key_index: u8,
    pub market_index: u8,
    pub index: i64,
    pub base_amount: i64,
    pub price: u32,
    pub trigger_price: u32,
    pub expired_at: i64,
    pub nonce: i64,
    pub signed_hash: Option<String>,
}

impl TxInfo for L2ModifyOrderTxInfo {
    open spec fn tx_type_spec(&self) -> u8 {
        TX_TYPE_L2_MODIFY_ORDER
    }

    open spec fn validate_spec(&self) -> Result<(), LighterError> {
        if self.account_index < MIN_ACCOUNT_INDEX || self.account_index > MAX_ACCOUNT_INDEX {
            Result::Err(LighterError::AccountIndexTooLow(self.account_index))
        } else if self.nonce < MIN_NONCE {
            Result::Err(LighterError::NonceTooLow(self.nonce))
        } else {
            Result::Ok(())
        }
    }

    open spec fn tx_hash_spec(&self) -> Option<String> {
        self.signed_hash
    }

    fn get_tx_type(&self) -> u8 {
        TX_TYPE_L2_MODIFY_ORDER
    }

    fn get_tx_hash(&self) -> Option<String> {
        clone_opt_string(&self.signed_hash)
    }

    fn validate(&self) -> Result<(), LighterError> {
        if self.account_index < MIN_ACCOUNT_INDEX || self.account_index > MAX_ACCOUNT_INDEX {
            return Err(LighterError::AccountIndexTooLow(self.account_index));
        }
        if self.nonce < MIN_NONCE {
            return Err(LighterError::NonceTooLow(self.nonce));
        }
        Ok(())
    }
}

/// L2 cancel all orders transaction info.
#[derive(Debug, Clone)]
pub struct L2CancelAllOrdersTxInfo {
    pub account_index: i64,
    pub api_key_index: u8,
    pub time_in_force: u8,
    pub time: i64,
    pub expired_at: i64,
    pub nonce: i64,
    pub signed_hash: Option<String>,
}

impl TxInfo for L2CancelAllOrdersTxInfo {
    open spec fn tx_type_spec(&self) -> u8 {
        TX_TYPE_L2_CANCEL_ALL_ORDERS
    }

    open spec fn validate_spec(&self) -> Result<(), LighterError> {
        if self.account_index < MIN_ACCOUNT_INDEX || self.account_index > MAX_ACCOUNT_INDEX {
            Result::Err(LighterError::AccountIndexTooLow(self.account_index))
        } else if self.nonce < MIN_NONCE {
            Result::Err(LighterError::NonceTooLow(self.nonce))
        } else {
            Result::Ok(())
        }
    }

    open spec fn tx_hash_spec(&self) -> Option<String> {
        self.signed_hash
    }

    fn get_tx_type(&self) -> u8 {
        TX_TYPE_L2_CANCEL_ALL_ORDERS
    }

    fn get_tx_hash(&self) -> Option<String> {
        clone_opt_string(&self.signed_hash)
    }

    fn validate(&self) -> Result<(), LighterError> {
        if self.account_index < MIN_ACCOUNT_INDEX || self.account_index > MAX_ACCOUNT_INDEX {
            return Err(LighterError::AccountIndexTooLow(self.account_index));
        }
        if self.nonce < MIN_NONCE {
            return Err(LighterError::NonceTooLow(self.nonce));
        }
        Ok(())
    }
}

/// L2 create grouped orders transaction info.
#[derive(Debug, Clone)]
pub struct L2CreateGroupedOrdersTxInfo {
    pub account_index: i64,
    pub api_key_index: u8,
    pub grouping_type: u8,
    pub orders: Vec<OrderInfo>,
    pub expired_at: i64,
    pub nonce: i64,
    pub signed_hash: Option<String>,
}

impl TxInfo for L2CreateGroupedOrdersTxInfo {
    open spec fn tx_type_spec(&self) -> u8 {
        TX_TYPE_L2_CREATE_GROUPED_ORDERS
    }

    open spec fn validate_spec(&self) -> Result<(), LighterError> {
        if self.account_index < MIN_ACCOUNT_INDEX || self.account_index > MAX_ACCOUNT_INDEX {
            Result::Err(LighterError::AccountIndexTooLow(self.account_index))
        } else if self.orders@.len() > MAX_GROUPED_ORDER_COUNT {
            Result::Err(LighterError::OrderGroupSizeInvalid)
        } else if self.nonce < MIN_NONCE {
            Result::Err(LighterError::NonceTooLow(self.nonce))
        } else {
            Result::Ok(())
        }
    }

    open spec fn tx_hash_spec(&self) -> Option<String> {
        self.signed_hash
    }

    fn get_tx_type(&self) -> u8 {
        TX_TYPE_L2_CREATE_GROUPED_ORDERS
    }

    fn get_tx_hash(&self) -> Option<String> {
        clone_opt_string(&self.signed_hash)
    }

    fn validate(&self) -> Result<(), LighterError> {
        if self.account_index < MIN_ACCOUNT_INDEX || self.account_index > MAX_ACCOUNT_INDEX {
            return Err(LighterError::AccountIndexTooLow(self.account_index));
        }
        if self.orders.len() > MAX_GROUPED_ORDER_COUNT as usize {
            return Err(LighterError::OrderGroupSizeInvalid);
        }
        if self.nonce < MIN_NONCE {
            return Err(LighterError::NonceTooLow(self.nonce));
        }
        Ok(())
    }
}

} // verus!
