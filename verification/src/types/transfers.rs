//! Transfer and withdrawal transaction types.

use vstd::prelude::*;
use crate::constants::{
    TX_TYPE_L2_TRANSFER, TX_TYPE_L2_WITHDRAW, TX_TYPE_L2_CHANGE_PUB_KEY,
    TX_TYPE_L2_UPDATE_LEVERAGE, TX_TYPE_L2_UPDATE_MARGIN, TX_TYPE_L2_CREATE_SUB_ACCOUNT,
    MIN_ACCOUNT_INDEX, MAX_ACCOUNT_INDEX, MIN_TRANSFER_AMOUNT, MAX_TRANSFER_AMOUNT,
    MIN_WITHDRAWAL_AMOUNT, MAX_WITHDRAWAL_AMOUNT, PUBLIC_KEY_LENGTH, MAX_MARKET_INDEX,
    MARGIN_FRACTION_TICK, MARGIN_REMOVE_FROM_ISOLATED, MARGIN_ADD_TO_ISOLATED, MIN_NONCE,
};
use crate::errors::LighterError;
use crate::types::common::{TxInfo, clone_opt_string};

verus! {

/// Transfer transaction request.
#[derive(Debug, Clone)]
pub struct TransferTxReq {
    pub to_account_index: i64,
    pub usdc_amount: i64,
    pub fee: i64,
    pub memo: [u8; 32],
}

/// Withdraw transaction request.
#[derive(Debug, Clone)]
pub struct WithdrawTxReq {
    pub usdc_amount: u64,
}

/// Change public key transaction request.
#[derive(Debug, Clone)]
pub struct ChangePubKeyReq {
    pub pub_key: Vec<u8>,
}

/// Update leverage transaction request.
#[derive(Debug, Clone)]
pub struct UpdateLeverageTxReq {
    pub market_index: u8,
    pub initial_margin_fraction: u16,
    pub margin_mode: u8,
}

/// Update margin transaction request.
#[derive(Debug, Clone)]
pub struct UpdateMarginTxReq {
    pub market_index: u8,
    pub usdc_amount: i64,
    pub direction: u8,
}

/// L2 transfer transaction info.
#[derive(Debug, Clone)]
pub struct L2TransferTxInfo {
    pub from_account_index: i64,
    pub api_key_index: u8,
    pub to_account_index: i64,
    pub usdc_amount: i64,
    pub fee: i64,
    pub memo: [u8; 32],
    pub expired_at: i64,
    pub nonce: i64,
    pub signed_hash: Option<String>,
}

impl TxInfo for L2TransferTxInfo {
    open spec fn tx_type_spec(&self) -> u8 {
        TX_TYPE_L2_TRANSFER
    }

    open spec fn validate_spec(&self) -> Result<(), LighterError> {
        if self.from_account_index < MIN_ACCOUNT_INDEX || self.from_account_index
            > MAX_ACCOUNT_INDEX {
            Result::Err(LighterError::FromAccountIndexTooLow(self.from_account_index))
        } else if self.to_account_index < MIN_ACCOUNT_INDEX || self.to_account_index
            > MAX_ACCOUNT_INDEX {
            Result::Err(LighterError::ToAccountIndexTooLow(self.to_account_index))
        } else if self.usdc_amount < MIN_TRANSFER_AMOUNT || self.usdc_amount > MAX_TRANSFER_AMOUNT {
            Result::Err(LighterError::TransferAmountTooLow(self.usdc_amount))
        } else if self.fee < 0 {
            Result::Err(LighterError::TransferFeeNegative)
        } else if self.nonce < MIN_NONCE {
            Result::Err(LighterError::NonceTooLow(self.nonce))
        } else {
            Result::Ok(())
        }
    }

    open spec fn tx_hash_spec(&self) -> Option<String> {
        self.signed_hash
    }

    fn get_tx_type(&self) -> u8 {
        TX_TYPE_L2_TRANSFER
    }

    fn get_tx_hash(&self) -> Option<String> {
        clone_opt_string(&self.signed_hash)
    }

    fn validate(&self) -> Result<(), LighterError> {
        if self.from_account_index < MIN_ACCOUNT_INDEX || self.from_account_index
            > MAX_ACCOUNT_INDEX {
            return Err(LighterError::FromAccountIndexTooLow(self.from_account_index));
        }
        if self.to_account_index < MIN_ACCOUNT_INDEX || self.to_account_index > MAX_ACCOUNT_INDEX {
            return Err(LighterError::ToAccountIndexTooLow(self.to_account_index));
        }
        if self.usdc_amount < MIN_TRANSFER_AMOUNT || self.usdc_amount > MAX_TRANSFER_AMOUNT {
            return Err(LighterError::TransferAmountTooLow(self.usdc_amount));
        }
        if self.fee < 0 {
            return Err(LighterError::TransferFeeNegative);
        }
        if self.nonce < MIN_NONCE {
            return Err(LighterError::NonceTooLow(self.nonce));
        }
        Ok(())
    }
}

/// L2 withdraw transaction info.
#[derive(Debug, Clone)]
pub struct L2WithdrawTxInfo {
    pub from_account_index: i64,
    pub api_key_index: u8,
    pub usdc_amount: u64,
    pub expired_at: i64,
    pub nonce: i64,
    pub signed_hash: Option<String>,
}

impl TxInfo for L2WithdrawTxInfo {
    open spec fn tx_type_spec(&self) -> u8 {
        TX_TYPE_L2_WITHDRAW
    }

    open spec fn validate_spec(&self) -> Result<(), LighterError> {
        if self.from_account_index < MIN_ACCOUNT_INDEX || self.from_account_index
            > MAX_ACCOUNT_INDEX {
            Result::Err(LighterError::FromAccountIndexTooLow(self.from_account_index))
        } else if self.usdc_amount < MIN_WITHDRAWAL_AMOUNT || self.usdc_amount
            > MAX_WITHDRAWAL_AMOUNT {
            Result::Err(LighterError::WithdrawalAmountTooLow(self.usdc_amount))
        } else if self.nonce < MIN_NONCE {
            Result::Err(LighterError::NonceTooLow(self.nonce))
        } else {
            Result::Ok(())
        }
    }

    open spec fn tx_hash_spec(&self) -> Option<String> {
        self.signed_hash
    }

    fn get_tx_type(&self) -> u8 {
        TX_TYPE_L2_WITHDRAW
    }

    fn get_tx_hash(&self) -> Option<String> {
        clone_opt_string(&self.signed_hash)
    }

    fn validate(&self) -> Result<(), LighterError> {
        if self.from_account_index < MIN_ACCOUNT_INDEX || self.from_account_index
            > MAX_ACCOUNT_INDEX {
            return Err(LighterError::FromAccountIndexTooLow(self.from_account_index));
        }
        if self.usdc_amount < MIN_WITHDRAWAL_AMOUNT || self.usdc_amount > MAX_WITHDRAWAL_AMOUNT {
            return Err(LighterError::WithdrawalAmountTooLow(self.usdc_amount));
        }
        if self.nonce < MIN_NONCE {
            return Err(LighterError::NonceTooLow(self.nonce));
        }
        Ok(())
    }
}

/// L2 change public key transaction info.
#[derive(Debug, Clone)]
pub struct L2ChangePubKeyTxInfo {
    pub account_index: i64,
    pub api_key_index: u8,
    pub pub_key: Vec<u8>,
    pub expired_at: i64,
    pub nonce: i64,
    pub signed_hash: Option<String>,
}

impl TxInfo for L2ChangePubKeyTxInfo {
    open spec fn tx_type_spec(&self) -> u8 {
        TX_TYPE_L2_CHANGE_PUB_KEY
    }

    open spec fn validate_spec(&self) -> Result<(), LighterError> {
        if self.account_index < MIN_ACCOUNT_INDEX || self.account_index > MAX_ACCOUNT_INDEX {
            Result::Err(LighterError::AccountIndexTooLow(self.account_index))
        } else if self.pub_key@.len() != PUBLIC_KEY_LENGTH {
            Result::Err(LighterError::PubKeyInvalid)
        } else if self.nonce < MIN_NONCE {
            Result::Err(LighterError::NonceTooLow(self.nonce))
        } else {
            Result::Ok(())
        }
    }

    open spec fn tx_hash_spec(&self) -> Option<String> {
        self.signed_hash
    }

    fn get_tx_type(&self) -> u8 {
        TX_TYPE_L2_CHANGE_PUB_KEY
    }

    fn get_tx_hash(&self) -> Option<String> {
        clone_opt_string(&self.signed_hash)
    }

    fn validate(&self) -> Result<(), LighterError> {
        if self.account_index < MIN_ACCOUNT_INDEX || self.account_index > MAX_ACCOUNT_INDEX {
            return Err(LighterError::AccountIndexTooLow(self.account_index));
        }
        if self.pub_key.len() != PUBLIC_KEY_LENGTH {
            return Err(LighterError::PubKeyInvalid);
        }
        if self.nonce < MIN_NONCE {
            return Err(LighterError::NonceTooLow(self.nonce));
        }
        Ok(())
    }
}

/// L2 update leverage transaction info.
#[derive(Debug, Clone)]
pub struct L2UpdateLeverageTxInfo {
    pub account_index: i64,
    pub api_key_index: u8,
    pub market_index: u8,
    pub initial_margin_fraction: u16,
    pub margin_mode: u8,
    pub expired_at: i64,
    pub nonce: i64,
    pub signed_hash: Option<String>,
}

impl TxInfo for L2UpdateLeverageTxInfo {
    open spec fn tx_type_spec(&self) -> u8 {
        TX_TYPE_L2_UPDATE_LEVERAGE
    }

    open spec fn validate_spec(&self) -> Result<(), LighterError> {
        if self.account_index < MIN_ACCOUNT_INDEX || self.account_index > MAX_ACCOUNT_INDEX {
            Result::Err(LighterError::AccountIndexTooLow(self.account_index))
        } else if self.market_index > MAX_MARKET_INDEX {
            Result::Err(LighterError::MarketIndexTooHigh(self.market_index))
        } else if self.initial_margin_fraction > MARGIN_FRACTION_TICK {
            Result::Err(LighterError::InitialMarginFractionTooHigh(self.initial_margin_fraction))
        } else if self.nonce < MIN_NONCE {
            Result::Err(LighterError::NonceTooLow(self.nonce))
        } else {
            Result::Ok(())
        }
    }

    open spec fn tx_hash_spec(&self) -> Option<String> {
        self.signed_hash
    }

    fn get_tx_type(&self) -> u8 {
        TX_TYPE_L2_UPDATE_LEVERAGE
    }

    fn get_tx_hash(&self) -> Option<String> {
        clone_opt_string(&self.signed_hash)
    }

    fn validate(&self) -> Result<(), LighterError> {
        if self.account_index < MIN_ACCOUNT_INDEX || self.account_index > MAX_ACCOUNT_INDEX {
            return Err(LighterError::AccountIndexTooLow(self.account_index));
        }
        if self.market_index > MAX_MARKET_INDEX {
            return Err(LighterError::MarketIndexTooHigh(self.market_index));
        }
        if self.initial_margin_fraction as i64 > MARGIN_FRACTION_TICK {
            return Err(LighterError::InitialMarginFractionTooHigh(self.initial_margin_fraction));
        }
        if self.nonce < MIN_NONCE {
            return Err(LighterError::NonceTooLow(self.nonce));
        }
        Ok(())
    }
}

/// L2 update margin transaction info.
#[derive(Debug, Clone)]
pub struct L2UpdateMarginTxInfo {
    pub account_index: i64,
    pub api_key_index: u8,
    pub market_index: u8,
    pub usdc_amount: i64,
    pub direction: u8,
    pub expired_at: i64,
    pub nonce: i64,
    pub signed_hash: Option<String>,
}

impl TxInfo for L2UpdateMarginTxInfo {
    open spec fn tx_type_spec(&self) -> u8 {
        TX_TYPE_L2_UPDATE_MARGIN
    }

    open spec fn validate_spec(&self) -> Result<(), LighterError> {
        if self.account_index < MIN_ACCOUNT_INDEX || self.account_index > MAX_ACCOUNT_INDEX {
            Result::Err(LighterError::AccountIndexTooLow(self.account_index))
        } else if self.market_index > MAX_MARKET_INDEX {
            Result::Err(LighterError::MarketIndexTooHigh(self.market_index))
        } else if self.direction != MARGIN_REMOVE_FROM_ISOLATED && self.direction
            != MARGIN_ADD_TO_ISOLATED {
            Result::Err(LighterError::InvalidUpdateMarginDirection)
        } else if self.nonce < MIN_NONCE {
            Result::Err(LighterError::NonceTooLow(self.nonce))
        } else {
            Result::Ok(())
        }
    }

    open spec fn tx_hash_spec(&self) -> Option<String> {
        self.signed_hash
    }

    fn get_tx_type(&self) -> u8 {
        TX_TYPE_L2_UPDATE_MARGIN
    }

    fn get_tx_hash(&self) -> Option<String> {
        clone_opt_string(&self.signed_hash)
    }

    fn validate(&self) -> Result<(), LighterError> {
        if self.account_index < MIN_ACCOUNT_INDEX || self.account_index > MAX_ACCOUNT_INDEX {
            return Err(LighterError::AccountIndexTooLow(self.account_index));
        }
        if self.market_index > MAX_MARKET_INDEX {
            return Err(LighterError::MarketIndexTooHigh(self.market_index));
        }
        if self.direction != MARGIN_REMOVE_FROM_ISOLATED && self.direction != MARGIN_ADD_TO_ISOLATED
        {
            return Err(LighterError::InvalidUpdateMarginDirection);
        }
        if self.nonce < MIN_NONCE {
            return Err(LighterError::NonceTooLow(self.nonce));
        }
        Ok(())
    }
}

/// L2 create sub account transaction info.
#[derive(Debug, Clone)]
pub struct L2CreateSubAccountTxInfo {
    pub account_index: i64,
    pub api_key_index: u8,
    pub expired_at: i64,
    pub nonce: i64,
    pub signed_hash: Option<String>,
}

impl TxInfo for L2CreateSubAccountTxInfo {
    open spec fn tx_type_spec(&self) -> u8 {
        TX_TYPE_L2_CREATE_SUB_ACCOUNT
    }

    open spec fn validate_spec(&self) -> Result<(), LighterError> {
        if self.account_index < MIN_ACCOUNT_INDEX || self.account_index > MAX_ACCOUNT_INDEX {
            Result::Err(LighterError::AccountIndexTooLow(self.account_index))
        } else if self.nonce < MIN_NONCE {
            Result::Err(LighterError::NonceTooLow(self.nonce))
        } else {
            Result::Ok(())
        }
    }

    open spec fn tx_hash_spec(&self) -> Option<String> {
        self.signed_hash
    }

    fn get_tx_type(&self) -> u8 {
        TX_TYPE_L2_CREATE_SUB_ACCOUNT
    }

    fn get_tx_hash(&self) -> Option<String> {
        clone_opt_string(&self.signed_hash)
    }

    fn validate(&self) -> Result<(), LighterError> {
        if self.account_index < MIN_ACCOUNT_INDEX || self.account_index > MAX_ACCOUNT_INDEX {
            return Err(LighterError::AccountIndexTooLow(self.account_index));
        }
        if self.nonce < MIN_NONCE {
            return Err(LighterError::NonceTooLow(self.nonce));
        }
        Ok(())
    }
}

} // verus!
