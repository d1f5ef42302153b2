//! Pool-related transaction types.

use vstd::prelude::*;
use crate::constants::{
    TX_TYPE_L2_CREATE_PUBLIC_POOL, TX_TYPE_L2_UPDATE_PUBLIC_POOL, TX_TYPE_L2_MINT_SHARES,
    TX_TYPE_L2_BURN_SHARES, MIN_ACCOUNT_INDEX, MAX_ACCOUNT_INDEX, FEE_TICK,
    MIN_INITIAL_TOTAL_SHARES, MAX_INITIAL_TOTAL_SHARES, SHARE_TICK, MIN_NONCE,
    MIN_POOL_SHARES_TO_MINT_OR_BURN, MAX_POOL_SHARES_TO_MINT_OR_BURN,
};
use crate::errors::LighterError;
use crate::types::common::{TxInfo, clone_opt_string};

verus! {

/// Create public pool transaction request.
#[derive(Debug, Clone)]
pub struct CreatePublicPoolTxReq {
    pub operator_fee: i64,
    pub initial_total_shares: i64,
    pub min_operator_share_rate: i64,
}

/// Update public pool transaction request.
#[derive(Debug, Clone)]
pub struct UpdatePublicPoolTxReq {
    pub public_pool_index: i64,
    pub status: u8,
    pub operator_fee: i64,
    pub min_operator_share_rate: i64,
}

/// Mint shares transaction request.
#[derive(Debug, Clone)]
pub struct MintSharesTxReq {
    pub public_pool_index: i64,
    pub share_amount: i64,
}

/// Burn shares transaction request.
#[derive(Debug, Clone)]
pub struct BurnSharesTxReq {
    pub public_pool_index: i64,
    pub share_amount: i64,
}

/// L2 create public pool transaction info.
#[derive(Debug, Clone)]
pub struct L2CreatePublicPoolTxInfo {
    pub account_index: i64,
    pub api_key_index: u8,
    pub operator_fee: i64,
    pub initial_total_shares: i64,
    pub min_operator_share_rate: i64,
    pub expired_at: i64,
    pub nonce: i64,
    pub signed_hash: Option<String>,
}

impl TxInfo for L2CreatePublicPoolTxInfo {
    open spec fn tx_type_spec(&self) -> u8 {
        TX_TYPE_L2_CREATE_PUBLIC_POOL
    }

    open spec fn validate_spec(&self) -> Result<(), LighterError> {
        if self.account_index < MIN_ACCOUNT_INDEX || self.account_index > MAX_ACCOUNT_INDEX {
            Result::Err(LighterError::AccountIndexTooLow(self.account_index))
        } else if self.operator_fee <= 0 || self.operator_fee > FEE_TICK {
            Result::Err(LighterError::InvalidPoolOperatorFee)
        } else if self.initial_total_shares < MIN_INITIAL_TOTAL_SHARES {
            Result::Err(LighterError::PoolInitialTotalSharesTooLow(self.initial_total_shares))
        } else if self.initial_total_shares > MAX_INITIAL_TOTAL_SHARES {
            Result::Err(LighterError::PoolInitialTotalSharesTooHigh(self.initial_total_shares))
        } else if self.min_operator_share_rate <= 0 || self.min_operator_share_rate > SHARE_TICK {
            Result::Err(LighterError::PoolMinOperatorShareRateTooLow)
        } else if self.nonce < MIN_NONCE {
            Result::Err(LighterError::NonceTooLow(self.nonce))
        } else {
            Result::Ok(())
        }
    }

    open spec fn tx_hash_spec(&self) -> Option<String> {
        self.signed_hash
    }

    fn get_tx_type(&self) -> u8 {
        TX_TYPE_L2_CREATE_PUBLIC_POOL
    }

    fn get_tx_hash(&self) -> Option<String> {
        clone_opt_string(&self.signed_hash)
    }

    fn validate(&self) -> Result<(), LighterError> {
        if self.account_index < MIN_ACCOUNT_INDEX || self.account_index > MAX_ACCOUNT_INDEX {
            return Err(LighterError::AccountIndexTooLow(self.account_index));
        }
        if self.operator_fee <= 0 || self.operator_fee > FEE_TICK {
            return Err(LighterError::InvalidPoolOperatorFee);
        }
        if self.initial_total_shares < MIN_INITIAL_TOTAL_SHARES {
            return Err(LighterError::PoolInitialTotalSharesTooLow(self.initial_total_shares));
        }
        if self.initial_total_shares > MAX_INITIAL_TOTAL_SHARES {
            return Err(LighterError::PoolInitialTotalSharesTooHigh(self.initial_total_shares));
        }
        if self.min_operator_share_rate <= 0 || self.min_operator_share_rate > SHARE_TICK {
            return Err(LighterError::PoolMinOperatorShareRateTooLow);
        }
        if self.nonce < MIN_NONCE {
            return Err(LighterError::NonceTooLow(self.nonce));
        }
        Ok(())
    }
}

/// L2 update public pool transaction info.
#[derive(Debug, Clone)]
pub struct L2UpdatePublicPoolTxInfo {
    pub account_index: i64,
    pub api_key_index: u8,
    pub public_pool_index: i64,
    pub status: u8,
    pub operator_fee: i64,
    pub min_operator_share_rate: i64,
    pub expired_at: i64,
    pub nonce: i64,
    pub signed_hash: Option<String>,
}

impl TxInfo for L2UpdatePublicPoolTxInfo {
    open spec fn tx_type_spec(&self) -> u8 {
        TX_TYPE_L2_UPDATE_PUBLIC_POOL
    }

    open spec fn validate_spec(&self) -> Result<(), LighterError> {
        if self.account_index < MIN_ACCOUNT_INDEX || self.account_index > MAX_ACCOUNT_INDEX {
            Result::Err(LighterError::AccountIndexTooLow(self.account_index))
        } else if self.public_pool_index < MIN_ACCOUNT_INDEX || self.public_pool_index
            > MAX_ACCOUNT_INDEX {
            Result::Err(LighterError::PublicPoolIndexTooLow(self.public_pool_index))
        } else if self.status != 0 && self.status != 1 {
            Result::Err(LighterError::InvalidPoolStatus)
        } else if self.nonce < MIN_NONCE {
            Result::Err(LighterError::NonceTooLow(self.nonce))
        } else {
            Result::Ok(())
        }
    }

    open spec fn tx_hash_spec(&self) -> Option<String> {
        self.signed_hash
    }

    fn get_tx_type(&self) -> u8 {
        TX_TYPE_L2_UPDATE_PUBLIC_POOL
    }

    fn get_tx_hash(&self) -> Option<String> {
        clone_opt_string(&self.signed_hash)
    }

    fn validate(&self) -> Result<(), LighterError> {
        if self.account_index < MIN_ACCOUNT_INDEX || self.account_index > MAX_ACCOUNT_INDEX {
            return Err(LighterError::AccountIndexTooLow(self.account_index));
        }
        if self.public_pool_index < MIN_ACCOUNT_INDEX || self.public_pool_index > MAX_ACCOUNT_INDEX
        {
            return Err(LighterError::PublicPoolIndexTooLow(self.public_pool_index));
        }
        if self.status != 0 && self.status != 1 {
            return Err(LighterError::InvalidPoolStatus);
        }
        if self.nonce < MIN_NONCE {
            return Err(LighterError::NonceTooLow(self.nonce));
        }
        Ok(())
    }
}

/// L2 mint shares transaction info.
#[derive(Debug, Clone)]
pub struct L2MintSharesTxInfo {
    pub account_index: i64,
    pub api_key_index: u8,
    pub public_pool_index: i64,
    pub share_amount: i64,
    pub expired_at: i64,
    pub nonce: i64,
    pub signed_hash: Option<String>,
}

impl TxInfo for L2MintSharesTxInfo {
    open spec fn tx_type_spec(&self) -> u8 {
        TX_TYPE_L2_MINT_SHARES
    }

    open spec fn validate_spec(&self) -> Result<(), LighterError> {
        if self.account_index < MIN_ACCOUNT_INDEX || self.account_index > MAX_ACCOUNT_INDEX {
            Result::Err(LighterError::AccountIndexTooLow(self.account_index))
        } else if self.share_amount < MIN_POOL_SHARES_TO_MINT_OR_BURN {
            Result::Err(LighterError::PoolMintShareAmountTooLow(self.share_amount))
        } else if self.share_amount > MAX_POOL_SHARES_TO_MINT_OR_BURN {
            Result::Err(LighterError::PoolMintShareAmountTooHigh(self.share_amount))
        } else if self.nonce < MIN_NONCE {
            Result::Err(LighterError::NonceTooLow(self.nonce))
        } else {
            Result::Ok(())
        }
    }

    open spec fn tx_hash_spec(&self) -> Option<String> {
        self.signed_hash
    }

    fn get_tx_type(&self) -> u8 {
        TX_TYPE_L2_MINT_SHARES
    }

    fn get_tx_hash(&self) -> Option<String> {
        clone_opt_string(&self.signed_hash)
    }

    fn validate(&self) -> Result<(), LighterError> {
        if self.account_index < MIN_ACCOUNT_INDEX || self.account_index > MAX_ACCOUNT_INDEX {
            return Err(LighterError::AccountIndexTooLow(self.account_index));
        }
        if self.share_amount < MIN_POOL_SHARES_TO_MINT_OR_BURN {
            return Err(LighterError::PoolMintShareAmountTooLow(self.share_amount));
        }
        if self.share_amount > MAX_POOL_SHARES_TO_MINT_OR_BURN {
            return Err(LighterError::PoolMintShareAmountTooHigh(self.share_amount));
        }
        if self.nonce < MIN_NONCE {
            return Err(LighterError::NonceTooLow(self.nonce));
        }
        Ok(())
    }
}

/// L2 burn shares transaction info.
#[derive(Debug, Clone)]
pub struct L2BurnSharesTxInfo {
    pub account_index: i64,
    pub api_key_index: u8,
    pub public_pool_index: i64,
    pub share_amount: i64,
    pub expired_at: i64,
    pub nonce: i64,
    pub signed_hash: Option<String>,
}

impl TxInfo for L2BurnSharesTxInfo {
    open spec fn tx_type_spec(&self) -> u8 {
        TX_TYPE_L2_BURN_SHARES
    }

    open spec fn validate_spec(&self) -> Result<(), LighterError> {
        if self.account_index < MIN_ACCOUNT_INDEX || self.account_index > MAX_ACCOUNT_INDEX {
            Result::Err(LighterError::AccountIndexTooLow(self.account_index))
        } else if self.share_amount < MIN_POOL_SHARES_TO_MINT_OR_BURN {
            Result::Err(LighterError::PoolBurnShareAmountTooLow(self.share_amount))
        } else if self.share_amount > MAX_POOL_SHARES_TO_MINT_OR_BURN {
            Result::Err(LighterError::PoolBurnShareAmountTooHigh(self.share_amount))
        } else if self.nonce < MIN_NONCE {
            Result::Err(LighterError::NonceTooLow(self.nonce))
        } else {
            Result::Ok(())
        }
    }

    open spec fn tx_hash_spec(&self) -> Option<String> {
        self.signed_hash
    }

    fn get_tx_type(&self) -> u8 {
        TX_TYPE_L2_BURN_SHARES
    }

    fn get_tx_hash(&self) -> Option<String> {
        clone_opt_string(&self.signed_hash)
    }

    fn validate(&self) -> Result<(), LighterError> {
        if self.account_index < MIN_ACCOUNT_INDEX || self.account_index > MAX_ACCOUNT_INDEX {
            return Err(LighterError::AccountIndexTooLow(self.account_index));
        }
        if self.share_amount < MIN_POOL_SHARES_TO_MINT_OR_BURN {
            return Err(LighterError::PoolBurnShareAmountTooLow(self.share_amount));
        }
        if self.share_amount > MAX_POOL_SHARES_TO_MINT_OR_BURN {
            return Err(LighterError::PoolBurnShareAmountTooHigh(self.share_amount));
        }
        if self.nonce < MIN_NONCE {
            return Err(LighterError::NonceTooLow(self.nonce));
        }
        Ok(())
    }
}

} // verus!
