//! Transaction types and request builders.

pub mod common;
pub mod orders;
pub mod pools;
pub mod transfers;
pub mod validation;

pub use common::{TransactOpts, TxInfo, OrderInfo, TxResponse};
pub use orders::{
    CreateOrderTxReq, CancelOrderTxReq, ModifyOrderTxReq, CancelAllOrdersTxReq,
    CreateGroupedOrdersTxReq, L2CreateOrderTxInfo, L2CancelOrderTxInfo, L2ModifyOrderTxInfo,
    L2CancelAllOrdersTxInfo, L2CreateGroupedOrdersTxInfo,
};
pub use pools::{
    CreatePublicPoolTxReq, UpdatePublicPoolTxReq, MintSharesTxReq, BurnSharesTxReq,
    L2CreatePublicPoolTxInfo, L2UpdatePublicPoolTxInfo, L2MintSharesTxInfo, L2BurnSharesTxInfo,
};
pub use transfers::{
    TransferTxReq, WithdrawTxReq, ChangePubKeyReq, UpdateLeverageTxReq, UpdateMarginTxReq,
    L2TransferTxInfo, L2WithdrawTxInfo, L2ChangePubKeyTxInfo, L2UpdateLeverageTxInfo,
    L2UpdateMarginTxInfo, L2CreateSubAccountTxInfo,
};
pub use validation::{validate_account_index, validate_api_key_index, validate_market_index};
