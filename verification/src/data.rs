//! Plain data types for the native signing boundary: request payloads,
//! signed transaction envelopes, and the exchange-facing enumerations.

use vstd::prelude::*;

verus! {

/// How grouped orders relate to each other.
#[derive(Debug, Clone)]
pub enum GroupingType {
    OneTriggersOther,
    OneCancelsOther,
    OneTriggersAndOneCancelsOther,
}

/// A signed transaction envelope: the payload sent to the exchange and
/// the optional message/signature pair behind it.
#[derive(Debug)]
pub struct TxInfo {
    pub data: Option<TxInfoData>,
    pub payload: String,
}

/// The message and signature of a signed transaction.
#[derive(Debug)]
pub struct TxInfoData {
    pub message: String,
    pub signature: String,
}

/// Request payload for changing the public key.
#[derive(Debug)]
pub struct ChangePubKeyData {
    pub new_pubk: String,
}

/// Request payload for creating an order.
#[derive(Debug)]
pub struct CreateOrderData {
    pub market_index: i32,
    pub client_order_index: i64,
    pub base_amount: i64,
    pub price: i32,
    pub is_ask: bool,
    pub order_type: u8,
    pub time_in_force: u8,
    pub reduce_only: bool,
    pub trigger_price: i32,
    pub order_expiry: i64,
}

/// Order lifetime policy.
#[derive(Debug, Clone, Copy, PartialEq, Eq, Structural)]
pub enum TimeInForce {
    Gtc,
    Ioc,
    Fok,
    Day,
}

/// Request payload for signing a group of orders.
#[derive(Debug)]
pub struct SignCreateGroupedOrdersData {
    pub grouping_type: GroupingType,
    pub orders: Vec<crate::types::orders::CreateOrderTxReq>,
}

/// Request payload for cancelling one order.
#[derive(Debug)]
pub struct SignCancelOrderData {
    pub market_index: i32,
    pub order_index: i64,
}

/// Request payload for a withdrawal.
#[derive(Debug)]
pub struct SignWithdrawData {
    pub usdc_amount: i64,
}

/// Request payload for cancelling all orders.
#[derive(Debug)]
pub struct SignCancelAllOrdersData {
    pub time_in_force: u8,
    pub time: i64,
}

/// Request payload for modifying an order.
#[derive(Debug)]
pub struct SignModifyOrderData {
    pub market_index: i32,
    pub order_index: i64,
    pub amount: i64,
    pub price: i64,
    pub trigger_price: i64,
}

/// Request payload for a transfer.
#[derive(Debug)]
pub struct SignTransferData {
    pub to_account_index: i64,
    pub usdc_amount: i64,
    pub fee: i64,
    pub memo: [u8; 32],
}

/// Request payload for creating a public pool.
#[derive(Debug)]
pub struct SignCreatePublicPoolData {
    pub operator_fee: i64,
    pub initial_total_shares: i64,
    pub min_operator_share_rate: i64,
}

/// Request payload for updating a public pool.
#[derive(Debug)]
pub struct SignUpdatePublicPoolData {
    pub public_pool_index: i64,
    pub status: i32,
    pub operator_fee: i64,
    pub min_operator_share_rate: i64,
}

/// Request payload for minting pool shares.
#[derive(Debug)]
pub struct SignMintSharesData {
    pub public_pool_index: i64,
    pub share_amount: i64,
}

/// Request payload for burning pool shares.
#[derive(Debug)]
pub struct SignBurnSharesData {
    pub public_pool_index: i64,
    pub share_amount: i64,
}

/// Request payload for updating leverage.
#[derive(Debug)]
pub struct SignUpdateLeverageData {
    pub market_index: i32,
    pub initial_margin_fraction: i32,
    pub margin_mode: i32,
}

/// Request payload for moving isolated margin.
#[derive(Debug)]
pub struct SignUpdateMarginData {
    pub market_index: i32,
    pub usdc_amount: i64,
    pub direction: i32,
}

/// The request data of each transaction kind.
#[derive(Debug)]
pub enum TxData {
    ChangePubKey(ChangePubKeyData),
    CreateOrder(CreateOrderData),
    SignCreateGroupedOrders(SignCreateGroupedOrdersData),
    SignCancelOrder(SignCancelOrderData),
    SignWithdraw(SignWithdrawData),
    SignCreateSubaccount,
    SignCancelAllOrders(SignCancelAllOrdersData),
    SignModifyOrder(SignModifyOrderData),
    SignTransfer(SignTransferData),
    SignCreatePublicPool(SignCreatePublicPoolData),
    SignUpdatePublicPool(SignUpdatePublicPoolData),
    SignMintShares(SignMintSharesData),
    SignBurnShares(SignBurnSharesData),
    SignUpdateLeverage(SignUpdateLeverageData),
    SignUpdateMargin(SignUpdateMarginData),
}

/// Order side.
#[derive(Debug, Clone, Copy, PartialEq, Eq, Structural)]
pub enum Side {
    Buy,
    Sell,
}

impl Side {
    /// The wire name of the side.
    pub fn as_str(&self) -> (r: &'static str)
        ensures
            self is Buy ==> r@ == "BUY"@,
            self is Sell ==> r@ == "SELL"@,
    {
        match self {
            Side::Buy => "BUY",
            Side::Sell => "SELL",
        }
    }
}

/// Order kind.
#[derive(Debug, Clone, Copy, PartialEq, Eq, Structural)]
pub enum OrderType {
    Market,
    Limit,
    StopLoss,
    TakeProfit,
}

impl OrderType {
    /// The wire name of the order kind.
    pub fn as_str(&self) -> (r: &'static str)
        ensures
            self is Market ==> r@ == "MARKET"@,
            self is Limit ==> r@ == "LIMIT"@,
            self is StopLoss ==> r@ == "STOP_LOSS"@,
            self is TakeProfit ==> r@ == "TAKE_PROFIT"@,
    {
        match self {
            OrderType::Market => "MARKET",
            OrderType::Limit => "LIMIT",
            OrderType::StopLoss => "STOP_LOSS",
            OrderType::TakeProfit => "TAKE_PROFIT",
        }
    }
}

/// Order lifecycle state.
#[derive(Debug, Clone, Copy, PartialEq, Eq, Structural)]
pub enum OrderStatus {
    Pending,
    Open,
    PartiallyFilled,
    Filled,
    Cancelled,
    Rejected,
}

impl OrderStatus {
    /// The wire name of the status.
    pub fn as_str(&self) -> (r: &'static str)
        ensures
            self is Pending ==> r@ == "PENDING"@,
            self is Open ==> r@ == "OPEN"@,
            self is PartiallyFilled ==> r@ == "PARTIALLY_FILLED"@,
            self is Filled ==> r@ == "FILLED"@,
            self is Cancelled ==> r@ == "CANCELLED"@,
            self is Rejected ==> r@ == "REJECTED"@,
    {
        match self {
            OrderStatus::Pending => "PENDING",
            OrderStatus::Open => "OPEN",
            OrderStatus::PartiallyFilled => "PARTIALLY_FILLED",
            OrderStatus::Filled => "FILLED",
            OrderStatus::Cancelled => "CANCELLED",
            OrderStatus::Rejected => "REJECTED",
        }
    }
}

} // verus!
