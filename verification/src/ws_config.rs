//! Configuration for the market-data stream client.
//!
//! The builder gathers the host, path and subscriptions; the network
//! client that consumes it lives outside the verified library.

use vstd::prelude::*;
use crate::errors::LighterError;

verus! {

/// Builder for the stream client's configuration.
#[derive(Debug)]
pub struct WsClientBuilder {
    /// The host to connect to; a default is chosen when absent.
    pub host: Option<String>,
    /// The stream path.
    pub path: String,
    /// Order book subscriptions, by market index.
    pub order_book_ids: Vec<u32>,
    /// Account subscriptions, by account index.
    pub account_ids: Vec<i64>,
}

impl WsClientBuilder {
    /// A builder with the default path and no subscriptions.
    pub fn new() -> (r: WsClientBuilder)
        ensures
            r.host is None,
            r.path@ == "/stream"@,
            r.order_book_ids@.len() == 0,
            r.account_ids@.len() == 0,
    {
        WsClientBuilder {
            host: None,
            path: "/stream".to_owned(),
            order_book_ids: Vec::new(),
            account_ids: Vec::new(),
        }
    }

    /// Set the host.
    pub fn host(self, host: &str) -> (r: WsClientBuilder)
        ensures
            r.host matches Option::Some(h) && h@ == host@,
            r.path == self.path,
            r.order_book_ids == self.order_book_ids,
            r.account_ids == self.account_ids,
    {
        WsClientBuilder {
            host: Some(host.to_owned()),
            path: self.path,
            order_book_ids: self.order_book_ids,
            account_ids: self.account_ids,
        }
    }

    /// Set the stream path.
    pub fn path(self, path: &str) -> (r: WsClientBuilder)
        ensures
            r.path@ == path@,
            r.host == self.host,
            r.order_book_ids == self.order_book_ids,
            r.account_ids == self.account_ids,
    {
        WsClientBuilder {
            host: self.host,
            path: path.to_owned(),
            order_book_ids: self.order_book_ids,
            account_ids: self.account_ids,
        }
    }

    /// Subscribe to order book updates for these markets.
    pub fn order_books(self, ids: Vec<u32>) -> (r: WsClientBuilder)
        ensures
            r.order_book_ids == ids,
            r.host == self.host,
            r.path == self.path,
            r.account_ids == self.account_ids,
    {
        WsClientBuilder {
            host: self.host,
            path: self.path,
            order_book_ids: ids,
            account_ids: self.account_ids,
        }
    }

    /// Subscribe to account updates for these accounts.
    pub fn accounts(self, ids: Vec<i64>) -> (r: WsClientBuilder)
        ensures
            r.account_ids == ids,
            r.host == self.host,
            r.path == self.path,
            r.order_book_ids == self.order_book_ids,
    {
        WsClientBuilder {
            host: self.host,
            path: self.path,
            order_book_ids: self.order_book_ids,
            account_ids: ids,
        }
    }

    /// The rule a configuration must satisfy before a client can be
    /// built from it: at least one subscription of either kind.
    pub fn validate_subscriptions(&self) -> (r: Result<(), LighterError>)
        ensures
            r is Ok <==> (self.order_book_ids@.len() > 0 || self.account_ids@.len() > 0),
            r matches Err(e) ==> e is ValidationError,
    {
        if self.order_book_ids.len() == 0 && self.account_ids.len() == 0 {
            return Err(
                LighterError::ValidationError(
                    "at least one order book or account subscription is required".to_owned(),
                ),
            );
        }
        Ok(())
    }
}

} // verus!
