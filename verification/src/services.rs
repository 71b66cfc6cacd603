//! Marketplace client data: the items on offer and the client's address. The
//! network calls themselves live in the host.

use vstd::prelude::*;

verus! {

/// One published chart on the marketplace.
#[derive(Clone, Debug, PartialEq, Eq)]
pub struct MarketplaceItem {
    pub id: String,
    pub title: String,
    pub author: String,
}

/// A marketplace endpoint.
#[derive(Clone, Debug)]
pub struct MarketplaceClient {
    pub endpoint: String,
}

impl MarketplaceClient {
    /// A client for the given endpoint.
    pub fn new(endpoint: &str) -> (c: MarketplaceClient)
        ensures
            c.endpoint@ == endpoint@,
    {
        MarketplaceClient { endpoint: endpoint.to_owned() }
    }
}

} // verus!
