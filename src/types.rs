//! Plain records exchanged with payers and with the service registry.
use vstd::prelude::*;

verus! {

/// What a service asks a payer for.
#[derive(Debug, Clone)]
pub struct PaymentRequirements {
    pub scheme: String,
    pub network: String,
    pub asset: String,
    pub pay_to: String,
    pub amount: String,
    pub timeout: Option<u64>,
    pub resource: Option<String>,
    pub description: Option<String>,
    pub nonce: Option<String>,
}

/// What a payer sends as evidence of a payment.
#[derive(Debug, Clone)]
pub struct PaymentPayload {
    pub network: String,
    pub asset: String,
    pub from: String,
    pub to: String,
    pub amount: String,
    pub signature: String,
    pub timestamp: u64,
    pub nonce: String,
    pub memo: Option<String>,
}

#[derive(Debug, Clone)]
pub struct ServicePricing {
    pub amount: String,
    pub asset: String,
    pub network: String,
}

/// Where to discover services, and how long to wait for the registry.
#[derive(Debug, Clone)]
pub struct DiscoveryConfig {
    pub registry_url: String,
    /// Seconds.
    pub timeout: u64,
}

impl Default for DiscoveryConfig {
    fn default() -> (r: DiscoveryConfig)
        ensures
            r.registry_url@ == "https://registry.x402.network"@,
            r.timeout == 10,
    {
        DiscoveryConfig { registry_url: "https://registry.x402.network".to_owned(), timeout: 10 }
    }
}

} // verus!
