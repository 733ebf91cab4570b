//! The error type of the client side.
use vstd::prelude::*;

verus! {

/// Errors of the client side; each carries a description.
#[derive(Debug, Clone)]
pub enum X402Error {
    PaymentRequired(String),
    PaymentFailed(String),
    InsufficientBalance(String),
    Network(String),
    Solana(String),
    Serialization(String),
    Base64(String),
    InvalidConfig(String),
    Transaction(String),
}

} // verus!
