//! Admission control for a metered service: signed requests from registered
//! agents, payment evidence checked against a ledger, and a byte quota per
//! client whose size follows from the deposit.
pub mod crypto;
pub mod error;
pub mod interceptor;
pub mod payment;
pub mod quota;
pub mod rfc9421;
pub mod signature_input;
pub mod table;
pub mod tap;
pub mod tap_client;
pub mod text;
pub mod types;
