//! A rental-agreement ledger with verified financial settlement.
//!
//! The crate models the lifecycle of rent agreements between a tenant and a
//! landlord (optionally mediated by a commissioned agent), recurring rent
//! payments with automatic commission splitting, and the storage addressing
//! that keeps agreements, payment records and counters mutually consistent.
//!
//! The execution substrate (persisted key-value storage, caller
//! authentication, token transfers and event notification) is deliberately
//! outside the core: the ledger state is held as a plain value, every
//! operation is a verified state transition on it, and a host shell performs
//! authentication and fund movement around those transitions.

pub mod contract;
pub mod payment;
pub mod registry;
pub mod search;
pub mod types;

pub use contract::Contract;
pub use payment::{calculate_payment_split, check_payment_terms, settle, RentalContract, Settlement};
pub use registry::{ContractState, PropertyError, PropertyRegistryContract};
pub use types::{AgreementStatus, DataKey, Error, PaymentRecord, Principal, RentAgreement};
