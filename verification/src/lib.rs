//! Escrow and arbitration engine for milestone-based freelance contracts.
//!
//! A client and a freelancer commit funds against a sequence of milestones.
//! Funds move to the freelancer as milestones are approved. A dispute is
//! resolved by an attested oracle, may be appealed through bounded
//! investigation rounds, and is settled exactly once.
//!
//! The library holds the rules. Every operation takes the ambient facts of
//! the call (caller, attached deposit, time) as values and returns what is to
//! be transferred; it performs no transfer itself.

pub mod amounts;
pub mod attestation;
pub mod dispute;
pub mod escrow;
pub mod laws;
pub mod links;
pub mod milestone;
pub mod model;
pub mod operations;
pub mod preservation;
pub mod queries;
pub mod reasons;
pub mod registry;
pub mod text;
pub mod types;

pub use registry::Contract;
pub use types::MilestoneInput;
