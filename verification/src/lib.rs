//! Persisted state of an escrow account for an atomic two-party token swap:
//! the record itself, its fixed 105-byte wire layout, and the failure kinds
//! that processing such a record can report.

pub mod error;
pub mod layout;
pub mod le;
pub mod state;
