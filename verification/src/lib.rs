//! A recurring-subscription billing engine over an account-based ledger.
//!
//! Creators publish [`state::Plan`]s; subscribers enroll and are charged a
//! fixed price at a fixed interval; any third party may trigger a due charge
//! through a delegated authority without ever holding the subscriber's funds.
//!
//! The ledger itself (address derivation, signature checks, token transfers,
//! the clock) is an external collaborator. This crate models its records and
//! balances as plain values inside a [`registry::Registry`] and proves the
//! billing rules over that model: who may mutate what, when a charge is due,
//! and that no operation commits partial state.

pub mod clock;
pub mod errors;
pub mod events;
pub mod registry;
pub mod state;
