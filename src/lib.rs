//! A threshold-crowdfunding escrow: participants pay a fixed price to reserve a
//! slot in an event; once the deadline passes the event either pays the
//! collected funds to its beneficiary or refunds every participant.

pub mod event;
pub mod registry;

pub use event::{
    EscrowError, Event, EventSpec, EventStatus, Outcome, Resolution, Transfer,
};
pub use registry::Contract;
