//! A relay that watches an append-only table of message records and forwards
//! each newly inserted record, in order, to a webhook endpoint.
//!
//! The verified core covers the pure logic of the relay: rendering a record
//! into a notification payload, encoding and decoding the persisted cursor,
//! and the delivery-loop state machine that decides, from the current state
//! and the outcome of the last external step, what to do next.  The external
//! steps themselves (database queries, HTTP posts, file writes, sleeps) are
//! performed by a thin unverified driver around this crate.

pub mod cursor;
pub mod delivery;
pub mod numeral;
pub mod payload;
pub mod record;
