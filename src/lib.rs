//! Device-side driver for a USB On-The-Go peripheral: endpoint allocation,
//! bring-up, interrupt decoding and single-packet transfers, all acting on a
//! model of the peripheral's register bit-fields.
//!
//! Policies:
//! - `read` takes one packet per call; a transfer of several packets takes
//!   several calls, in receive-queue order, on every OUT endpoint alike.
//! - `write` sends one packet per call and does not hold `buf` to the
//!   endpoint's max packet size: that is the protocol stack's part.
//! - `deconfigure` masks only the interrupt of the endpoint it acts on.
//! - Endpoints other than the control endpoint are configured the same way,
//!   with their size in bytes and their transfer type in the control register.
pub mod target;
pub mod types;
pub mod endpoint_memory;
pub mod endpoint;
pub mod bus;
