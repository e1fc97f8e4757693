//! A railway signalling interlocking core: a directed network of track and
//! station blocks shared by trains that must never collide or pass a
//! restrictive signal.
//!
//! The crate models the block-graph reservation protocol, the
//! signal-ownership arbitration rule, the cascading aspect propagation, the
//! message protocol between the signaller and the train drivers, and the
//! train physics and braking control law. All physical quantities are held
//! in fixed-point integer units (millimetres, millimetres per second,
//! millinewtons), so every rule is stated and proved exactly.
//!
//! Terminal rendering, logging and the wall-clock tick loop are external
//! collaborators and live outside this crate.

pub mod bihashmap;
pub mod block;
pub mod conversion;
pub mod driver;
pub mod message;
pub mod network;
pub mod signal;
pub mod signaller;
pub mod simulation;
pub mod surface;
pub mod train;
