//! A multi-pair publish-subscribe relay engine.
//!
//! Every relay unit bridges one publisher-facing endpoint and one
//! subscriber-facing endpoint. The engine in this crate is free of I/O: it
//! decides, from the state of a unit and the event that a driver observed on
//! the unit's sockets, what the next state is and what the driver has to do.
pub mod config;
pub mod frame;
pub mod label;
pub mod queue;
pub mod relay;
pub mod supervisor;
pub mod trace;
