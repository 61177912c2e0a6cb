//! An event-driven reactor core: interest flags, readiness events, the
//! registration table, poll cycles, the transport address grammar, and the
//! connection table and decisions of the echo driver loop. The calls into the
//! native readiness facility and the sockets are made by the program around
//! this library, which hands the results in as plain values.
pub mod address;
pub mod cycle;
pub mod driver;
pub mod error;
pub mod event;
pub mod flag;
pub mod registry;
