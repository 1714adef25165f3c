//! Service lifecycle orchestration: a registry of services, their status
//! state machine, an assign-once cell and a typed event broadcaster.
//!
//! The library holds the decisions; the asynchronous driving of start and
//! stop routines, timeouts and channel sends is left to its caller.

pub mod status;
pub mod service_manager;
pub mod event;
pub mod setlock;
pub mod logging;
