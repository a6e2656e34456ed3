//! Synchronous service calls between scheduled tasks.
//!
//! A scheduler runs many tasks, each of which declares up front which shared
//! resources it reads and which it writes.  This crate lets one task call a
//! registered handler task as a service and get a typed response back, while
//! keeping the scheduler's safety rule intact: the handler's full access
//! footprint is computed once at registration time, checked against every
//! caller's own footprint, and merged into it, so the scheduler always sees
//! the union of what caller and callee will touch.

pub mod callback;
pub mod context;
pub mod footprint;
pub mod registry;
pub mod system;
