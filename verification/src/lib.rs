//! Adapter/frontend hotplug discovery core for a DVB tuner manager.
//!
//! The library is split into the pure device-path resolver, the frontend
//! enumerator, and the frontend manager's event-handling logic.  All
//! filesystem probing, channel plumbing and threading stays outside, in the
//! surrounding application, which hands the results of its probes to the
//! functions here as plain values.

pub mod enumerator;
pub mod manager;
pub mod ids;
pub mod messages;
pub mod paths;
