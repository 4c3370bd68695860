//! A heartbeat ("dead man's switch") monitor: services ping under a key, and
//! a key whose deadline passes without a new ping raises an alert that is
//! handed to every configured notifier.
use vstd::prelude::*;

pub mod alert;
pub mod registry;
pub mod laws;
pub mod json;
pub mod method;
pub mod notifier;
pub mod config;
pub mod dispatch;

verus! {

} // verus!
