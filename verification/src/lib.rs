//! Debug-session proxy core: target discovery and selection, change
//! detection, restart orchestration, and the protocol-aware message
//! interceptor that runs inside the relay hot path.

use vstd::prelude::*;

pub mod catalog;
pub mod config;
pub mod discovery;
pub mod interceptor;
pub mod orchestrator;
pub mod styleguide;
pub mod text;

verus! {

/// The two independent logical debug sessions, proxied on separate
/// local ports with separate lifecycles.
#[derive(Clone, Copy, PartialEq, Eq, Structural, Debug)]
pub enum Category {
    Dynamics,
    Events,
}

} // verus!
