//! State engine of a terminal dashboard: sliding-window signals, rotating
//! buffers, cyclic selections and the aggregate state a renderer polls.

use vstd::prelude::*;

pub mod dashboard;
pub mod progress;
pub mod rotating;
pub mod selection;
pub mod signal;
pub mod source;

pub use dashboard::TUIApp;
pub use rotating::RotatingBuffer;
pub use selection::{StatefulList, TabsState};
pub use signal::{Signal, Signals};
pub use source::{PointSource, RandomSignal};

verus! {

/// A configuration that the dashboard refuses at construction.
#[derive(Debug, Clone, Copy, PartialEq, Eq, Structural)]
pub enum ConfigError {
    /// The set of tab titles is empty.
    EmptyTabs,
    /// A signal would evict more points per tick than it holds.
    TickRateExceedsCapacity,
}

} // verus!
