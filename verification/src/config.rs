//! Configuration of the machine.

use vstd::prelude::*;

verus! {

/// Whether the driver should log the opcodes being executed.
#[derive(Debug, Clone, Copy, PartialEq, Eq)]
pub enum Log {
    Enabled,
    Disabled,
}

impl Log {
    /// Returns whether logging is enabled.
    pub fn is_enabled(&self) -> (enabled: bool)
        ensures
            enabled == (*self is Enabled),
    {
        match self {
            Log::Enabled => true,
            Log::Disabled => false,
        }
    }
}

impl From<bool> for Log {
    fn from(val: bool) -> (log: Log) {
        if val {
            Log::Enabled
        } else {
            Log::Disabled
        }
    }
}

impl vstd::std_specs::convert::FromSpecImpl<bool> for Log {
    open spec fn obeys_from_spec() -> bool {
        true
    }

    open spec fn from_spec(val: bool) -> Log {
        if val {
            Log::Enabled
        } else {
            Log::Disabled
        }
    }
}

} // verus!
