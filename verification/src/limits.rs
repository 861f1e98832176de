//! Resource limits and time spans.

use vstd::prelude::*;

use crate::error::{ClientError, ErrorView};
use crate::refusal;

verus! {

/// MCP revision preferred by this client.
pub const CURRENT_PROTOCOL_VERSION: &'static str = "2026-07-28";

/// Legacy revision used when a server does not implement discovery.
pub const LEGACY_PROTOCOL_VERSION: &'static str = "2025-11-25";

/// A span of time: whole seconds, and the nanoseconds of a further one.
#[derive(Debug, Clone, Copy, PartialEq, Eq, Structural)]
pub struct TimeSpan {
    /// Whole seconds.
    pub secs: u64,
    /// Nanoseconds beyond them.
    pub nanos: u32,
}

impl TimeSpan {
    /// Fewer than a second's worth of nanoseconds stand beside the seconds.
    pub open spec fn well_formed(self) -> bool {
        self.nanos < 1_000_000_000
    }

    /// The length in nanoseconds.
    pub open spec fn total(self) -> nat {
        (self.secs * 1_000_000_000 + self.nanos) as nat
    }

    /// Whole seconds.
    pub fn from_secs(secs: u64) -> (r: Self)
        ensures
            r.well_formed(),
            r.secs == secs,
            r.total() == secs * 1_000_000_000,
    {
        TimeSpan { secs, nanos: 0 }
    }

    /// Whether this span is shorter than the other.
    pub open spec fn shorter(self, other: Self) -> bool {
        self.secs < other.secs || self.secs == other.secs && self.nanos < other.nanos
    }

    /// The shorter of two spans.
    pub fn min(self, other: Self) -> (r: Self)
        ensures
            r == if other.shorter(self) {
                other
            } else {
                self
            },
    {
        if other.secs < self.secs || (other.secs == self.secs && other.nanos < self.nanos) {
            other
        } else {
            self
        }
    }
}

/// Resource limits enforced before data crosses a consumer boundary.
#[derive(Debug, Clone, Copy, PartialEq, Eq, Structural)]
pub struct Limits {
    /// Largest newline-delimited or SSE message.
    pub max_frame_bytes: usize,
    /// Largest number of tools accepted from one connection.
    pub max_tools: usize,
    /// Largest serialized tool descriptor.
    pub max_tool_descriptor_bytes: usize,
    /// Largest serialized call argument object.
    pub max_arguments_bytes: usize,
    /// Largest serialized call result.
    pub max_result_bytes: usize,
    /// Maximum number of list pages accepted.
    pub max_pages: usize,
    /// Time allowed for discovery and individual requests absent a tighter consumer deadline.
    pub request_timeout: TimeSpan,
}

/// The limits that hold where a consumer names none.
pub open spec fn default_limits() -> Limits {
    Limits {
        max_frame_bytes: 1_048_576,
        max_tools: 512,
        max_tool_descriptor_bytes: 65_536,
        max_arguments_bytes: 65_536,
        max_result_bytes: 262_144,
        max_pages: 128,
        request_timeout: TimeSpan { secs: 30, nanos: 0 },
    }
}

impl Default for Limits {
    fn default() -> (r: Self)
        ensures
            r == default_limits(),
    {
        Limits {
            max_frame_bytes: 1_048_576,
            max_tools: 512,
            max_tool_descriptor_bytes: 65_536,
            max_arguments_bytes: 65_536,
            max_result_bytes: 262_144,
            max_pages: 128,
            request_timeout: TimeSpan { secs: 30, nanos: 0 },
        }
    }
}

/// What a bound has against a size: nothing, or a refusal that names the bound.
pub open spec fn bound_refusal(name: Seq<char>, actual: nat, limit: nat) -> Option<ErrorView> {
    if actual > limit {
        Some(ErrorView::Bound { name, actual, limit })
    } else {
        None
    }
}

/// Checks one count or size against a named limit.
pub fn ensure_bound(name: &'static str, actual: usize, limit: usize) -> (r: Result<(), ClientError>)
    ensures
        refusal::checked(r, bound_refusal(name@, actual as nat, limit as nat)),
{
    if actual > limit {
        Err(ClientError::Bound { name, actual, limit })
    } else {
        Ok(())
    }
}

} // verus!
