//! Routing vocabulary shared with the routing backends: agent labels and the
//! errors a router reports.
use vstd::prelude::*;
use crate::text::{decimal, push_decimal, push_text};

verus! {

/// The vector width routers use when none is given.
pub const DEFAULT_DIM: usize = 16;

/// The capability labels of an agent profile.
#[derive(Clone, Debug, PartialEq, Eq)]
pub struct AgentLabels {
    pub model_profile: u16,
    pub tool_profile: u16,
    pub mcp_profile: u16,
    pub memory_profile: u16,
    pub cost_class: u8,
    pub latency_class: u8,
}

impl Default for AgentLabels {
    fn default() -> (r: Self)
        ensures
            r.model_profile == 0,
            r.tool_profile == 0,
            r.mcp_profile == 0,
            r.memory_profile == 0,
            r.cost_class == 0,
            r.latency_class == 0,
    {
        AgentLabels {
            model_profile: 0,
            tool_profile: 0,
            mcp_profile: 0,
            memory_profile: 0,
            cost_class: 0,
            latency_class: 0,
        }
    }
}

/// Why a router refused a batch.
#[derive(Clone, Debug, PartialEq, Eq)]
pub enum RouteError {
    EmptyAgents,
    BackendUnavailable { backend: &'static str, reason: &'static str },
    DimensionMismatch { expected: usize, actual: usize, context: &'static str },
    StateLengthMismatch { agents: usize, states: usize },
    BufferSizeOverflow { context: &'static str },
}

/// The message of a route error.
pub open spec fn route_error_text(e: RouteError) -> Seq<char> {
    match e {
        RouteError::EmptyAgents => "router has no agents"@,
        RouteError::BackendUnavailable { backend, reason } => backend@
            + " backend unavailable: "@ + reason@,
        RouteError::DimensionMismatch { expected, actual, context } => context@
            + " dimension mismatch: expected "@ + decimal(expected as nat) + ", got "@ + decimal(
            actual as nat,
        ),
        RouteError::StateLengthMismatch { agents, states } => "runtime state length mismatch: "@
            + decimal(agents as nat) + " agents, "@ + decimal(states as nat) + " states"@,
        RouteError::BufferSizeOverflow { context } => context@ + " buffer size overflow"@,
    }
}

impl RouteError {
    /// The error's message.
    pub fn to_string(&self) -> (r: String)
        ensures
            r@ == route_error_text(*self),
    {
        let mut out = String::new();
        match self {
            RouteError::EmptyAgents => {
                push_text(&mut out, "router has no agents");
            },
            RouteError::BackendUnavailable { backend, reason } => {
                push_text(&mut out, backend);
                push_text(&mut out, " backend unavailable: ");
                push_text(&mut out, reason);
            },
            RouteError::DimensionMismatch { expected, actual, context } => {
                push_text(&mut out, context);
                push_text(&mut out, " dimension mismatch: expected ");
                push_decimal(&mut out, *expected as u64);
                push_text(&mut out, ", got ");
                push_decimal(&mut out, *actual as u64);
            },
            RouteError::StateLengthMismatch { agents, states } => {
                push_text(&mut out, "runtime state length mismatch: ");
                push_decimal(&mut out, *agents as u64);
                push_text(&mut out, " agents, ");
                push_decimal(&mut out, *states as u64);
                push_text(&mut out, " states");
            },
            RouteError::BufferSizeOverflow { context } => {
                push_text(&mut out, context);
                push_text(&mut out, " buffer size overflow");
            },
        }
        assert(out@ =~= route_error_text(*self));
        out
    }
}

} // verus!
