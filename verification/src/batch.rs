//! How a routing batch is checked before any routing and split among
//! workers: the width of a router's agent table, the shape checks a router
//! makes on its agents, states and requests, and the contiguous, in-order
//! chunks that workers route.
use vstd::prelude::*;
use crate::types::RouteError;

verus! {

/// The context a request of the wrong width is reported in.
pub const ROUTING_REQUEST_CONTEXT: &'static str = "routing request";

/// The context an agent of the wrong width is reported in.
pub const AGENT_VECTOR_CONTEXT: &'static str = "agent vector";

/// The width of a router's agent table: that of its first agent (0 for no
/// agents); the first agent of another width is refused.
pub open spec fn agent_table_width_outcome(widths: Seq<usize>) -> Result<usize, RouteError> {
    if widths.len() == 0 {
        Ok(0)
    } else {
        match first_width_mismatch(widths, widths[0]) {
            Some(actual) => Err(
                RouteError::DimensionMismatch { expected: widths[0], actual, context: AGENT_VECTOR_CONTEXT },
            ),
            None => Ok(widths[0]),
        }
    }
}

/// Checks that every agent vector has the first one's width, which is the
/// width of the agent table.
pub fn agent_table_width(widths: &Vec<usize>) -> (r: Result<usize, RouteError>)
    ensures
        r == agent_table_width_outcome(widths@),
{
    if widths.len() == 0 {
        return Ok(0);
    }
    let dimensions = widths[0];
    let mut i: usize = 0;
    assert(widths@.skip(0) =~= widths@);
    while i < widths.len()
        invariant
            widths@.len() > 0,
            dimensions == widths@[0],
            i <= widths@.len(),
            first_width_mismatch(widths@, dimensions) == first_width_mismatch(widths@.skip(i as int), dimensions),
        decreases widths@.len() - i,
    {
        assert(widths@.skip(i as int)[0] == widths@[i as int]);
        if widths[i] != dimensions {
            assert(first_width_mismatch(widths@.skip(i as int), dimensions) == Some(widths@[i as int]));
            return Err(
                RouteError::DimensionMismatch {
                    expected: dimensions,
                    actual: widths[i],
                    context: AGENT_VECTOR_CONTEXT,
                },
            );
        }
        assert(widths@.skip(i as int).drop_first() =~= widths@.skip(i + 1));
        i = i + 1;
    }
    assert(widths@.skip(i as int) =~= Seq::<usize>::empty());
    Ok(dimensions)
}

/// The first request width that differs from `expected`, if any.
pub open spec fn first_width_mismatch(widths: Seq<usize>, expected: usize) -> Option<usize>
    decreases widths.len(),
{
    if widths.len() == 0 {
        None
    } else if widths[0] != expected {
        Some(widths[0])
    } else {
        first_width_mismatch(widths.drop_first(), expected)
    }
}

/// What the shape checks of a batch give: no agents, then a state count
/// other than the agent count, then the first request whose vector width
/// is not the agents' are refused.
pub open spec fn batch_shape_outcome(
    agent_count: usize,
    dimensions: usize,
    state_count: usize,
    request_widths: Seq<usize>,
) -> Result<(), RouteError> {
    if agent_count == 0 {
        Err(RouteError::EmptyAgents)
    } else if agent_count != state_count {
        Err(RouteError::StateLengthMismatch { agents: agent_count, states: state_count })
    } else {
        match first_width_mismatch(request_widths, dimensions) {
            Some(actual) => Err(
                RouteError::DimensionMismatch { expected: dimensions, actual, context: ROUTING_REQUEST_CONTEXT },
            ),
            None => Ok(()),
        }
    }
}

/// Checks a batch's shape: `agent_count` agents of width `dimensions`,
/// `state_count` runtime states, and requests of the given vector widths.
pub fn validate_batch_shape(
    agent_count: usize,
    dimensions: usize,
    state_count: usize,
    request_widths: &Vec<usize>,
) -> (r: Result<(), RouteError>)
    ensures
        r == batch_shape_outcome(agent_count, dimensions, state_count, request_widths@),
{
    if agent_count == 0 {
        return Err(RouteError::EmptyAgents);
    }
    if agent_count != state_count {
        return Err(RouteError::StateLengthMismatch { agents: agent_count, states: state_count });
    }
    let mut i: usize = 0;
    assert(request_widths@.skip(0) =~= request_widths@);
    while i < request_widths.len()
        invariant
            agent_count != 0,
            agent_count == state_count,
            i <= request_widths@.len(),
            first_width_mismatch(request_widths@, dimensions) == first_width_mismatch(
                request_widths@.skip(i as int),
                dimensions,
            ),
        decreases request_widths@.len() - i,
    {
        assert(request_widths@.skip(i as int)[0] == request_widths@[i as int]);
        if request_widths[i] != dimensions {
            assert(first_width_mismatch(request_widths@.skip(i as int), dimensions) == Some(
                request_widths@[i as int],
            ));
            return Err(
                RouteError::DimensionMismatch {
                    expected: dimensions,
                    actual: request_widths[i],
                    context: ROUTING_REQUEST_CONTEXT,
                },
            );
        }
        assert(request_widths@.skip(i as int).drop_first() =~= request_widths@.skip(i + 1));
        i = i + 1;
    }
    assert(request_widths@.skip(i as int) =~= Seq::<usize>::empty());
    Ok(())
}

/// The workers a batch of `n` requests is routed by: at least one, at most
/// one per request.
pub open spec fn batch_worker_count(workers: nat, n: nat) -> nat {
    let w = if workers < 1 {
        1
    } else {
        workers
    };
    if w < n {
        w
    } else {
        n
    }
}

/// The requests each worker routes: `n` divided among the workers, rounded up.
pub open spec fn batch_chunk_size(workers: nat, n: nat) -> nat
    recommends
        n > 0,
{
    ((n - 1) / (batch_worker_count(workers, n) as int) + 1) as nat
}

/// Splits a batch of `request_count` requests among `workers` workers: the
/// chunks, as ranges of request positions, follow one another in order and
/// cover every request once; all but the last hold the chunk size.
pub fn batch_chunks(request_count: usize, workers: usize) -> (r: Vec<(usize, usize)>)
    ensures
        request_count == 0 ==> r@.len() == 0,
        request_count > 0 ==> ({
            let c = batch_chunk_size(workers as nat, request_count as nat);
            &&& r@.len() > 0
            &&& (r@.len() - 1) * c < request_count <= r@.len() * c
            &&& forall|i: int| 0 <= i < r@.len() ==> (#[trigger] r@[i]).0 == i * c && r@[i].1 == if (i + 1) * c
                < request_count {
                (i + 1) * c
            } else {
                request_count as int
            }
        }),
{
    let mut out: Vec<(usize, usize)> = Vec::new();
    if request_count == 0 {
        return out;
    }
    let w = if workers < 1 {
        1
    } else {
        workers
    };
    let worker_count = if w < request_count {
        w
    } else {
        request_count
    };
    let chunk = (request_count - 1) / worker_count + 1;
    let ghost c = batch_chunk_size(workers as nat, request_count as nat);
    assert(chunk == c);
    assert(chunk >= 1);
    let mut start: usize = 0;
    assert(out@.len() == 0);
    assert(0 * c == 0) by (nonlinear_arith);
    while start < request_count
        invariant
            chunk == c,
            c >= 1,
            request_count > 0,
            start <= request_count,
            start == out@.len() * c || (start == request_count && out@.len() > 0 && (out@.len() - 1) * c
                < request_count <= out@.len() * c),
            out@.len() > 0 ==> (out@.len() - 1) * c < request_count,
            forall|i: int| 0 <= i < out@.len() ==> (#[trigger] out@[i]).0 == i * c && out@[i].1 == if (i
                + 1) * c < request_count {
                (i + 1) * c
            } else {
                request_count as int
            },
        decreases request_count - start,
    {
        let k = out.len();
        assert(start == k * c) by {
            if !(start == k * c) {
                assert(start == request_count);
            }
        }
        assert((k + 1) * c == k * c + c) by (nonlinear_arith);
        let end = if request_count - start <= chunk {
            request_count
        } else {
            start + chunk
        };
        out.push((start, end));
        start = end;
    }
    out
}

} // verus!
