//! Replay projections: Mermaid flowcharts derived from an event log (route
//! traces, task dependencies, artifact provenance, integration groups,
//! memory lineage and topology governance), and the replay report that
//! validates a log before projecting it.
use vstd::prelude::*;
use crate::text::{
    contains_str, decimal, has_prefix, has_substring, numbered_ref, push_text, ref_tail, ref_tail_text, str_eq,
};
use crate::loom::{InMemoryEventLog, LoomEvent, LoomEventError, LoomEventType};
use crate::replay::{ReplayValidationReport, replay_outcome};

verus! {

/// The first line of every projection.
pub open spec fn header() -> Seq<char> {
    "flowchart TD\n"@
}

/// A node line: the node's name followed by its quoted label.
pub open spec fn node_line(node: Seq<char>, label: Seq<char>) -> Seq<char> {
    "  "@ + node + "[\""@ + label + "\"]\n"@
}

/// An edge line from one node to another.
pub open spec fn edge_line(from: Seq<char>, to: Seq<char>) -> Seq<char> {
    "  "@ + from + " --> "@ + to + "\n"@
}

/// `prefix` followed by the decimal rendering of `n`.
pub open spec fn num(prefix: Seq<char>, n: u64) -> Seq<char> {
    prefix + decimal(n as nat)
}

/// The texts `f` gives for the items of `s`, one after another.
pub open spec fn concat_map<A>(s: Seq<A>, f: spec_fn(A) -> Seq<char>) -> Seq<char>
    decreases s.len(),
{
    if s.len() == 0 {
        Seq::empty()
    } else {
        concat_map(s.drop_last(), f) + f(s.last())
    }
}

/// The last event of `events` of kind `t` caused by the event with id `cause`.
pub open spec fn last_caused_by(events: Seq<LoomEvent>, t: LoomEventType, cause: u64) -> Option<
    LoomEvent,
>
    decreases events.len(),
{
    if events.len() == 0 {
        None
    } else if events.last().event_type == t && events.last().causation_id == Some(cause) {
        Some(events.last())
    } else {
        last_caused_by(events.drop_last(), t, cause)
    }
}

pub(crate) proof fn lemma_concat_map_step<A>(s: Seq<A>, i: int, f: spec_fn(A) -> Seq<char>)
    requires
        0 <= i < s.len(),
    ensures
        concat_map(s.take(i + 1), f) == concat_map(s.take(i), f) + f(s[i]),
{
    assert(s.take(i + 1).drop_last() =~= s.take(i));
}

/// Appends a node line for `node` labelled `label`.
fn push_node(out: &mut String, node: &str, label: &str)
    ensures
        final(out)@ == old(out)@ + node_line(node@, label@),
{
    let ghost start = out@;
    push_text(out, "  ");
    push_text(out, node);
    push_text(out, "[\"");
    push_text(out, label);
    push_text(out, "\"]\n");
    assert(out@ =~= start + node_line(node@, label@));
}

/// Appends an edge line from `from` to `to`.
fn push_edge(out: &mut String, from: &str, to: &str)
    ensures
        final(out)@ == old(out)@ + edge_line(from@, to@),
{
    let ghost start = out@;
    push_text(out, "  ");
    push_text(out, from);
    push_text(out, " --> ");
    push_text(out, to);
    push_text(out, "\n");
    assert(out@ =~= start + edge_line(from@, to@));
}

/// The position of the last event of kind `t` caused by the event with id `cause`.
fn find_last_caused_by(events: &Vec<LoomEvent>, t: LoomEventType, cause: u64) -> (r: Option<usize>)
    ensures
        match r {
            Some(k) => k < events@.len() && last_caused_by(events@, t, cause) == Some(
                events@[k as int],
            ),
            None => last_caused_by(events@, t, cause) is None,
        },
{
    let mut i: usize = events.len();
    assert(events@.take(i as int) =~= events@);
    while i > 0
        invariant
            i <= events@.len(),
            last_caused_by(events@, t, cause) == last_caused_by(events@.take(i as int), t, cause),
        decreases i,
    {
        let e = &events[i - 1];
        proof {
            assert(events@.take(i as int).drop_last() =~= events@.take(i - 1));
        }
        let caused = match e.causation_id {
            Some(c) => c == cause,
            None => false,
        };
        if e.event_type == t && caused {
            return Some(i - 1);
        }
        i = i - 1;
    }
    None
}

/// The lines a route decision contributes to the route trace: its task, the
/// decision, and the assignment it caused with the assigned agent.
pub open spec fn route_block(all: Seq<LoomEvent>, e: LoomEvent) -> Seq<char> {
    if e.event_type == LoomEventType::RouteDecisionRecorded && e.task_id is Some {
        let task = e.task_id->0;
        let task_node = num("task_"@, task);
        let route_node = num("route_"@, e.event_id);
        let head = node_line(task_node, num("Task "@, task)) + node_line(
            route_node,
            "RouteDecision "@ + ref_tail_text(e.payload_ref@),
        ) + edge_line(task_node, route_node);
        match last_caused_by(all, LoomEventType::TaskAssigned, e.event_id) {
            None => head,
            Some(a) => {
                let assignment_node = num("assignment_"@, a.event_id);
                let with_assignment = head + node_line(assignment_node, num("TaskAssigned "@, task))
                    + edge_line(route_node, assignment_node);
                match a.agent_id {
                    None => with_assignment,
                    Some(agent) => with_assignment + node_line(
                        num("agent_"@, agent),
                        num("Agent "@, agent),
                    ) + edge_line(assignment_node, num("agent_"@, agent)),
                }
            },
        }
    } else {
        Seq::empty()
    }
}

/// `route_block` over the events of `all`.
pub open spec fn route_blocks(all: Seq<LoomEvent>) -> spec_fn(LoomEvent) -> Seq<char> {
    |e: LoomEvent| route_block(all, e)
}

/// The route trace of a log: each route decision with its task, the
/// assignment it caused and the assigned agent.
pub open spec fn route_trace_text(events: Seq<LoomEvent>) -> Seq<char> {
    header() + concat_map(events, route_blocks(events))
}

/// Appends the node and edge for an agent reached from `from`.
fn push_agent(out: &mut String, from: &str, agent: u64)
    ensures
        final(out)@ == old(out)@ + node_line(num("agent_"@, agent), num("Agent "@, agent))
            + edge_line(from@, num("agent_"@, agent)),
{
    let ghost start = out@;
    let agent_node = numbered_ref("agent_", agent);
    let agent_label = numbered_ref("Agent ", agent);
    push_node(out, agent_node.as_str(), agent_label.as_str());
    push_edge(out, from, agent_node.as_str());
}

fn push_route_block(out: &mut String, events: &Vec<LoomEvent>, i: usize)
    requires
        i < events@.len(),
    ensures
        final(out)@ == old(out)@ + route_block(events@, events@[i as int]),
{
    let e = &events[i];
    if e.event_type != LoomEventType::RouteDecisionRecorded {
        assert(out@ =~= old(out)@ + route_block(events@, events@[i as int]));
        return ;
    }
    let task = match e.task_id {
        Some(t) => t,
        None => {
            assert(out@ =~= old(out)@ + route_block(events@, events@[i as int]));
            return ;
        },
    };
    let ghost start = out@;
    let task_node = numbered_ref("task_", task);
    let route_node = numbered_ref("route_", e.event_id);
    let task_label = numbered_ref("Task ", task);
    let decision = ref_tail(e.payload_ref.as_str());
    let mut route_label = String::new();
    push_text(&mut route_label, "RouteDecision ");
    push_text(&mut route_label, decision.as_str());
    push_node(out, task_node.as_str(), task_label.as_str());
    push_node(out, route_node.as_str(), route_label.as_str());
    push_edge(out, task_node.as_str(), route_node.as_str());
    let ghost head = out@;
    match find_last_caused_by(events, LoomEventType::TaskAssigned, e.event_id) {
        None => {},
        Some(k) => {
            let a = &events[k];
            let assignment_node = numbered_ref("assignment_", a.event_id);
            let assignment_label = numbered_ref("TaskAssigned ", task);
            push_node(out, assignment_node.as_str(), assignment_label.as_str());
            push_edge(out, route_node.as_str(), assignment_node.as_str());
            match a.agent_id {
                None => {},
                Some(agent) => {
                    push_agent(out, assignment_node.as_str(), agent);
                },
            }
        },
    }
    assert(out@ =~= start + route_block(events@, events@[i as int]));
}

/// The route trace of `log`: a flowchart that links each route decision to
/// its task, to the assignment it caused and to the assigned agent.
pub fn route_trace_projection(log: &InMemoryEventLog) -> (r: String)
    ensures
        r@ == route_trace_text(log@),
{
    let events = log.events();
    let mut out = String::new();
    push_text(&mut out, "flowchart TD\n");
    let n = events.len();
    let mut i: usize = 0;
    while i < n
        invariant
            n == events@.len(),
            i <= n,
            out@ == header() + concat_map(events@.take(i as int), route_blocks(events@)),
        decreases n - i,
    {
        push_route_block(&mut out, events, i);
        proof {
            lemma_concat_map_step(events@, i as int, route_blocks(events@));
        }
        assert(out@ =~= header() + concat_map(events@.take(i + 1), route_blocks(events@)));
        i = i + 1;
    }
    assert(events@.take(n as int) =~= events@);
    out
}

/// The lines an artifact declaration contributes to the provenance chart: its
/// task, the declaration, and the readiness it caused with the agent behind it.
pub open spec fn artifact_block(all: Seq<LoomEvent>, e: LoomEvent) -> Seq<char> {
    if e.event_type == LoomEventType::ArtifactDeclared && e.task_id is Some {
        let task = e.task_id->0;
        let task_node = num("task_"@, task);
        let declared_node = num("artifact_declared_"@, e.event_id);
        let head = node_line(task_node, num("Task "@, task)) + node_line(
            declared_node,
            "ArtifactDeclared "@ + ref_tail_text(e.payload_ref@),
        ) + edge_line(task_node, declared_node);
        match last_caused_by(all, LoomEventType::ArtifactReady, e.event_id) {
            None => head,
            Some(r) => {
                let ready_node = num("artifact_ready_"@, r.event_id);
                let with_ready = head + node_line(
                    ready_node,
                    "ArtifactReady "@ + ref_tail_text(r.payload_ref@),
                ) + edge_line(declared_node, ready_node);
                match r.agent_id {
                    None => with_ready,
                    Some(agent) => with_ready + node_line(
                        num("agent_"@, agent),
                        num("Agent "@, agent),
                    ) + edge_line(ready_node, num("agent_"@, agent)),
                }
            },
        }
    } else {
        Seq::empty()
    }
}

/// `artifact_block` over the events of `all`.
pub open spec fn artifact_blocks(all: Seq<LoomEvent>) -> spec_fn(LoomEvent) -> Seq<char> {
    |e: LoomEvent| artifact_block(all, e)
}

/// The artifact provenance of a log.
pub open spec fn artifact_provenance_text(events: Seq<LoomEvent>) -> Seq<char> {
    header() + concat_map(events, artifact_blocks(events))
}

fn push_artifact_block(out: &mut String, events: &Vec<LoomEvent>, i: usize)
    requires
        i < events@.len(),
    ensures
        final(out)@ == old(out)@ + artifact_block(events@, events@[i as int]),
{
    let e = &events[i];
    if e.event_type != LoomEventType::ArtifactDeclared {
        assert(out@ =~= old(out)@ + artifact_block(events@, events@[i as int]));
        return ;
    }
    let task = match e.task_id {
        Some(t) => t,
        None => {
            assert(out@ =~= old(out)@ + artifact_block(events@, events@[i as int]));
            return ;
        },
    };
    let ghost start = out@;
    let task_node = numbered_ref("task_", task);
    let declared_node = numbered_ref("artifact_declared_", e.event_id);
    let task_label = numbered_ref("Task ", task);
    let artifact = ref_tail(e.payload_ref.as_str());
    let mut declared_label = String::new();
    push_text(&mut declared_label, "ArtifactDeclared ");
    push_text(&mut declared_label, artifact.as_str());
    push_node(out, task_node.as_str(), task_label.as_str());
    push_node(out, declared_node.as_str(), declared_label.as_str());
    push_edge(out, task_node.as_str(), declared_node.as_str());
    match find_last_caused_by(events, LoomEventType::ArtifactReady, e.event_id) {
        None => {},
        Some(k) => {
            let r = &events[k];
            let ready_node = numbered_ref("artifact_ready_", r.event_id);
            let ready_artifact = ref_tail(r.payload_ref.as_str());
            let mut ready_label = String::new();
            push_text(&mut ready_label, "ArtifactReady ");
            push_text(&mut ready_label, ready_artifact.as_str());
            push_node(out, ready_node.as_str(), ready_label.as_str());
            push_edge(out, declared_node.as_str(), ready_node.as_str());
            match r.agent_id {
                None => {},
                Some(agent) => {
                    push_agent(out, ready_node.as_str(), agent);
                },
            }
        },
    }
    assert(out@ =~= start + artifact_block(events@, events@[i as int]));
}

/// The artifact provenance of `log`: a flowchart that links each artifact
/// declaration to its task, to the readiness it caused and to the agent
/// that made the artifact ready.
pub fn artifact_provenance_projection(log: &InMemoryEventLog) -> (r: String)
    ensures
        r@ == artifact_provenance_text(log@),
{
    let events = log.events();
    let mut out = String::new();
    push_text(&mut out, "flowchart TD\n");
    let n = events.len();
    let mut i: usize = 0;
    while i < n
        invariant
            n == events@.len(),
            i <= n,
            out@ == header() + concat_map(events@.take(i as int), artifact_blocks(events@)),
        decreases n - i,
    {
        push_artifact_block(&mut out, events, i);
        proof {
            lemma_concat_map_step(events@, i as int, artifact_blocks(events@));
        }
        assert(out@ =~= header() + concat_map(events@.take(i + 1), artifact_blocks(events@)));
        i = i + 1;
    }
    assert(events@.take(n as int) =~= events@);
    out
}

/// How a decommission names its agent: the agent's id, or `unknown`.
pub open spec fn agent_label_text(agent_id: Option<u64>) -> Seq<char> {
    match agent_id {
        Some(a) => decimal(a as nat),
        None => "unknown"@,
    }
}

/// The lines an agent decommission contributes to the memory lineage: its
/// task, the decommission, and the memory node it caused.
pub open spec fn memory_block(all: Seq<LoomEvent>, e: LoomEvent) -> Seq<char> {
    if e.event_type == LoomEventType::AgentDecommissioned && e.task_id is Some {
        let task = e.task_id->0;
        let task_node = num("task_"@, task);
        let decommission_node = num("decommission_"@, e.event_id);
        let head = node_line(task_node, num("Task "@, task)) + node_line(
            decommission_node,
            "Decommission "@ + agent_label_text(e.agent_id),
        ) + edge_line(task_node, decommission_node);
        match last_caused_by(all, LoomEventType::MemoryNodeCreated, e.event_id) {
            None => head,
            Some(m) => head + node_line(
                num("memory_"@, m.event_id),
                "MemoryNode "@ + ref_tail_text(m.payload_ref@),
            ) + edge_line(decommission_node, num("memory_"@, m.event_id)),
        }
    } else {
        Seq::empty()
    }
}

/// `memory_block` over the events of `all`.
pub open spec fn memory_blocks(all: Seq<LoomEvent>) -> spec_fn(LoomEvent) -> Seq<char> {
    |e: LoomEvent| memory_block(all, e)
}

/// The memory lineage of a log.
pub open spec fn memory_lineage_text(events: Seq<LoomEvent>) -> Seq<char> {
    header() + concat_map(events, memory_blocks(events))
}

fn push_memory_block(out: &mut String, events: &Vec<LoomEvent>, i: usize)
    requires
        i < events@.len(),
    ensures
        final(out)@ == old(out)@ + memory_block(events@, events@[i as int]),
{
    let e = &events[i];
    if e.event_type != LoomEventType::AgentDecommissioned {
        assert(out@ =~= old(out)@ + memory_block(events@, events@[i as int]));
        return ;
    }
    let task = match e.task_id {
        Some(t) => t,
        None => {
            assert(out@ =~= old(out)@ + memory_block(events@, events@[i as int]));
            return ;
        },
    };
    let ghost start = out@;
    let task_node = numbered_ref("task_", task);
    let decommission_node = numbered_ref("decommission_", e.event_id);
    let task_label = numbered_ref("Task ", task);
    let decommission_label = match e.agent_id {
        Some(agent) => numbered_ref("Decommission ", agent),
        None => {
            let mut label = String::new();
            push_text(&mut label, "Decommission ");
            push_text(&mut label, "unknown");
            label
        },
    };
    push_node(out, task_node.as_str(), task_label.as_str());
    push_node(out, decommission_node.as_str(), decommission_label.as_str());
    push_edge(out, task_node.as_str(), decommission_node.as_str());
    match find_last_caused_by(events, LoomEventType::MemoryNodeCreated, e.event_id) {
        None => {},
        Some(k) => {
            let m = &events[k];
            let memory_node = numbered_ref("memory_", m.event_id);
            let memory = ref_tail(m.payload_ref.as_str());
            let mut memory_label = String::new();
            push_text(&mut memory_label, "MemoryNode ");
            push_text(&mut memory_label, memory.as_str());
            push_node(out, memory_node.as_str(), memory_label.as_str());
            push_edge(out, decommission_node.as_str(), memory_node.as_str());
        },
    }
    assert(out@ =~= start + memory_block(events@, events@[i as int]));
}

/// The memory lineage of `log`: a flowchart that links each agent
/// decommission to its task and to the memory node it caused.
pub fn memory_lineage_projection(log: &InMemoryEventLog) -> (r: String)
    ensures
        r@ == memory_lineage_text(log@),
{
    let events = log.events();
    let mut out = String::new();
    push_text(&mut out, "flowchart TD\n");
    let n = events.len();
    let mut i: usize = 0;
    while i < n
        invariant
            n == events@.len(),
            i <= n,
            out@ == header() + concat_map(events@.take(i as int), memory_blocks(events@)),
        decreases n - i,
    {
        push_memory_block(&mut out, events, i);
        proof {
            lemma_concat_map_step(events@, i as int, memory_blocks(events@));
        }
        assert(out@ =~= header() + concat_map(events@.take(i + 1), memory_blocks(events@)));
        i = i + 1;
    }
    assert(events@.take(n as int) =~= events@);
    out
}

/// The event kinds the topology governance chart shows.
pub open spec fn is_topology_kind(t: LoomEventType) -> bool {
    ||| t == LoomEventType::TopologyProposed
    ||| t == LoomEventType::TopologyShadowed
    ||| t == LoomEventType::TopologyCanaried
    ||| t == LoomEventType::TopologyCommitted
    ||| t == LoomEventType::TopologyRolledBack
}

/// The node name of a topology event.
pub open spec fn topology_node(e: LoomEvent) -> Seq<char> {
    match e.event_type {
        LoomEventType::TopologyProposed => num("topology_proposed_"@, e.event_id),
        LoomEventType::TopologyShadowed => num("topology_shadowed_"@, e.event_id),
        LoomEventType::TopologyCanaried => num("topology_canaried_"@, e.event_id),
        LoomEventType::TopologyCommitted => num("topology_committed_"@, e.event_id),
        LoomEventType::TopologyRolledBack => num("topology_rolled_back_"@, e.event_id),
        _ => num("topology_event_"@, e.event_id),
    }
}

/// How a topology event names its snapshot: the snapshot's id, or `unknown`.
pub open spec fn snapshot_label_text(snapshot_id: Option<u64>) -> Seq<char> {
    match snapshot_id {
        Some(s) => decimal(s as nat),
        None => "unknown"@,
    }
}

/// The label of a topology event: proposals, shadow runs and canaries name
/// their reference's last segment, commits and rollbacks their snapshot.
pub open spec fn topology_label(e: LoomEvent) -> Seq<char> {
    match e.event_type {
        LoomEventType::TopologyProposed => "TopologyProposed "@ + ref_tail_text(e.payload_ref@),
        LoomEventType::TopologyShadowed => "TopologyShadowed "@ + ref_tail_text(e.payload_ref@),
        LoomEventType::TopologyCanaried => "TopologyCanaried "@ + ref_tail_text(e.payload_ref@),
        LoomEventType::TopologyCommitted => "TopologyCommitted "@ + snapshot_label_text(
            e.topology_snapshot_id,
        ),
        LoomEventType::TopologyRolledBack => "TopologyRolledBack "@ + snapshot_label_text(
            e.topology_snapshot_id,
        ),
        _ => num("TopologyEvent "@, e.event_id),
    }
}

/// The last topology event of `events` with id `id`.
pub open spec fn last_topology_with_id(events: Seq<LoomEvent>, id: u64) -> Option<LoomEvent>
    decreases events.len(),
{
    if events.len() == 0 {
        None
    } else if is_topology_kind(events.last().event_type) && events.last().event_id == id {
        Some(events.last())
    } else {
        last_topology_with_id(events.drop_last(), id)
    }
}

/// The lines a topology event contributes to the governance chart: its node
/// and, when its cause is a topology event of the log, the edge from it.
pub open spec fn topology_block(all: Seq<LoomEvent>, e: LoomEvent) -> Seq<char> {
    if is_topology_kind(e.event_type) {
        let cause_edge = match e.causation_id {
            Some(c) => match last_topology_with_id(all, c) {
                Some(cause) => edge_line(topology_node(cause), topology_node(e)),
                None => Seq::empty(),
            },
            None => Seq::empty(),
        };
        node_line(topology_node(e), topology_label(e)) + cause_edge
    } else {
        Seq::empty()
    }
}

/// `topology_block` over the events of `all`.
pub open spec fn topology_blocks(all: Seq<LoomEvent>) -> spec_fn(LoomEvent) -> Seq<char> {
    |e: LoomEvent| topology_block(all, e)
}

/// The topology governance chart of a log.
pub open spec fn topology_governance_text(events: Seq<LoomEvent>) -> Seq<char> {
    header() + concat_map(events, topology_blocks(events))
}

fn is_topology_kind_exec(t: LoomEventType) -> (r: bool)
    ensures
        r == is_topology_kind(t),
{
    match t {
        LoomEventType::TopologyProposed => true,
        LoomEventType::TopologyShadowed => true,
        LoomEventType::TopologyCanaried => true,
        LoomEventType::TopologyCommitted => true,
        LoomEventType::TopologyRolledBack => true,
        _ => false,
    }
}

fn topology_node_exec(e: &LoomEvent) -> (r: String)
    ensures
        r@ == topology_node(*e),
{
    match e.event_type {
        LoomEventType::TopologyProposed => numbered_ref("topology_proposed_", e.event_id),
        LoomEventType::TopologyShadowed => numbered_ref("topology_shadowed_", e.event_id),
        LoomEventType::TopologyCanaried => numbered_ref("topology_canaried_", e.event_id),
        LoomEventType::TopologyCommitted => numbered_ref("topology_committed_", e.event_id),
        LoomEventType::TopologyRolledBack => numbered_ref("topology_rolled_back_", e.event_id),
        _ => numbered_ref("topology_event_", e.event_id),
    }
}

fn labelled_tail(prefix: &str, payload_ref: &str) -> (r: String)
    ensures
        r@ == prefix@ + ref_tail_text(payload_ref@),
{
    let tail = ref_tail(payload_ref);
    let mut out = String::new();
    push_text(&mut out, prefix);
    push_text(&mut out, tail.as_str());
    out
}

fn labelled_snapshot(prefix: &str, snapshot_id: Option<u64>) -> (r: String)
    ensures
        r@ == prefix@ + snapshot_label_text(snapshot_id),
{
    match snapshot_id {
        Some(s) => numbered_ref(prefix, s),
        None => {
            let mut out = String::new();
            push_text(&mut out, prefix);
            push_text(&mut out, "unknown");
            out
        },
    }
}

fn topology_label_exec(e: &LoomEvent) -> (r: String)
    ensures
        r@ == topology_label(*e),
{
    match e.event_type {
        LoomEventType::TopologyProposed => labelled_tail("TopologyProposed ", e.payload_ref.as_str()),
        LoomEventType::TopologyShadowed => labelled_tail("TopologyShadowed ", e.payload_ref.as_str()),
        LoomEventType::TopologyCanaried => labelled_tail("TopologyCanaried ", e.payload_ref.as_str()),
        LoomEventType::TopologyCommitted => labelled_snapshot(
            "TopologyCommitted ",
            e.topology_snapshot_id,
        ),
        LoomEventType::TopologyRolledBack => labelled_snapshot(
            "TopologyRolledBack ",
            e.topology_snapshot_id,
        ),
        _ => numbered_ref("TopologyEvent ", e.event_id),
    }
}

/// The position of the last topology event with id `id`.
fn find_last_topology_with_id(events: &Vec<LoomEvent>, id: u64) -> (r: Option<usize>)
    ensures
        match r {
            Some(k) => k < events@.len() && last_topology_with_id(events@, id) == Some(
                events@[k as int],
            ),
            None => last_topology_with_id(events@, id) is None,
        },
{
    let mut i: usize = events.len();
    assert(events@.take(i as int) =~= events@);
    while i > 0
        invariant
            i <= events@.len(),
            last_topology_with_id(events@, id) == last_topology_with_id(events@.take(i as int), id),
        decreases i,
    {
        let e = &events[i - 1];
        proof {
            assert(events@.take(i as int).drop_last() =~= events@.take(i - 1));
        }
        if is_topology_kind_exec(e.event_type) && e.event_id == id {
            return Some(i - 1);
        }
        i = i - 1;
    }
    None
}

fn push_topology_block(out: &mut String, events: &Vec<LoomEvent>, i: usize)
    requires
        i < events@.len(),
    ensures
        final(out)@ == old(out)@ + topology_block(events@, events@[i as int]),
{
    let e = &events[i];
    if !is_topology_kind_exec(e.event_type) {
        assert(out@ =~= old(out)@ + topology_block(events@, events@[i as int]));
        return ;
    }
    let ghost start = out@;
    let node = topology_node_exec(e);
    let label = topology_label_exec(e);
    push_node(out, node.as_str(), label.as_str());
    match e.causation_id {
        None => {},
        Some(c) => match find_last_topology_with_id(events, c) {
            None => {},
            Some(k) => {
                let cause_node = topology_node_exec(&events[k]);
                push_edge(out, cause_node.as_str(), node.as_str());
            },
        },
    }
    assert(out@ =~= start + topology_block(events@, events@[i as int]));
}

/// The topology governance chart of `log`: a flowchart of the proposals,
/// shadow runs, canaries, commits and rollbacks, each linked to the
/// topology event that caused it.
pub fn topology_governance_projection(log: &InMemoryEventLog) -> (r: String)
    ensures
        r@ == topology_governance_text(log@),
{
    let events = log.events();
    let mut out = String::new();
    push_text(&mut out, "flowchart TD\n");
    let n = events.len();
    let mut i: usize = 0;
    while i < n
        invariant
            n == events@.len(),
            i <= n,
            out@ == header() + concat_map(events@.take(i as int), topology_blocks(events@)),
        decreases n - i,
    {
        push_topology_block(&mut out, events, i);
        proof {
            lemma_concat_map_step(events@, i as int, topology_blocks(events@));
        }
        assert(out@ =~= header() + concat_map(events@.take(i + 1), topology_blocks(events@)));
        i = i + 1;
    }
    assert(events@.take(n as int) =~= events@);
    out
}

/// The ids of the tasks created under `parent`, in log order.
pub open spec fn children_of(events: Seq<LoomEvent>, parent: u64) -> Seq<u64>
    decreases events.len(),
{
    if events.len() == 0 {
        Seq::empty()
    } else {
        let prev = children_of(events.drop_last(), parent);
        let e = events.last();
        if e.event_type == LoomEventType::TaskCreated && e.task_id is Some && e.parent_task_id
            == Some(parent) {
            prev.push(e.task_id->0)
        } else {
            prev
        }
    }
}

/// The tasks named by integration requests, each once, in the order of their
/// first request.
pub open spec fn integration_parents(events: Seq<LoomEvent>) -> Seq<u64>
    decreases events.len(),
{
    if events.len() == 0 {
        Seq::empty()
    } else {
        let prev = integration_parents(events.drop_last());
        let e = events.last();
        if e.event_type == LoomEventType::IntegrationRequested && e.task_id is Some
            && !prev.contains(e.task_id->0) {
            prev.push(e.task_id->0)
        } else {
            prev
        }
    }
}

/// The lines a created task contributes to the dependency chart: its node
/// and the edge from its parent.
pub open spec fn task_block(e: LoomEvent) -> Seq<char> {
    if e.event_type == LoomEventType::TaskCreated && e.task_id is Some {
        let task = e.task_id->0;
        let parent_edge = match e.parent_task_id {
            Some(p) => edge_line(num("task_"@, p), num("task_"@, task)),
            None => Seq::empty(),
        };
        node_line(num("task_"@, task), num("Task "@, task)) + parent_edge
    } else {
        Seq::empty()
    }
}

/// `task_block` as a function.
pub open spec fn task_blocks() -> spec_fn(LoomEvent) -> Seq<char> {
    |e: LoomEvent| task_block(e)
}

/// The edge from a child task to `target`.
pub open spec fn child_edges(target: Seq<char>) -> spec_fn(u64) -> Seq<char> {
    |c: u64| edge_line(num("task_"@, c), target)
}

/// The lines an integrated parent contributes to the dependency chart: its
/// integration node and an edge into it from each child task.
pub open spec fn integration_block(all: Seq<LoomEvent>, parent: u64) -> Seq<char> {
    let node = num("integration_"@, parent);
    node_line(node, num("Integration "@, parent)) + concat_map(
        children_of(all, parent),
        child_edges(node),
    )
}

/// `integration_block` over the parents of `all`.
pub open spec fn integration_blocks(all: Seq<LoomEvent>) -> spec_fn(u64) -> Seq<char> {
    |p: u64| integration_block(all, p)
}

/// The task dependency chart of a log: the created tasks with their parent
/// edges, then each integrated parent with the edges from its children.
pub open spec fn task_dependency_text(events: Seq<LoomEvent>) -> Seq<char> {
    header() + concat_map(events, task_blocks()) + concat_map(
        integration_parents(events),
        integration_blocks(events),
    )
}

/// The ids of the tasks created under `parent`, in log order.
fn children_exec(events: &Vec<LoomEvent>, parent: u64) -> (r: Vec<u64>)
    ensures
        r@ == children_of(events@, parent),
{
    let n = events.len();
    let mut out: Vec<u64> = Vec::new();
    let mut i: usize = 0;
    while i < n
        invariant
            n == events@.len(),
            i <= n,
            out@ == children_of(events@.take(i as int), parent),
        decreases n - i,
    {
        let e = &events[i];
        proof {
            assert(events@.take(i + 1).drop_last() =~= events@.take(i as int));
        }
        if e.event_type == LoomEventType::TaskCreated {
            match (e.task_id, e.parent_task_id) {
                (Some(t), Some(p)) => {
                    if p == parent {
                        out.push(t);
                    }
                },
                _ => {},
            }
        }
        i = i + 1;
    }
    assert(events@.take(n as int) =~= events@);
    out
}

fn contains_id(ids: &Vec<u64>, id: u64) -> (r: bool)
    ensures
        r == ids@.contains(id),
{
    let n = ids.len();
    let mut i: usize = 0;
    while i < n
        invariant
            n == ids@.len(),
            i <= n,
            forall|j: int| 0 <= j < i ==> ids@[j] != id,
        decreases n - i,
    {
        if ids[i] == id {
            return true;
        }
        i = i + 1;
    }
    false
}

fn integration_parents_exec(events: &Vec<LoomEvent>) -> (r: Vec<u64>)
    ensures
        r@ == integration_parents(events@),
{
    let n = events.len();
    let mut out: Vec<u64> = Vec::new();
    let mut i: usize = 0;
    while i < n
        invariant
            n == events@.len(),
            i <= n,
            out@ == integration_parents(events@.take(i as int)),
        decreases n - i,
    {
        let e = &events[i];
        proof {
            assert(events@.take(i + 1).drop_last() =~= events@.take(i as int));
        }
        if e.event_type == LoomEventType::IntegrationRequested {
            match e.task_id {
                Some(t) => {
                    if !contains_id(&out, t) {
                        out.push(t);
                    }
                },
                None => {},
            }
        }
        i = i + 1;
    }
    assert(events@.take(n as int) =~= events@);
    out
}

fn push_task_block(out: &mut String, e: &LoomEvent)
    ensures
        final(out)@ == old(out)@ + task_block(*e),
{
    if e.event_type != LoomEventType::TaskCreated {
        assert(out@ =~= old(out)@ + task_block(*e));
        return ;
    }
    let task = match e.task_id {
        Some(t) => t,
        None => {
            assert(out@ =~= old(out)@ + task_block(*e));
            return ;
        },
    };
    let ghost start = out@;
    let task_node = numbered_ref("task_", task);
    let task_label = numbered_ref("Task ", task);
    push_node(out, task_node.as_str(), task_label.as_str());
    match e.parent_task_id {
        Some(p) => {
            let parent_node = numbered_ref("task_", p);
            push_edge(out, parent_node.as_str(), task_node.as_str());
        },
        None => {},
    }
    assert(out@ =~= start + task_block(*e));
}

fn push_integration_block(out: &mut String, events: &Vec<LoomEvent>, parent: u64)
    ensures
        final(out)@ == old(out)@ + integration_block(events@, parent),
{
    let ghost start = out@;
    let node = numbered_ref("integration_", parent);
    let label = numbered_ref("Integration ", parent);
    push_node(out, node.as_str(), label.as_str());
    let ghost after_node = out@;
    let children = children_exec(events, parent);
    let m = children.len();
    let mut j: usize = 0;
    while j < m
        invariant
            m == children@.len(),
            j <= m,
            out@ == after_node + concat_map(children@.take(j as int), child_edges(node@)),
        decreases m - j,
    {
        let child_node = numbered_ref("task_", children[j]);
        push_edge(out, child_node.as_str(), node.as_str());
        proof {
            lemma_concat_map_step(children@, j as int, child_edges(node@));
        }
        assert(out@ =~= after_node + concat_map(children@.take(j + 1), child_edges(node@)));
        j = j + 1;
    }
    assert(children@.take(m as int) =~= children@);
    assert(out@ =~= start + integration_block(events@, parent));
}

/// The task dependency chart of `log`: each created task with the edge from
/// its parent, then each task that asked for integration with an edge from
/// each of its children.
pub fn task_dependency_projection(log: &InMemoryEventLog) -> (r: String)
    ensures
        r@ == task_dependency_text(log@),
{
    let events = log.events();
    let mut out = String::new();
    push_text(&mut out, "flowchart TD\n");
    let n = events.len();
    let mut i: usize = 0;
    while i < n
        invariant
            n == events@.len(),
            i <= n,
            out@ == header() + concat_map(events@.take(i as int), task_blocks()),
        decreases n - i,
    {
        push_task_block(&mut out, &events[i]);
        proof {
            lemma_concat_map_step(events@, i as int, task_blocks());
        }
        assert(out@ =~= header() + concat_map(events@.take(i + 1), task_blocks()));
        i = i + 1;
    }
    assert(events@.take(n as int) =~= events@);
    let ghost tasks = out@;
    let parents = integration_parents_exec(events);
    let m = parents.len();
    let mut j: usize = 0;
    while j < m
        invariant
            m == parents@.len(),
            j <= m,
            out@ == tasks + concat_map(parents@.take(j as int), integration_blocks(events@)),
        decreases m - j,
    {
        push_integration_block(&mut out, events, parents[j]);
        proof {
            lemma_concat_map_step(parents@, j as int, integration_blocks(events@));
        }
        assert(out@ =~= tasks + concat_map(parents@.take(j + 1), integration_blocks(events@)));
        j = j + 1;
    }
    assert(parents@.take(m as int) =~= parents@);
    out
}

/// An integration request that names an integration group.
pub open spec fn is_group_request(e: LoomEvent) -> bool {
    e.event_type == LoomEventType::IntegrationRequested && has_substring(
        e.payload_ref@,
        "/integration/group/"@,
    )
}

/// An integration request that names an integration report.
pub open spec fn is_report_request(e: LoomEvent) -> bool {
    e.event_type == LoomEventType::IntegrationRequested && has_substring(
        e.payload_ref@,
        "/integration/report/"@,
    )
}

/// The last report request of `events` whose reference ends in `group`.
pub open spec fn last_report_for(events: Seq<LoomEvent>, group: Seq<char>) -> Option<LoomEvent>
    decreases events.len(),
{
    if events.len() == 0 {
        None
    } else if is_report_request(events.last()) && ref_tail_text(events.last().payload_ref@)
        == group {
        Some(events.last())
    } else {
        last_report_for(events.drop_last(), group)
    }
}

/// The node of a child task and its edge into the group node `group_node`.
pub open spec fn group_child_lines(group_node: Seq<char>) -> spec_fn(u64) -> Seq<char> {
    |c: u64| node_line(num("task_"@, c), num("Task "@, c)) + edge_line(num("task_"@, c), group_node)
}

/// The report node of a group, its edge from the group, and the agent behind it.
pub open spec fn report_lines(group_node: Seq<char>, group: Seq<char>, report: Option<LoomEvent>) -> Seq<
    char,
> {
    match report {
        None => Seq::empty(),
        Some(r) => {
            let report_node = num("integration_report_"@, r.event_id);
            let agent = match r.agent_id {
                None => Seq::empty(),
                Some(a) => node_line(num("agent_"@, a), num("Agent "@, a)) + edge_line(
                    report_node,
                    num("agent_"@, a),
                ),
            };
            node_line(report_node, "IntegrationReport "@ + group) + edge_line(
                group_node,
                report_node,
            ) + agent
        },
    }
}

/// The lines an integration group request contributes to the group chart: the
/// parent task, the group, each child task, and the group's report with the
/// agent behind it.
pub open spec fn group_block(all: Seq<LoomEvent>, e: LoomEvent) -> Seq<char> {
    if is_group_request(e) && e.task_id is Some {
        let parent = e.task_id->0;
        let group = ref_tail_text(e.payload_ref@);
        let parent_node = num("task_"@, parent);
        let group_node = num("integration_group_"@, e.event_id);
        node_line(parent_node, num("Task "@, parent)) + node_line(
            group_node,
            "IntegrationGroup "@ + group,
        ) + edge_line(parent_node, group_node) + concat_map(
            children_of(all, parent),
            group_child_lines(group_node),
        ) + report_lines(group_node, group, last_report_for(all, group))
    } else {
        Seq::empty()
    }
}

/// `group_block` over the events of `all`.
pub open spec fn group_blocks(all: Seq<LoomEvent>) -> spec_fn(LoomEvent) -> Seq<char> {
    |e: LoomEvent| group_block(all, e)
}

/// The integration group chart of a log.
pub open spec fn integration_group_text(events: Seq<LoomEvent>) -> Seq<char> {
    header() + concat_map(events, group_blocks(events))
}

/// The position of the last report request whose reference ends in `group`.
fn find_last_report_for(events: &Vec<LoomEvent>, group: &str) -> (r: Option<usize>)
    ensures
        match r {
            Some(k) => k < events@.len() && last_report_for(events@, group@) == Some(
                events@[k as int],
            ),
            None => last_report_for(events@, group@) is None,
        },
{
    let mut i: usize = events.len();
    assert(events@.take(i as int) =~= events@);
    while i > 0
        invariant
            i <= events@.len(),
            last_report_for(events@, group@) == last_report_for(events@.take(i as int), group@),
        decreases i,
    {
        let e = &events[i - 1];
        proof {
            assert(events@.take(i as int).drop_last() =~= events@.take(i - 1));
        }
        if e.event_type == LoomEventType::IntegrationRequested && contains_str(
            e.payload_ref.as_str(),
            "/integration/report/",
        ) {
            let tail = ref_tail(e.payload_ref.as_str());
            if str_eq(tail.as_str(), group) {
                return Some(i - 1);
            }
        }
        i = i - 1;
    }
    None
}

#[verifier::rlimit(40)]
fn push_group_block(out: &mut String, events: &Vec<LoomEvent>, i: usize)
    requires
        i < events@.len(),
    ensures
        final(out)@ == old(out)@ + group_block(events@, events@[i as int]),
{
    let e = &events[i];
    if e.event_type != LoomEventType::IntegrationRequested || !contains_str(
        e.payload_ref.as_str(),
        "/integration/group/",
    ) {
        assert(out@ =~= old(out)@ + group_block(events@, events@[i as int]));
        return ;
    }
    let parent = match e.task_id {
        Some(t) => t,
        None => {
            assert(out@ =~= old(out)@ + group_block(events@, events@[i as int]));
            return ;
        },
    };
    let ghost start = out@;
    let group = ref_tail(e.payload_ref.as_str());
    let parent_node = numbered_ref("task_", parent);
    let parent_label = numbered_ref("Task ", parent);
    let group_node = numbered_ref("integration_group_", e.event_id);
    let mut group_label = String::new();
    push_text(&mut group_label, "IntegrationGroup ");
    push_text(&mut group_label, group.as_str());
    push_node(out, parent_node.as_str(), parent_label.as_str());
    push_node(out, group_node.as_str(), group_label.as_str());
    push_edge(out, parent_node.as_str(), group_node.as_str());
    let ghost head = out@;
    let children = children_exec(events, parent);
    let m = children.len();
    let mut j: usize = 0;
    while j < m
        invariant
            m == children@.len(),
            j <= m,
            out@ == head + concat_map(children@.take(j as int), group_child_lines(group_node@)),
        decreases m - j,
    {
        let child_node = numbered_ref("task_", children[j]);
        let child_label = numbered_ref("Task ", children[j]);
        push_node(out, child_node.as_str(), child_label.as_str());
        push_edge(out, child_node.as_str(), group_node.as_str());
        proof {
            lemma_concat_map_step(children@, j as int, group_child_lines(group_node@));
        }
        assert(out@ =~= head + concat_map(children@.take(j + 1), group_child_lines(group_node@)));
        j = j + 1;
    }
    assert(children@.take(m as int) =~= children@);
    let ghost with_children = out@;
    match find_last_report_for(events, group.as_str()) {
        None => {},
        Some(k) => {
            let r = &events[k];
            let report_node = numbered_ref("integration_report_", r.event_id);
            let mut report_label = String::new();
            push_text(&mut report_label, "IntegrationReport ");
            push_text(&mut report_label, group.as_str());
            push_node(out, report_node.as_str(), report_label.as_str());
            push_edge(out, group_node.as_str(), report_node.as_str());
            match r.agent_id {
                None => {},
                Some(agent) => {
                    push_agent(out, report_node.as_str(), agent);
                },
            }
        },
    }
    assert(out@ =~= with_children + report_lines(
        group_node@,
        group@,
        last_report_for(events@, group@),
    ));
    assert(out@ =~= start + group_block(events@, events@[i as int]));
}

/// The integration group chart of `log`: for each integration group request,
/// the parent task, the group, each child task of the parent, and the
/// group's report with the agent that wrote it.
pub fn integration_group_projection(log: &InMemoryEventLog) -> (r: String)
    ensures
        r@ == integration_group_text(log@),
{
    let events = log.events();
    let mut out = String::new();
    push_text(&mut out, "flowchart TD\n");
    let n = events.len();
    let mut i: usize = 0;
    while i < n
        invariant
            n == events@.len(),
            i <= n,
            out@ == header() + concat_map(events@.take(i as int), group_blocks(events@)),
        decreases n - i,
    {
        push_group_block(&mut out, events, i);
        proof {
            lemma_concat_map_step(events@, i as int, group_blocks(events@));
        }
        assert(out@ =~= header() + concat_map(events@.take(i + 1), group_blocks(events@)));
        i = i + 1;
    }
    assert(events@.take(n as int) =~= events@);
    out
}

/// Every projection of one log.
#[derive(Clone, Debug, PartialEq, Eq)]
pub struct LoomProjectionBundle {
    pub task_dependency: String,
    pub route_trace: String,
    pub artifact_provenance: String,
    pub integration_group: String,
    pub memory_lineage: String,
    pub topology_governance: String,
}

/// The bundle holds, field by field, the projections of `events`.
pub open spec fn is_bundle_of(bundle: LoomProjectionBundle, events: Seq<LoomEvent>) -> bool {
    &&& bundle.task_dependency@ == task_dependency_text(events)
    &&& bundle.route_trace@ == route_trace_text(events)
    &&& bundle.artifact_provenance@ == artifact_provenance_text(events)
    &&& bundle.integration_group@ == integration_group_text(events)
    &&& bundle.memory_lineage@ == memory_lineage_text(events)
    &&& bundle.topology_governance@ == topology_governance_text(events)
}

/// Every projection of `log`.
pub fn loom_projection_bundle(log: &InMemoryEventLog) -> (r: LoomProjectionBundle)
    ensures
        is_bundle_of(r, log@),
{
    LoomProjectionBundle {
        task_dependency: task_dependency_projection(log),
        route_trace: route_trace_projection(log),
        artifact_provenance: artifact_provenance_projection(log),
        integration_group: integration_group_projection(log),
        memory_lineage: memory_lineage_projection(log),
        topology_governance: topology_governance_projection(log),
    }
}

/// A validated replay and the projections of the replayed log.
#[derive(Clone, Debug, PartialEq, Eq)]
pub struct LoomReplayReport {
    pub validation: ReplayValidationReport,
    pub projections: LoomProjectionBundle,
}

/// Validates the replay of `log` and projects it: an empty log is refused,
/// a log that fails replay validation is refused with that failure, and
/// otherwise the report holds the validation counts and every projection.
pub fn loom_replay_report(log: &InMemoryEventLog) -> (r: Result<LoomReplayReport, LoomEventError>)
    ensures
        log@.len() == 0 ==> r == Err::<LoomReplayReport, LoomEventError>(
            LoomEventError::EmptyReplayLog,
        ),
        log@.len() > 0 ==> match replay_outcome(log@) {
            Err(e) => r == Err::<LoomReplayReport, LoomEventError>(e),
            Ok(validation) => r matches Ok(report) && report.validation == validation
                && is_bundle_of(report.projections, log@),
        },
{
    if log.is_empty() {
        return Err(LoomEventError::EmptyReplayLog);
    }
    let validation = log.validate_replay()?;
    let projections = loom_projection_bundle(log);
    Ok(LoomReplayReport { validation, projections })
}

/// Projecting the same replayed events twice gives the same charts, and
/// every chart starts with the flowchart heading.
pub proof fn law_projection_bundle_is_stable(
    first: LoomProjectionBundle,
    second: LoomProjectionBundle,
    events: Seq<LoomEvent>,
)
    requires
        is_bundle_of(first, events),
        is_bundle_of(second, events),
    ensures
        first.task_dependency@ == second.task_dependency@,
        first.route_trace@ == second.route_trace@,
        first.artifact_provenance@ == second.artifact_provenance@,
        first.integration_group@ == second.integration_group@,
        first.memory_lineage@ == second.memory_lineage@,
        first.topology_governance@ == second.topology_governance@,
        has_prefix(first.task_dependency@, header()),
        has_prefix(first.route_trace@, header()),
        has_prefix(first.artifact_provenance@, header()),
        has_prefix(first.integration_group@, header()),
        has_prefix(first.memory_lineage@, header()),
        has_prefix(first.topology_governance@, header()),
{
    let h = header();
    assert((h + concat_map(events, task_blocks()) + concat_map(
        integration_parents(events),
        integration_blocks(events),
    )).subrange(0, h.len() as int) =~= h);
    assert((h + concat_map(events, route_blocks(events))).subrange(0, h.len() as int) =~= h);
    assert((h + concat_map(events, artifact_blocks(events))).subrange(0, h.len() as int) =~= h);
    assert((h + concat_map(events, group_blocks(events))).subrange(0, h.len() as int) =~= h);
    assert((h + concat_map(events, memory_blocks(events))).subrange(0, h.len() as int) =~= h);
    assert((h + concat_map(events, topology_blocks(events))).subrange(0, h.len() as int) =~= h);
}

/// A task creation under `parent` that names its task.
pub open spec fn created_under(parent: u64) -> spec_fn(LoomEvent) -> bool {
    |e: LoomEvent| e.event_type == LoomEventType::TaskCreated && e.task_id is Some && e.parent_task_id
        == Some(parent)
}

/// The id an event names its task by.
pub open spec fn named_task() -> spec_fn(LoomEvent) -> u64 {
    |e: LoomEvent| e.task_id->0
}

/// The children an integration request for `parent` is linked from are
/// exactly the tasks created with `parent` as their parent, in log order:
/// tasks created under any other parent are left out.
pub proof fn law_children_are_those_created_under_parent(events: Seq<LoomEvent>, parent: u64)
    ensures
        children_of(events, parent) == events.filter(created_under(parent)).map_values(named_task()),
    decreases events.len(),
{
    reveal(Seq::filter);
    let p = created_under(parent);
    let f = named_task();
    if events.len() == 0 {
        assert(events.filter(p) =~= Seq::<LoomEvent>::empty());
        assert(events.filter(p).map_values(f) =~= Seq::<u64>::empty());
    } else {
        let rest = events.drop_last();
        law_children_are_those_created_under_parent(rest, parent);
        let prev = rest.filter(p);
        let e = events.last();
        if p(e) {
            assert(events.filter(p) == prev.push(e));
            assert(prev.push(e).map_values(f) =~= prev.map_values(f).push(e.task_id->0));
        } else {
            assert(events.filter(p) == prev);
        }
    }
}

} // verus!

