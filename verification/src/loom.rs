//! The loom event log: typed lifecycle events, the append-only in-memory
//! log that checks each event against what came before it, replay, and the
//! whole-slice replay validation with its lifecycle report.
use vstd::prelude::*;
use std::collections::HashSet;
use crate::text::{decimal, is_blank, is_blank_str, push_decimal, push_text, str_eq};

verus! {

/// The kinds of lifecycle events the loom records.
#[derive(Clone, Copy, Debug, PartialEq, Eq, Hash, Structural)]
pub enum LoomEventType {
    TaskCreated,
    TaskAssigned,
    ArtifactDeclared,
    ArtifactReady,
    SignalEmitted,
    TaskBlocked,
    TaskResumed,
    TaskCompleted,
    AgentDecommissioned,
    IntegrationRequested,
    MemoryNodeCreated,
    IndexUpdated,
    RouteDecisionRecorded,
    TopologyProposed,
    TopologyShadowed,
    TopologyCanaried,
    TopologyCommitted,
    TopologyRolledBack,
}

/// One lifecycle event of a root task.
#[derive(Debug, PartialEq, Eq)]
pub struct LoomEvent {
    pub event_id: u64,
    pub event_type: LoomEventType,
    pub root_task_id: u64,
    pub task_id: Option<u64>,
    pub parent_task_id: Option<u64>,
    pub prompt_id: Option<u64>,
    pub agent_id: Option<u64>,
    pub agent_role: Option<String>,
    pub topology_snapshot_id: Option<u64>,
    pub payload_schema: String,
    pub payload_ref: String,
    pub occurred_at_ms: u64,
    pub causation_id: Option<u64>,
    pub correlation_id: u64,
}

/// Why an event, a log or a replay was refused.
#[derive(Clone, Debug, PartialEq, Eq)]
pub enum LoomEventError {
    EmptyReplayLog,
    DuplicateEventId(u64),
    MissingPayloadSchema,
    MissingPayloadRef,
    MissingRequiredField { event_type: LoomEventType, field: &'static str },
    MissingRequiredCausation(LoomEventType),
    UnknownCausationId(u64),
    InvalidCausationType {
        event_type: LoomEventType,
        causation_id: u64,
        expected: LoomEventType,
        actual: LoomEventType,
    },
    MissingTaskDecommission { task_id: u64 },
    MismatchedTaskDecommission { task_id: u64, decommission_event_id: u64, field: &'static str },
    MissingTaskRouteDecision { task_id: u64 },
    MismatchedTaskRouteDecision { task_id: u64, route_task_id: u64 },
    MismatchedRouteDecisionContext {
        assignment_event_id: u64,
        route_decision_event_id: u64,
        field: &'static str,
    },
    MismatchedArtifactReady { ready_event_id: u64, declared_event_id: u64, field: &'static str },
    InvalidRouteDecisionTelemetry { event_id: u64, field: &'static str },
    MissingMemoryEvidence { event_id: u64 },
    MismatchedMemoryEvidence {
        memory_event_id: u64,
        decommission_event_id: u64,
        field: &'static str,
    },
    MissingTaskIntegration { task_id: u64 },
    MismatchedTaskIntegration { task_id: u64, integration_event_id: u64, field: &'static str },
    Io { path: String, source: String },
    Json { line: Option<usize>, source: String },
}

/// Where a replay starts: from the first event, or after a given event id.
#[derive(Clone, Copy, Debug, PartialEq, Eq, Structural)]
pub struct ReplayCursor {
    after_event_id: Option<u64>,
}

/// The value of an optional id, or zero when it is absent.
pub open spec fn id_or_zero(id: Option<u64>) -> u64 {
    match id {
        Some(v) => v,
        None => 0,
    }
}

pub(crate) fn id_or_zero_exec(id: Option<u64>) -> (r: u64)
    ensures
        r == id_or_zero(id),
{
    match id {
        Some(v) => v,
        None => 0,
    }
}

/// Event kinds that are scoped to one task and must name it.
pub open spec fn needs_task_id(t: LoomEventType) -> bool {
    ||| t == LoomEventType::TaskCreated
    ||| t == LoomEventType::TaskAssigned
    ||| t == LoomEventType::TaskBlocked
    ||| t == LoomEventType::TaskResumed
    ||| t == LoomEventType::TaskCompleted
    ||| t == LoomEventType::RouteDecisionRecorded
}

/// Event kinds that must name an agent.
pub open spec fn needs_agent_id(t: LoomEventType) -> bool {
    t == LoomEventType::AgentDecommissioned
}

/// Event kinds that must name a topology snapshot.
pub open spec fn needs_topology_snapshot_id(t: LoomEventType) -> bool {
    ||| t == LoomEventType::RouteDecisionRecorded
    ||| t == LoomEventType::TopologyCommitted
    ||| t == LoomEventType::TopologyRolledBack
}

/// The kind of event that must cause an event of kind `t`, if any.
pub open spec fn cause_kind(t: LoomEventType) -> Option<LoomEventType> {
    match t {
        LoomEventType::TaskAssigned => Some(LoomEventType::RouteDecisionRecorded),
        LoomEventType::ArtifactReady => Some(LoomEventType::ArtifactDeclared),
        LoomEventType::TaskResumed => Some(LoomEventType::TaskBlocked),
        LoomEventType::TopologyShadowed => Some(LoomEventType::TopologyProposed),
        LoomEventType::TopologyCanaried => Some(LoomEventType::TopologyShadowed),
        LoomEventType::TopologyCommitted => Some(LoomEventType::TopologyProposed),
        LoomEventType::TopologyRolledBack => Some(LoomEventType::TopologyCommitted),
        _ => None,
    }
}

fn requires_task_id(t: LoomEventType) -> (r: bool)
    ensures
        r == needs_task_id(t),
{
    match t {
        LoomEventType::TaskCreated | LoomEventType::TaskAssigned | LoomEventType::TaskBlocked
        | LoomEventType::TaskResumed | LoomEventType::TaskCompleted
        | LoomEventType::RouteDecisionRecorded => true,
        _ => false,
    }
}

fn requires_agent_id(t: LoomEventType) -> (r: bool)
    ensures
        r == needs_agent_id(t),
{
    match t {
        LoomEventType::AgentDecommissioned => true,
        _ => false,
    }
}

fn requires_topology_snapshot_id(t: LoomEventType) -> (r: bool)
    ensures
        r == needs_topology_snapshot_id(t),
{
    match t {
        LoomEventType::RouteDecisionRecorded | LoomEventType::TopologyCommitted
        | LoomEventType::TopologyRolledBack => true,
        _ => false,
    }
}

fn required_cause(t: LoomEventType) -> (r: Option<LoomEventType>)
    ensures
        r == cause_kind(t),
{
    match t {
        LoomEventType::TaskAssigned => Some(LoomEventType::RouteDecisionRecorded),
        LoomEventType::ArtifactReady => Some(LoomEventType::ArtifactDeclared),
        LoomEventType::TaskResumed => Some(LoomEventType::TaskBlocked),
        LoomEventType::TopologyShadowed => Some(LoomEventType::TopologyProposed),
        LoomEventType::TopologyCanaried => Some(LoomEventType::TopologyShadowed),
        LoomEventType::TopologyCommitted => Some(LoomEventType::TopologyProposed),
        LoomEventType::TopologyRolledBack => Some(LoomEventType::TopologyCommitted),
        _ => None,
    }
}

/// The checks an event must pass on its own: payload metadata present and
/// the fields its kind requires set, in that order.
pub open spec fn event_fields_outcome(e: LoomEvent) -> Result<(), LoomEventError> {
    if is_blank(e.payload_schema@) {
        Err(LoomEventError::MissingPayloadSchema)
    } else if is_blank(e.payload_ref@) {
        Err(LoomEventError::MissingPayloadRef)
    } else if needs_task_id(e.event_type) && e.task_id is None {
        Err(LoomEventError::MissingRequiredField { event_type: e.event_type, field: "task_id" })
    } else if needs_agent_id(e.event_type) && e.agent_id is None {
        Err(LoomEventError::MissingRequiredField { event_type: e.event_type, field: "agent_id" })
    } else if needs_topology_snapshot_id(e.event_type) && e.topology_snapshot_id is None {
        Err(
            LoomEventError::MissingRequiredField {
                event_type: e.event_type,
                field: "topology_snapshot_id",
            },
        )
    } else {
        Ok(())
    }
}

/// Some event of `events` carries id `id`.
pub open spec fn has_id(events: Seq<LoomEvent>, id: u64) -> bool {
    exists|i: int| 0 <= i < events.len() && #[trigger] events[i].event_id == id
}

/// `i` is the position of the first event of `events` that carries id `id`.
pub open spec fn is_first_with_id(events: Seq<LoomEvent>, id: u64, i: int) -> bool {
    &&& 0 <= i < events.len()
    &&& events[i].event_id == id
    &&& forall|j: int| 0 <= j < i ==> #[trigger] events[j].event_id != id
}

/// The first event of `events` that carries id `id` (meaningful when one does).
pub open spec fn event_with_id(events: Seq<LoomEvent>, id: u64) -> LoomEvent {
    events[choose|i: int| is_first_with_id(events, id, i)]
}

/// An assignment must come from a route decision for the same task, root and correlation.
pub open spec fn route_assignment_outcome(assignment: LoomEvent, route: LoomEvent) -> Result<
    (),
    LoomEventError,
> {
    let task_id = id_or_zero(assignment.task_id);
    let route_task_id = id_or_zero(route.task_id);
    if task_id != route_task_id {
        Err(LoomEventError::MismatchedTaskRouteDecision { task_id, route_task_id })
    } else if assignment.root_task_id != route.root_task_id {
        Err(
            LoomEventError::MismatchedRouteDecisionContext {
                assignment_event_id: assignment.event_id,
                route_decision_event_id: route.event_id,
                field: "root_task_id",
            },
        )
    } else if assignment.correlation_id != route.correlation_id {
        Err(
            LoomEventError::MismatchedRouteDecisionContext {
                assignment_event_id: assignment.event_id,
                route_decision_event_id: route.event_id,
                field: "correlation_id",
            },
        )
    } else {
        Ok(())
    }
}

/// A ready artifact must match its declaration's task, root, correlation and reference.
pub open spec fn artifact_ready_outcome(ready: LoomEvent, declared: LoomEvent) -> Result<
    (),
    LoomEventError,
> {
    if ready.task_id != declared.task_id {
        Err(
            LoomEventError::MismatchedArtifactReady {
                ready_event_id: ready.event_id,
                declared_event_id: declared.event_id,
                field: "task_id",
            },
        )
    } else if ready.root_task_id != declared.root_task_id {
        Err(
            LoomEventError::MismatchedArtifactReady {
                ready_event_id: ready.event_id,
                declared_event_id: declared.event_id,
                field: "root_task_id",
            },
        )
    } else if ready.correlation_id != declared.correlation_id {
        Err(
            LoomEventError::MismatchedArtifactReady {
                ready_event_id: ready.event_id,
                declared_event_id: declared.event_id,
                field: "correlation_id",
            },
        )
    } else if ready.payload_ref@ != declared.payload_ref@ {
        Err(
            LoomEventError::MismatchedArtifactReady {
                ready_event_id: ready.event_id,
                declared_event_id: declared.event_id,
                field: "payload_ref",
            },
        )
    } else {
        Ok(())
    }
}

/// The causation check of an event against the events logged before it.
pub open spec fn causation_outcome(events: Seq<LoomEvent>, e: LoomEvent) -> Result<
    (),
    LoomEventError,
> {
    match cause_kind(e.event_type) {
        None => Ok(()),
        Some(expected) => match e.causation_id {
            None => Err(LoomEventError::MissingRequiredCausation(e.event_type)),
            Some(c) => if !has_id(events, c) {
                Err(LoomEventError::UnknownCausationId(c))
            } else {
                let cause = event_with_id(events, c);
                if cause.event_type != expected {
                    Err(
                        LoomEventError::InvalidCausationType {
                            event_type: e.event_type,
                            causation_id: c,
                            expected,
                            actual: cause.event_type,
                        },
                    )
                } else if e.event_type == LoomEventType::TaskAssigned {
                    route_assignment_outcome(e, cause)
                } else if e.event_type == LoomEventType::ArtifactReady {
                    artifact_ready_outcome(e, cause)
                } else {
                    Ok(())
                }
            },
        },
    }
}

/// What appending `e` to a log holding `events` gives: the field checks,
/// then the duplicate id check, then the causation checks.
pub open spec fn append_outcome(events: Seq<LoomEvent>, e: LoomEvent) -> Result<
    (),
    LoomEventError,
> {
    match event_fields_outcome(e) {
        Err(err) => Err(err),
        Ok(_) => if has_id(events, e.event_id) {
            Err(LoomEventError::DuplicateEventId(e.event_id))
        } else {
            causation_outcome(events, e)
        },
    }
}

/// No two events of `events` carry the same id.
pub open spec fn ids_unique(events: Seq<LoomEvent>) -> bool {
    forall|i: int, j: int|
        0 <= i < events.len() && 0 <= j < events.len() && i != j ==> #[trigger] events[i].event_id
            != #[trigger] events[j].event_id
}

/// The events a replay from `cursor` visits, in log order.
pub open spec fn replayed(events: Seq<LoomEvent>, cursor: ReplayCursor) -> Seq<LoomEvent> {
    match cursor.starts_after() {
        None => events,
        Some(after) => events.filter(|e: LoomEvent| e.event_id > after),
    }
}

/// The events of kind `t`, in log order.
pub open spec fn of_type(events: Seq<LoomEvent>, t: LoomEventType) -> Seq<LoomEvent> {
    events.filter(|e: LoomEvent| e.event_type == t)
}

pub proof fn lemma_first_with_id_unique(events: Seq<LoomEvent>, id: u64, i: int, k: int)
    requires
        is_first_with_id(events, id, i),
        is_first_with_id(events, id, k),
    ensures
        i == k,
{
    if i < k {
        assert(events[i].event_id != id);
    } else if k < i {
        assert(events[k].event_id != id);
    }
}

/// Finds the position of the first of the first `end` events that carries `id`.
pub(crate) fn find_index_before(events: &[LoomEvent], end: usize, id: u64) -> (r: Option<usize>)
    requires
        end <= events@.len(),
    ensures
        match r {
            Some(i) => i < end && is_first_with_id(events@.take(end as int), id, i as int)
                && event_with_id(events@.take(end as int), id) == events@[i as int],
            None => !has_id(events@.take(end as int), id),
        },
{
    let ghost prefix = events@.take(end as int);
    let mut i: usize = 0;
    while i < end
        invariant
            end <= events@.len(),
            prefix == events@.take(end as int),
            i <= end,
            forall|j: int| 0 <= j < i ==> #[trigger] prefix[j].event_id != id,
        decreases end - i,
    {
        if events[i].event_id == id {
            proof {
                assert(prefix[i as int] == events@[i as int]);
                assert(is_first_with_id(prefix, id, i as int));
                let k = choose|k: int| is_first_with_id(prefix, id, k);
                lemma_first_with_id_unique(prefix, id, i as int, k);
            }
            return Some(i);
        }
        proof {
            assert(prefix[i as int] == events@[i as int]);
        }
        i = i + 1;
    }
    None
}

/// The causation check of `event` against the first `end` events.
fn check_causation(events: &[LoomEvent], end: usize, event: &LoomEvent) -> (r: Result<
    (),
    LoomEventError,
>)
    requires
        end <= events@.len(),
    ensures
        r == causation_outcome(events@.take(end as int), *event),
{
    let expected = match required_cause(event.event_type) {
        None => {
            return Ok(());
        },
        Some(k) => k,
    };
    let causation_id = match event.causation_id {
        None => {
            return Err(LoomEventError::MissingRequiredCausation(event.event_type));
        },
        Some(c) => c,
    };
    let index = match find_index_before(events, end, causation_id) {
        None => {
            return Err(LoomEventError::UnknownCausationId(causation_id));
        },
        Some(i) => i,
    };
    let cause = &events[index];
    if cause.event_type != expected {
        return Err(
            LoomEventError::InvalidCausationType {
                event_type: event.event_type,
                causation_id,
                expected,
                actual: cause.event_type,
            },
        );
    }
    match event.event_type {
        LoomEventType::TaskAssigned => validate_route_decision_assignment_context(event, cause),
        LoomEventType::ArtifactReady => validate_artifact_ready_context(event, cause),
        _ => Ok(()),
    }
}

/// What appending `event` after the first `end` events gives.
pub(crate) fn check_append(events: &[LoomEvent], end: usize, event: &LoomEvent) -> (r: Result<
    (),
    LoomEventError,
>)
    requires
        end <= events@.len(),
    ensures
        r == append_outcome(events@.take(end as int), *event),
{
    let checked = event.validate();
    if let Err(err) = checked {
        return Err(err);
    }
    if find_index_before(events, end, event.event_id).is_some() {
        return Err(LoomEventError::DuplicateEventId(event.event_id));
    }
    check_causation(events, end, event)
}

impl Clone for LoomEvent {
    fn clone(&self) -> (r: Self)
        ensures
            r == *self,
    {
        let agent_role = match &self.agent_role {
            Some(role) => Some(role.clone()),
            None => None,
        };
        LoomEvent {
            event_id: self.event_id,
            event_type: self.event_type,
            root_task_id: self.root_task_id,
            task_id: self.task_id,
            parent_task_id: self.parent_task_id,
            prompt_id: self.prompt_id,
            agent_id: self.agent_id,
            agent_role,
            topology_snapshot_id: self.topology_snapshot_id,
            payload_schema: self.payload_schema.clone(),
            payload_ref: self.payload_ref.clone(),
            occurred_at_ms: self.occurred_at_ms,
            causation_id: self.causation_id,
            correlation_id: self.correlation_id,
        }
    }
}

impl LoomEvent {
    /// The checks an event must pass on its own.
    pub fn validate(&self) -> (r: Result<(), LoomEventError>)
        ensures
            r == event_fields_outcome(*self),
    {
        if is_blank_str(self.payload_schema.as_str()) {
            return Err(LoomEventError::MissingPayloadSchema);
        }
        if is_blank_str(self.payload_ref.as_str()) {
            return Err(LoomEventError::MissingPayloadRef);
        }
        self.validate_required_fields()
    }

    fn validate_required_fields(&self) -> (r: Result<(), LoomEventError>)
        requires
            !is_blank(self.payload_schema@),
            !is_blank(self.payload_ref@),
        ensures
            r == event_fields_outcome(*self),
    {
        if requires_task_id(self.event_type) && self.task_id.is_none() {
            return Err(
                LoomEventError::MissingRequiredField { event_type: self.event_type, field: "task_id" },
            );
        }
        if requires_agent_id(self.event_type) && self.agent_id.is_none() {
            return Err(
                LoomEventError::MissingRequiredField {
                    event_type: self.event_type,
                    field: "agent_id",
                },
            );
        }
        if requires_topology_snapshot_id(self.event_type) && self.topology_snapshot_id.is_none() {
            return Err(
                LoomEventError::MissingRequiredField {
                    event_type: self.event_type,
                    field: "topology_snapshot_id",
                },
            );
        }
        Ok(())
    }
}

pub(crate) fn validate_route_decision_assignment_context(assignment: &LoomEvent, route: &LoomEvent) -> (r:
    Result<(), LoomEventError>)
    ensures
        r == route_assignment_outcome(*assignment, *route),
{
    let task_id = id_or_zero_exec(assignment.task_id);
    let route_task_id = id_or_zero_exec(route.task_id);
    if task_id != route_task_id {
        return Err(LoomEventError::MismatchedTaskRouteDecision { task_id, route_task_id });
    }
    if assignment.root_task_id != route.root_task_id {
        return Err(
            LoomEventError::MismatchedRouteDecisionContext {
                assignment_event_id: assignment.event_id,
                route_decision_event_id: route.event_id,
                field: "root_task_id",
            },
        );
    }
    if assignment.correlation_id != route.correlation_id {
        return Err(
            LoomEventError::MismatchedRouteDecisionContext {
                assignment_event_id: assignment.event_id,
                route_decision_event_id: route.event_id,
                field: "correlation_id",
            },
        );
    }
    Ok(())
}

pub(crate) fn validate_artifact_ready_context(ready: &LoomEvent, declared: &LoomEvent) -> (r: Result<
    (),
    LoomEventError,
>)
    ensures
        r == artifact_ready_outcome(*ready, *declared),
{
    if ready.task_id != declared.task_id {
        return Err(
            LoomEventError::MismatchedArtifactReady {
                ready_event_id: ready.event_id,
                declared_event_id: declared.event_id,
                field: "task_id",
            },
        );
    }
    if ready.root_task_id != declared.root_task_id {
        return Err(
            LoomEventError::MismatchedArtifactReady {
                ready_event_id: ready.event_id,
                declared_event_id: declared.event_id,
                field: "root_task_id",
            },
        );
    }
    if ready.correlation_id != declared.correlation_id {
        return Err(
            LoomEventError::MismatchedArtifactReady {
                ready_event_id: ready.event_id,
                declared_event_id: declared.event_id,
                field: "correlation_id",
            },
        );
    }
    if !str_eq(ready.payload_ref.as_str(), declared.payload_ref.as_str()) {
        return Err(
            LoomEventError::MismatchedArtifactReady {
                ready_event_id: ready.event_id,
                declared_event_id: declared.event_id,
                field: "payload_ref",
            },
        );
    }
    Ok(())
}

impl ReplayCursor {
    /// A cursor that replays the whole log.
    pub fn start() -> (r: Self)
        ensures
            r.starts_after() is None,
    {
        ReplayCursor { after_event_id: None }
    }

    /// A cursor that replays the events whose id is greater than `event_id`.
    pub fn after(event_id: u64) -> (r: Self)
        ensures
            r.starts_after() == Some(event_id),
    {
        ReplayCursor { after_event_id: Some(event_id) }
    }

    /// The id after which this cursor starts, if any.
    pub closed spec fn starts_after(self) -> Option<u64> {
        self.after_event_id
    }
}

/// An append-only log of loom events with unique ids, and the set of the
/// ids it holds, by which a new event's id is checked.
#[derive(Debug, PartialEq, Eq)]
pub struct InMemoryEventLog {
    events: Vec<LoomEvent>,
    event_ids: HashSet<u64>,
}

impl Clone for InMemoryEventLog {
    /// A copy of the log, its id set built anew from its events.
    fn clone(&self) -> (r: Self)
        ensures
            r@ == self@,
            self.wf() ==> r.wf(),
    {
        broadcast use vstd::std_specs::hash::group_hash_axioms;

        let mut events: Vec<LoomEvent> = Vec::new();
        let mut event_ids: HashSet<u64> = HashSet::new();
        let n = self.events.len();
        let mut i: usize = 0;
        while i < n
            invariant
                n == self.events@.len(),
                i <= n,
                events@ == self.events@.take(i as int),
                forall|id: u64| #[trigger] event_ids@.contains(id) <==> has_id(events@, id),
            decreases n - i,
        {
            let e = self.events[i].clone();
            let ghost before = events@;
            event_ids.insert(e.event_id);
            events.push(e);
            proof {
                assert(events@ =~= self.events@.take(i + 1));
                assert forall|x: u64| #[trigger] event_ids@.contains(x) <==> has_id(events@, x) by {
                    if has_id(events@, x) {
                        let k = choose|k: int| 0 <= k < events@.len() && #[trigger] events@[k].event_id == x;
                        if k < before.len() {
                            assert(before[k].event_id == x);
                        }
                    }
                    if has_id(before, x) {
                        let k = choose|k: int| 0 <= k < before.len() && #[trigger] before[k].event_id == x;
                        assert(events@[k].event_id == x);
                    }
                    assert(events@[before.len() as int].event_id == self.events@[i as int].event_id);
                }
            }
            i = i + 1;
        }
        proof {
            assert(self.events@.take(n as int) =~= self.events@);
        }
        InMemoryEventLog { events, event_ids }
    }
}

impl View for InMemoryEventLog {
    type V = Seq<LoomEvent>;

    closed spec fn view(&self) -> Seq<LoomEvent> {
        self.events@
    }
}

impl InMemoryEventLog {
    /// The log's internal consistency: no two logged events share an id,
    /// and the id set holds exactly the logged ids.
    pub closed spec fn wf(&self) -> bool {
        &&& ids_unique(self.events@)
        &&& forall|id: u64| #[trigger] self.event_ids@.contains(id) <==> has_id(self.events@, id)
    }

    /// An empty log.
    pub fn new() -> (r: Self)
        ensures
            r.wf(),
            r@ == Seq::<LoomEvent>::empty(),
    {
        InMemoryEventLog { events: Vec::new(), event_ids: HashSet::new() }
    }

    /// Appends `event` when it passes its own checks, carries a fresh id
    /// and is caused as its kind requires; otherwise leaves the log as it was.
    pub fn append(&mut self, event: LoomEvent) -> (r: Result<(), LoomEventError>)
        requires
            old(self).wf(),
        ensures
            final(self).wf(),
            r == append_outcome(old(self)@, event),
            r is Ok ==> final(self)@ == old(self)@.push(event),
            r is Err ==> final(self)@ == old(self)@,
    {
        broadcast use vstd::std_specs::hash::group_hash_axioms;

        let checked = event.validate();
        if let Err(err) = checked {
            return Err(err);
        }
        let id = event.event_id;
        if self.event_ids.contains(&id) {
            return Err(LoomEventError::DuplicateEventId(id));
        }
        let n = self.events.len();
        let caused = check_causation(self.events.as_slice(), n, &event);
        proof {
            assert(self.events@.take(n as int) =~= self.events@);
        }
        if let Err(err) = caused {
            return Err(err);
        }
        let ghost before = self.events@;
        let ghost ids_before = self.event_ids@;
        self.event_ids.insert(id);
        self.events.push(event);
        proof {
            assert forall|i: int, j: int|
                0 <= i < self.events@.len() && 0 <= j < self.events@.len() && i != j implies #[trigger] self.events@[i].event_id
                    != #[trigger] self.events@[j].event_id by {
                if i < before.len() && j < before.len() {
                    assert(before[i].event_id != before[j].event_id);
                } else if i < before.len() {
                    assert(before[i].event_id == self.events@[i].event_id);
                    if before[i].event_id == id {
                        assert(has_id(before, id));
                    }
                } else if j < before.len() {
                    assert(before[j].event_id == self.events@[j].event_id);
                    if before[j].event_id == id {
                        assert(has_id(before, id));
                    }
                }
            }
            assert forall|x: u64| #[trigger] self.event_ids@.contains(x) <==> has_id(self.events@, x) by {
                if has_id(self.events@, x) {
                    let k = choose|k: int| 0 <= k < self.events@.len() && #[trigger] self.events@[k].event_id == x;
                    if k < before.len() {
                        assert(before[k].event_id == x);
                        assert(has_id(before, x));
                    }
                }
                if has_id(before, x) {
                    let k = choose|k: int| 0 <= k < before.len() && #[trigger] before[k].event_id == x;
                    assert(self.events@[k].event_id == x);
                }
                assert(self.events@[before.len() as int].event_id == id);
            }
        }
        Ok(())
    }

    /// The number of logged events.
    pub fn len(&self) -> (r: usize)
        ensures
            r == self@.len(),
    {
        self.events.len()
    }

    /// Whether the log holds no event.
    pub fn is_empty(&self) -> (r: bool)
        ensures
            r == (self@.len() == 0),
    {
        self.events.len() == 0
    }

    /// The logged events, in the order they were appended.
    pub fn events(&self) -> (r: &Vec<LoomEvent>)
        ensures
            r@ == self@,
    {
        &self.events
    }

    /// The events a replay from `cursor` visits, in log order.
    pub fn replay(&self, cursor: ReplayCursor) -> (r: Vec<&LoomEvent>)
        ensures
            r@.map_values(|e: &LoomEvent| *e) == replayed(self@, cursor),
    {
        let n = self.events.len();
        let mut out: Vec<&LoomEvent> = Vec::new();
        let mut i: usize = 0;
        while i < n
            invariant
                n == self.events@.len(),
                i <= n,
                out@.map_values(|e: &LoomEvent| *e) == replayed(
                    self.events@.subrange(0, i as int),
                    cursor,
                ),
            decreases n - i,
        {
            let event = &self.events[i];
            let keep = match cursor.after_event_id {
                None => true,
                Some(after) => event.event_id > after,
            };
            let ghost prefix = self.events@.subrange(0, i as int);
            let ghost next = self.events@.subrange(0, i + 1);
            proof {
                assert(next.drop_last() =~= prefix);
                assert(next.last() == *event);
                match cursor.starts_after() {
                    None => {},
                    Some(after) => {
                        reveal(Seq::filter);
                    },
                }
            }
            if keep {
                out.push(event);
            }
            proof {
                assert(out@.map_values(|e: &LoomEvent| *e) =~= replayed(next, cursor));
            }
            i = i + 1;
        }
        proof {
            assert(self.events@.subrange(0, n as int) =~= self.events@);
        }
        out
    }

    /// The events of kind `event_type`, in log order.
    pub fn events_by_type(&self, event_type: LoomEventType) -> (r: Vec<&LoomEvent>)
        ensures
            r@.map_values(|e: &LoomEvent| *e) == of_type(self@, event_type),
    {
        let n = self.events.len();
        let mut out: Vec<&LoomEvent> = Vec::new();
        let mut i: usize = 0;
        while i < n
            invariant
                n == self.events@.len(),
                i <= n,
                out@.map_values(|e: &LoomEvent| *e) == of_type(
                    self.events@.subrange(0, i as int),
                    event_type,
                ),
            decreases n - i,
        {
            let event = &self.events[i];
            let ghost prefix = self.events@.subrange(0, i as int);
            let ghost next = self.events@.subrange(0, i + 1);
            proof {
                assert(next.drop_last() =~= prefix);
                reveal(Seq::filter);
            }
            if event.event_type == event_type {
                out.push(event);
            }
            proof {
                assert(out@.map_values(|e: &LoomEvent| *e) =~= of_type(next, event_type));
            }
            i = i + 1;
        }
        proof {
            assert(self.events@.subrange(0, n as int) =~= self.events@);
        }
        out
    }
}

/// The name of an event kind, as it is written in messages and JSON.
pub open spec fn event_type_name(t: LoomEventType) -> &'static str {
    match t {
        LoomEventType::TaskCreated => "TaskCreated",
        LoomEventType::TaskAssigned => "TaskAssigned",
        LoomEventType::ArtifactDeclared => "ArtifactDeclared",
        LoomEventType::ArtifactReady => "ArtifactReady",
        LoomEventType::SignalEmitted => "SignalEmitted",
        LoomEventType::TaskBlocked => "TaskBlocked",
        LoomEventType::TaskResumed => "TaskResumed",
        LoomEventType::TaskCompleted => "TaskCompleted",
        LoomEventType::AgentDecommissioned => "AgentDecommissioned",
        LoomEventType::IntegrationRequested => "IntegrationRequested",
        LoomEventType::MemoryNodeCreated => "MemoryNodeCreated",
        LoomEventType::IndexUpdated => "IndexUpdated",
        LoomEventType::RouteDecisionRecorded => "RouteDecisionRecorded",
        LoomEventType::TopologyProposed => "TopologyProposed",
        LoomEventType::TopologyShadowed => "TopologyShadowed",
        LoomEventType::TopologyCanaried => "TopologyCanaried",
        LoomEventType::TopologyCommitted => "TopologyCommitted",
        LoomEventType::TopologyRolledBack => "TopologyRolledBack",
    }
}

impl LoomEventType {
    /// The name of this event kind.
    pub fn name(self) -> (r: &'static str)
        ensures
            r == event_type_name(self),
    {
        match self {
            LoomEventType::TaskCreated => "TaskCreated",
            LoomEventType::TaskAssigned => "TaskAssigned",
            LoomEventType::ArtifactDeclared => "ArtifactDeclared",
            LoomEventType::ArtifactReady => "ArtifactReady",
            LoomEventType::SignalEmitted => "SignalEmitted",
            LoomEventType::TaskBlocked => "TaskBlocked",
            LoomEventType::TaskResumed => "TaskResumed",
            LoomEventType::TaskCompleted => "TaskCompleted",
            LoomEventType::AgentDecommissioned => "AgentDecommissioned",
            LoomEventType::IntegrationRequested => "IntegrationRequested",
            LoomEventType::MemoryNodeCreated => "MemoryNodeCreated",
            LoomEventType::IndexUpdated => "IndexUpdated",
            LoomEventType::RouteDecisionRecorded => "RouteDecisionRecorded",
            LoomEventType::TopologyProposed => "TopologyProposed",
            LoomEventType::TopologyShadowed => "TopologyShadowed",
            LoomEventType::TopologyCanaried => "TopologyCanaried",
            LoomEventType::TopologyCommitted => "TopologyCommitted",
            LoomEventType::TopologyRolledBack => "TopologyRolledBack",
        }
    }
}

/// The message of a loom event error.
pub open spec fn event_error_text(e: LoomEventError) -> Seq<char> {
    match e {
        LoomEventError::EmptyReplayLog => "loom replay log is empty"@,
        LoomEventError::DuplicateEventId(event_id) => "duplicate loom event id "@ + decimal(event_id as nat),
        LoomEventError::MissingPayloadSchema => "loom event payload schema is required"@,
        LoomEventError::MissingPayloadRef => "loom event payload ref is required"@,
        LoomEventError::MissingRequiredField { event_type, field } => "loom event "@ + event_type_name(event_type)@ + " requires "@ + field@,
        LoomEventError::MissingRequiredCausation(event_type) => "loom event "@ + event_type_name(event_type)@ + " requires causation"@,
        LoomEventError::UnknownCausationId(event_id) => "loom event causation id "@ + decimal(event_id as nat) + " does not exist"@,
        LoomEventError::InvalidCausationType { event_type, causation_id, expected, actual } => "loom event "@ + event_type_name(event_type)@ + " causation id "@ + decimal(causation_id as nat) + " should reference "@ + event_type_name(expected)@ + ", got "@ + event_type_name(actual)@,
        LoomEventError::MissingTaskDecommission { task_id } => "completed task "@ + decimal(task_id as nat) + " is missing decommission event"@,
        LoomEventError::MismatchedTaskDecommission { task_id, decommission_event_id, field } => "completed task "@ + decimal(task_id as nat) + " references decommission event "@ + decimal(decommission_event_id as nat) + " with mismatched "@ + field@,
        LoomEventError::MissingTaskRouteDecision { task_id } => "assigned task "@ + decimal(task_id as nat) + " is missing route decision event"@,
        LoomEventError::MismatchedTaskRouteDecision { task_id, route_task_id } => "assigned task "@ + decimal(task_id as nat) + " references route decision for task "@ + decimal(route_task_id as nat),
        LoomEventError::MismatchedRouteDecisionContext { assignment_event_id, route_decision_event_id, field } => "assignment event "@ + decimal(assignment_event_id as nat) + " references route decision event "@ + decimal(route_decision_event_id as nat) + " with mismatched "@ + field@,
        LoomEventError::MismatchedArtifactReady { ready_event_id, declared_event_id, field } => "artifact ready event "@ + decimal(ready_event_id as nat) + " references declaration event "@ + decimal(declared_event_id as nat) + " with mismatched "@ + field@,
        LoomEventError::InvalidRouteDecisionTelemetry { event_id, field } => "route decision event "@ + decimal(event_id as nat) + " has invalid "@ + field@,
        LoomEventError::MissingMemoryEvidence { event_id } => "memory node event "@ + decimal(event_id as nat) + " is missing evidence"@,
        LoomEventError::MismatchedMemoryEvidence { memory_event_id, decommission_event_id, field } => "memory node event "@ + decimal(memory_event_id as nat) + " references decommission event "@ + decimal(decommission_event_id as nat) + " with mismatched "@ + field@,
        LoomEventError::MissingTaskIntegration { task_id } => "child task "@ + decimal(task_id as nat) + " is missing integration path"@,
        LoomEventError::MismatchedTaskIntegration { task_id, integration_event_id, field } => "child task "@ + decimal(task_id as nat) + " references integration event "@ + decimal(integration_event_id as nat) + " with mismatched "@ + field@,
        LoomEventError::Io { path, source } => "loom event log I/O failed at "@ + path@ + ": "@ + source@,
        LoomEventError::Json { line: Some(line), source } => "loom event JSONL parse failed at line "@ + decimal(line as nat) + ": "@ + source@,
        LoomEventError::Json { line: None, source } => "loom event JSON encode failed: "@ + source@,
    }
}

impl LoomEventError {
    /// The message of this error.
    pub fn to_string(&self) -> (r: String)
        ensures
            r@ == event_error_text(*self),
    {
        let mut out = String::new();
        match self {
            LoomEventError::EmptyReplayLog => {
                push_text(&mut out, "loom replay log is empty");
            },
            LoomEventError::DuplicateEventId(event_id) => {
                push_text(&mut out, "duplicate loom event id ");
                push_decimal(&mut out, *event_id as u64);
            },
            LoomEventError::MissingPayloadSchema => {
                push_text(&mut out, "loom event payload schema is required");
            },
            LoomEventError::MissingPayloadRef => {
                push_text(&mut out, "loom event payload ref is required");
            },
            LoomEventError::MissingRequiredField { event_type, field } => {
                push_text(&mut out, "loom event ");
                push_text(&mut out, event_type.name());
                push_text(&mut out, " requires ");
                push_text(&mut out, field);
            },
            LoomEventError::MissingRequiredCausation(event_type) => {
                push_text(&mut out, "loom event ");
                push_text(&mut out, event_type.name());
                push_text(&mut out, " requires causation");
            },
            LoomEventError::UnknownCausationId(event_id) => {
                push_text(&mut out, "loom event causation id ");
                push_decimal(&mut out, *event_id as u64);
                push_text(&mut out, " does not exist");
            },
            LoomEventError::InvalidCausationType { event_type, causation_id, expected, actual } => {
                push_text(&mut out, "loom event ");
                push_text(&mut out, event_type.name());
                push_text(&mut out, " causation id ");
                push_decimal(&mut out, *causation_id as u64);
                push_text(&mut out, " should reference ");
                push_text(&mut out, expected.name());
                push_text(&mut out, ", got ");
                push_text(&mut out, actual.name());
            },
            LoomEventError::MissingTaskDecommission { task_id } => {
                push_text(&mut out, "completed task ");
                push_decimal(&mut out, *task_id as u64);
                push_text(&mut out, " is missing decommission event");
            },
            LoomEventError::MismatchedTaskDecommission { task_id, decommission_event_id, field } => {
                push_text(&mut out, "completed task ");
                push_decimal(&mut out, *task_id as u64);
                push_text(&mut out, " references decommission event ");
                push_decimal(&mut out, *decommission_event_id as u64);
                push_text(&mut out, " with mismatched ");
                push_text(&mut out, field);
            },
            LoomEventError::MissingTaskRouteDecision { task_id } => {
                push_text(&mut out, "assigned task ");
                push_decimal(&mut out, *task_id as u64);
                push_text(&mut out, " is missing route decision event");
            },
            LoomEventError::MismatchedTaskRouteDecision { task_id, route_task_id } => {
                push_text(&mut out, "assigned task ");
                push_decimal(&mut out, *task_id as u64);
                push_text(&mut out, " references route decision for task ");
                push_decimal(&mut out, *route_task_id as u64);
            },
            LoomEventError::MismatchedRouteDecisionContext { assignment_event_id, route_decision_event_id, field } => {
                push_text(&mut out, "assignment event ");
                push_decimal(&mut out, *assignment_event_id as u64);
                push_text(&mut out, " references route decision event ");
                push_decimal(&mut out, *route_decision_event_id as u64);
                push_text(&mut out, " with mismatched ");
                push_text(&mut out, field);
            },
            LoomEventError::MismatchedArtifactReady { ready_event_id, declared_event_id, field } => {
                push_text(&mut out, "artifact ready event ");
                push_decimal(&mut out, *ready_event_id as u64);
                push_text(&mut out, " references declaration event ");
                push_decimal(&mut out, *declared_event_id as u64);
                push_text(&mut out, " with mismatched ");
                push_text(&mut out, field);
            },
            LoomEventError::InvalidRouteDecisionTelemetry { event_id, field } => {
                push_text(&mut out, "route decision event ");
                push_decimal(&mut out, *event_id as u64);
                push_text(&mut out, " has invalid ");
                push_text(&mut out, field);
            },
            LoomEventError::MissingMemoryEvidence { event_id } => {
                push_text(&mut out, "memory node event ");
                push_decimal(&mut out, *event_id as u64);
                push_text(&mut out, " is missing evidence");
            },
            LoomEventError::MismatchedMemoryEvidence { memory_event_id, decommission_event_id, field } => {
                push_text(&mut out, "memory node event ");
                push_decimal(&mut out, *memory_event_id as u64);
                push_text(&mut out, " references decommission event ");
                push_decimal(&mut out, *decommission_event_id as u64);
                push_text(&mut out, " with mismatched ");
                push_text(&mut out, field);
            },
            LoomEventError::MissingTaskIntegration { task_id } => {
                push_text(&mut out, "child task ");
                push_decimal(&mut out, *task_id as u64);
                push_text(&mut out, " is missing integration path");
            },
            LoomEventError::MismatchedTaskIntegration { task_id, integration_event_id, field } => {
                push_text(&mut out, "child task ");
                push_decimal(&mut out, *task_id as u64);
                push_text(&mut out, " references integration event ");
                push_decimal(&mut out, *integration_event_id as u64);
                push_text(&mut out, " with mismatched ");
                push_text(&mut out, field);
            },
            LoomEventError::Io { path, source } => {
                push_text(&mut out, "loom event log I/O failed at ");
                push_text(&mut out, path.as_str());
                push_text(&mut out, ": ");
                push_text(&mut out, source.as_str());
            },
            LoomEventError::Json { line: Some(line), source } => {
                push_text(&mut out, "loom event JSONL parse failed at line ");
                push_decimal(&mut out, *line as u64);
                push_text(&mut out, ": ");
                push_text(&mut out, source.as_str());
            },
            LoomEventError::Json { line: None, source } => {
                push_text(&mut out, "loom event JSON encode failed: ");
                push_text(&mut out, source.as_str());
            },
        }
        assert(out@ =~= event_error_text(*self));
        out
    }
}

/// What a replay reads back after an append: a replay from the start gives
/// the logged events followed by the appended one, and a replay after an
/// id gives the appended event last exactly when its id is greater.
pub proof fn law_replay_gives_back_appended(events: Seq<LoomEvent>, e: LoomEvent, cursor: ReplayCursor)
    ensures
        cursor.starts_after() is None ==> replayed(events.push(e), cursor) == events.push(e),
        cursor.starts_after() matches Some(a) && e.event_id > a ==> replayed(events.push(e), cursor)
            == replayed(events, cursor).push(e),
        cursor.starts_after() matches Some(a) && e.event_id <= a ==> replayed(events.push(e), cursor)
            == replayed(events, cursor),
{
    match cursor.starts_after() {
        None => {},
        Some(a) => {
            reveal(Seq::filter);
            assert(events.push(e).drop_last() =~= events);
        },
    }
}

} // verus!
