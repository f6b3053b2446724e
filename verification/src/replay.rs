//! Whole-slice replay validation: every event is checked against the events
//! before it (route, memory, telemetry and artifact context, then the log's
//! own append checks), then child tasks must reach an integration and
//! completed tasks a decommission, and the lifecycle counts are reported.
use vstd::prelude::*;
use crate::loom::{
    LoomEvent, LoomEventError, LoomEventType, InMemoryEventLog, append_outcome,
    artifact_ready_outcome, event_with_id, has_id, id_or_zero, ids_unique, is_first_with_id,
    route_assignment_outcome,
};
use crate::loom::{check_append, find_index_before, id_or_zero_exec,
    validate_artifact_ready_context, validate_route_decision_assignment_context};
use crate::text::{has_prefix, starts_with_str, str_eq};

verus! {

/// Lifecycle counts of a validated replay.
#[derive(Clone, Copy, Debug, PartialEq, Eq, Structural)]
pub struct ReplayValidationReport {
    pub event_count: usize,
    pub root_task_count: usize,
    pub task_event_count: usize,
    pub route_decision_count: usize,
    pub assignment_count: usize,
    pub completion_count: usize,
    pub decommission_count: usize,
    pub memory_node_count: usize,
    pub topology_shadow_count: usize,
    pub topology_canary_count: usize,
    pub topology_commit_count: usize,
    pub topology_rollback_count: usize,
    pub integration_request_count: usize,
}

/// An assignment naming a cause must name a logged route decision for its task.
pub open spec fn assignment_route_outcome(prior: Seq<LoomEvent>, e: LoomEvent) -> Result<
    (),
    LoomEventError,
> {
    match e.causation_id {
        None => Ok(()),
        Some(c) => if !has_id(prior, c) {
            Err(LoomEventError::MissingTaskRouteDecision { task_id: id_or_zero(e.task_id) })
        } else {
            route_assignment_outcome(e, event_with_id(prior, c))
        },
    }
}

/// A memory node must come from the same task, root and correlation as its decommission.
pub open spec fn memory_context_outcome(memory: LoomEvent, decommission: LoomEvent) -> Result<
    (),
    LoomEventError,
> {
    if memory.task_id != decommission.task_id {
        Err(
            LoomEventError::MismatchedMemoryEvidence {
                memory_event_id: memory.event_id,
                decommission_event_id: decommission.event_id,
                field: "task_id",
            },
        )
    } else if memory.root_task_id != decommission.root_task_id {
        Err(
            LoomEventError::MismatchedMemoryEvidence {
                memory_event_id: memory.event_id,
                decommission_event_id: decommission.event_id,
                field: "root_task_id",
            },
        )
    } else if memory.correlation_id != decommission.correlation_id {
        Err(
            LoomEventError::MismatchedMemoryEvidence {
                memory_event_id: memory.event_id,
                decommission_event_id: decommission.event_id,
                field: "correlation_id",
            },
        )
    } else {
        Ok(())
    }
}

/// A memory node must be caused by a logged agent decommission.
pub open spec fn memory_evidence_outcome(prior: Seq<LoomEvent>, e: LoomEvent) -> Result<
    (),
    LoomEventError,
> {
    match e.causation_id {
        None => Err(LoomEventError::MissingMemoryEvidence { event_id: e.event_id }),
        Some(c) => if !has_id(prior, c) || event_with_id(prior, c).event_type
            != LoomEventType::AgentDecommissioned {
            Err(LoomEventError::MissingMemoryEvidence { event_id: e.event_id })
        } else {
            memory_context_outcome(e, event_with_id(prior, c))
        },
    }
}

/// A route decision must carry the route decision schema and an inline route decision reference.
pub open spec fn telemetry_outcome(e: LoomEvent) -> Result<(), LoomEventError> {
    if e.payload_schema@ != "qtom.route_decision.v1"@ {
        Err(
            LoomEventError::InvalidRouteDecisionTelemetry {
                event_id: e.event_id,
                field: "payload_schema",
            },
        )
    } else if !has_prefix(e.payload_ref@, "inline://route-decision/"@) {
        Err(LoomEventError::InvalidRouteDecisionTelemetry { event_id: e.event_id, field: "payload_ref" })
    } else {
        Ok(())
    }
}

/// A ready artifact whose cause is a logged declaration must match it.
pub open spec fn ready_declaration_outcome(prior: Seq<LoomEvent>, e: LoomEvent) -> Result<
    (),
    LoomEventError,
> {
    match e.causation_id {
        None => Ok(()),
        Some(c) => if !has_id(prior, c) {
            Ok(())
        } else if event_with_id(prior, c).event_type != LoomEventType::ArtifactDeclared {
            Ok(())
        } else {
            artifact_ready_outcome(e, event_with_id(prior, c))
        },
    }
}

/// The check of one event of a replay against the events before it.
pub open spec fn replay_step_outcome(prior: Seq<LoomEvent>, e: LoomEvent) -> Result<
    (),
    LoomEventError,
> {
    if e.event_type == LoomEventType::TaskAssigned && assignment_route_outcome(prior, e) is Err {
        assignment_route_outcome(prior, e)
    } else if e.event_type == LoomEventType::MemoryNodeCreated && memory_evidence_outcome(prior, e) is Err {
        memory_evidence_outcome(prior, e)
    } else if e.event_type == LoomEventType::RouteDecisionRecorded && telemetry_outcome(e) is Err {
        telemetry_outcome(e)
    } else if e.event_type == LoomEventType::ArtifactReady && ready_declaration_outcome(prior, e) is Err {
        ready_declaration_outcome(prior, e)
    } else {
        append_outcome(prior, e)
    }
}

/// The outcome of checking every event of `events` in order, stopping at the first refusal.
pub open spec fn scan_outcome(events: Seq<LoomEvent>) -> Result<(), LoomEventError>
    decreases events.len(),
{
    if events.len() == 0 {
        Ok(())
    } else {
        match scan_outcome(events.drop_last()) {
            Err(err) => Err(err),
            Ok(_) => replay_step_outcome(events.drop_last(), events.last()),
        }
    }
}

/// `e` is an event of kind `kind` about task `t`.
pub open spec fn links(e: LoomEvent, kind: LoomEventType, t: u64) -> bool {
    e.event_type == kind && e.task_id == Some(t)
}

/// The position of the last event of `s` of kind `kind` about task `t`.
pub open spec fn last_link(s: Seq<LoomEvent>, kind: LoomEventType, t: u64) -> Option<int>
    decreases s.len(),
{
    if s.len() == 0 {
        None
    } else if links(s.last(), kind, t) {
        Some(s.len() - 1)
    } else {
        last_link(s.drop_last(), kind, t)
    }
}

/// `e` creates a child task (one with a parent).
pub open spec fn is_child_task(e: LoomEvent) -> bool {
    e.event_type == LoomEventType::TaskCreated && e.parent_task_id is Some
}

/// The smaller of an optional minimum and a new value.
pub open spec fn min_with(m: Option<u64>, t: u64) -> Option<u64> {
    match m {
        None => Some(t),
        Some(x) => Some(if t < x { t } else { x }),
    }
}

/// The least task id of the child tasks of `s` whose parent has no integration in `all`.
pub open spec fn missing_integration_min(s: Seq<LoomEvent>, all: Seq<LoomEvent>) -> Option<u64>
    decreases s.len(),
{
    if s.len() == 0 {
        None
    } else {
        let rest = missing_integration_min(s.drop_last(), all);
        let e = s.last();
        if is_child_task(e) && last_link(all, LoomEventType::IntegrationRequested, e.parent_task_id->0) is None {
            min_with(rest, id_or_zero(e.task_id))
        } else {
            rest
        }
    }
}

/// The refusal for the first child task of `s` whose integration in `all`
/// comes from another root or correlation.
pub open spec fn integration_context_error(s: Seq<LoomEvent>, all: Seq<LoomEvent>) -> Option<
    LoomEventError,
>
    decreases s.len(),
{
    if s.len() == 0 {
        None
    } else {
        match integration_context_error(s.drop_last(), all) {
            Some(err) => Some(err),
            None => {
                let e = s.last();
                if is_child_task(e) {
                    match last_link(all, LoomEventType::IntegrationRequested, e.parent_task_id->0) {
                        None => None,
                        Some(k) => {
                            let ie = all[k];
                            if e.root_task_id != ie.root_task_id {
                                Some(
                                    LoomEventError::MismatchedTaskIntegration {
                                        task_id: id_or_zero(e.task_id),
                                        integration_event_id: ie.event_id,
                                        field: "root_task_id",
                                    },
                                )
                            } else if e.correlation_id != ie.correlation_id {
                                Some(
                                    LoomEventError::MismatchedTaskIntegration {
                                        task_id: id_or_zero(e.task_id),
                                        integration_event_id: ie.event_id,
                                        field: "correlation_id",
                                    },
                                )
                            } else {
                                None
                            }
                        },
                    }
                } else {
                    None
                }
            },
        }
    }
}

/// `e` completes some task.
pub open spec fn is_completion(e: LoomEvent) -> bool {
    e.event_type == LoomEventType::TaskCompleted && e.task_id is Some
}

/// The least id of the tasks completed in `s` that have no decommission in `all`.
pub open spec fn missing_decommission_min(s: Seq<LoomEvent>, all: Seq<LoomEvent>) -> Option<u64>
    decreases s.len(),
{
    if s.len() == 0 {
        None
    } else {
        let rest = missing_decommission_min(s.drop_last(), all);
        let e = s.last();
        if is_completion(e) && last_link(all, LoomEventType::AgentDecommissioned, e.task_id->0) is None {
            min_with(rest, e.task_id->0)
        } else {
            rest
        }
    }
}

/// The last completion and the last decommission of task `t` differ in root or correlation.
pub open spec fn decommission_mismatch(all: Seq<LoomEvent>, t: u64) -> bool {
    match (last_link(all, LoomEventType::TaskCompleted, t), last_link(all, LoomEventType::AgentDecommissioned, t)) {
        (Some(c), Some(d)) => all[c].root_task_id != all[d].root_task_id || all[c].correlation_id
            != all[d].correlation_id,
        _ => false,
    }
}

/// The least id of the tasks completed in `s` whose decommission in `all` does not match.
pub open spec fn mismatched_decommission_min(s: Seq<LoomEvent>, all: Seq<LoomEvent>) -> Option<u64>
    decreases s.len(),
{
    if s.len() == 0 {
        None
    } else {
        let rest = mismatched_decommission_min(s.drop_last(), all);
        let e = s.last();
        if is_completion(e) && decommission_mismatch(all, e.task_id->0) {
            min_with(rest, e.task_id->0)
        } else {
            rest
        }
    }
}

/// The refusal for task `t` whose last completion and decommission do not match.
pub open spec fn decommission_error(all: Seq<LoomEvent>, t: u64) -> LoomEventError {
    let c = all[last_link(all, LoomEventType::TaskCompleted, t)->0];
    let d = all[last_link(all, LoomEventType::AgentDecommissioned, t)->0];
    if c.root_task_id != d.root_task_id {
        LoomEventError::MismatchedTaskDecommission {
            task_id: t,
            decommission_event_id: d.event_id,
            field: "root_task_id",
        }
    } else {
        LoomEventError::MismatchedTaskDecommission {
            task_id: t,
            decommission_event_id: d.event_id,
            field: "correlation_id",
        }
    }
}

/// The number of events of `s` of kind `kind`.
pub open spec fn count_kind(s: Seq<LoomEvent>, kind: LoomEventType) -> nat
    decreases s.len(),
{
    if s.len() == 0 {
        0
    } else {
        count_kind(s.drop_last(), kind) + if s.last().event_type == kind { 1nat } else { 0nat }
    }
}

/// The number of events of `s` that name a task.
pub open spec fn count_with_task(s: Seq<LoomEvent>) -> nat
    decreases s.len(),
{
    if s.len() == 0 {
        0
    } else {
        count_with_task(s.drop_last()) + if s.last().task_id is Some { 1nat } else { 0nat }
    }
}

/// The root task ids that occur in `s`.
pub open spec fn root_ids(s: Seq<LoomEvent>) -> Set<u64> {
    s.map_values(|e: LoomEvent| e.root_task_id).to_set()
}

/// The lifecycle report of a replay of `events`.
pub open spec fn replay_report(events: Seq<LoomEvent>) -> ReplayValidationReport {
    ReplayValidationReport {
        event_count: events.len() as usize,
        root_task_count: root_ids(events).len() as usize,
        task_event_count: count_with_task(events) as usize,
        route_decision_count: count_kind(events, LoomEventType::RouteDecisionRecorded) as usize,
        assignment_count: count_kind(events, LoomEventType::TaskAssigned) as usize,
        completion_count: count_kind(events, LoomEventType::TaskCompleted) as usize,
        decommission_count: count_kind(events, LoomEventType::AgentDecommissioned) as usize,
        memory_node_count: count_kind(events, LoomEventType::MemoryNodeCreated) as usize,
        topology_shadow_count: count_kind(events, LoomEventType::TopologyShadowed) as usize,
        topology_canary_count: count_kind(events, LoomEventType::TopologyCanaried) as usize,
        topology_commit_count: count_kind(events, LoomEventType::TopologyCommitted) as usize,
        topology_rollback_count: count_kind(events, LoomEventType::TopologyRolledBack) as usize,
        integration_request_count: count_kind(events, LoomEventType::IntegrationRequested) as usize,
    }
}

/// The outcome of validating a replay of `events`.
pub open spec fn replay_outcome(events: Seq<LoomEvent>) -> Result<
    ReplayValidationReport,
    LoomEventError,
> {
    match scan_outcome(events) {
        Err(err) => Err(err),
        Ok(_) => match missing_integration_min(events, events) {
            Some(t) => Err(LoomEventError::MissingTaskIntegration { task_id: t }),
            None => match integration_context_error(events, events) {
                Some(err) => Err(err),
                None => match missing_decommission_min(events, events) {
                    Some(t) => Err(LoomEventError::MissingTaskDecommission { task_id: t }),
                    None => match mismatched_decommission_min(events, events) {
                        Some(t) => Err(decommission_error(events, t)),
                        None => Ok(replay_report(events)),
                    },
                },
            },
        },
    }
}

proof fn lemma_take_step(events: Seq<LoomEvent>, k: int)
    requires
        0 <= k < events.len(),
    ensures
        events.take(k + 1).drop_last() == events.take(k),
        events.take(k + 1).last() == events[k],
        events.take(k + 1).len() == k + 1,
{
    assert(events.take(k + 1).drop_last() =~= events.take(k));
}

proof fn lemma_scan_prefix_err(events: Seq<LoomEvent>, k: int)
    requires
        0 <= k <= events.len(),
        scan_outcome(events.take(k)) is Err,
    ensures
        scan_outcome(events) == scan_outcome(events.take(k)),
    decreases events.len() - k,
{
    if k == events.len() {
        assert(events.take(k) =~= events);
    } else {
        lemma_take_step(events, k);
        lemma_scan_prefix_err(events, k + 1);
    }
}

proof fn lemma_integration_error_prefix(s: Seq<LoomEvent>, all: Seq<LoomEvent>, k: int)
    requires
        0 <= k <= s.len(),
        integration_context_error(s.take(k), all) is Some,
    ensures
        integration_context_error(s, all) == integration_context_error(s.take(k), all),
    decreases s.len() - k,
{
    if k == s.len() {
        assert(s.take(k) =~= s);
    } else {
        lemma_take_step(s, k);
        lemma_integration_error_prefix(s, all, k + 1);
    }
}

proof fn lemma_counts_bounded(s: Seq<LoomEvent>, kind: LoomEventType)
    ensures
        count_kind(s, kind) <= s.len(),
        count_with_task(s) <= s.len(),
    decreases s.len(),
{
    if s.len() > 0 {
        lemma_counts_bounded(s.drop_last(), kind);
    }
}

proof fn lemma_root_ids_step(events: Seq<LoomEvent>, k: int)
    requires
        0 <= k < events.len(),
    ensures
        root_ids(events.take(k + 1)) == root_ids(events.take(k)).insert(events[k].root_task_id),
{
    let prev = events.take(k).map_values(|e: LoomEvent| e.root_task_id);
    let next = events.take(k + 1).map_values(|e: LoomEvent| e.root_task_id);
    assert(next =~= prev.push(events[k].root_task_id));
    assert forall|x: u64| #[trigger] next.to_set().contains(x) == prev.to_set().insert(
        events[k].root_task_id,
    ).contains(x) by {
        if next.contains(x) {
            let i = choose|i: int| 0 <= i < next.len() && next[i] == x;
            if i < prev.len() {
                assert(prev[i] == x);
            }
        }
        if prev.contains(x) {
            let i = choose|i: int| 0 <= i < prev.len() && prev[i] == x;
            assert(next[i] == x);
        }
        if x == events[k].root_task_id {
            assert(next[k] == x);
        }
    }
    assert(next.to_set() =~= prev.to_set().insert(events[k].root_task_id));
}

fn vec_contains_u64(v: &Vec<u64>, x: u64) -> (r: bool)
    ensures
        r == v@.contains(x),
{
    let n = v.len();
    let mut i: usize = 0;
    while i < n
        invariant
            n == v@.len(),
            i <= n,
            forall|j: int| 0 <= j < i ==> v@[j] != x,
        decreases n - i,
    {
        if v[i] == x {
            return true;
        }
        i = i + 1;
    }
    false
}

/// The position of the last event about task `t` of kind `kind`.
fn find_last_link(events: &[LoomEvent], kind: LoomEventType, t: u64) -> (r: Option<usize>)
    ensures
        match r {
            Some(i) => last_link(events@, kind, t) == Some(i as int) && i < events@.len(),
            None => last_link(events@, kind, t) is None,
        },
{
    let n = events.len();
    let mut i: usize = n;
    assert(events@.take(n as int) =~= events@);
    while i > 0
        invariant
            n == events@.len(),
            i <= n,
            last_link(events@, kind, t) == last_link(events@.take(i as int), kind, t),
        decreases i,
    {
        proof {
            lemma_take_step(events@, i - 1);
        }
        let e = &events[i - 1];
        if e.event_type == kind && e.task_id == Some(t) {
            return Some(i - 1);
        }
        i = i - 1;
    }
    None
}

fn validate_assignment_route_decision(events: &[LoomEvent], k: usize, e: &LoomEvent) -> (r: Result<
    (),
    LoomEventError,
>)
    requires
        k <= events@.len(),
    ensures
        r == assignment_route_outcome(events@.take(k as int), *e),
{
    match e.causation_id {
        None => Ok(()),
        Some(c) => match find_index_before(events, k, c) {
            None => Err(LoomEventError::MissingTaskRouteDecision { task_id: id_or_zero_exec(e.task_id) }),
            Some(i) => validate_route_decision_assignment_context(e, &events[i]),
        },
    }
}

fn validate_memory_evidence_context(memory: &LoomEvent, decommission: &LoomEvent) -> (r: Result<
    (),
    LoomEventError,
>)
    ensures
        r == memory_context_outcome(*memory, *decommission),
{
    if memory.task_id != decommission.task_id {
        return Err(
            LoomEventError::MismatchedMemoryEvidence {
                memory_event_id: memory.event_id,
                decommission_event_id: decommission.event_id,
                field: "task_id",
            },
        );
    }
    if memory.root_task_id != decommission.root_task_id {
        return Err(
            LoomEventError::MismatchedMemoryEvidence {
                memory_event_id: memory.event_id,
                decommission_event_id: decommission.event_id,
                field: "root_task_id",
            },
        );
    }
    if memory.correlation_id != decommission.correlation_id {
        return Err(
            LoomEventError::MismatchedMemoryEvidence {
                memory_event_id: memory.event_id,
                decommission_event_id: decommission.event_id,
                field: "correlation_id",
            },
        );
    }
    Ok(())
}

fn validate_memory_evidence(events: &[LoomEvent], k: usize, e: &LoomEvent) -> (r: Result<
    (),
    LoomEventError,
>)
    requires
        k <= events@.len(),
    ensures
        r == memory_evidence_outcome(events@.take(k as int), *e),
{
    match e.causation_id {
        None => Err(LoomEventError::MissingMemoryEvidence { event_id: e.event_id }),
        Some(c) => match find_index_before(events, k, c) {
            None => Err(LoomEventError::MissingMemoryEvidence { event_id: e.event_id }),
            Some(i) => {
                if events[i].event_type != LoomEventType::AgentDecommissioned {
                    Err(LoomEventError::MissingMemoryEvidence { event_id: e.event_id })
                } else {
                    validate_memory_evidence_context(e, &events[i])
                }
            },
        },
    }
}

fn validate_route_decision_telemetry(e: &LoomEvent) -> (r: Result<(), LoomEventError>)
    ensures
        r == telemetry_outcome(*e),
{
    if !str_eq(e.payload_schema.as_str(), "qtom.route_decision.v1") {
        return Err(
            LoomEventError::InvalidRouteDecisionTelemetry {
                event_id: e.event_id,
                field: "payload_schema",
            },
        );
    }
    if !starts_with_str(e.payload_ref.as_str(), "inline://route-decision/") {
        return Err(
            LoomEventError::InvalidRouteDecisionTelemetry { event_id: e.event_id, field: "payload_ref" },
        );
    }
    Ok(())
}

fn validate_artifact_ready(events: &[LoomEvent], k: usize, e: &LoomEvent) -> (r: Result<
    (),
    LoomEventError,
>)
    requires
        k <= events@.len(),
    ensures
        r == ready_declaration_outcome(events@.take(k as int), *e),
{
    match e.causation_id {
        None => Ok(()),
        Some(c) => match find_index_before(events, k, c) {
            None => Ok(()),
            Some(i) => {
                if events[i].event_type != LoomEventType::ArtifactDeclared {
                    Ok(())
                } else {
                    validate_artifact_ready_context(e, &events[i])
                }
            },
        },
    }
}

fn replay_step(events: &[LoomEvent], k: usize) -> (r: Result<(), LoomEventError>)
    requires
        k < events@.len(),
    ensures
        r == replay_step_outcome(events@.take(k as int), events@[k as int]),
{
    let e = &events[k];
    if e.event_type == LoomEventType::TaskAssigned {
        let checked = validate_assignment_route_decision(events, k, e);
        if checked.is_err() {
            return checked;
        }
    }
    if e.event_type == LoomEventType::MemoryNodeCreated {
        let checked = validate_memory_evidence(events, k, e);
        if checked.is_err() {
            return checked;
        }
    }
    if e.event_type == LoomEventType::RouteDecisionRecorded {
        let checked = validate_route_decision_telemetry(e);
        if checked.is_err() {
            return checked;
        }
    }
    if e.event_type == LoomEventType::ArtifactReady {
        let checked = validate_artifact_ready(events, k, e);
        if checked.is_err() {
            return checked;
        }
    }
    check_append(events, k, e)
}

/// Validates a replay of `events`: each event against those before it,
/// then the integration and decommission paths, and reports the lifecycle counts.
pub fn validate_events(events: &[LoomEvent]) -> (r: Result<ReplayValidationReport, LoomEventError>)
    ensures
        r == replay_outcome(events@),
{
    let n = events.len();
    let mut roots: Vec<u64> = Vec::new();
    let mut task_event_count: usize = 0;
    let mut route_decision_count: usize = 0;
    let mut assignment_count: usize = 0;
    let mut completion_count: usize = 0;
    let mut decommission_count: usize = 0;
    let mut memory_node_count: usize = 0;
    let mut topology_shadow_count: usize = 0;
    let mut topology_canary_count: usize = 0;
    let mut topology_commit_count: usize = 0;
    let mut topology_rollback_count: usize = 0;
    let mut integration_request_count: usize = 0;
    let mut k: usize = 0;
    proof {
        assert(roots@.to_set() =~= root_ids(events@.take(0)));
    }
    while k < n
        invariant
            n == events@.len(),
            k <= n,
            scan_outcome(events@.take(k as int)) is Ok,
            roots@.no_duplicates(),
            roots@.to_set() == root_ids(events@.take(k as int)),
            task_event_count == count_with_task(events@.take(k as int)),
            route_decision_count == count_kind(events@.take(k as int), LoomEventType::RouteDecisionRecorded),
            assignment_count == count_kind(events@.take(k as int), LoomEventType::TaskAssigned),
            completion_count == count_kind(events@.take(k as int), LoomEventType::TaskCompleted),
            decommission_count == count_kind(events@.take(k as int), LoomEventType::AgentDecommissioned),
            memory_node_count == count_kind(events@.take(k as int), LoomEventType::MemoryNodeCreated),
            topology_shadow_count == count_kind(events@.take(k as int), LoomEventType::TopologyShadowed),
            topology_canary_count == count_kind(events@.take(k as int), LoomEventType::TopologyCanaried),
            topology_commit_count == count_kind(events@.take(k as int), LoomEventType::TopologyCommitted),
            topology_rollback_count == count_kind(events@.take(k as int), LoomEventType::TopologyRolledBack),
            integration_request_count == count_kind(events@.take(k as int), LoomEventType::IntegrationRequested),
        decreases n - k,
    {
        proof {
            lemma_take_step(events@, k as int);
        }
        let step = replay_step(events, k);
        if let Err(err) = step {
            proof {
                lemma_scan_prefix_err(events@, k + 1);
            }
            return Err(err);
        }
        let e = &events[k];
        proof {
            lemma_counts_bounded(events@.take(k as int), e.event_type);
            lemma_root_ids_step(events@, k as int);
        }
        if e.task_id.is_some() {
            task_event_count = task_event_count + 1;
        }
        match e.event_type {
            LoomEventType::RouteDecisionRecorded => {
                route_decision_count = route_decision_count + 1;
            },
            LoomEventType::TaskAssigned => {
                assignment_count = assignment_count + 1;
            },
            LoomEventType::TaskCompleted => {
                completion_count = completion_count + 1;
            },
            LoomEventType::AgentDecommissioned => {
                decommission_count = decommission_count + 1;
            },
            LoomEventType::MemoryNodeCreated => {
                memory_node_count = memory_node_count + 1;
            },
            LoomEventType::TopologyShadowed => {
                topology_shadow_count = topology_shadow_count + 1;
            },
            LoomEventType::TopologyCanaried => {
                topology_canary_count = topology_canary_count + 1;
            },
            LoomEventType::TopologyCommitted => {
                topology_commit_count = topology_commit_count + 1;
            },
            LoomEventType::TopologyRolledBack => {
                topology_rollback_count = topology_rollback_count + 1;
            },
            LoomEventType::IntegrationRequested => {
                integration_request_count = integration_request_count + 1;
            },
            _ => {},
        }
        if !vec_contains_u64(&roots, e.root_task_id) {
            let ghost before = roots@;
            roots.push(e.root_task_id);
            proof {
                assert(roots@.to_set() =~= before.to_set().insert(e.root_task_id)) by {
                    assert forall|x: u64| #[trigger] roots@.contains(x) == (before.contains(x) || x == e.root_task_id) by {
                        if roots@.contains(x) {
                            let i = choose|i: int| 0 <= i < roots@.len() && roots@[i] == x;
                            if i < before.len() {
                                assert(before[i] == x);
                            }
                        }
                        if before.contains(x) {
                            let i = choose|i: int| 0 <= i < before.len() && before[i] == x;
                            assert(roots@[i] == x);
                        }
                        if x == e.root_task_id {
                            assert(roots@[before.len() as int] == x);
                        }
                    }
                }
                assert forall|i: int, j: int| 0 <= i < roots@.len() && 0 <= j < roots@.len() && i != j implies roots@[i] != roots@[j] by {
                    if i < before.len() && j < before.len() {
                    } else if i < before.len() {
                        assert(before.contains(roots@[i]));
                    } else {
                        assert(before.contains(roots@[j]));
                    }
                }
            }
        } else {
            proof {
                assert(roots@.to_set() =~= roots@.to_set().insert(e.root_task_id));
            }
        }
        k = k + 1;
    }
    proof {
        assert(events@.take(n as int) =~= events@);
    }
    let mut missing: Option<u64> = None;
    let mut i: usize = 0;
    while i < n
        invariant
            n == events@.len(),
            i <= n,
            missing == missing_integration_min(events@.take(i as int), events@),
        decreases n - i,
    {
        proof {
            lemma_take_step(events@, i as int);
        }
        let e = &events[i];
        if e.event_type == LoomEventType::TaskCreated {
            if let Some(parent) = e.parent_task_id {
                if find_last_link(events, LoomEventType::IntegrationRequested, parent).is_none() {
                    let t = id_or_zero_exec(e.task_id);
                    missing = match missing {
                        None => Some(t),
                        Some(m) => Some(if t < m { t } else { m }),
                    };
                }
            }
        }
        i = i + 1;
    }
    if let Some(t) = missing {
        return Err(LoomEventError::MissingTaskIntegration { task_id: t });
    }
    let mut i: usize = 0;
    while i < n
        invariant
            n == events@.len(),
            i <= n,
            scan_outcome(events@) is Ok,
            missing_integration_min(events@, events@) is None,
            integration_context_error(events@.take(i as int), events@) is None,
        decreases n - i,
    {
        proof {
            lemma_take_step(events@, i as int);
        }
        let e = &events[i];
        if e.event_type == LoomEventType::TaskCreated {
            if let Some(parent) = e.parent_task_id {
                if let Some(j) = find_last_link(events, LoomEventType::IntegrationRequested, parent) {
                    let ie = &events[j];
                    if e.root_task_id != ie.root_task_id {
                        proof {
                            lemma_integration_error_prefix(events@, events@, i + 1);
                        }
                        return Err(
                            LoomEventError::MismatchedTaskIntegration {
                                task_id: id_or_zero_exec(e.task_id),
                                integration_event_id: ie.event_id,
                                field: "root_task_id",
                            },
                        );
                    }
                    if e.correlation_id != ie.correlation_id {
                        proof {
                            lemma_integration_error_prefix(events@, events@, i + 1);
                        }
                        return Err(
                            LoomEventError::MismatchedTaskIntegration {
                                task_id: id_or_zero_exec(e.task_id),
                                integration_event_id: ie.event_id,
                                field: "correlation_id",
                            },
                        );
                    }
                }
            }
        }
        i = i + 1;
    }
    let mut missing: Option<u64> = None;
    let mut i: usize = 0;
    while i < n
        invariant
            n == events@.len(),
            i <= n,
            missing == missing_decommission_min(events@.take(i as int), events@),
        decreases n - i,
    {
        proof {
            lemma_take_step(events@, i as int);
        }
        let e = &events[i];
        if e.event_type == LoomEventType::TaskCompleted {
            if let Some(t) = e.task_id {
                if find_last_link(events, LoomEventType::AgentDecommissioned, t).is_none() {
                    missing = match missing {
                        None => Some(t),
                        Some(m) => Some(if t < m { t } else { m }),
                    };
                }
            }
        }
        i = i + 1;
    }
    if let Some(t) = missing {
        return Err(LoomEventError::MissingTaskDecommission { task_id: t });
    }
    let mut mismatched: Option<u64> = None;
    let mut i: usize = 0;
    while i < n
        invariant
            n == events@.len(),
            i <= n,
            mismatched == mismatched_decommission_min(events@.take(i as int), events@),
        decreases n - i,
    {
        proof {
            lemma_take_step(events@, i as int);
        }
        let e = &events[i];
        if e.event_type == LoomEventType::TaskCompleted {
            if let Some(t) = e.task_id {
                let c = find_last_link(events, LoomEventType::TaskCompleted, t);
                let d = find_last_link(events, LoomEventType::AgentDecommissioned, t);
                if let (Some(ci), Some(di)) = (c, d) {
                    if events[ci].root_task_id != events[di].root_task_id || events[ci].correlation_id
                        != events[di].correlation_id {
                        mismatched = match mismatched {
                            None => Some(t),
                            Some(m) => Some(if t < m { t } else { m }),
                        };
                    }
                }
            }
        }
        i = i + 1;
    }
    if let Some(t) = mismatched {
        let c = find_last_link(events, LoomEventType::TaskCompleted, t);
        let d = find_last_link(events, LoomEventType::AgentDecommissioned, t);
        match (c, d) {
            (Some(ci), Some(di)) => {
                if events[ci].root_task_id != events[di].root_task_id {
                    return Err(
                        LoomEventError::MismatchedTaskDecommission {
                            task_id: t,
                            decommission_event_id: events[di].event_id,
                            field: "root_task_id",
                        },
                    );
                }
                return Err(
                    LoomEventError::MismatchedTaskDecommission {
                        task_id: t,
                        decommission_event_id: events[di].event_id,
                        field: "correlation_id",
                    },
                );
            },
            _ => {
                proof {
                    lemma_mismatch_has_links(events@, events@, t);
                }
                return Err(LoomEventError::EmptyReplayLog);
            },
        }
    }
    proof {
        roots@.unique_seq_to_set();
    }
    Ok(
        ReplayValidationReport {
            event_count: n,
            root_task_count: roots.len(),
            task_event_count,
            route_decision_count,
            assignment_count,
            completion_count,
            decommission_count,
            memory_node_count,
            topology_shadow_count,
            topology_canary_count,
            topology_commit_count,
            topology_rollback_count,
            integration_request_count,
        },
    )
}

proof fn lemma_mismatch_has_links(s: Seq<LoomEvent>, all: Seq<LoomEvent>, t: u64)
    requires
        mismatched_decommission_min(s, all) == Some(t),
    ensures
        last_link(all, LoomEventType::TaskCompleted, t) is Some,
        last_link(all, LoomEventType::AgentDecommissioned, t) is Some,
    decreases s.len(),
{
    if s.len() > 0 {
        let rest = mismatched_decommission_min(s.drop_last(), all);
        let e = s.last();
        if is_completion(e) && decommission_mismatch(all, e.task_id->0) {
            match rest {
                None => {},
                Some(x) => {
                    if x <= e.task_id->0 {
                        lemma_mismatch_has_links(s.drop_last(), all, t);
                    }
                },
            }
        } else {
            lemma_mismatch_has_links(s.drop_last(), all, t);
        }
    }
}

impl InMemoryEventLog {
    /// Validates a replay of the logged events.
    pub fn validate_replay(&self) -> (r: Result<ReplayValidationReport, LoomEventError>)
        ensures
            r == replay_outcome(self@),
    {
        validate_events(self.events().as_slice())
    }
}

proof fn lemma_scan_ok_prefix(events: Seq<LoomEvent>, k: int)
    requires
        scan_outcome(events) is Ok,
        0 <= k < events.len(),
    ensures
        append_outcome(events.take(k), events[k]) is Ok,
        scan_outcome(events.take(k + 1)) is Ok,
    decreases events.len(),
{
    let rest = events.drop_last();
    if k == events.len() - 1 {
        assert(events.take(k) =~= rest);
        assert(events.take(k + 1) =~= events);
    } else {
        lemma_scan_ok_prefix(rest, k);
        assert(rest.take(k) =~= events.take(k));
        assert(rest.take(k + 1) =~= events.take(k + 1));
        assert(rest[k] == events[k]);
    }
}

/// A slice of events that passes replay validation can be loaded into an
/// event log by appending its events in order: every append succeeds, and
/// no two of its events share an id.
pub proof fn law_validated_replay_appends(events: Seq<LoomEvent>)
    requires
        replay_outcome(events) is Ok,
    ensures
        forall|k: int| 0 <= k < events.len() ==> (#[trigger] append_outcome(events.take(k), events[k]))
            is Ok,
        ids_unique(events),
{
    assert forall|k: int| 0 <= k < events.len() implies (#[trigger] append_outcome(
        events.take(k),
        events[k],
    )) is Ok by {
        lemma_scan_ok_prefix(events, k);
    }
    assert forall|i: int, j: int|
        0 <= i < events.len() && 0 <= j < events.len() && i != j implies #[trigger] events[i].event_id
        != #[trigger] events[j].event_id by {
        if i < j {
            lemma_scan_ok_prefix(events, j);
            if events[i].event_id == events[j].event_id {
                assert(events.take(j)[i] == events[i]);
                assert(has_id(events.take(j), events[j].event_id));
            }
        } else {
            lemma_scan_ok_prefix(events, i);
            if events[i].event_id == events[j].event_id {
                assert(events.take(i)[j] == events[j]);
                assert(has_id(events.take(i), events[i].event_id));
            }
        }
    }
}

proof fn lemma_root_ids_bounded(s: Seq<LoomEvent>)
    ensures
        root_ids(s).len() <= s.len(),
        s.len() > 0 ==> root_ids(s).len() >= 1,
{
    let m = s.map_values(|e: LoomEvent| e.root_task_id);
    m.lemma_cardinality_of_set();
    if s.len() > 0 {
        assert(m.to_set().contains(m[0]));
        vstd::seq_lib::seq_to_set_is_finite(m);
        if m.to_set().len() == 0 {
            m.to_set().lemma_len0_is_empty();
        }
    }
}

/// A validated replay reports every event once: the per-kind counts and
/// the number of roots never exceed the number of events, and a non-empty
/// replay has at least one root task.
pub proof fn law_replay_report_counts(events: Seq<LoomEvent>)
    requires
        events.len() <= usize::MAX,
        replay_outcome(events) is Ok,
    ensures
        replay_outcome(events) matches Ok(rep) && rep.event_count == events.len()
            && rep.root_task_count <= rep.event_count && rep.task_event_count <= rep.event_count
            && rep.route_decision_count + rep.assignment_count <= rep.event_count
            && rep.completion_count <= rep.event_count && rep.decommission_count <= rep.event_count
            && (events.len() > 0 ==> rep.root_task_count >= 1),
{
    lemma_root_ids_bounded(events);
    lemma_counts_bounded(events, LoomEventType::TaskCompleted);
    lemma_counts_bounded(events, LoomEventType::AgentDecommissioned);
    lemma_two_kinds_bounded(events);
}

proof fn lemma_two_kinds_bounded(s: Seq<LoomEvent>)
    ensures
        count_kind(s, LoomEventType::RouteDecisionRecorded) + count_kind(s, LoomEventType::TaskAssigned)
            <= s.len(),
    decreases s.len(),
{
    if s.len() > 0 {
        lemma_two_kinds_bounded(s.drop_last());
    }
}

/// Some event of `all` of kind `kind` is about task `t`.
pub open spec fn has_link(all: Seq<LoomEvent>, kind: LoomEventType, t: u64) -> bool {
    exists|j: int| 0 <= j < all.len() && links(#[trigger] all[j], kind, t)
}

/// A child task created in `events` whose parent has no integration request there.
pub open spec fn is_unintegrated_child(events: Seq<LoomEvent>, e: LoomEvent) -> bool {
    is_child_task(e) && !has_link(events, LoomEventType::IntegrationRequested, e.parent_task_id->0)
}

/// Task `t` is completed in `events`.
pub open spec fn completes(events: Seq<LoomEvent>, t: u64) -> bool {
    has_link(events, LoomEventType::TaskCompleted, t)
}

/// Task `t` is completed in `events` and never decommissioned there.
pub open spec fn is_undecommissioned(events: Seq<LoomEvent>, t: u64) -> bool {
    completes(events, t) && !has_link(events, LoomEventType::AgentDecommissioned, t)
}

proof fn lemma_last_link_found(all: Seq<LoomEvent>, kind: LoomEventType, t: u64)
    ensures
        (last_link(all, kind, t) is Some) == has_link(all, kind, t),
        last_link(all, kind, t) matches Some(k) ==> 0 <= k < all.len() && links(all[k], kind, t),
    decreases all.len(),
{
    if all.len() > 0 {
        let rest = all.drop_last();
        lemma_last_link_found(rest, kind, t);
        if has_link(rest, kind, t) {
            let j = choose|j: int| 0 <= j < rest.len() && links(#[trigger] rest[j], kind, t);
            assert(all[j] == rest[j]);
        }
        if has_link(all, kind, t) && !links(all.last(), kind, t) {
            let j = choose|j: int| 0 <= j < all.len() && links(#[trigger] all[j], kind, t);
            assert(j < rest.len());
            assert(rest[j] == all[j]);
        }
    }
}

proof fn lemma_min_with(m: Option<u64>, t: u64)
    ensures
        min_with(m, t) matches Some(x) && x <= t && (x == t || m == Some(x)),
        m matches Some(y) ==> (min_with(m, t) matches Some(x) && x <= y),
{
}

proof fn lemma_missing_integration_min_is_least(s: Seq<LoomEvent>, all: Seq<LoomEvent>)
    ensures
        forall|i: int| 0 <= i < s.len() && is_unintegrated_child(all, #[trigger] s[i]) ==> (missing_integration_min(s, all)
            matches Some(m) && m <= id_or_zero(s[i].task_id)),
        missing_integration_min(s, all) matches Some(m) ==> exists|i: int| 0 <= i < s.len()
            && is_unintegrated_child(all, #[trigger] s[i]) && id_or_zero(s[i].task_id) == m,
    decreases s.len(),
{
    if s.len() > 0 {
        let rest = s.drop_last();
        let e = s.last();
        lemma_missing_integration_min_is_least(rest, all);
        lemma_last_link_found(all, LoomEventType::IntegrationRequested, e.parent_task_id->0);
        let r = missing_integration_min(rest, all);
        lemma_min_with(r, id_or_zero(e.task_id));
        assert forall|i: int| 0 <= i < s.len() && is_unintegrated_child(all, #[trigger] s[i]) implies (missing_integration_min(s, all)
            matches Some(m) && m <= id_or_zero(s[i].task_id)) by {
            if i < rest.len() {
                assert(rest[i] == s[i]);
            }
        }
        if missing_integration_min(s, all) is Some {
            let m = missing_integration_min(s, all)->0;
            if is_unintegrated_child(all, e) && m == id_or_zero(e.task_id) {
                assert(s[s.len() - 1] == e);
            } else {
                let i = choose|i: int| 0 <= i < rest.len() && is_unintegrated_child(all, #[trigger] rest[i])
                    && id_or_zero(rest[i].task_id) == m;
                assert(s[i] == rest[i]);
            }
        }
    }
}

proof fn lemma_missing_decommission_min_is_least(s: Seq<LoomEvent>, all: Seq<LoomEvent>)
    ensures
        forall|i: int|
            0 <= i < s.len() && is_completion(#[trigger] s[i]) && !has_link(
                all,
                LoomEventType::AgentDecommissioned,
                s[i].task_id->0,
            ) ==> (missing_decommission_min(s, all) matches Some(m) && m <= s[i].task_id->0),
        missing_decommission_min(s, all) matches Some(m) ==> exists|i: int|
            0 <= i < s.len() && is_completion(#[trigger] s[i]) && !has_link(
                all,
                LoomEventType::AgentDecommissioned,
                s[i].task_id->0,
            ) && s[i].task_id->0 == m,
    decreases s.len(),
{
    if s.len() > 0 {
        let rest = s.drop_last();
        let e = s.last();
        lemma_missing_decommission_min_is_least(rest, all);
        lemma_last_link_found(all, LoomEventType::AgentDecommissioned, e.task_id->0);
        let r = missing_decommission_min(rest, all);
        lemma_min_with(r, e.task_id->0);
        assert forall|i: int|
            0 <= i < s.len() && is_completion(#[trigger] s[i]) && !has_link(
                all,
                LoomEventType::AgentDecommissioned,
                s[i].task_id->0,
            ) implies (missing_decommission_min(s, all) matches Some(m) && m <= s[i].task_id->0) by {
            if i < rest.len() {
                assert(rest[i] == s[i]);
            }
        }
        if missing_decommission_min(s, all) is Some {
            let m = missing_decommission_min(s, all)->0;
            if is_completion(e) && !has_link(all, LoomEventType::AgentDecommissioned, e.task_id->0)
                && m == e.task_id->0 {
                assert(s[s.len() - 1] == e);
            } else {
                let i = choose|i: int|
                    0 <= i < rest.len() && is_completion(#[trigger] rest[i]) && !has_link(
                        all,
                        LoomEventType::AgentDecommissioned,
                        rest[i].task_id->0,
                    ) && rest[i].task_id->0 == m;
                assert(s[i] == rest[i]);
            }
        }
    }
}

/// Every event of a replay whose per-event checks pass carries the fields its kind requires.
proof fn lemma_scanned_fields(events: Seq<LoomEvent>, i: int)
    requires
        scan_outcome(events) is Ok,
        0 <= i < events.len(),
    ensures
        crate::loom::event_fields_outcome(events[i]) is Ok,
{
    lemma_scan_ok_prefix(events, i);
}

/// A replay whose events pass their own checks, and which creates a child
/// task whose parent has no integration request, is refused for the least
/// id among such child tasks.
pub proof fn law_missing_integration_is_least(events: Seq<LoomEvent>, t: u64)
    requires
        scan_outcome(events) is Ok,
        exists|i: int| 0 <= i < events.len() && is_unintegrated_child(events, #[trigger] events[i])
            && events[i].task_id == Some(t),
        forall|i: int| 0 <= i < events.len() && is_unintegrated_child(events, #[trigger] events[i]) ==> t
            <= events[i].task_id->0,
    ensures
        replay_outcome(events) == Err::<ReplayValidationReport, LoomEventError>(
            LoomEventError::MissingTaskIntegration { task_id: t },
        ),
{
    lemma_missing_integration_min_is_least(events, events);
    let i = choose|i: int| 0 <= i < events.len() && is_unintegrated_child(events, #[trigger] events[i])
        && events[i].task_id == Some(t);
    let m = missing_integration_min(events, events)->0;
    let j = choose|j: int| 0 <= j < events.len() && is_unintegrated_child(events, #[trigger] events[j])
        && id_or_zero(events[j].task_id) == m;
    lemma_scanned_fields(events, j);
    assert(events[j].task_id is Some);
    assert(m <= t);
    assert(t <= m);
}

/// A replay whose events pass their own checks and whose child tasks all
/// have consistent integration requests, and which completes a task that
/// is never decommissioned, is refused for the least id among such tasks.
pub proof fn law_missing_decommission_is_least(events: Seq<LoomEvent>, t: u64)
    requires
        scan_outcome(events) is Ok,
        forall|i: int| 0 <= i < events.len() ==> !is_unintegrated_child(events, #[trigger] events[i]),
        integration_context_error(events, events) is None,
        is_undecommissioned(events, t),
        forall|u: u64| #[trigger] is_undecommissioned(events, u) ==> t <= u,
    ensures
        replay_outcome(events) == Err::<ReplayValidationReport, LoomEventError>(
            LoomEventError::MissingTaskDecommission { task_id: t },
        ),
{
    lemma_missing_integration_min_is_least(events, events);
    lemma_missing_decommission_min_is_least(events, events);
    assert(missing_integration_min(events, events) is None);
    let i = choose|i: int| 0 <= i < events.len() && links(#[trigger] events[i], LoomEventType::TaskCompleted, t);
    assert(is_completion(events[i]) && events[i].task_id->0 == t);
    let m = missing_decommission_min(events, events)->0;
    let j = choose|j: int|
        0 <= j < events.len() && is_completion(#[trigger] events[j]) && !has_link(
            events,
            LoomEventType::AgentDecommissioned,
            events[j].task_id->0,
        ) && events[j].task_id->0 == m;
    assert(links(events[j], LoomEventType::TaskCompleted, m));
    assert(is_undecommissioned(events, m));
    assert(t <= m);
}

proof fn lemma_mismatched_decommission_min_is_least(s: Seq<LoomEvent>, all: Seq<LoomEvent>)
    ensures
        forall|i: int|
            0 <= i < s.len() && is_completion(#[trigger] s[i]) && decommission_mismatch(all, s[i].task_id->0)
                ==> (mismatched_decommission_min(s, all) matches Some(m) && m <= s[i].task_id->0),
        mismatched_decommission_min(s, all) matches Some(m) ==> exists|i: int|
            0 <= i < s.len() && is_completion(#[trigger] s[i]) && decommission_mismatch(all, s[i].task_id->0)
                && s[i].task_id->0 == m,
    decreases s.len(),
{
    if s.len() > 0 {
        let rest = s.drop_last();
        let e = s.last();
        lemma_mismatched_decommission_min_is_least(rest, all);
        let r = mismatched_decommission_min(rest, all);
        lemma_min_with(r, e.task_id->0);
        assert forall|i: int|
            0 <= i < s.len() && is_completion(#[trigger] s[i]) && decommission_mismatch(all, s[i].task_id->0)
                implies (mismatched_decommission_min(s, all) matches Some(m) && m <= s[i].task_id->0) by {
            if i < rest.len() {
                assert(rest[i] == s[i]);
            }
        }
        if mismatched_decommission_min(s, all) is Some {
            let m = mismatched_decommission_min(s, all)->0;
            if is_completion(e) && decommission_mismatch(all, e.task_id->0) && m == e.task_id->0 {
                assert(s[s.len() - 1] == e);
            } else {
                let i = choose|i: int|
                    0 <= i < rest.len() && is_completion(#[trigger] rest[i]) && decommission_mismatch(
                        all,
                        rest[i].task_id->0,
                    ) && rest[i].task_id->0 == m;
                assert(s[i] == rest[i]);
            }
        }
    }
}

/// A replay that passes every earlier check and decommissions every task
/// it completes is refused for the least completed task whose last
/// decommission differs from its last completion in root (reported first)
/// or correlation.
pub proof fn law_mismatched_decommission_is_least(events: Seq<LoomEvent>, t: u64)
    requires
        scan_outcome(events) is Ok,
        forall|i: int| 0 <= i < events.len() ==> !is_unintegrated_child(events, #[trigger] events[i]),
        integration_context_error(events, events) is None,
        forall|u: u64| !(#[trigger] is_undecommissioned(events, u)),
        completes(events, t),
        decommission_mismatch(events, t),
        forall|u: u64| completes(events, u) && #[trigger] decommission_mismatch(events, u) ==> t <= u,
    ensures
        replay_outcome(events) == Err::<ReplayValidationReport, LoomEventError>(decommission_error(events, t)),
{
    lemma_missing_integration_min_is_least(events, events);
    lemma_missing_decommission_min_is_least(events, events);
    lemma_mismatched_decommission_min_is_least(events, events);
    assert(missing_integration_min(events, events) is None);
    if missing_decommission_min(events, events) is Some {
        let m = missing_decommission_min(events, events)->0;
        let j = choose|j: int|
            0 <= j < events.len() && is_completion(#[trigger] events[j]) && !has_link(
                events,
                LoomEventType::AgentDecommissioned,
                events[j].task_id->0,
            ) && events[j].task_id->0 == m;
        assert(links(events[j], LoomEventType::TaskCompleted, m));
        assert(is_undecommissioned(events, m));
    }
    let i = choose|i: int| 0 <= i < events.len() && links(#[trigger] events[i], LoomEventType::TaskCompleted, t);
    assert(is_completion(events[i]) && events[i].task_id->0 == t);
    let m = mismatched_decommission_min(events, events)->0;
    let j = choose|j: int|
        0 <= j < events.len() && is_completion(#[trigger] events[j]) && decommission_mismatch(
            events,
            events[j].task_id->0,
        ) && events[j].task_id->0 == m;
    assert(links(events[j], LoomEventType::TaskCompleted, m));
    assert(completes(events, m));
    assert(t <= m);
}

/// An event that names a task.
pub open spec fn names_a_task() -> spec_fn(LoomEvent) -> bool {
    |e: LoomEvent| e.task_id is Some
}

/// The task-event count of a replay counts exactly the events that name a
/// task; events without a task id are not counted.
pub proof fn law_task_event_count_counts_named_tasks(events: Seq<LoomEvent>)
    ensures
        count_with_task(events) == events.filter(names_a_task()).len(),
        events.len() <= usize::MAX ==> (replay_outcome(events) matches Ok(rep) ==> rep.task_event_count
            == events.filter(names_a_task()).len()),
    decreases events.len(),
{
    reveal(Seq::filter);
    let p = names_a_task();
    if events.len() > 0 {
        law_task_event_count_counts_named_tasks(events.drop_last());
        lemma_count_with_task_bounded(events);
    }
}

proof fn lemma_count_with_task_bounded(s: Seq<LoomEvent>)
    ensures
        count_with_task(s) <= s.len(),
    decreases s.len(),
{
    if s.len() > 0 {
        lemma_count_with_task_bounded(s.drop_last());
    }
}

} // verus!

