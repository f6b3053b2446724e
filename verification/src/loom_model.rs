//! The task loom's records: task envelopes, plans, integration groups,
//! artifacts, decommission packets and memory nodes, each checked for the
//! references and collections it must carry.
use vstd::prelude::*;
use vstd::string::*;
use crate::text::{decimal, is_blank, is_blank_str, push_decimal, push_text};
use crate::topology::{first_repeat, first_repeated_id};

verus! {

/// Why a loom record was refused.
#[derive(Clone, Debug, PartialEq, Eq)]
pub enum LoomModelError {
    EmptyField(&'static str),
    EmptyCollection(&'static str),
    MissingTaskArtifact(u64),
    MissingRouteCandidate(u64),
    DuplicatePacketId(u64),
    DuplicateEvaluationId(u64),
    DuplicateTopologyProposalId(u64),
    DuplicateTopologySnapshotId(u64),
    DuplicateRollbackId(u64),
    NoActiveTopologySnapshot,
    UnknownTopologyProposalId { field: &'static str, topology_proposal_id: u64 },
    UnknownTopologySnapshotId { field: &'static str, topology_snapshot_id: u64 },
    InvalidStateTransition { from: &'static str, to: &'static str },
    InvalidNumericField { field: &'static str, reason: &'static str },
    Io { path: String, source: String },
    Json { line: Option<usize>, source: String },
}

/// A unit of work in a root task's tree.
#[derive(Clone, Debug, PartialEq, Eq)]
pub struct TaskEnvelope {
    pub task_id: u64,
    pub root_task_id: u64,
    pub parent_task_id: Option<u64>,
    pub prompt_id: u64,
    pub plan_id: u64,
    pub integration_group_id: u64,
    pub summary: String,
}

/// How one child task depends on another.
#[derive(Clone, Copy, Debug, PartialEq, Eq, Structural)]
pub enum DependencyKind {
    Blocks,
    ProvidesEvidence,
    RepairsGap,
}

/// A dependency between two tasks of a plan.
#[derive(Clone, Copy, Debug, PartialEq, Eq, Structural)]
pub struct DependencyEdge {
    pub from_task_id: u64,
    pub to_task_id: u64,
    pub kind: DependencyKind,
}

/// A director's decomposition of a task into child tasks.
#[derive(Clone, Debug, PartialEq, Eq)]
pub struct PlanNode {
    pub plan_id: u64,
    pub root_task_id: u64,
    pub task_id: u64,
    pub director_agent_id: u64,
    pub decomposition_reason_ref: String,
    pub child_task_ids: Vec<u64>,
    pub dependency_edges: Vec<DependencyEdge>,
    pub integration_group_id: u64,
    pub acceptance_criteria_ref: String,
    pub risk_flags: Vec<String>,
}

/// When an integration group may join its children.
#[derive(Clone, Copy, Debug, PartialEq, Eq, Structural)]
pub enum JoinPolicy {
    WaitAll,
    WaitQuorum,
    WaitFirstViable,
    TimeoutThenIntegrate,
    StreamingIncremental,
    HumanGate,
}

/// The children a parent task waits for before integrating.
#[derive(Clone, Debug, PartialEq, Eq)]
pub struct IntegrationGroup {
    pub integration_group_id: u64,
    pub root_task_id: u64,
    pub parent_task_id: u64,
    pub plan_id: u64,
    pub expected_child_task_ids: Vec<u64>,
    pub join_policy: JoinPolicy,
    pub acceptance_criteria_ref: String,
    pub integration_agent_ids: Vec<u64>,
}

/// An artifact an agent produced for a task.
#[derive(Clone, Debug, PartialEq, Eq)]
pub struct ArtifactRef {
    pub artifact_id: u64,
    pub root_task_id: u64,
    pub task_id: u64,
    pub agent_id: u64,
    pub artifact_kind: String,
    pub content_ref: String,
}

/// Whether an integration was accepted.
#[derive(Clone, Copy, Debug, PartialEq, Eq, Structural)]
pub enum IntegrationStatus {
    Accepted,
    NeedsRepair,
    Rejected,
}

/// The outcome of integrating an integration group.
#[derive(Clone, Debug, PartialEq, Eq)]
pub struct IntegrationReport {
    pub integration_group_id: u64,
    pub included_task_ids: Vec<u64>,
    pub excluded_task_ids: Vec<u64>,
    pub conflict_edges: Vec<DependencyEdge>,
    pub gap_edges: Vec<DependencyEdge>,
    pub repair_task_ids: Vec<u64>,
    pub final_artifact_refs: Vec<u64>,
    pub report_ref: String,
    pub acceptance_status: IntegrationStatus,
}

/// What an agent hands over when it is decommissioned.
#[derive(Clone, Debug, PartialEq, Eq)]
pub struct AgentDecommissionPacket {
    pub packet_id: u64,
    pub agent_id: u64,
    pub root_task_id: u64,
    pub task_id: u64,
    pub prompt_id: u64,
    pub plan_id: u64,
    pub final_status: String,
    pub deliverable_refs: Vec<u64>,
    pub self_summary_ref: String,
}

/// What a memory node records.
#[derive(Clone, Copy, Debug, PartialEq, Eq, Structural)]
pub enum MemoryNodeKind {
    Episode,
    Decision,
    Artifact,
    Heuristic,
    Failure,
    Preference,
    OpenLoop,
}

/// A curated memory derived from a decommission packet.
#[derive(Clone, Debug, PartialEq, Eq)]
pub struct MemoryNode {
    pub memory_node_id: u64,
    pub kind: MemoryNodeKind,
    pub root_task_id: u64,
    pub task_id: u64,
    pub packet_id: u64,
    pub evidence_refs: Vec<String>,
    pub summary: String,
}

/// Refuses a text field that is empty once trimmed.
pub fn ensure_not_empty(field: &'static str, value: &str) -> (r: Result<(), LoomModelError>)
    ensures
        r == (if is_blank(value@) {
            Err(LoomModelError::EmptyField(field))
        } else {
            Ok(())
        }),
{
    if is_blank_str(value) {
        Err(LoomModelError::EmptyField(field))
    } else {
        Ok(())
    }
}

/// Refuses an empty collection.
pub fn ensure_not_empty_collection<T>(field: &'static str, values: &[T]) -> (r: Result<
    (),
    LoomModelError,
>)
    ensures
        r == (if values@.len() == 0 {
            Err(LoomModelError::EmptyCollection(field))
        } else {
            Ok(())
        }),
{
    if values.len() == 0 {
        Err(LoomModelError::EmptyCollection(field))
    } else {
        Ok(())
    }
}

impl TaskEnvelope {
    /// The root task of a prompt: its own root, with no parent, plan or group.
    pub fn root(task_id: u64, prompt_id: u64, summary: &str) -> (r: Result<Self, LoomModelError>)
        ensures
            is_blank(summary@) ==> r == Err::<Self, LoomModelError>(
                LoomModelError::EmptyField("summary"),
            ),
            !is_blank(summary@) ==> (r matches Ok(t) && t.task_id == task_id && t.root_task_id
                == task_id && t.parent_task_id is None && t.prompt_id == prompt_id && t.plan_id == 0
                && t.integration_group_id == 0 && t.summary@ == summary@),
    {
        ensure_not_empty("summary", summary)?;
        Ok(
            TaskEnvelope {
                task_id,
                root_task_id: task_id,
                parent_task_id: None,
                prompt_id,
                plan_id: 0,
                integration_group_id: 0,
                summary: String::from_str(summary),
            },
        )
    }

    /// A child task of `parent_task_id` under a plan and integration group.
    pub fn child(
        task_id: u64,
        root_task_id: u64,
        parent_task_id: u64,
        prompt_id: u64,
        plan_id: u64,
        integration_group_id: u64,
        summary: &str,
    ) -> (r: Result<Self, LoomModelError>)
        ensures
            is_blank(summary@) ==> r == Err::<Self, LoomModelError>(
                LoomModelError::EmptyField("summary"),
            ),
            !is_blank(summary@) ==> (r matches Ok(t) && t.task_id == task_id && t.root_task_id
                == root_task_id && t.parent_task_id == Some(parent_task_id) && t.prompt_id
                == prompt_id && t.plan_id == plan_id && t.integration_group_id
                == integration_group_id && t.summary@ == summary@),
    {
        ensure_not_empty("summary", summary)?;
        Ok(
            TaskEnvelope {
                task_id,
                root_task_id,
                parent_task_id: Some(parent_task_id),
                prompt_id,
                plan_id,
                integration_group_id,
                summary: String::from_str(summary),
            },
        )
    }
}

impl PlanNode {
    /// A plan with at least one child task and non-empty decomposition and
    /// acceptance references (checked in that order).
    pub fn new(
        plan_id: u64,
        root_task_id: u64,
        task_id: u64,
        director_agent_id: u64,
        decomposition_reason_ref: &str,
        child_task_ids: Vec<u64>,
        dependency_edges: Vec<DependencyEdge>,
        integration_group_id: u64,
        acceptance_criteria_ref: &str,
        risk_flags: Vec<String>,
    ) -> (r: Result<Self, LoomModelError>)
        ensures
            child_task_ids@.len() == 0 ==> r == Err::<Self, LoomModelError>(
                LoomModelError::EmptyCollection("child_task_ids"),
            ),
            child_task_ids@.len() != 0 && is_blank(decomposition_reason_ref@) ==> r == Err::<
                Self,
                LoomModelError,
            >(LoomModelError::EmptyField("decomposition_reason_ref")),
            child_task_ids@.len() != 0 && !is_blank(decomposition_reason_ref@) && is_blank(
                acceptance_criteria_ref@,
            ) ==> r == Err::<Self, LoomModelError>(
                LoomModelError::EmptyField("acceptance_criteria_ref"),
            ),
            child_task_ids@.len() != 0 && !is_blank(decomposition_reason_ref@) && !is_blank(
                acceptance_criteria_ref@,
            ) ==> (r matches Ok(p) && p.plan_id == plan_id && p.root_task_id == root_task_id
                && p.task_id == task_id && p.director_agent_id == director_agent_id
                && p.decomposition_reason_ref@ == decomposition_reason_ref@ && p.child_task_ids
                == child_task_ids && p.dependency_edges == dependency_edges
                && p.integration_group_id == integration_group_id && p.acceptance_criteria_ref@
                == acceptance_criteria_ref@ && p.risk_flags == risk_flags),
    {
        ensure_not_empty_collection("child_task_ids", child_task_ids.as_slice())?;
        ensure_not_empty("decomposition_reason_ref", decomposition_reason_ref)?;
        ensure_not_empty("acceptance_criteria_ref", acceptance_criteria_ref)?;
        Ok(
            PlanNode {
                plan_id,
                root_task_id,
                task_id,
                director_agent_id,
                decomposition_reason_ref: String::from_str(decomposition_reason_ref),
                child_task_ids,
                dependency_edges,
                integration_group_id,
                acceptance_criteria_ref: String::from_str(acceptance_criteria_ref),
                risk_flags,
            },
        )
    }
}

impl DependencyEdge {
    /// The edge `from_task_id -> to_task_id` of kind `kind`.
    pub fn new(from_task_id: u64, to_task_id: u64, kind: DependencyKind) -> (r: Self)
        ensures
            r == (DependencyEdge { from_task_id, to_task_id, kind }),
    {
        DependencyEdge { from_task_id, to_task_id, kind }
    }
}

impl IntegrationGroup {
    /// A group with expected children, integration agents and an acceptance
    /// reference (checked in that order).
    pub fn new(
        integration_group_id: u64,
        root_task_id: u64,
        parent_task_id: u64,
        plan_id: u64,
        expected_child_task_ids: Vec<u64>,
        join_policy: JoinPolicy,
        acceptance_criteria_ref: &str,
        integration_agent_ids: Vec<u64>,
    ) -> (r: Result<Self, LoomModelError>)
        ensures
            expected_child_task_ids@.len() == 0 ==> r == Err::<Self, LoomModelError>(
                LoomModelError::EmptyCollection("expected_child_task_ids"),
            ),
            expected_child_task_ids@.len() != 0 && integration_agent_ids@.len() == 0 ==> r == Err::<
                Self,
                LoomModelError,
            >(LoomModelError::EmptyCollection("integration_agent_ids")),
            expected_child_task_ids@.len() != 0 && integration_agent_ids@.len() != 0 && is_blank(
                acceptance_criteria_ref@,
            ) ==> r == Err::<Self, LoomModelError>(
                LoomModelError::EmptyField("acceptance_criteria_ref"),
            ),
            expected_child_task_ids@.len() != 0 && integration_agent_ids@.len() != 0 && !is_blank(
                acceptance_criteria_ref@,
            ) ==> (r matches Ok(g) && g.integration_group_id == integration_group_id
                && g.root_task_id == root_task_id && g.parent_task_id == parent_task_id
                && g.plan_id == plan_id && g.expected_child_task_ids == expected_child_task_ids
                && g.join_policy == join_policy && g.acceptance_criteria_ref@
                == acceptance_criteria_ref@ && g.integration_agent_ids == integration_agent_ids),
    {
        ensure_not_empty_collection("expected_child_task_ids", expected_child_task_ids.as_slice())?;
        ensure_not_empty_collection("integration_agent_ids", integration_agent_ids.as_slice())?;
        ensure_not_empty("acceptance_criteria_ref", acceptance_criteria_ref)?;
        Ok(
            IntegrationGroup {
                integration_group_id,
                root_task_id,
                parent_task_id,
                plan_id,
                expected_child_task_ids,
                join_policy,
                acceptance_criteria_ref: String::from_str(acceptance_criteria_ref),
                integration_agent_ids,
            },
        )
    }
}

impl ArtifactRef {
    /// An artifact with a kind and a content reference (checked in that order).
    pub fn new(
        artifact_id: u64,
        root_task_id: u64,
        task_id: u64,
        agent_id: u64,
        artifact_kind: &str,
        content_ref: &str,
    ) -> (r: Result<Self, LoomModelError>)
        ensures
            is_blank(artifact_kind@) ==> r == Err::<Self, LoomModelError>(
                LoomModelError::EmptyField("artifact_kind"),
            ),
            !is_blank(artifact_kind@) && is_blank(content_ref@) ==> r == Err::<Self, LoomModelError>(
                LoomModelError::EmptyField("content_ref"),
            ),
            !is_blank(artifact_kind@) && !is_blank(content_ref@) ==> (r matches Ok(a)
                && a.artifact_id == artifact_id && a.root_task_id == root_task_id && a.task_id
                == task_id && a.agent_id == agent_id && a.artifact_kind@ == artifact_kind@
                && a.content_ref@ == content_ref@),
    {
        ensure_not_empty("artifact_kind", artifact_kind)?;
        ensure_not_empty("content_ref", content_ref)?;
        Ok(
            ArtifactRef {
                artifact_id,
                root_task_id,
                task_id,
                agent_id,
                artifact_kind: String::from_str(artifact_kind),
                content_ref: String::from_str(content_ref),
            },
        )
    }
}

impl IntegrationReport {
    /// An accepted report over the included tasks and final artifacts, with
    /// nothing excluded, conflicting, missing or to repair.
    pub fn accepted(
        integration_group_id: u64,
        included_task_ids: Vec<u64>,
        final_artifact_refs: Vec<u64>,
        report_ref: &str,
    ) -> (r: Result<Self, LoomModelError>)
        ensures
            included_task_ids@.len() == 0 ==> r == Err::<Self, LoomModelError>(
                LoomModelError::EmptyCollection("included_task_ids"),
            ),
            included_task_ids@.len() != 0 && final_artifact_refs@.len() == 0 ==> r == Err::<
                Self,
                LoomModelError,
            >(LoomModelError::EmptyCollection("final_artifact_refs")),
            included_task_ids@.len() != 0 && final_artifact_refs@.len() != 0 && is_blank(
                report_ref@,
            ) ==> r == Err::<Self, LoomModelError>(LoomModelError::EmptyField("report_ref")),
            included_task_ids@.len() != 0 && final_artifact_refs@.len() != 0 && !is_blank(
                report_ref@,
            ) ==> (r matches Ok(rep) && rep.integration_group_id == integration_group_id
                && rep.included_task_ids == included_task_ids && rep.excluded_task_ids@.len() == 0
                && rep.conflict_edges@.len() == 0 && rep.gap_edges@.len() == 0
                && rep.repair_task_ids@.len() == 0 && rep.final_artifact_refs == final_artifact_refs
                && rep.report_ref@ == report_ref@ && rep.acceptance_status
                == IntegrationStatus::Accepted),
    {
        ensure_not_empty_collection("included_task_ids", included_task_ids.as_slice())?;
        ensure_not_empty_collection("final_artifact_refs", final_artifact_refs.as_slice())?;
        ensure_not_empty("report_ref", report_ref)?;
        Ok(
            IntegrationReport {
                integration_group_id,
                included_task_ids,
                excluded_task_ids: Vec::new(),
                conflict_edges: Vec::new(),
                gap_edges: Vec::new(),
                repair_task_ids: Vec::new(),
                final_artifact_refs,
                report_ref: String::from_str(report_ref),
                acceptance_status: IntegrationStatus::Accepted,
            },
        )
    }
}

impl AgentDecommissionPacket {
    /// The packet of an agent that completed its task, with its deliverables
    /// and a self-summary reference (checked in that order).
    pub fn completed(
        packet_id: u64,
        agent_id: u64,
        root_task_id: u64,
        task_id: u64,
        prompt_id: u64,
        plan_id: u64,
        deliverable_refs: Vec<u64>,
        self_summary_ref: &str,
    ) -> (r: Result<Self, LoomModelError>)
        ensures
            deliverable_refs@.len() == 0 ==> r == Err::<Self, LoomModelError>(
                LoomModelError::EmptyCollection("deliverable_refs"),
            ),
            deliverable_refs@.len() != 0 && is_blank(self_summary_ref@) ==> r == Err::<
                Self,
                LoomModelError,
            >(LoomModelError::EmptyField("self_summary_ref")),
            deliverable_refs@.len() != 0 && !is_blank(self_summary_ref@) ==> (r matches Ok(p)
                && p.packet_id == packet_id && p.agent_id == agent_id && p.root_task_id
                == root_task_id && p.task_id == task_id && p.prompt_id == prompt_id && p.plan_id
                == plan_id && p.final_status@ == "completed"@ && p.deliverable_refs
                == deliverable_refs && p.self_summary_ref@ == self_summary_ref@),
    {
        ensure_not_empty_collection("deliverable_refs", deliverable_refs.as_slice())?;
        ensure_not_empty("self_summary_ref", self_summary_ref)?;
        Ok(
            AgentDecommissionPacket {
                packet_id,
                agent_id,
                root_task_id,
                task_id,
                prompt_id,
                plan_id,
                final_status: String::from_str("completed"),
                deliverable_refs,
                self_summary_ref: String::from_str(self_summary_ref),
            },
        )
    }
}

impl MemoryNode {
    /// A memory node with evidence and a summary (checked in that order).
    pub fn from_packet(
        memory_node_id: u64,
        kind: MemoryNodeKind,
        root_task_id: u64,
        task_id: u64,
        packet_id: u64,
        evidence_refs: Vec<String>,
        summary: &str,
    ) -> (r: Result<Self, LoomModelError>)
        ensures
            evidence_refs@.len() == 0 ==> r == Err::<Self, LoomModelError>(
                LoomModelError::EmptyCollection("evidence_refs"),
            ),
            evidence_refs@.len() != 0 && is_blank(summary@) ==> r == Err::<Self, LoomModelError>(
                LoomModelError::EmptyField("summary"),
            ),
            evidence_refs@.len() != 0 && !is_blank(summary@) ==> (r matches Ok(m)
                && m.memory_node_id == memory_node_id && m.kind == kind && m.root_task_id
                == root_task_id && m.task_id == task_id && m.packet_id == packet_id
                && m.evidence_refs == evidence_refs && m.summary@ == summary@),
    {
        ensure_not_empty_collection("evidence_refs", evidence_refs.as_slice())?;
        ensure_not_empty("summary", summary)?;
        Ok(
            MemoryNode {
                memory_node_id,
                kind,
                root_task_id,
                task_id,
                packet_id,
                evidence_refs,
                summary: String::from_str(summary),
            },
        )
    }
}

/// The message of a loom model error.
pub open spec fn model_error_text(e: LoomModelError) -> Seq<char> {
    match e {
        LoomModelError::EmptyField(field) => "`"@ + field@ + "` must not be empty"@,
        LoomModelError::EmptyCollection(field) => "`"@ + field@ + "` must not be empty"@,
        LoomModelError::MissingTaskArtifact(task_id) => "`completed_child_artifacts` is missing task "@ + decimal(task_id as nat),
        LoomModelError::MissingRouteCandidate(task_id) => "route result for task "@ + decimal(task_id as nat) + " has no available candidate"@,
        LoomModelError::DuplicatePacketId(id) => "duplicate decommission packet id "@ + decimal(id as nat),
        LoomModelError::DuplicateEvaluationId(id) => "duplicate evaluation fixture id "@ + decimal(id as nat),
        LoomModelError::DuplicateTopologyProposalId(id) => "duplicate topology proposal id "@ + decimal(id as nat),
        LoomModelError::DuplicateTopologySnapshotId(id) => "duplicate topology snapshot id "@ + decimal(id as nat),
        LoomModelError::DuplicateRollbackId(id) => "duplicate rollback id "@ + decimal(id as nat),
        LoomModelError::NoActiveTopologySnapshot => "no active topology snapshot is available"@,
        LoomModelError::UnknownTopologyProposalId { field, topology_proposal_id } => "`"@ + field@ + "` references unknown topology proposal id "@ + decimal(topology_proposal_id as nat),
        LoomModelError::UnknownTopologySnapshotId { field, topology_snapshot_id } => "`"@ + field@ + "` references unknown topology snapshot id "@ + decimal(topology_snapshot_id as nat),
        LoomModelError::InvalidStateTransition { from, to } => "cannot transition topology proposal from "@ + from@ + " to "@ + to@,
        LoomModelError::InvalidNumericField { field, reason } => "`"@ + field@ + "` "@ + reason@,
        LoomModelError::Io { path, source } => "decommission packet I/O failed at "@ + path@ + ": "@ + source@,
        LoomModelError::Json { line: Some(line), source } => "decommission packet JSONL parse failed at line "@ + decimal(line as nat) + ": "@ + source@,
        LoomModelError::Json { line: None, source } => "decommission packet JSON encode failed: "@ + source@,
    }
}

impl LoomModelError {
    /// The message of this error.
    pub fn to_string(&self) -> (r: String)
        ensures
            r@ == model_error_text(*self),
    {
        let mut out = String::new();
        match self {
            LoomModelError::EmptyField(field) => {
                push_text(&mut out, "`");
                push_text(&mut out, field);
                push_text(&mut out, "` must not be empty");
            },
            LoomModelError::EmptyCollection(field) => {
                push_text(&mut out, "`");
                push_text(&mut out, field);
                push_text(&mut out, "` must not be empty");
            },
            LoomModelError::MissingTaskArtifact(task_id) => {
                push_text(&mut out, "`completed_child_artifacts` is missing task ");
                push_decimal(&mut out, *task_id as u64);
            },
            LoomModelError::MissingRouteCandidate(task_id) => {
                push_text(&mut out, "route result for task ");
                push_decimal(&mut out, *task_id as u64);
                push_text(&mut out, " has no available candidate");
            },
            LoomModelError::DuplicatePacketId(id) => {
                push_text(&mut out, "duplicate decommission packet id ");
                push_decimal(&mut out, *id as u64);
            },
            LoomModelError::DuplicateEvaluationId(id) => {
                push_text(&mut out, "duplicate evaluation fixture id ");
                push_decimal(&mut out, *id as u64);
            },
            LoomModelError::DuplicateTopologyProposalId(id) => {
                push_text(&mut out, "duplicate topology proposal id ");
                push_decimal(&mut out, *id as u64);
            },
            LoomModelError::DuplicateTopologySnapshotId(id) => {
                push_text(&mut out, "duplicate topology snapshot id ");
                push_decimal(&mut out, *id as u64);
            },
            LoomModelError::DuplicateRollbackId(id) => {
                push_text(&mut out, "duplicate rollback id ");
                push_decimal(&mut out, *id as u64);
            },
            LoomModelError::NoActiveTopologySnapshot => {
                push_text(&mut out, "no active topology snapshot is available");
            },
            LoomModelError::UnknownTopologyProposalId { field, topology_proposal_id } => {
                push_text(&mut out, "`");
                push_text(&mut out, field);
                push_text(&mut out, "` references unknown topology proposal id ");
                push_decimal(&mut out, *topology_proposal_id as u64);
            },
            LoomModelError::UnknownTopologySnapshotId { field, topology_snapshot_id } => {
                push_text(&mut out, "`");
                push_text(&mut out, field);
                push_text(&mut out, "` references unknown topology snapshot id ");
                push_decimal(&mut out, *topology_snapshot_id as u64);
            },
            LoomModelError::InvalidStateTransition { from, to } => {
                push_text(&mut out, "cannot transition topology proposal from ");
                push_text(&mut out, from);
                push_text(&mut out, " to ");
                push_text(&mut out, to);
            },
            LoomModelError::InvalidNumericField { field, reason } => {
                push_text(&mut out, "`");
                push_text(&mut out, field);
                push_text(&mut out, "` ");
                push_text(&mut out, reason);
            },
            LoomModelError::Io { path, source } => {
                push_text(&mut out, "decommission packet I/O failed at ");
                push_text(&mut out, path.as_str());
                push_text(&mut out, ": ");
                push_text(&mut out, source.as_str());
            },
            LoomModelError::Json { line: Some(line), source } => {
                push_text(&mut out, "decommission packet JSONL parse failed at line ");
                push_decimal(&mut out, *line as u64);
                push_text(&mut out, ": ");
                push_text(&mut out, source.as_str());
            },
            LoomModelError::Json { line: None, source } => {
                push_text(&mut out, "decommission packet JSON encode failed: ");
                push_text(&mut out, source.as_str());
            },
        }
        assert(out@ =~= model_error_text(*self));
        out
    }
}

/// The ids of the packets, in order.
pub open spec fn packet_ids(ps: Seq<AgentDecommissionPacket>) -> Seq<u64> {
    ps.map_values(|p: AgentDecommissionPacket| p.packet_id)
}

/// Refuses decommission packets that repeat an id: the first repeated id is reported.
pub fn validate_unique_packet_ids(packets: &[AgentDecommissionPacket]) -> (r: Result<
    (),
    LoomModelError,
>)
    ensures
        r == (match first_repeat(packet_ids(packets@)) {
            Some(id) => Err(LoomModelError::DuplicatePacketId(id)),
            None => Ok(()),
        }),
{
    let n = packets.len();
    let mut ids: Vec<u64> = Vec::new();
    let mut i: usize = 0;
    while i < n
        invariant
            n == packets@.len(),
            i <= n,
            ids@ == packet_ids(packets@.take(i as int)),
        decreases n - i,
    {
        ids.push(packets[i].packet_id);
        proof {
            assert(packet_ids(packets@.take(i + 1)) =~= packet_ids(packets@.take(i as int)).push(
                packets@[i as int].packet_id,
            ));
        }
        i = i + 1;
    }
    proof {
        assert(packets@.take(n as int) =~= packets@);
    }
    match first_repeated_id(ids.as_slice()) {
        Some(id) => Err(LoomModelError::DuplicatePacketId(id)),
        None => Ok(()),
    }
}

} // verus!
