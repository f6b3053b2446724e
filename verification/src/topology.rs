//! Topology governance: proposals move from draft through testing, shadow
//! routing and approval to a committed snapshot, each step adding evidence
//! and moving time forward; a governance store keeps proposals, snapshots
//! and rollbacks consistent and can roll back to an earlier snapshot.
use vstd::prelude::*;
use vstd::string::*;
use crate::text::is_blank;
use crate::loom_model::{LoomModelError, ensure_not_empty, ensure_not_empty_collection};

verus! {

/// What a topology proposal changes.
#[derive(Clone, Copy, Debug, PartialEq, Eq, Structural)]
pub enum TopologyProposalKind {
    Axis,
    RoutePolicy,
    AgentProfile,
    MemoryIndexVersion,
    BenchmarkRubric,
}

/// Where a topology proposal stands in its governance lifecycle.
#[derive(Clone, Copy, Debug, PartialEq, Eq, Structural)]
pub enum TopologyProposalStatus {
    Drafted,
    Tested,
    Shadowed,
    Canaried,
    Approved,
    Committed,
    Rejected,
    Superseded,
}

/// Whether a topology snapshot is in force.
#[derive(Clone, Copy, Debug, PartialEq, Eq, Structural)]
pub enum TopologySnapshotStatus {
    Active,
    Superseded,
    RolledBack,
}

/// A governed change to the routing topology, with its evidence.
#[derive(Clone, Debug, PartialEq, Eq)]
pub struct TopologyProposal {
    pub topology_proposal_id: u64,
    pub proposal_kind: TopologyProposalKind,
    pub proposer_ref: String,
    pub change_set_ref: String,
    pub evidence_refs: Vec<String>,
    pub benchmark_report_refs: Vec<String>,
    pub shadow_report_refs: Vec<String>,
    pub canary_report_refs: Vec<String>,
    pub approval_refs: Vec<String>,
    pub status: TopologyProposalStatus,
    pub created_at_ms: u64,
    pub updated_at_ms: u64,
}

/// The topology that a committed proposal put in force.
#[derive(Clone, Debug, PartialEq, Eq)]
pub struct TopologySnapshot {
    pub topology_snapshot_id: u64,
    pub parent_snapshot_id: Option<u64>,
    pub source_proposal_id: u64,
    pub agent_registry_version: String,
    pub gradient_space_versions: Vec<String>,
    pub memory_index_versions: Vec<String>,
    pub route_policy_versions: Vec<String>,
    pub hard_constraint_policy_version: String,
    pub status: TopologySnapshotStatus,
    pub created_at_ms: u64,
}

/// A rollback from one topology snapshot to another.
#[derive(Clone, Debug, PartialEq, Eq)]
pub struct RollbackRecord {
    pub rollback_id: u64,
    pub from_topology_snapshot_id: u64,
    pub to_topology_snapshot_id: u64,
    pub reason: String,
    pub triggered_by_ref: String,
    pub affected_route_decision_refs: Vec<String>,
    pub created_at_ms: u64,
}

/// Proposals, snapshots and rollbacks, kept consistent with each other.
#[derive(Clone, Debug, PartialEq, Eq)]
pub struct TopologyGovernanceStore {
    pub proposals: Vec<TopologyProposal>,
    pub snapshots: Vec<TopologySnapshot>,
    pub rollback_records: Vec<RollbackRecord>,
}

/// The name of a proposal status.
pub open spec fn status_label(s: TopologyProposalStatus) -> &'static str {
    match s {
        TopologyProposalStatus::Drafted => "Drafted",
        TopologyProposalStatus::Tested => "Tested",
        TopologyProposalStatus::Shadowed => "Shadowed",
        TopologyProposalStatus::Canaried => "Canaried",
        TopologyProposalStatus::Approved => "Approved",
        TopologyProposalStatus::Committed => "Committed",
        TopologyProposalStatus::Rejected => "Rejected",
        TopologyProposalStatus::Superseded => "Superseded",
    }
}

impl TopologyProposalStatus {
    /// The name of this status.
    pub fn label(self) -> (r: &'static str)
        ensures
            r == status_label(self),
    {
        match self {
            TopologyProposalStatus::Drafted => "Drafted",
            TopologyProposalStatus::Tested => "Tested",
            TopologyProposalStatus::Shadowed => "Shadowed",
            TopologyProposalStatus::Canaried => "Canaried",
            TopologyProposalStatus::Approved => "Approved",
            TopologyProposalStatus::Committed => "Committed",
            TopologyProposalStatus::Rejected => "Rejected",
            TopologyProposalStatus::Superseded => "Superseded",
        }
    }
}

/// The refusal of a time that does not move past `current`.
pub open spec fn stale_time_error() -> LoomModelError {
    LoomModelError::InvalidNumericField {
        field: "updated_at_ms",
        reason: "must be greater than the current update time",
    }
}

/// The refusal of a transition from `actual` to `next`.
pub open spec fn transition_error(
    actual: TopologyProposalStatus,
    next: TopologyProposalStatus,
) -> LoomModelError {
    LoomModelError::InvalidStateTransition { from: status_label(actual), to: status_label(next) }
}

fn ensure_increasing_timestamp(current: u64, next: u64) -> (r: Result<(), LoomModelError>)
    ensures
        r == (if next <= current {
            Err(stale_time_error())
        } else {
            Ok(())
        }),
{
    if next <= current {
        Err(
            LoomModelError::InvalidNumericField {
                field: "updated_at_ms",
                reason: "must be greater than the current update time",
            },
        )
    } else {
        Ok(())
    }
}

fn ensure_status(
    actual: TopologyProposalStatus,
    expected: TopologyProposalStatus,
    next: TopologyProposalStatus,
) -> (r: Result<(), LoomModelError>)
    ensures
        r == (if actual != expected {
            Err(transition_error(actual, next))
        } else {
            Ok(())
        }),
{
    if actual != expected {
        Err(LoomModelError::InvalidStateTransition { from: actual.label(), to: next.label() })
    } else {
        Ok(())
    }
}

/// Marking `p` tested with benchmark evidence at time `t`.
pub open spec fn tested_outcome(p: TopologyProposal, refs: Vec<String>, t: u64) -> Result<
    TopologyProposal,
    LoomModelError,
> {
    if refs@.len() == 0 {
        Err(LoomModelError::EmptyCollection("benchmark_report_refs"))
    } else if t <= p.updated_at_ms {
        Err(stale_time_error())
    } else {
        Ok(
            TopologyProposal {
                benchmark_report_refs: refs,
                status: TopologyProposalStatus::Tested,
                updated_at_ms: t,
                ..p
            },
        )
    }
}

/// Marking `p` shadowed with shadow routing evidence at time `t`.
pub open spec fn shadowed_outcome(p: TopologyProposal, refs: Vec<String>, t: u64) -> Result<
    TopologyProposal,
    LoomModelError,
> {
    if p.status != TopologyProposalStatus::Tested {
        Err(transition_error(p.status, TopologyProposalStatus::Shadowed))
    } else if refs@.len() == 0 {
        Err(LoomModelError::EmptyCollection("shadow_report_refs"))
    } else if t <= p.updated_at_ms {
        Err(stale_time_error())
    } else {
        Ok(
            TopologyProposal {
                shadow_report_refs: refs,
                status: TopologyProposalStatus::Shadowed,
                updated_at_ms: t,
                ..p
            },
        )
    }
}

/// Marking `p` approved with approval evidence at time `t`.
pub open spec fn approved_outcome(p: TopologyProposal, refs: Vec<String>, t: u64) -> Result<
    TopologyProposal,
    LoomModelError,
> {
    if p.status != TopologyProposalStatus::Shadowed {
        Err(transition_error(p.status, TopologyProposalStatus::Approved))
    } else if refs@.len() == 0 {
        Err(LoomModelError::EmptyCollection("approval_refs"))
    } else if t <= p.updated_at_ms {
        Err(stale_time_error())
    } else {
        Ok(
            TopologyProposal {
                approval_refs: refs,
                status: TopologyProposalStatus::Approved,
                updated_at_ms: t,
                ..p
            },
        )
    }
}

/// The refusal, if any, of committing `p` with the given snapshot contents at time `t`.
pub open spec fn commit_refusal(
    p: TopologyProposal,
    agent_registry_version: Seq<char>,
    gradient_space_versions: Seq<String>,
    memory_index_versions: Seq<String>,
    route_policy_versions: Seq<String>,
    hard_constraint_policy_version: Seq<char>,
    t: u64,
) -> Option<LoomModelError> {
    if p.status != TopologyProposalStatus::Approved {
        Some(transition_error(p.status, TopologyProposalStatus::Committed))
    } else if is_blank(agent_registry_version) {
        Some(LoomModelError::EmptyField("agent_registry_version"))
    } else if gradient_space_versions.len() == 0 {
        Some(LoomModelError::EmptyCollection("gradient_space_versions"))
    } else if memory_index_versions.len() == 0 {
        Some(LoomModelError::EmptyCollection("memory_index_versions"))
    } else if route_policy_versions.len() == 0 {
        Some(LoomModelError::EmptyCollection("route_policy_versions"))
    } else if is_blank(hard_constraint_policy_version) {
        Some(LoomModelError::EmptyField("hard_constraint_policy_version"))
    } else if t <= p.updated_at_ms {
        Some(stale_time_error())
    } else {
        None
    }
}

impl TopologyProposal {
    /// A drafted proposal with a proposer, a change set and evidence
    /// (checked in that order), last updated when it was created.
    pub fn draft(
        topology_proposal_id: u64,
        proposal_kind: TopologyProposalKind,
        proposer_ref: &str,
        change_set_ref: &str,
        evidence_refs: Vec<String>,
        created_at_ms: u64,
    ) -> (r: Result<Self, LoomModelError>)
        ensures
            is_blank(proposer_ref@) ==> r == Err::<Self, LoomModelError>(
                LoomModelError::EmptyField("proposer_ref"),
            ),
            !is_blank(proposer_ref@) && is_blank(change_set_ref@) ==> r == Err::<Self, LoomModelError>(
                LoomModelError::EmptyField("change_set_ref"),
            ),
            !is_blank(proposer_ref@) && !is_blank(change_set_ref@) && evidence_refs@.len() == 0
                ==> r == Err::<Self, LoomModelError>(LoomModelError::EmptyCollection("evidence_refs")),
            !is_blank(proposer_ref@) && !is_blank(change_set_ref@) && evidence_refs@.len() != 0
                ==> (r matches Ok(p) && p.topology_proposal_id == topology_proposal_id
                && p.proposal_kind == proposal_kind && p.proposer_ref@ == proposer_ref@
                && p.change_set_ref@ == change_set_ref@ && p.evidence_refs == evidence_refs
                && p.benchmark_report_refs@.len() == 0 && p.shadow_report_refs@.len() == 0
                && p.canary_report_refs@.len() == 0 && p.approval_refs@.len() == 0 && p.status
                == TopologyProposalStatus::Drafted && p.created_at_ms == created_at_ms
                && p.updated_at_ms == created_at_ms),
    {
        ensure_not_empty("proposer_ref", proposer_ref)?;
        ensure_not_empty("change_set_ref", change_set_ref)?;
        ensure_not_empty_collection("evidence_refs", evidence_refs.as_slice())?;
        Ok(
            TopologyProposal {
                topology_proposal_id,
                proposal_kind,
                proposer_ref: String::from_str(proposer_ref),
                change_set_ref: String::from_str(change_set_ref),
                evidence_refs,
                benchmark_report_refs: Vec::new(),
                shadow_report_refs: Vec::new(),
                canary_report_refs: Vec::new(),
                approval_refs: Vec::new(),
                status: TopologyProposalStatus::Drafted,
                created_at_ms,
                updated_at_ms: created_at_ms,
            },
        )
    }

    /// Records benchmark evidence and marks the proposal tested at a later time.
    pub fn mark_tested(self, benchmark_report_refs: Vec<String>, updated_at_ms: u64) -> (r: Result<
        Self,
        LoomModelError,
    >)
        ensures
            r == tested_outcome(self, benchmark_report_refs, updated_at_ms),
    {
        ensure_not_empty_collection("benchmark_report_refs", benchmark_report_refs.as_slice())?;
        ensure_increasing_timestamp(self.updated_at_ms, updated_at_ms)?;
        let mut p = self;
        p.benchmark_report_refs = benchmark_report_refs;
        p.status = TopologyProposalStatus::Tested;
        p.updated_at_ms = updated_at_ms;
        Ok(p)
    }

    /// Records shadow routing evidence and marks a tested proposal shadowed at a later time.
    pub fn mark_shadowed(self, shadow_report_refs: Vec<String>, updated_at_ms: u64) -> (r: Result<
        Self,
        LoomModelError,
    >)
        ensures
            r == shadowed_outcome(self, shadow_report_refs, updated_at_ms),
    {
        ensure_status(self.status, TopologyProposalStatus::Tested, TopologyProposalStatus::Shadowed)?;
        ensure_not_empty_collection("shadow_report_refs", shadow_report_refs.as_slice())?;
        ensure_increasing_timestamp(self.updated_at_ms, updated_at_ms)?;
        let mut p = self;
        p.shadow_report_refs = shadow_report_refs;
        p.status = TopologyProposalStatus::Shadowed;
        p.updated_at_ms = updated_at_ms;
        Ok(p)
    }

    /// Records approvals and marks a shadowed proposal approved at a later time.
    pub fn mark_approved(self, approval_refs: Vec<String>, updated_at_ms: u64) -> (r: Result<
        Self,
        LoomModelError,
    >)
        ensures
            r == approved_outcome(self, approval_refs, updated_at_ms),
    {
        ensure_status(self.status, TopologyProposalStatus::Shadowed, TopologyProposalStatus::Approved)?;
        ensure_not_empty_collection("approval_refs", approval_refs.as_slice())?;
        ensure_increasing_timestamp(self.updated_at_ms, updated_at_ms)?;
        let mut p = self;
        p.approval_refs = approval_refs;
        p.status = TopologyProposalStatus::Approved;
        p.updated_at_ms = updated_at_ms;
        Ok(p)
    }

    /// Commits an approved proposal at a later time, giving the committed
    /// proposal and the active snapshot it puts in force.
    pub fn commit(
        self,
        topology_snapshot_id: u64,
        parent_snapshot_id: Option<u64>,
        agent_registry_version: &str,
        gradient_space_versions: Vec<String>,
        memory_index_versions: Vec<String>,
        route_policy_versions: Vec<String>,
        hard_constraint_policy_version: &str,
        updated_at_ms: u64,
    ) -> (r: Result<(Self, TopologySnapshot), LoomModelError>)
        ensures
            match commit_refusal(
                self,
                agent_registry_version@,
                gradient_space_versions@,
                memory_index_versions@,
                route_policy_versions@,
                hard_constraint_policy_version@,
                updated_at_ms,
            ) {
                Some(err) => r == Err::<(Self, TopologySnapshot), LoomModelError>(err),
                None => (r matches Ok((p, s)) && p == (TopologyProposal {
                    status: TopologyProposalStatus::Committed,
                    updated_at_ms,
                    ..self
                }) && s.topology_snapshot_id == topology_snapshot_id && s.parent_snapshot_id
                    == parent_snapshot_id && s.source_proposal_id == self.topology_proposal_id
                    && s.agent_registry_version@ == agent_registry_version@
                    && s.gradient_space_versions == gradient_space_versions
                    && s.memory_index_versions == memory_index_versions && s.route_policy_versions
                    == route_policy_versions && s.hard_constraint_policy_version@
                    == hard_constraint_policy_version@ && s.status == TopologySnapshotStatus::Active
                    && s.created_at_ms == updated_at_ms),
            },
    {
        ensure_status(self.status, TopologyProposalStatus::Approved, TopologyProposalStatus::Committed)?;
        ensure_not_empty("agent_registry_version", agent_registry_version)?;
        ensure_not_empty_collection("gradient_space_versions", gradient_space_versions.as_slice())?;
        ensure_not_empty_collection("memory_index_versions", memory_index_versions.as_slice())?;
        ensure_not_empty_collection("route_policy_versions", route_policy_versions.as_slice())?;
        ensure_not_empty("hard_constraint_policy_version", hard_constraint_policy_version)?;
        ensure_increasing_timestamp(self.updated_at_ms, updated_at_ms)?;
        let source_proposal_id = self.topology_proposal_id;
        let mut p = self;
        p.status = TopologyProposalStatus::Committed;
        p.updated_at_ms = updated_at_ms;
        Ok(
            (
                p,
                TopologySnapshot {
                    topology_snapshot_id,
                    parent_snapshot_id,
                    source_proposal_id,
                    agent_registry_version: String::from_str(agent_registry_version),
                    gradient_space_versions,
                    memory_index_versions,
                    route_policy_versions,
                    hard_constraint_policy_version: String::from_str(hard_constraint_policy_version),
                    status: TopologySnapshotStatus::Active,
                    created_at_ms: updated_at_ms,
                },
            ),
        )
    }
}

/// The first id of `ids` that repeats an earlier one.
pub open spec fn first_repeat(ids: Seq<u64>) -> Option<u64>
    decreases ids.len(),
{
    if ids.len() == 0 {
        None
    } else {
        match first_repeat(ids.drop_last()) {
            Some(x) => Some(x),
            None => if ids.drop_last().contains(ids.last()) {
                Some(ids.last())
            } else {
                None
            },
        }
    }
}

/// The ids of the proposals, in order.
pub open spec fn proposal_ids(ps: Seq<TopologyProposal>) -> Seq<u64> {
    ps.map_values(|p: TopologyProposal| p.topology_proposal_id)
}

/// The ids of the snapshots, in order.
pub open spec fn snapshot_ids(ss: Seq<TopologySnapshot>) -> Seq<u64> {
    ss.map_values(|s: TopologySnapshot| s.topology_snapshot_id)
}

/// The ids of the rollbacks, in order.
pub open spec fn rollback_ids(rs: Seq<RollbackRecord>) -> Seq<u64> {
    rs.map_values(|r: RollbackRecord| r.rollback_id)
}

/// The source proposal of the first snapshot whose source is not among `pids`.
pub open spec fn unknown_source(ss: Seq<TopologySnapshot>, pids: Seq<u64>) -> Option<u64>
    decreases ss.len(),
{
    if ss.len() == 0 {
        None
    } else {
        match unknown_source(ss.drop_last(), pids) {
            Some(x) => Some(x),
            None => if !pids.contains(ss.last().source_proposal_id) {
                Some(ss.last().source_proposal_id)
            } else {
                None
            },
        }
    }
}

/// The refusal for the first rollback that leaves from or goes to a snapshot not among `sids`.
pub open spec fn unknown_rollback_snapshot(rs: Seq<RollbackRecord>, sids: Seq<u64>) -> Option<
    LoomModelError,
>
    decreases rs.len(),
{
    if rs.len() == 0 {
        None
    } else {
        match unknown_rollback_snapshot(rs.drop_last(), sids) {
            Some(x) => Some(x),
            None => {
                let r = rs.last();
                if !sids.contains(r.from_topology_snapshot_id) {
                    Some(
                        LoomModelError::UnknownTopologySnapshotId {
                            field: "rollback.from_topology_snapshot_id",
                            topology_snapshot_id: r.from_topology_snapshot_id,
                        },
                    )
                } else if !sids.contains(r.to_topology_snapshot_id) {
                    Some(
                        LoomModelError::UnknownTopologySnapshotId {
                            field: "rollback.to_topology_snapshot_id",
                            topology_snapshot_id: r.to_topology_snapshot_id,
                        },
                    )
                } else {
                    None
                }
            },
        }
    }
}

/// Whether proposals, snapshots and rollbacks are consistent: unique ids of
/// each, snapshots from known proposals, rollbacks between known snapshots.
pub open spec fn governance_outcome(
    ps: Seq<TopologyProposal>,
    ss: Seq<TopologySnapshot>,
    rs: Seq<RollbackRecord>,
) -> Result<(), LoomModelError> {
    match first_repeat(proposal_ids(ps)) {
        Some(id) => Err(LoomModelError::DuplicateTopologyProposalId(id)),
        None => match first_repeat(snapshot_ids(ss)) {
            Some(id) => Err(LoomModelError::DuplicateTopologySnapshotId(id)),
            None => match first_repeat(rollback_ids(rs)) {
                Some(id) => Err(LoomModelError::DuplicateRollbackId(id)),
                None => match unknown_source(ss, proposal_ids(ps)) {
                    Some(id) => Err(
                        LoomModelError::UnknownTopologyProposalId {
                            field: "snapshot.source_proposal_id",
                            topology_proposal_id: id,
                        },
                    ),
                    None => match unknown_rollback_snapshot(rs, snapshot_ids(ss)) {
                        Some(err) => Err(err),
                        None => Ok(()),
                    },
                },
            },
        },
    }
}

/// `a` is ordered at or after `b` by creation time, then by id.
pub open spec fn snapshot_key_ge(a: TopologySnapshot, b: TopologySnapshot) -> bool {
    a.created_at_ms > b.created_at_ms || (a.created_at_ms == b.created_at_ms
        && a.topology_snapshot_id >= b.topology_snapshot_id)
}

/// The position of the latest active snapshot (by creation time, then id;
/// the last of equals).
pub open spec fn best_active(ss: Seq<TopologySnapshot>) -> Option<int>
    decreases ss.len(),
{
    if ss.len() == 0 {
        None
    } else {
        let rest = best_active(ss.drop_last());
        let s = ss.last();
        if s.status == TopologySnapshotStatus::Active && (rest is None || snapshot_key_ge(
            s,
            ss[rest->0],
        )) {
            Some(ss.len() - 1)
        } else {
            rest
        }
    }
}

/// The status a snapshot takes after rollback `rec`: the target becomes
/// active, the source rolled back, any other active one superseded.
pub open spec fn rolled_status(s: TopologySnapshot, rec: RollbackRecord) -> TopologySnapshotStatus {
    if s.topology_snapshot_id == rec.to_topology_snapshot_id {
        TopologySnapshotStatus::Active
    } else if s.topology_snapshot_id == rec.from_topology_snapshot_id {
        TopologySnapshotStatus::RolledBack
    } else if s.status == TopologySnapshotStatus::Active {
        TopologySnapshotStatus::Superseded
    } else {
        s.status
    }
}

/// The snapshots after rollback `rec`.
pub open spec fn rolled_snapshots(ss: Seq<TopologySnapshot>, rec: RollbackRecord) -> Seq<
    TopologySnapshot,
> {
    ss.map_values(|s: TopologySnapshot| TopologySnapshot { status: rolled_status(s, rec), ..s })
}

proof fn lemma_take_last<T>(s: Seq<T>, i: int)
    requires
        0 <= i < s.len(),
    ensures
        s.take(i + 1).drop_last() == s.take(i),
        s.take(i + 1).last() == s[i],
{
    assert(s.take(i + 1).drop_last() =~= s.take(i));
}

/// The first id of `ids` that repeats an earlier one.
pub fn first_repeated_id(ids: &[u64]) -> (r: Option<u64>)
    ensures
        r == first_repeat(ids@),
{
    let n = ids.len();
    let mut i: usize = 0;
    while i < n
        invariant
            n == ids@.len(),
            i <= n,
            first_repeat(ids@.take(i as int)) is None,
        decreases n - i,
    {
        proof {
            lemma_take_last(ids@, i as int);
        }
        let x = ids[i];
        let mut j: usize = 0;
        let mut seen = false;
        while j < i
            invariant
                n == ids@.len(),
                i < n,
                j <= i,
                x == ids@[i as int],
                seen ==> ids@.take(i as int).contains(x),
                !seen ==> forall|k: int| 0 <= k < j ==> ids@[k] != x,
            decreases i - j,
        {
            if ids[j] == x {
                proof {
                    assert(ids@.take(i as int)[j as int] == x);
                }
                seen = true;
            }
            j = j + 1;
        }
        if seen {
            proof {
                lemma_repeat_stays(ids@, i + 1);
            }
            return Some(x);
        }
        proof {
            assert(!ids@.take(i as int).contains(x));
        }
        i = i + 1;
    }
    proof {
        assert(ids@.take(n as int) =~= ids@);
    }
    None
}

proof fn lemma_repeat_stays(ids: Seq<u64>, k: int)
    requires
        0 <= k <= ids.len(),
        first_repeat(ids.take(k)) is Some,
    ensures
        first_repeat(ids) == first_repeat(ids.take(k)),
    decreases ids.len() - k,
{
    if k == ids.len() {
        assert(ids.take(k) =~= ids);
    } else {
        lemma_take_last(ids, k);
        lemma_repeat_stays(ids, k + 1);
    }
}

/// Whether `ids` holds `x`.
fn ids_contain(ids: &Vec<u64>, x: u64) -> (r: bool)
    ensures
        r == ids@.contains(x),
{
    let n = ids.len();
    let mut i: usize = 0;
    while i < n
        invariant
            n == ids@.len(),
            i <= n,
            forall|k: int| 0 <= k < i ==> ids@[k] != x,
        decreases n - i,
    {
        if ids[i] == x {
            return true;
        }
        i = i + 1;
    }
    false
}

fn collect_proposal_ids(ps: &[TopologyProposal]) -> (r: Vec<u64>)
    ensures
        r@ == proposal_ids(ps@),
{
    let mut out: Vec<u64> = Vec::new();
    let n = ps.len();
    let mut i: usize = 0;
    while i < n
        invariant
            n == ps@.len(),
            i <= n,
            out@ == proposal_ids(ps@.take(i as int)),
        decreases n - i,
    {
        out.push(ps[i].topology_proposal_id);
        proof {
            assert(proposal_ids(ps@.take(i + 1)) =~= proposal_ids(ps@.take(i as int)).push(
                ps@[i as int].topology_proposal_id,
            ));
        }
        i = i + 1;
    }
    proof {
        assert(ps@.take(n as int) =~= ps@);
    }
    out
}

fn collect_snapshot_ids(ss: &[TopologySnapshot]) -> (r: Vec<u64>)
    ensures
        r@ == snapshot_ids(ss@),
{
    let mut out: Vec<u64> = Vec::new();
    let n = ss.len();
    let mut i: usize = 0;
    while i < n
        invariant
            n == ss@.len(),
            i <= n,
            out@ == snapshot_ids(ss@.take(i as int)),
        decreases n - i,
    {
        out.push(ss[i].topology_snapshot_id);
        proof {
            assert(snapshot_ids(ss@.take(i + 1)) =~= snapshot_ids(ss@.take(i as int)).push(
                ss@[i as int].topology_snapshot_id,
            ));
        }
        i = i + 1;
    }
    proof {
        assert(ss@.take(n as int) =~= ss@);
    }
    out
}

fn collect_rollback_ids(rs: &[RollbackRecord]) -> (r: Vec<u64>)
    ensures
        r@ == rollback_ids(rs@),
{
    let mut out: Vec<u64> = Vec::new();
    let n = rs.len();
    let mut i: usize = 0;
    while i < n
        invariant
            n == rs@.len(),
            i <= n,
            out@ == rollback_ids(rs@.take(i as int)),
        decreases n - i,
    {
        out.push(rs[i].rollback_id);
        proof {
            assert(rollback_ids(rs@.take(i + 1)) =~= rollback_ids(rs@.take(i as int)).push(
                rs@[i as int].rollback_id,
            ));
        }
        i = i + 1;
    }
    proof {
        assert(rs@.take(n as int) =~= rs@);
    }
    out
}

/// Refuses proposals that repeat an id.
pub fn validate_unique_topology_proposal_ids(proposals: &[TopologyProposal]) -> (r: Result<
    (),
    LoomModelError,
>)
    ensures
        r == (match first_repeat(proposal_ids(proposals@)) {
            Some(id) => Err(LoomModelError::DuplicateTopologyProposalId(id)),
            None => Ok(()),
        }),
{
    let ids = collect_proposal_ids(proposals);
    match first_repeated_id(ids.as_slice()) {
        Some(id) => Err(LoomModelError::DuplicateTopologyProposalId(id)),
        None => Ok(()),
    }
}

/// Refuses snapshots that repeat an id.
pub fn validate_unique_topology_snapshot_ids(snapshots: &[TopologySnapshot]) -> (r: Result<
    (),
    LoomModelError,
>)
    ensures
        r == (match first_repeat(snapshot_ids(snapshots@)) {
            Some(id) => Err(LoomModelError::DuplicateTopologySnapshotId(id)),
            None => Ok(()),
        }),
{
    let ids = collect_snapshot_ids(snapshots);
    match first_repeated_id(ids.as_slice()) {
        Some(id) => Err(LoomModelError::DuplicateTopologySnapshotId(id)),
        None => Ok(()),
    }
}

/// Refuses rollbacks that repeat an id.
pub fn validate_unique_rollback_ids(records: &[RollbackRecord]) -> (r: Result<(), LoomModelError>)
    ensures
        r == (match first_repeat(rollback_ids(records@)) {
            Some(id) => Err(LoomModelError::DuplicateRollbackId(id)),
            None => Ok(()),
        }),
{
    let ids = collect_rollback_ids(records);
    match first_repeated_id(ids.as_slice()) {
        Some(id) => Err(LoomModelError::DuplicateRollbackId(id)),
        None => Ok(()),
    }
}

/// Checks that proposals, snapshots and rollbacks are consistent.
pub fn validate_topology_governance_records(
    proposals: &[TopologyProposal],
    snapshots: &[TopologySnapshot],
    rollback_records: &[RollbackRecord],
) -> (r: Result<(), LoomModelError>)
    ensures
        r == governance_outcome(proposals@, snapshots@, rollback_records@),
{
    validate_unique_topology_proposal_ids(proposals)?;
    validate_unique_topology_snapshot_ids(snapshots)?;
    validate_unique_rollback_ids(rollback_records)?;
    let proposal_id_list = collect_proposal_ids(proposals);
    let snapshot_id_list = collect_snapshot_ids(snapshots);
    let n = snapshots.len();
    let mut i: usize = 0;
    while i < n
        invariant
            n == snapshots@.len(),
            i <= n,
            proposal_id_list@ == proposal_ids(proposals@),
            first_repeat(proposal_ids(proposals@)) is None,
            first_repeat(snapshot_ids(snapshots@)) is None,
            first_repeat(rollback_ids(rollback_records@)) is None,
            unknown_source(snapshots@.take(i as int), proposal_ids(proposals@)) is None,
        decreases n - i,
    {
        proof {
            lemma_take_last(snapshots@, i as int);
        }
        let source = snapshots[i].source_proposal_id;
        if !ids_contain(&proposal_id_list, source) {
            proof {
                lemma_unknown_source_stays(snapshots@, proposal_ids(proposals@), i + 1);
            }
            return Err(
                LoomModelError::UnknownTopologyProposalId {
                    field: "snapshot.source_proposal_id",
                    topology_proposal_id: source,
                },
            );
        }
        i = i + 1;
    }
    proof {
        assert(snapshots@.take(n as int) =~= snapshots@);
    }
    let m = rollback_records.len();
    let mut j: usize = 0;
    while j < m
        invariant
            m == rollback_records@.len(),
            j <= m,
            snapshot_id_list@ == snapshot_ids(snapshots@),
            first_repeat(proposal_ids(proposals@)) is None,
            first_repeat(snapshot_ids(snapshots@)) is None,
            first_repeat(rollback_ids(rollback_records@)) is None,
            unknown_source(snapshots@, proposal_ids(proposals@)) is None,
            unknown_rollback_snapshot(rollback_records@.take(j as int), snapshot_ids(snapshots@)) is None,
        decreases m - j,
    {
        proof {
            lemma_take_last(rollback_records@, j as int);
        }
        let from = rollback_records[j].from_topology_snapshot_id;
        let to = rollback_records[j].to_topology_snapshot_id;
        if !ids_contain(&snapshot_id_list, from) {
            proof {
                lemma_unknown_rollback_stays(rollback_records@, snapshot_ids(snapshots@), j + 1);
            }
            return Err(
                LoomModelError::UnknownTopologySnapshotId {
                    field: "rollback.from_topology_snapshot_id",
                    topology_snapshot_id: from,
                },
            );
        }
        if !ids_contain(&snapshot_id_list, to) {
            proof {
                lemma_unknown_rollback_stays(rollback_records@, snapshot_ids(snapshots@), j + 1);
            }
            return Err(
                LoomModelError::UnknownTopologySnapshotId {
                    field: "rollback.to_topology_snapshot_id",
                    topology_snapshot_id: to,
                },
            );
        }
        j = j + 1;
    }
    proof {
        assert(rollback_records@.take(m as int) =~= rollback_records@);
    }
    Ok(())
}

proof fn lemma_unknown_source_stays(ss: Seq<TopologySnapshot>, pids: Seq<u64>, k: int)
    requires
        0 <= k <= ss.len(),
        unknown_source(ss.take(k), pids) is Some,
    ensures
        unknown_source(ss, pids) == unknown_source(ss.take(k), pids),
    decreases ss.len() - k,
{
    if k == ss.len() {
        assert(ss.take(k) =~= ss);
    } else {
        lemma_take_last(ss, k);
        lemma_unknown_source_stays(ss, pids, k + 1);
    }
}

proof fn lemma_unknown_rollback_stays(rs: Seq<RollbackRecord>, sids: Seq<u64>, k: int)
    requires
        0 <= k <= rs.len(),
        unknown_rollback_snapshot(rs.take(k), sids) is Some,
    ensures
        unknown_rollback_snapshot(rs, sids) == unknown_rollback_snapshot(rs.take(k), sids),
    decreases rs.len() - k,
{
    if k == rs.len() {
        assert(rs.take(k) =~= rs);
    } else {
        lemma_take_last(rs, k);
        lemma_unknown_rollback_stays(rs, sids, k + 1);
    }
}

impl RollbackRecord {
    /// A rollback with a reason, a trigger and the affected route decisions,
    /// between two different snapshots (checked in that order).
    pub fn new(
        rollback_id: u64,
        from_topology_snapshot_id: u64,
        to_topology_snapshot_id: u64,
        reason: &str,
        triggered_by_ref: &str,
        affected_route_decision_refs: Vec<String>,
        created_at_ms: u64,
    ) -> (r: Result<Self, LoomModelError>)
        ensures
            is_blank(reason@) ==> r == Err::<Self, LoomModelError>(LoomModelError::EmptyField("reason")),
            !is_blank(reason@) && is_blank(triggered_by_ref@) ==> r == Err::<Self, LoomModelError>(
                LoomModelError::EmptyField("triggered_by_ref"),
            ),
            !is_blank(reason@) && !is_blank(triggered_by_ref@) && affected_route_decision_refs@.len()
                == 0 ==> r == Err::<Self, LoomModelError>(
                LoomModelError::EmptyCollection("affected_route_decision_refs"),
            ),
            !is_blank(reason@) && !is_blank(triggered_by_ref@) && affected_route_decision_refs@.len()
                != 0 && to_topology_snapshot_id == from_topology_snapshot_id ==> r == Err::<
                Self,
                LoomModelError,
            >(
                LoomModelError::InvalidNumericField {
                    field: "to_topology_snapshot_id",
                    reason: "must differ from from_topology_snapshot_id",
                },
            ),
            !is_blank(reason@) && !is_blank(triggered_by_ref@) && affected_route_decision_refs@.len()
                != 0 && to_topology_snapshot_id != from_topology_snapshot_id ==> (r matches Ok(rec)
                && rec.rollback_id == rollback_id && rec.from_topology_snapshot_id
                == from_topology_snapshot_id && rec.to_topology_snapshot_id
                == to_topology_snapshot_id && rec.reason@ == reason@ && rec.triggered_by_ref@
                == triggered_by_ref@ && rec.affected_route_decision_refs
                == affected_route_decision_refs && rec.created_at_ms == created_at_ms),
    {
        ensure_not_empty("reason", reason)?;
        ensure_not_empty("triggered_by_ref", triggered_by_ref)?;
        ensure_not_empty_collection(
            "affected_route_decision_refs",
            affected_route_decision_refs.as_slice(),
        )?;
        if to_topology_snapshot_id == from_topology_snapshot_id {
            return Err(
                LoomModelError::InvalidNumericField {
                    field: "to_topology_snapshot_id",
                    reason: "must differ from from_topology_snapshot_id",
                },
            );
        }
        Ok(
            RollbackRecord {
                rollback_id,
                from_topology_snapshot_id,
                to_topology_snapshot_id,
                reason: String::from_str(reason),
                triggered_by_ref: String::from_str(triggered_by_ref),
                affected_route_decision_refs,
                created_at_ms,
            },
        )
    }
}

impl TopologyGovernanceStore {
    /// A store of consistent proposals, snapshots and rollbacks.
    pub fn new(
        proposals: Vec<TopologyProposal>,
        snapshots: Vec<TopologySnapshot>,
        rollback_records: Vec<RollbackRecord>,
    ) -> (r: Result<Self, LoomModelError>)
        ensures
            match governance_outcome(proposals@, snapshots@, rollback_records@) {
                Err(err) => r == Err::<Self, LoomModelError>(err),
                Ok(_) => r == Ok::<Self, LoomModelError>(
                    TopologyGovernanceStore { proposals, snapshots, rollback_records },
                ),
            },
    {
        validate_topology_governance_records(
            proposals.as_slice(),
            snapshots.as_slice(),
            rollback_records.as_slice(),
        )?;
        Ok(TopologyGovernanceStore { proposals, snapshots, rollback_records })
    }

    /// The topology snapshot in force: the latest active one by creation time, then id.
    pub fn active_topology_snapshot(&self) -> (r: Result<&TopologySnapshot, LoomModelError>)
        ensures
            match best_active(self.snapshots@) {
                Some(i) => (r matches Ok(s) && *s == self.snapshots@[i]),
                None => r == Err::<&TopologySnapshot, LoomModelError>(
                    LoomModelError::NoActiveTopologySnapshot,
                ),
            },
            r matches Ok(s) ==> {
                &&& s.status == TopologySnapshotStatus::Active
                &&& exists|i: int| 0 <= i < self.snapshots@.len() && #[trigger] self.snapshots@[i] == *s
                &&& forall|j: int|
                    0 <= j < self.snapshots@.len() && #[trigger] self.snapshots@[j].status
                        == TopologySnapshotStatus::Active ==> self.snapshots@[j].created_at_ms
                        < s.created_at_ms || (self.snapshots@[j].created_at_ms == s.created_at_ms
                        && self.snapshots@[j].topology_snapshot_id <= s.topology_snapshot_id)
            },
            r is Err ==> forall|j: int| 0 <= j < self.snapshots@.len() ==> #[trigger] self.snapshots@[j].status
                != TopologySnapshotStatus::Active,
    {
        proof {
            law_active_snapshot_is_latest(self.snapshots@);
        }
        let n = self.snapshots.len();
        let mut best: Option<usize> = None;
        let mut i: usize = 0;
        while i < n
            invariant
                n == self.snapshots@.len(),
                i <= n,
                match best {
                    Some(b) => best_active(self.snapshots@.take(i as int)) == Some(b as int) && b < i,
                    None => best_active(self.snapshots@.take(i as int)) is None,
                },
            decreases n - i,
        {
            proof {
                lemma_take_last(self.snapshots@, i as int);
            }
            let s = &self.snapshots[i];
            if s.status == TopologySnapshotStatus::Active {
                let replace = match best {
                    None => true,
                    Some(b) => {
                        let cur = &self.snapshots[b];
                        proof {
                            assert(self.snapshots@.take(i + 1)[b as int] == self.snapshots@[b as int]);
                        }
                        s.created_at_ms > cur.created_at_ms || (s.created_at_ms == cur.created_at_ms
                            && s.topology_snapshot_id >= cur.topology_snapshot_id)
                    },
                };
                if replace {
                    best = Some(i);
                }
            }
            i = i + 1;
        }
        proof {
            assert(self.snapshots@.take(n as int) =~= self.snapshots@);
        }
        match best {
            Some(b) => Ok(&self.snapshots[b]),
            None => Err(LoomModelError::NoActiveTopologySnapshot),
        }
    }

    /// Records `rollback_record` and rolls back: its target becomes the
    /// active snapshot, its source is rolled back and any other active
    /// snapshot is superseded. Refused when the records would not stay consistent.
    pub fn apply_rollback(self, rollback_record: RollbackRecord) -> (r: Result<Self, LoomModelError>)
        ensures
            match governance_outcome(
                self.proposals@,
                self.snapshots@,
                self.rollback_records@.push(rollback_record),
            ) {
                Err(err) => r == Err::<Self, LoomModelError>(err),
                Ok(_) => (r matches Ok(st) && st.proposals == self.proposals && st.snapshots@
                    == rolled_snapshots(self.snapshots@, rollback_record) && st.rollback_records@
                    == self.rollback_records@.push(rollback_record)),
            },
    {
        let mut store = self;
        let to = rollback_record.to_topology_snapshot_id;
        let from = rollback_record.from_topology_snapshot_id;
        let ghost rec = rollback_record;
        store.rollback_records.push(rollback_record);
        validate_topology_governance_records(
            store.proposals.as_slice(),
            store.snapshots.as_slice(),
            store.rollback_records.as_slice(),
        )?;
        let ghost initial = store.snapshots@;
        let ghost kept_proposals = store.proposals;
        let ghost kept_records = store.rollback_records;
        let n = store.snapshots.len();
        let mut i: usize = 0;
        while i < n
            invariant
                n == store.snapshots@.len(),
                initial.len() == n,
                i <= n,
                store.proposals == kept_proposals,
                store.rollback_records == kept_records,
                to == rec.to_topology_snapshot_id,
                from == rec.from_topology_snapshot_id,
                forall|k: int| 0 <= k < i ==> #[trigger] store.snapshots@[k] == (TopologySnapshot {
                    status: rolled_status(initial[k], rec),
                    ..initial[k]
                }),
                forall|k: int| i <= k < n ==> #[trigger] store.snapshots@[k] == initial[k],
            decreases n - i,
        {
            let id = store.snapshots[i].topology_snapshot_id;
            let status = store.snapshots[i].status;
            let next = if id == to {
                TopologySnapshotStatus::Active
            } else if id == from {
                TopologySnapshotStatus::RolledBack
            } else if status == TopologySnapshotStatus::Active {
                TopologySnapshotStatus::Superseded
            } else {
                status
            };
            store.snapshots[i].status = next;
            i = i + 1;
        }
        proof {
            assert(store.snapshots@ =~= rolled_snapshots(initial, rec));
            assert(snapshot_ids(store.snapshots@) =~= snapshot_ids(initial));
            lemma_unknown_source_status_free(initial, store.snapshots@, proposal_ids(store.proposals@));
        }
        validate_topology_governance_records(
            store.proposals.as_slice(),
            store.snapshots.as_slice(),
            store.rollback_records.as_slice(),
        )?;
        Ok(store)
    }
}

proof fn lemma_unknown_source_status_free(a: Seq<TopologySnapshot>, b: Seq<TopologySnapshot>, pids: Seq<u64>)
    requires
        a.len() == b.len(),
        forall|k: int| 0 <= k < a.len() ==> #[trigger] a[k].source_proposal_id == b[k].source_proposal_id,
    ensures
        unknown_source(a, pids) == unknown_source(b, pids),
    decreases a.len(),
{
    if a.len() > 0 {
        assert forall|k: int| 0 <= k < a.drop_last().len() implies #[trigger] a.drop_last()[k].source_proposal_id
            == b.drop_last()[k].source_proposal_id by {
            assert(a[k].source_proposal_id == b[k].source_proposal_id);
        }
        lemma_unknown_source_status_free(a.drop_last(), b.drop_last(), pids);
    }
}

proof fn lemma_no_repeat_distinct(ids: Seq<u64>)
    requires
        first_repeat(ids) is None,
    ensures
        forall|i: int, j: int| 0 <= i < j < ids.len() ==> ids[i] != ids[j],
    decreases ids.len(),
{
    if ids.len() > 0 {
        let rest = ids.drop_last();
        lemma_no_repeat_distinct(rest);
        assert forall|i: int, j: int| 0 <= i < j < ids.len() implies ids[i] != ids[j] by {
            if j == ids.len() - 1 {
                if ids[i] == ids[j] {
                    assert(rest[i] == ids.last());
                    assert(rest.contains(ids.last()));
                }
            } else {
                assert(rest[i] == ids[i] && rest[j] == ids[j]);
            }
        }
    }
}

proof fn lemma_single_active(ss: Seq<TopologySnapshot>, k: int)
    requires
        0 <= k < ss.len(),
        ss[k].status == TopologySnapshotStatus::Active,
        forall|j: int| 0 <= j < ss.len() && j != k ==> #[trigger] ss[j].status
            != TopologySnapshotStatus::Active,
    ensures
        best_active(ss) == Some(k),
    decreases ss.len(),
{
    let rest = ss.drop_last();
    if k == ss.len() - 1 {
        lemma_none_active(rest);
    } else {
        assert forall|j: int| 0 <= j < rest.len() && j != k implies #[trigger] rest[j].status
            != TopologySnapshotStatus::Active by {
            assert(rest[j] == ss[j]);
        }
        lemma_single_active(rest, k);
        assert(ss.last() == ss[ss.len() - 1]);
    }
}

proof fn lemma_none_active(ss: Seq<TopologySnapshot>)
    requires
        forall|j: int| 0 <= j < ss.len() ==> #[trigger] ss[j].status != TopologySnapshotStatus::Active,
    ensures
        best_active(ss) is None,
    decreases ss.len(),
{
    if ss.len() > 0 {
        let rest = ss.drop_last();
        assert forall|j: int| 0 <= j < rest.len() implies #[trigger] rest[j].status
            != TopologySnapshotStatus::Active by {
            assert(rest[j] == ss[j]);
        }
        lemma_none_active(rest);
        assert(ss.last() == ss[ss.len() - 1]);
    }
}

/// After a rollback that keeps the governance records consistent, the
/// snapshot in force is the rollback's target, and it is the only active one.
pub proof fn law_rollback_activates_target(
    ps: Seq<TopologyProposal>,
    ss: Seq<TopologySnapshot>,
    rs: Seq<RollbackRecord>,
    rec: RollbackRecord,
)
    requires
        governance_outcome(ps, ss, rs.push(rec)) is Ok,
    ensures
        best_active(rolled_snapshots(ss, rec)) matches Some(i)
            && rolled_snapshots(ss, rec)[i].topology_snapshot_id == rec.to_topology_snapshot_id,
        forall|j: int|
            0 <= j < ss.len() && #[trigger] rolled_snapshots(ss, rec)[j].status
                == TopologySnapshotStatus::Active ==> rolled_snapshots(ss, rec)[j].topology_snapshot_id
                == rec.to_topology_snapshot_id,
{
    let rolled = rolled_snapshots(ss, rec);
    let sids = snapshot_ids(ss);
    let rs2 = rs.push(rec);
    assert(rs2.drop_last() =~= rs);
    assert(rs2.last() == rec);
    assert(sids.contains(rec.to_topology_snapshot_id));
    let k = choose|k: int| 0 <= k < sids.len() && sids[k] == rec.to_topology_snapshot_id;
    lemma_no_repeat_distinct(sids);
    assert(rolled[k].status == TopologySnapshotStatus::Active);
    assert forall|j: int| 0 <= j < rolled.len() && j != k implies #[trigger] rolled[j].status
        != TopologySnapshotStatus::Active by {
        assert(sids[j] == ss[j].topology_snapshot_id);
        if j < k {
            assert(sids[j] != sids[k]);
        } else {
            assert(sids[k] != sids[j]);
        }
    }
    lemma_single_active(rolled, k);
    assert forall|j: int|
        0 <= j < ss.len() && #[trigger] rolled[j].status == TopologySnapshotStatus::Active implies rolled[j].topology_snapshot_id
        == rec.to_topology_snapshot_id by {
        if j != k {
            assert(rolled[j].status != TopologySnapshotStatus::Active);
        }
    }
}

/// Every governance step that succeeds moves the proposal's update time
/// strictly forward and keeps its id, kind, creation time and evidence.
pub proof fn law_governance_steps_move_forward(
    p: TopologyProposal,
    refs: Vec<String>,
    t: u64,
)
    ensures
        tested_outcome(p, refs, t) matches Ok(q) ==> q.updated_at_ms > p.updated_at_ms
            && q.topology_proposal_id == p.topology_proposal_id && q.proposal_kind == p.proposal_kind
            && q.created_at_ms == p.created_at_ms && q.evidence_refs == p.evidence_refs,
        shadowed_outcome(p, refs, t) matches Ok(q) ==> q.updated_at_ms > p.updated_at_ms
            && q.topology_proposal_id == p.topology_proposal_id && q.proposal_kind == p.proposal_kind
            && q.created_at_ms == p.created_at_ms && q.evidence_refs == p.evidence_refs
            && q.benchmark_report_refs == p.benchmark_report_refs,
        approved_outcome(p, refs, t) matches Ok(q) ==> q.updated_at_ms > p.updated_at_ms
            && q.topology_proposal_id == p.topology_proposal_id && q.proposal_kind == p.proposal_kind
            && q.created_at_ms == p.created_at_ms && q.evidence_refs == p.evidence_refs
            && q.benchmark_report_refs == p.benchmark_report_refs && q.shadow_report_refs
            == p.shadow_report_refs,
{
}

/// A proposal is shadowed only after it was tested, approved only after it
/// was shadowed, and committed only after it was approved.
pub proof fn law_governance_order(
    p: TopologyProposal,
    refs: Vec<String>,
    t: u64,
    agent_registry_version: Seq<char>,
    gradient_space_versions: Seq<String>,
    memory_index_versions: Seq<String>,
    route_policy_versions: Seq<String>,
    hard_constraint_policy_version: Seq<char>,
)
    ensures
        shadowed_outcome(p, refs, t) is Ok ==> p.status == TopologyProposalStatus::Tested,
        approved_outcome(p, refs, t) is Ok ==> p.status == TopologyProposalStatus::Shadowed,
        commit_refusal(
            p,
            agent_registry_version,
            gradient_space_versions,
            memory_index_versions,
            route_policy_versions,
            hard_constraint_policy_version,
            t,
        ) is None ==> p.status == TopologyProposalStatus::Approved && t > p.updated_at_ms,
{
}

/// The snapshot in force is the latest active one: it is active, and every
/// active snapshot was created before it, or at the same time with an id no
/// greater; there is none only when no snapshot is active.
pub proof fn law_active_snapshot_is_latest(ss: Seq<TopologySnapshot>)
    ensures
        best_active(ss) is None <==> forall|j: int| 0 <= j < ss.len() ==> #[trigger] ss[j].status
            != TopologySnapshotStatus::Active,
        best_active(ss) matches Some(i) ==> {
            &&& 0 <= i < ss.len()
            &&& ss[i].status == TopologySnapshotStatus::Active
            &&& forall|j: int|
                0 <= j < ss.len() && #[trigger] ss[j].status == TopologySnapshotStatus::Active ==> ss[j].created_at_ms
                    < ss[i].created_at_ms || (ss[j].created_at_ms == ss[i].created_at_ms
                    && ss[j].topology_snapshot_id <= ss[i].topology_snapshot_id)
        },
    decreases ss.len(),
{
    if ss.len() > 0 {
        let rest = ss.drop_last();
        law_active_snapshot_is_latest(rest);
        assert forall|j: int| 0 <= j < rest.len() implies rest[j] == ss[j] by {}
        let last = ss.len() - 1;
        assert(ss.last() == ss[last]);
        match best_active(rest) {
            Some(b) => {
                assert(rest[b] == ss[b]);
            },
            None => {},
        }
    }
}

} // verus!

