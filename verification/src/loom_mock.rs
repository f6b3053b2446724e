//! Offline mock agents of the task loom: a director that splits a root task
//! into two children with a plan and an integration group, a constructor
//! that builds a child's artifact and its lifecycle events, an integration
//! agent that joins completed children, and a curator that turns a
//! decommission packet into a memory node.
use vstd::prelude::*;
use vstd::string::*;
use crate::text::{decimal, is_blank, numbered_ref, push_decimal, push_text, spec_is_whitespace};
use crate::loom::{
    InMemoryEventLog, LoomEvent, LoomEventType, cause_kind, event_fields_outcome, event_with_id,
    has_id, is_first_with_id, lemma_first_with_id_unique,
};
use crate::replay::{
    ReplayValidationReport, count_kind, count_with_task, last_link, replay_outcome, root_ids,
    scan_outcome,
};
use crate::loom_model::{
    AgentDecommissionPacket, ArtifactRef, DependencyEdge, DependencyKind, IntegrationGroup,
    IntegrationReport, IntegrationStatus, JoinPolicy, LoomModelError, MemoryNode, MemoryNodeKind,
    PlanNode, TaskEnvelope, ensure_not_empty,
};

verus! {

/// A text that starts with a character other than white space is not blank.
pub proof fn lemma_not_blank_after_mark(a: Seq<char>, b: Seq<char>)
    requires
        a.len() > 0,
        !spec_is_whitespace(a[0]),
    ensures
        !is_blank(a + b),
{
    assert((a + b)[0] == a[0]);
}

/// `prefix` followed by `text`.
fn prefixed(prefix: &str, text: &str) -> (r: String)
    ensures
        r@ == prefix@ + text@,
{
    let mut out = String::new();
    push_text(&mut out, prefix);
    push_text(&mut out, text);
    assert(out@ =~= prefix@ + text@);
    out
}

/// The ids and counters a mock director draws from.
#[derive(Clone, Debug, PartialEq, Eq)]
pub struct MockDirectorConfig {
    pub director_agent_id: u64,
    pub integration_agent_id: u64,
    pub next_plan_id: u64,
    pub next_integration_group_id: u64,
    pub next_child_task_id: u64,
}

impl Default for MockDirectorConfig {
    fn default() -> (r: Self)
        ensures
            r == (MockDirectorConfig {
                director_agent_id: 500,
                integration_agent_id: 700,
                next_plan_id: 1,
                next_integration_group_id: 1,
                next_child_task_id: 1_000,
            }),
    {
        MockDirectorConfig {
            director_agent_id: 500,
            integration_agent_id: 700,
            next_plan_id: 1,
            next_integration_group_id: 1,
            next_child_task_id: 1_000,
        }
    }
}

/// A director that splits every root task into an explore and a validate child.
#[derive(Clone, Debug, PartialEq, Eq)]
pub struct MockDirector {
    config: MockDirectorConfig,
}

/// The plan, children and integration group of a split.
#[derive(Clone, Debug, PartialEq, Eq)]
pub struct DirectorOutput {
    pub plan: PlanNode,
    pub children: Vec<TaskEnvelope>,
    pub integration_group: IntegrationGroup,
}

/// The split a director with `cfg` makes of a root task: checks what a
/// director output must hold.
pub open spec fn is_director_split(
    out: DirectorOutput,
    cfg: MockDirectorConfig,
    prompt_id: u64,
    root_task_id: u64,
    root_task_graph_id: u64,
    summary: Seq<char>,
) -> bool {
    let first = cfg.next_child_task_id;
    let second = (cfg.next_child_task_id + 1) as u64;
    &&& out.children@.len() == 2
    &&& out.children@[0].task_id == first
    &&& out.children@[1].task_id == second
    &&& out.children@[0].summary@ == "Explore: "@ + summary
    &&& out.children@[1].summary@ == "Validate: "@ + summary
    &&& forall|i: int|
        0 <= i < 2 ==> {
            &&& (#[trigger] out.children@[i]).root_task_id == root_task_graph_id
            &&& out.children@[i].parent_task_id == Some(root_task_id)
            &&& out.children@[i].prompt_id == prompt_id
            &&& out.children@[i].plan_id == cfg.next_plan_id
            &&& out.children@[i].integration_group_id == cfg.next_integration_group_id
        }
    &&& out.plan.plan_id == cfg.next_plan_id
    &&& out.plan.root_task_id == root_task_graph_id
    &&& out.plan.task_id == root_task_id
    &&& out.plan.director_agent_id == cfg.director_agent_id
    &&& out.plan.decomposition_reason_ref@ == "inline://decomposition/"@ + decimal(
        cfg.next_plan_id as nat,
    )
    &&& out.plan.child_task_ids@ == seq![first, second]
    &&& out.plan.dependency_edges@ == seq![
        DependencyEdge { from_task_id: first, to_task_id: second, kind: DependencyKind::ProvidesEvidence },
    ]
    &&& out.plan.integration_group_id == cfg.next_integration_group_id
    &&& out.plan.acceptance_criteria_ref@ == "inline://acceptance/"@ + decimal(cfg.next_plan_id as nat)
    &&& out.plan.risk_flags@.len() == 1
    &&& out.plan.risk_flags@[0]@ == "mock_director_split"@
    &&& out.integration_group.integration_group_id == cfg.next_integration_group_id
    &&& out.integration_group.root_task_id == root_task_graph_id
    &&& out.integration_group.parent_task_id == root_task_id
    &&& out.integration_group.plan_id == cfg.next_plan_id
    &&& out.integration_group.expected_child_task_ids@ == seq![first, second]
    &&& out.integration_group.join_policy == JoinPolicy::WaitAll
    &&& out.integration_group.acceptance_criteria_ref@ == out.plan.acceptance_criteria_ref@
    &&& out.integration_group.integration_agent_ids@ == seq![cfg.integration_agent_id]
}

impl MockDirector {
    /// A director drawing from `config`.
    pub fn new(config: MockDirectorConfig) -> (r: Self)
        ensures
            r.config() == config,
    {
        MockDirector { config }
    }

    /// The ids and counters this director draws from.
    pub closed spec fn config(&self) -> MockDirectorConfig {
        self.config
    }

    /// Splits a root task into an explore child and a validate child, the
    /// first providing evidence to the second, joined by one integration
    /// agent once both are done.
    pub fn split_root_task(
        &self,
        prompt_id: u64,
        root_task_id: u64,
        root_task_graph_id: u64,
        summary: &str,
    ) -> (r: Result<DirectorOutput, LoomModelError>)
        requires
            !is_blank(summary@) ==> self.config().next_child_task_id < u64::MAX,
        ensures
            is_blank(summary@) ==> r == Err::<DirectorOutput, LoomModelError>(
                LoomModelError::EmptyField("summary"),
            ),
            !is_blank(summary@) ==> (r matches Ok(out) && is_director_split(
                out,
                self.config(),
                prompt_id,
                root_task_id,
                root_task_graph_id,
                summary@,
            )),
    {
        ensure_not_empty("summary", summary)?;
        let first_id = self.config.next_child_task_id;
        let second_id = self.config.next_child_task_id + 1;
        let explore = prefixed("Explore: ", summary);
        let validate = prefixed("Validate: ", summary);
        proof {
            reveal_strlit("Explore: ");
            reveal_strlit("Validate: ");
            lemma_not_blank_after_mark("Explore: "@, summary@);
            lemma_not_blank_after_mark("Validate: "@, summary@);
        }
        let child_a = TaskEnvelope::child(
            first_id,
            root_task_graph_id,
            root_task_id,
            prompt_id,
            self.config.next_plan_id,
            self.config.next_integration_group_id,
            explore.as_str(),
        )?;
        let child_b = TaskEnvelope::child(
            second_id,
            root_task_graph_id,
            root_task_id,
            prompt_id,
            self.config.next_plan_id,
            self.config.next_integration_group_id,
            validate.as_str(),
        )?;
        let children = vec![child_a, child_b];
        let child_task_ids = vec![first_id, second_id];
        let decomposition = numbered_ref("inline://decomposition/", self.config.next_plan_id);
        let acceptance = numbered_ref("inline://acceptance/", self.config.next_plan_id);
        proof {
            reveal_strlit("inline://decomposition/");
            reveal_strlit("inline://acceptance/");
            lemma_not_blank_after_mark("inline://decomposition/"@, decimal(self.config.next_plan_id as nat));
            lemma_not_blank_after_mark("inline://acceptance/"@, decimal(self.config.next_plan_id as nat));
        }
        let plan = PlanNode::new(
            self.config.next_plan_id,
            root_task_graph_id,
            root_task_id,
            self.config.director_agent_id,
            decomposition.as_str(),
            child_task_ids,
            vec![DependencyEdge::new(first_id, second_id, DependencyKind::ProvidesEvidence)],
            self.config.next_integration_group_id,
            acceptance.as_str(),
            vec![String::from_str("mock_director_split")],
        )?;
        let integration_group = IntegrationGroup::new(
            self.config.next_integration_group_id,
            root_task_graph_id,
            root_task_id,
            self.config.next_plan_id,
            vec![first_id, second_id],
            JoinPolicy::WaitAll,
            plan.acceptance_criteria_ref.as_str(),
            vec![self.config.integration_agent_id],
        )?;
        let out = DirectorOutput { plan, children, integration_group };
        proof {
            assert(out.children@[0] == child_a);
            assert(out.children@[1] == child_b);
            assert(out.children@.len() == 2);
            assert(out.plan.child_task_ids@ == seq![first_id, second_id]);
            assert(out.plan.dependency_edges@ == seq![
                DependencyEdge { from_task_id: first_id, to_task_id: second_id, kind: DependencyKind::ProvidesEvidence },
            ]);
            assert(out.plan.risk_flags@.len() == 1);
            assert(out.plan.risk_flags@[0]@ == "mock_director_split"@);
            assert(out.integration_group.expected_child_task_ids@ == seq![first_id, second_id]);
            assert(out.integration_group.integration_agent_ids@ == seq![self.config.integration_agent_id]);
        }
        Ok(out)
    }
}

impl Default for MockDirector {
    fn default() -> (r: Self)
        ensures
            r.config() == (MockDirectorConfig {
                director_agent_id: 500,
                integration_agent_id: 700,
                next_plan_id: 1,
                next_integration_group_id: 1,
                next_child_task_id: 1_000,
            }),
    {
        MockDirector::new(MockDirectorConfig::default())
    }
}

/// The ids, clock and correlation a mock constructor draws from.
#[derive(Clone, Debug, PartialEq, Eq)]
pub struct MockConstructorConfig {
    pub agent_id: u64,
    pub next_artifact_id: u64,
    pub next_event_id: u64,
    pub occurred_at_ms: u64,
    pub correlation_id: u64,
}

impl Default for MockConstructorConfig {
    fn default() -> (r: Self)
        ensures
            r == (MockConstructorConfig {
                agent_id: 301,
                next_artifact_id: 900,
                next_event_id: 2_000,
                occurred_at_ms: 10_000,
                correlation_id: 77,
            }),
    {
        MockConstructorConfig {
            agent_id: 301,
            next_artifact_id: 900,
            next_event_id: 2_000,
            occurred_at_ms: 10_000,
            correlation_id: 77,
        }
    }
}

/// A constructor that builds one markdown artifact per child task.
#[derive(Clone, Debug, PartialEq, Eq)]
pub struct MockConstructor {
    config: MockConstructorConfig,
}

/// The artifact a constructor built and the events it emitted.
#[derive(Clone, Debug, PartialEq, Eq)]
pub struct ConstructorOutput {
    pub artifact: ArtifactRef,
    pub event_log: InMemoryEventLog,
}

/// The constructor's configuration leaves room for its four event ids and times.
pub open spec fn constructor_fits(cfg: MockConstructorConfig) -> bool {
    cfg.next_event_id + 3 <= u64::MAX && cfg.occurred_at_ms + 3 <= u64::MAX
}

/// `e` is the constructor event number `k` (counted from `cfg.next_event_id`)
/// of kind `kind` for `task`, with payload `payload` and cause `cause`.
pub open spec fn is_constructor_event(
    e: LoomEvent,
    cfg: MockConstructorConfig,
    task: TaskEnvelope,
    k: u64,
    kind: LoomEventType,
    payload: Seq<char>,
    cause: Option<u64>,
) -> bool {
    &&& e.event_id == cfg.next_event_id + k
    &&& e.event_type == kind
    &&& e.root_task_id == task.root_task_id
    &&& e.task_id == Some(task.task_id)
    &&& e.parent_task_id == task.parent_task_id
    &&& e.prompt_id == Some(task.prompt_id)
    &&& e.agent_id == Some(cfg.agent_id)
    &&& e.agent_role matches Some(role) && role@ == "constructor"@
    &&& e.topology_snapshot_id is None
    &&& e.payload_schema@ == "qtom.mock.constructor.v1"@
    &&& e.payload_ref@ == payload
    &&& e.occurred_at_ms == cfg.occurred_at_ms + k
    &&& e.causation_id == cause
    &&& e.correlation_id == cfg.correlation_id
}

/// The reference of the constructor's artifact.
pub open spec fn artifact_ref_text(cfg: MockConstructorConfig) -> Seq<char> {
    "inline://artifact/"@ + decimal(cfg.next_artifact_id as nat)
}

/// The reference of the constructor's decommission.
pub open spec fn decommission_ref_text(cfg: MockConstructorConfig, task: TaskEnvelope) -> Seq<char> {
    "inline://decommission/"@ + decimal(cfg.agent_id as nat) + "/"@ + decimal(task.task_id as nat)
}

/// The four events of a constructor run: the artifact declared and ready,
/// the task completed and the agent decommissioned.
pub open spec fn is_constructor_log(
    events: Seq<LoomEvent>,
    cfg: MockConstructorConfig,
    task: TaskEnvelope,
) -> bool {
    &&& events.len() == 4
    &&& is_constructor_event(events[0], cfg, task, 0, LoomEventType::ArtifactDeclared, artifact_ref_text(cfg), None)
    &&& is_constructor_event(
        events[1],
        cfg,
        task,
        1,
        LoomEventType::ArtifactReady,
        artifact_ref_text(cfg),
        Some(cfg.next_event_id),
    )
    &&& is_constructor_event(events[2], cfg, task, 2, LoomEventType::TaskCompleted, artifact_ref_text(cfg), None)
    &&& is_constructor_event(
        events[3],
        cfg,
        task,
        3,
        LoomEventType::AgentDecommissioned,
        decommission_ref_text(cfg, task),
        None,
    )
}

impl MockConstructor {
    /// A constructor drawing from `config`.
    pub fn new(config: MockConstructorConfig) -> (r: Self)
        ensures
            r.config() == config,
    {
        MockConstructor { config }
    }

    /// The ids, clock and correlation this constructor draws from.
    pub closed spec fn config(&self) -> MockConstructorConfig {
        self.config
    }

    /// Builds a child task's artifact and records its lifecycle: artifact
    /// declared, artifact ready, task completed, agent decommissioned. The
    /// artifact's kind and reference are fixed non-blank texts, so its
    /// checks always pass; what the run asks is that the four event ids and
    /// times after the configured ones fit.
    pub fn build_child_task(&self, task: &TaskEnvelope) -> (r: Result<ConstructorOutput, LoomModelError>)
        requires
            constructor_fits(self.config()),
        ensures
            r matches Ok(out) && out.artifact.artifact_id == self.config().next_artifact_id
                && out.artifact.root_task_id == task.root_task_id && out.artifact.task_id
                == task.task_id && out.artifact.agent_id == self.config().agent_id
                && out.artifact.artifact_kind@ == "mock.markdown"@ && out.artifact.content_ref@
                == artifact_ref_text(self.config()) && out.event_log.wf() && is_constructor_log(
                out.event_log@,
                self.config(),
                *task,
            ),
    {
        let content_ref = numbered_ref("inline://artifact/", self.config.next_artifact_id);
        proof {
            reveal_strlit("mock.markdown");
            reveal_strlit("inline://artifact/");
            lemma_not_blank_after_mark("mock.markdown"@, Seq::<char>::empty());
            assert("mock.markdown"@ + Seq::<char>::empty() =~= "mock.markdown"@);
            lemma_not_blank_after_mark("inline://artifact/"@, decimal(self.config.next_artifact_id as nat));
        }
        let artifact = ArtifactRef::new(
            self.config.next_artifact_id,
            task.root_task_id,
            task.task_id,
            self.config.agent_id,
            "mock.markdown",
            content_ref.as_str(),
        )?;
        let mut decommission_ref = numbered_ref("inline://decommission/", self.config.agent_id);
        push_text(&mut decommission_ref, "/");
        push_decimal(&mut decommission_ref, task.task_id);
        proof {
            reveal_strlit("inline://decommission/");
            reveal_strlit("qtom.mock.constructor.v1");
            assert(decommission_ref@ =~= decommission_ref_text(self.config, *task));
            lemma_not_blank_after_mark(
                "inline://decommission/"@,
                decimal(self.config.agent_id as nat) + "/"@ + decimal(task.task_id as nat),
            );
            assert(decommission_ref_text(self.config, *task) =~= "inline://decommission/"@ + (decimal(
                self.config.agent_id as nat,
            ) + "/"@ + decimal(task.task_id as nat)));
            lemma_not_blank_after_mark("qtom.mock.constructor.v1"@, Seq::<char>::empty());
            assert("qtom.mock.constructor.v1"@ + Seq::<char>::empty() =~= "qtom.mock.constructor.v1"@);
        }
        let base = self.config.next_event_id;
        let declared = self.event(base, LoomEventType::ArtifactDeclared, task, artifact.content_ref.as_str(), None);
        let ready = self.event(
            base + 1,
            LoomEventType::ArtifactReady,
            task,
            artifact.content_ref.as_str(),
            Some(base),
        );
        let completed = self.event(
            base + 2,
            LoomEventType::TaskCompleted,
            task,
            artifact.content_ref.as_str(),
            None,
        );
        let decommissioned = self.event(
            base + 3,
            LoomEventType::AgentDecommissioned,
            task,
            decommission_ref.as_str(),
            None,
        );
        let ghost e0 = declared;
        let ghost e1 = ready;
        let ghost e2 = completed;
        let ghost e3 = decommissioned;
        let mut event_log = InMemoryEventLog::new();
        let r0 = event_log.append(declared);
        proof {
            assert(!crate::loom::has_id(Seq::<LoomEvent>::empty(), e0.event_id));
        }
        assert(r0 is Ok);
        proof {
            let prior = event_log@;
            assert(prior =~= seq![e0]);
            assert(crate::loom::is_first_with_id(prior, base, 0));
            let i = choose|i: int| crate::loom::is_first_with_id(prior, base, i);
            crate::loom::lemma_first_with_id_unique(prior, base, 0, i);
        }
        let r1 = event_log.append(ready);
        assert(r1 is Ok);
        let r2 = event_log.append(completed);
        assert(r2 is Ok);
        let r3 = event_log.append(decommissioned);
        assert(r3 is Ok);
        proof {
            assert(event_log@ =~= seq![e0, e1, e2, e3]);
        }
        Ok(ConstructorOutput { artifact, event_log })
    }

    fn event(
        &self,
        event_id: u64,
        event_type: LoomEventType,
        task: &TaskEnvelope,
        payload_ref: &str,
        causation_id: Option<u64>,
    ) -> (r: LoomEvent)
        requires
            self.config().next_event_id <= event_id <= self.config().next_event_id + 3,
            constructor_fits(self.config()),
        ensures
            is_constructor_event(
                r,
                self.config(),
                *task,
                (event_id - self.config().next_event_id) as u64,
                event_type,
                payload_ref@,
                causation_id,
            ),
    {
        LoomEvent {
            event_id,
            event_type,
            root_task_id: task.root_task_id,
            task_id: Some(task.task_id),
            parent_task_id: task.parent_task_id,
            prompt_id: Some(task.prompt_id),
            agent_id: Some(self.config.agent_id),
            agent_role: Some(String::from_str("constructor")),
            topology_snapshot_id: None,
            payload_schema: String::from_str("qtom.mock.constructor.v1"),
            payload_ref: String::from_str(payload_ref),
            occurred_at_ms: self.config.occurred_at_ms + (event_id - self.config.next_event_id),
            causation_id,
            correlation_id: self.config.correlation_id,
        }
    }
}

impl Default for MockConstructor {
    fn default() -> (r: Self)
        ensures
            r.config() == (MockConstructorConfig {
                agent_id: 301,
                next_artifact_id: 900,
                next_event_id: 2_000,
                occurred_at_ms: 10_000,
                correlation_id: 77,
            }),
    {
        MockConstructor::new(MockConstructorConfig::default())
    }
}

/// The agent, ids, clock and correlation a mock integration agent draws from.
#[derive(Clone, Debug, PartialEq, Eq)]
pub struct MockIntegrationConfig {
    pub integration_agent_id: u64,
    pub next_event_id: u64,
    pub occurred_at_ms: u64,
    pub correlation_id: u64,
}

impl Default for MockIntegrationConfig {
    fn default() -> (r: Self)
        ensures
            r == (MockIntegrationConfig {
                integration_agent_id: 700,
                next_event_id: 3_000,
                occurred_at_ms: 20_000,
                correlation_id: 77,
            }),
    {
        MockIntegrationConfig {
            integration_agent_id: 700,
            next_event_id: 3_000,
            occurred_at_ms: 20_000,
            correlation_id: 77,
        }
    }
}

/// An integration agent that accepts a group once every expected child has an artifact.
#[derive(Clone, Debug, PartialEq, Eq)]
pub struct MockIntegration {
    config: MockIntegrationConfig,
}

/// The integration report and the join event.
#[derive(Clone, Debug, PartialEq, Eq)]
pub struct IntegrationOutput {
    pub report: IntegrationReport,
    pub event_log: InMemoryEventLog,
}

/// Some artifact of `artifacts` belongs to task `t`.
pub open spec fn has_artifact_for(artifacts: Seq<ArtifactRef>, t: u64) -> bool {
    exists|i: int| 0 <= i < artifacts.len() && #[trigger] artifacts[i].task_id == t
}

/// The first expected child, in order, with no artifact.
pub open spec fn first_missing_child(expected: Seq<u64>, artifacts: Seq<ArtifactRef>) -> Option<u64>
    decreases expected.len(),
{
    if expected.len() == 0 {
        None
    } else {
        match first_missing_child(expected.drop_last(), artifacts) {
            Some(t) => Some(t),
            None => if !has_artifact_for(artifacts, expected.last()) {
                Some(expected.last())
            } else {
                None
            },
        }
    }
}

/// The ids of the artifacts (in order) that belong to an included task.
pub open spec fn final_artifact_ids(artifacts: Seq<ArtifactRef>, included: Seq<u64>) -> Seq<u64>
    decreases artifacts.len(),
{
    if artifacts.len() == 0 {
        Seq::empty()
    } else {
        let rest = final_artifact_ids(artifacts.drop_last(), included);
        if included.contains(artifacts.last().task_id) {
            rest.push(artifacts.last().artifact_id)
        } else {
            rest
        }
    }
}

/// The reference of an integration report.
pub open spec fn integration_report_text(group_id: u64) -> Seq<char> {
    "inline://integration/report/"@ + decimal(group_id as nat)
}

/// `e` is the integration request an integration agent with `cfg` logs for `group`.
pub open spec fn is_integration_event(e: LoomEvent, cfg: MockIntegrationConfig, group: IntegrationGroup) -> bool {
    &&& e.event_id == cfg.next_event_id
    &&& e.event_type == LoomEventType::IntegrationRequested
    &&& e.root_task_id == group.root_task_id
    &&& e.task_id == Some(group.parent_task_id)
    &&& e.parent_task_id is None
    &&& e.prompt_id is None
    &&& e.agent_id == Some(cfg.integration_agent_id)
    &&& e.agent_role matches Some(role) && role@ == "integration"@
    &&& e.topology_snapshot_id is None
    &&& e.payload_schema@ == "qtom.mock.integration.v1"@
    &&& e.payload_ref@ == integration_report_text(group.integration_group_id)
    &&& e.occurred_at_ms == cfg.occurred_at_ms
    &&& e.causation_id is None
    &&& e.correlation_id == cfg.correlation_id
}

proof fn lemma_take_step_u64(s: Seq<u64>, i: int)
    requires
        0 <= i < s.len(),
    ensures
        s.take(i + 1).drop_last() == s.take(i),
        s.take(i + 1).last() == s[i],
{
    assert(s.take(i + 1).drop_last() =~= s.take(i));
}

proof fn lemma_take_step_artifacts(s: Seq<ArtifactRef>, i: int)
    requires
        0 <= i < s.len(),
    ensures
        s.take(i + 1).drop_last() == s.take(i),
        s.take(i + 1).last() == s[i],
{
    assert(s.take(i + 1).drop_last() =~= s.take(i));
}

proof fn lemma_missing_child_stays(expected: Seq<u64>, artifacts: Seq<ArtifactRef>, k: int)
    requires
        0 <= k <= expected.len(),
        first_missing_child(expected.take(k), artifacts) is Some,
    ensures
        first_missing_child(expected, artifacts) == first_missing_child(expected.take(k), artifacts),
    decreases expected.len() - k,
{
    if k == expected.len() {
        assert(expected.take(k) =~= expected);
    } else {
        lemma_take_step_u64(expected, k);
        lemma_missing_child_stays(expected, artifacts, k + 1);
    }
}

proof fn lemma_finals_nonempty(artifacts: Seq<ArtifactRef>, included: Seq<u64>, t: u64)
    requires
        included.contains(t),
        has_artifact_for(artifacts, t),
    ensures
        final_artifact_ids(artifacts, included).len() > 0,
    decreases artifacts.len(),
{
    if artifacts.last().task_id != t {
        let i = choose|i: int| 0 <= i < artifacts.len() && #[trigger] artifacts[i].task_id == t;
        assert(artifacts.drop_last()[i].task_id == t);
        lemma_finals_nonempty(artifacts.drop_last(), included, t);
    }
}

fn artifact_exists_for(artifacts: &[ArtifactRef], t: u64) -> (r: bool)
    ensures
        r == has_artifact_for(artifacts@, t),
{
    let n = artifacts.len();
    let mut i: usize = 0;
    while i < n
        invariant
            n == artifacts@.len(),
            i <= n,
            forall|j: int| 0 <= j < i ==> #[trigger] artifacts@[j].task_id != t,
        decreases n - i,
    {
        if artifacts[i].task_id == t {
            return true;
        }
        i = i + 1;
    }
    false
}

fn copy_ids(ids: &Vec<u64>) -> (r: Vec<u64>)
    ensures
        r@ == ids@,
{
    let mut out: Vec<u64> = Vec::new();
    let n = ids.len();
    let mut i: usize = 0;
    while i < n
        invariant
            n == ids@.len(),
            i <= n,
            out@ == ids@.take(i as int),
        decreases n - i,
    {
        out.push(ids[i]);
        proof {
            assert(ids@.take(i + 1) =~= ids@.take(i as int).push(ids@[i as int]));
        }
        i = i + 1;
    }
    proof {
        assert(ids@.take(n as int) =~= ids@);
    }
    out
}

fn id_listed(ids: &Vec<u64>, x: u64) -> (r: bool)
    ensures
        r == ids@.contains(x),
{
    let n = ids.len();
    let mut i: usize = 0;
    while i < n
        invariant
            n == ids@.len(),
            i <= n,
            forall|j: int| 0 <= j < i ==> ids@[j] != x,
        decreases n - i,
    {
        if ids[i] == x {
            return true;
        }
        i = i + 1;
    }
    false
}

impl MockIntegration {
    /// An integration agent drawing from `config`.
    pub fn new(config: MockIntegrationConfig) -> (r: Self)
        ensures
            r.config() == config,
    {
        MockIntegration { config }
    }

    /// The agent, ids, clock and correlation this integration agent draws from.
    pub closed spec fn config(&self) -> MockIntegrationConfig {
        self.config
    }

    /// Accepts `group` once every expected child has an artifact: reports
    /// the expected children and their artifacts, and records one
    /// integration request for the parent task.
    pub fn integrate_completed_children(
        &self,
        group: &IntegrationGroup,
        completed_child_artifacts: &[ArtifactRef],
    ) -> (r: Result<IntegrationOutput, LoomModelError>)
        ensures
            match first_missing_child(group.expected_child_task_ids@, completed_child_artifacts@) {
                Some(t) => r == Err::<IntegrationOutput, LoomModelError>(
                    LoomModelError::MissingTaskArtifact(t),
                ),
                None => if group.expected_child_task_ids@.len() == 0 {
                    r == Err::<IntegrationOutput, LoomModelError>(
                        LoomModelError::EmptyCollection("included_task_ids"),
                    )
                } else {
                    r matches Ok(out) && out.report.integration_group_id
                        == group.integration_group_id && out.report.included_task_ids@
                        == group.expected_child_task_ids@ && out.report.final_artifact_refs@
                        == final_artifact_ids(completed_child_artifacts@, group.expected_child_task_ids@)
                        && out.report.excluded_task_ids@.len() == 0
                        && out.report.conflict_edges@.len() == 0 && out.report.gap_edges@.len() == 0
                        && out.report.repair_task_ids@.len() == 0 && out.report.report_ref@
                        == integration_report_text(group.integration_group_id)
                        && out.report.acceptance_status == IntegrationStatus::Accepted
                        && out.event_log.wf() && out.event_log@.len() == 1 && is_integration_event(
                        out.event_log@[0],
                        self.config(),
                        *group,
                    )
                },
            },
            r matches Ok(out) ==> out.report.final_artifact_refs@ == completed_child_artifacts@.filter(
                of_included_task(out.report.included_task_ids@),
            ).map_values(artifact_id_fn()),
    {
        proof {
            law_final_artifacts_are_those_of_included_tasks(
                completed_child_artifacts@,
                group.expected_child_task_ids@,
            );
        }
        let expected = &group.expected_child_task_ids;
        let n = expected.len();
        let mut i: usize = 0;
        while i < n
            invariant
                n == expected@.len(),
                i <= n,
                expected@ == group.expected_child_task_ids@,
                first_missing_child(expected@.take(i as int), completed_child_artifacts@) is None,
            decreases n - i,
        {
            proof {
                lemma_take_step_u64(expected@, i as int);
            }
            let t = expected[i];
            if !artifact_exists_for(completed_child_artifacts, t) {
                proof {
                    lemma_missing_child_stays(expected@, completed_child_artifacts@, i + 1);
                }
                return Err(LoomModelError::MissingTaskArtifact(t));
            }
            i = i + 1;
        }
        proof {
            assert(expected@.take(n as int) =~= expected@);
        }
        let included_task_ids = copy_ids(expected);
        let mut final_artifact_refs: Vec<u64> = Vec::new();
        let m = completed_child_artifacts.len();
        let mut j: usize = 0;
        while j < m
            invariant
                m == completed_child_artifacts@.len(),
                j <= m,
                included_task_ids@ == expected@,
                final_artifact_refs@ == final_artifact_ids(
                    completed_child_artifacts@.take(j as int),
                    included_task_ids@,
                ),
            decreases m - j,
        {
            proof {
                lemma_take_step_artifacts(completed_child_artifacts@, j as int);
            }
            if id_listed(&included_task_ids, completed_child_artifacts[j].task_id) {
                final_artifact_refs.push(completed_child_artifacts[j].artifact_id);
            }
            j = j + 1;
        }
        proof {
            assert(completed_child_artifacts@.take(m as int) =~= completed_child_artifacts@);
            if expected@.len() > 0 {
                let t = expected@[0];
                assert(first_missing_child(expected@, completed_child_artifacts@) is None);
                lemma_first_present(expected@, completed_child_artifacts@);
                assert(expected@.contains(t));
                lemma_finals_nonempty(completed_child_artifacts@, expected@, t);
            }
        }
        let report_ref = numbered_ref("inline://integration/report/", group.integration_group_id);
        proof {
            reveal_strlit("inline://integration/report/");
            lemma_not_blank_after_mark(
                "inline://integration/report/"@,
                decimal(group.integration_group_id as nat),
            );
        }
        let report = IntegrationReport::accepted(
            group.integration_group_id,
            included_task_ids,
            final_artifact_refs,
            report_ref.as_str(),
        )?;
        let mut event_log = InMemoryEventLog::new();
        proof {
            reveal_strlit("qtom.mock.integration.v1");
            lemma_not_blank_after_mark("qtom.mock.integration.v1"@, Seq::<char>::empty());
            assert("qtom.mock.integration.v1"@ + Seq::<char>::empty() =~= "qtom.mock.integration.v1"@);
        }
        let event = LoomEvent {
            event_id: self.config.next_event_id,
            event_type: LoomEventType::IntegrationRequested,
            root_task_id: group.root_task_id,
            task_id: Some(group.parent_task_id),
            parent_task_id: None,
            prompt_id: None,
            agent_id: Some(self.config.integration_agent_id),
            agent_role: Some(String::from_str("integration")),
            topology_snapshot_id: None,
            payload_schema: String::from_str("qtom.mock.integration.v1"),
            payload_ref: report.report_ref.clone(),
            occurred_at_ms: self.config.occurred_at_ms,
            causation_id: None,
            correlation_id: self.config.correlation_id,
        };
        let ghost e = event;
        let appended = event_log.append(event);
        assert(appended is Ok);
        proof {
            assert(event_log@ =~= seq![e]);
        }
        Ok(IntegrationOutput { report, event_log })
    }
}

proof fn lemma_first_present(expected: Seq<u64>, artifacts: Seq<ArtifactRef>)
    requires
        expected.len() > 0,
        first_missing_child(expected, artifacts) is None,
    ensures
        has_artifact_for(artifacts, expected[0]),
    decreases expected.len(),
{
    if expected.len() == 1 {
        assert(expected.drop_last().len() == 0);
    } else {
        lemma_first_present(expected.drop_last(), artifacts);
        assert(expected.drop_last()[0] == expected[0]);
    }
}

impl Default for MockIntegration {
    fn default() -> (r: Self)
        ensures
            r.config() == (MockIntegrationConfig {
                integration_agent_id: 700,
                next_event_id: 3_000,
                occurred_at_ms: 20_000,
                correlation_id: 77,
            }),
    {
        MockIntegration::new(MockIntegrationConfig::default())
    }
}

/// A text with a character other than white space somewhere is not blank.
pub proof fn lemma_not_blank_with_mark(a: Seq<char>, b: Seq<char>, c: Seq<char>, i: int)
    requires
        0 <= i < b.len(),
        !spec_is_whitespace(b[i]),
    ensures
        !is_blank(a + b + c),
{
    assert((a + b + c)[a.len() + i] == b[i]);
}

/// The agent, ids, clock and correlation a mock curator draws from.
#[derive(Clone, Debug, PartialEq, Eq)]
pub struct MockCuratorConfig {
    pub curator_agent_id: u64,
    pub next_memory_node_id: u64,
    pub next_event_id: u64,
    pub occurred_at_ms: u64,
    pub correlation_id: u64,
}

impl Default for MockCuratorConfig {
    fn default() -> (r: Self)
        ensures
            r == (MockCuratorConfig {
                curator_agent_id: 800,
                next_memory_node_id: 1_500,
                next_event_id: 4_000,
                occurred_at_ms: 30_000,
                correlation_id: 77,
            }),
    {
        MockCuratorConfig {
            curator_agent_id: 800,
            next_memory_node_id: 1_500,
            next_event_id: 4_000,
            occurred_at_ms: 30_000,
            correlation_id: 77,
        }
    }
}

/// A curator that records one episode memory per decommission packet.
#[derive(Clone, Debug, PartialEq, Eq)]
pub struct MockCurator {
    config: MockCuratorConfig,
}

/// The memory node and the events that justify it.
#[derive(Clone, Debug, PartialEq, Eq)]
pub struct CuratorOutput {
    pub memory_node: MemoryNode,
    pub event_log: InMemoryEventLog,
}

/// The summary of the memory a curator derives from `packet`.
pub open spec fn curated_summary(packet: AgentDecommissionPacket) -> Seq<char> {
    packet.final_status@ + " agent "@ + decimal(packet.agent_id as nat) + " task "@ + decimal(
        packet.task_id as nat,
    )
}

/// `e` is the memory event a curator with `cfg` logs for `packet`, caused
/// by the decommission `d`.
pub open spec fn is_curator_event(
    e: LoomEvent,
    cfg: MockCuratorConfig,
    packet: AgentDecommissionPacket,
    d: LoomEvent,
) -> bool {
    &&& e.event_id == cfg.next_event_id
    &&& e.event_type == LoomEventType::MemoryNodeCreated
    &&& e.root_task_id == packet.root_task_id
    &&& e.task_id == Some(packet.task_id)
    &&& e.parent_task_id is None
    &&& e.prompt_id == Some(packet.prompt_id)
    &&& e.agent_id == Some(cfg.curator_agent_id)
    &&& e.agent_role matches Some(role) && role@ == "curator"@
    &&& e.topology_snapshot_id is None
    &&& e.payload_schema@ == "qtom.mock.curator.v1"@
    &&& e.payload_ref@ == "inline://memory/"@ + decimal(cfg.next_memory_node_id as nat)
    &&& e.occurred_at_ms == cfg.occurred_at_ms
    &&& e.causation_id == Some(d.event_id)
    &&& e.correlation_id == cfg.correlation_id
}

impl MockCurator {
    /// A curator drawing from `config`.
    pub fn new(config: MockCuratorConfig) -> (r: Self)
        ensures
            r.config() == config,
    {
        MockCurator { config }
    }

    /// The agent, ids, clock and correlation this curator draws from.
    pub closed spec fn config(&self) -> MockCuratorConfig {
        self.config
    }

    /// Derives an episode memory from `packet` and records the
    /// decommission it came from followed by the memory's creation, caused
    /// by that decommission. The memory always has one evidence reference
    /// and a non-blank summary, so its checks pass; what the run asks is a
    /// decommission event that the log accepts and an id apart from the
    /// memory event's.
    pub fn curate_decommission_packet(
        &self,
        packet: &AgentDecommissionPacket,
        decommission_event: &LoomEvent,
    ) -> (r: Result<CuratorOutput, LoomModelError>)
        requires
            event_fields_outcome(*decommission_event) is Ok,
            cause_kind(decommission_event.event_type) is None,
            decommission_event.event_id != self.config().next_event_id,
        ensures
            r matches Ok(out) && out.memory_node.memory_node_id == self.config().next_memory_node_id
                && out.memory_node.kind == MemoryNodeKind::Episode && out.memory_node.root_task_id
                == packet.root_task_id && out.memory_node.task_id == packet.task_id
                && out.memory_node.packet_id == packet.packet_id && out.memory_node.evidence_refs@.len()
                == 1 && out.memory_node.evidence_refs@[0]@ == packet.self_summary_ref@
                && out.memory_node.summary@ == curated_summary(*packet) && out.event_log.wf()
                && out.event_log@.len() == 2 && out.event_log@[0] == *decommission_event
                && is_curator_event(out.event_log@[1], self.config(), *packet, *decommission_event),
            r matches Ok(out) ==> out.memory_node.summary@ == packet.final_status@ + " agent "@ + decimal(
                packet.agent_id as nat,
            ) + " task "@ + decimal(packet.task_id as nat),
    {
        let mut summary = String::new();
        push_text(&mut summary, packet.final_status.as_str());
        push_text(&mut summary, " agent ");
        push_decimal(&mut summary, packet.agent_id);
        push_text(&mut summary, " task ");
        push_decimal(&mut summary, packet.task_id);
        proof {
            reveal_strlit(" agent ");
            assert(summary@ =~= curated_summary(*packet));
            lemma_not_blank_with_mark(
                packet.final_status@,
                " agent "@,
                decimal(packet.agent_id as nat) + " task "@ + decimal(packet.task_id as nat),
                1,
            );
            assert(curated_summary(*packet) =~= packet.final_status@ + " agent "@ + (decimal(
                packet.agent_id as nat,
            ) + " task "@ + decimal(packet.task_id as nat)));
        }
        let evidence = vec![packet.self_summary_ref.clone()];
        let memory_node = MemoryNode::from_packet(
            self.config.next_memory_node_id,
            MemoryNodeKind::Episode,
            packet.root_task_id,
            packet.task_id,
            packet.packet_id,
            evidence,
            summary.as_str(),
        )?;
        let mut event_log = InMemoryEventLog::new();
        let first = decommission_event.clone();
        let ghost e0 = first;
        let appended = event_log.append(first);
        proof {
            assert(!crate::loom::has_id(Seq::<LoomEvent>::empty(), e0.event_id));
        }
        assert(appended is Ok);
        let payload_ref = numbered_ref("inline://memory/", self.config.next_memory_node_id);
        proof {
            reveal_strlit("inline://memory/");
            reveal_strlit("qtom.mock.curator.v1");
            lemma_not_blank_after_mark("inline://memory/"@, decimal(self.config.next_memory_node_id as nat));
            lemma_not_blank_after_mark("qtom.mock.curator.v1"@, Seq::<char>::empty());
            assert("qtom.mock.curator.v1"@ + Seq::<char>::empty() =~= "qtom.mock.curator.v1"@);
        }
        let event = LoomEvent {
            event_id: self.config.next_event_id,
            event_type: LoomEventType::MemoryNodeCreated,
            root_task_id: packet.root_task_id,
            task_id: Some(packet.task_id),
            parent_task_id: None,
            prompt_id: Some(packet.prompt_id),
            agent_id: Some(self.config.curator_agent_id),
            agent_role: Some(String::from_str("curator")),
            topology_snapshot_id: None,
            payload_schema: String::from_str("qtom.mock.curator.v1"),
            payload_ref,
            occurred_at_ms: self.config.occurred_at_ms,
            causation_id: Some(decommission_event.event_id),
            correlation_id: self.config.correlation_id,
        };
        let ghost e1 = event;
        proof {
            assert(event_log@ =~= seq![e0]);
            if crate::loom::has_id(event_log@, e1.event_id) {
                let i = choose|i: int| 0 <= i < event_log@.len() && #[trigger] event_log@[i].event_id
                    == e1.event_id;
                assert(i == 0);
            }
        }
        let appended = event_log.append(event);
        assert(appended is Ok);
        proof {
            assert(event_log@ =~= seq![e0, e1]);
        }
        Ok(CuratorOutput { memory_node, event_log })
    }
}

impl Default for MockCurator {
    fn default() -> (r: Self)
        ensures
            r.config() == (MockCuratorConfig {
                curator_agent_id: 800,
                next_memory_node_id: 1_500,
                next_event_id: 4_000,
                occurred_at_ms: 30_000,
                correlation_id: 77,
            }),
    {
        MockCurator::new(MockCuratorConfig::default())
    }
}

proof fn lemma_first_of_distinct(events: Seq<LoomEvent>, k: int)
    requires
        0 <= k < events.len(),
        forall|j: int| 0 <= j < k ==> #[trigger] events[j].event_id != events[k].event_id,
    ensures
        has_id(events, events[k].event_id),
        event_with_id(events, events[k].event_id) == events[k],
{
    assert(is_first_with_id(events, events[k].event_id, k));
    let i = choose|i: int| is_first_with_id(events, events[k].event_id, i);
    lemma_first_with_id_unique(events, events[k].event_id, k, i);
}

/// The log of every constructor run replays: its four events pass the
/// replay checks, and the replay reports one completed and one
/// decommissioned task.
pub proof fn law_constructor_log_replays(
    events: Seq<LoomEvent>,
    cfg: MockConstructorConfig,
    task: TaskEnvelope,
)
    requires
        constructor_fits(cfg),
        is_constructor_log(events, cfg, task),
    ensures
        replay_outcome(events) matches Ok(rep) && rep.event_count == 4 && rep.completion_count == 1
            && rep.decommission_count == 1 && rep.root_task_count == 1 && rep.task_event_count == 4
            && rep.integration_request_count == 0 && rep.route_decision_count == 0,
{
    reveal_strlit("qtom.mock.constructor.v1");
    reveal_strlit("inline://artifact/");
    reveal_strlit("inline://decommission/");
    lemma_not_blank_after_mark("qtom.mock.constructor.v1"@, Seq::<char>::empty());
    assert("qtom.mock.constructor.v1"@ + Seq::<char>::empty() =~= "qtom.mock.constructor.v1"@);
    lemma_not_blank_after_mark("inline://artifact/"@, decimal(cfg.next_artifact_id as nat));
    lemma_not_blank_after_mark(
        "inline://decommission/"@,
        decimal(cfg.agent_id as nat) + "/"@ + decimal(task.task_id as nat),
    );
    assert(decommission_ref_text(cfg, task) =~= "inline://decommission/"@ + (decimal(
        cfg.agent_id as nat,
    ) + "/"@ + decimal(task.task_id as nat)));
    let e0 = events[0];
    let e1 = events[1];
    let e2 = events[2];
    let e3 = events[3];
    let t0 = events.take(0);
    let t1 = events.take(1);
    let t2 = events.take(2);
    let t3 = events.take(3);
    assert(t1.drop_last() =~= t0);
    assert(t2.drop_last() =~= t1);
    assert(t3.drop_last() =~= t2);
    assert(events.drop_last() =~= t3);
    assert(t1.last() == e0);
    assert(t2.last() == e1);
    assert(t3.last() == e2);
    assert(!has_id(t0, e0.event_id));
    assert(scan_outcome(t0) is Ok);
    assert(scan_outcome(t1) is Ok);
    assert(!has_id(t1, e1.event_id)) by {
        if has_id(t1, e1.event_id) {
            let i = choose|i: int| 0 <= i < t1.len() && #[trigger] t1[i].event_id == e1.event_id;
            assert(t1[i] == e0);
        }
    }
    lemma_first_of_distinct(t2, 0);
    assert(t1[0] == e0);
    lemma_first_of_distinct(t1, 0);
    assert(scan_outcome(t2) is Ok);
    assert(!has_id(t2, e2.event_id)) by {
        if has_id(t2, e2.event_id) {
            let i = choose|i: int| 0 <= i < t2.len() && #[trigger] t2[i].event_id == e2.event_id;
            assert(t2[i] == events[i]);
        }
    }
    assert(scan_outcome(t3) is Ok);
    assert(!has_id(t3, e3.event_id)) by {
        if has_id(t3, e3.event_id) {
            let i = choose|i: int| 0 <= i < t3.len() && #[trigger] t3[i].event_id == e3.event_id;
            assert(t3[i] == events[i]);
        }
    }
    assert(scan_outcome(events) is Ok);
    assert(last_link(events, LoomEventType::AgentDecommissioned, task.task_id) == Some(3int));
    assert(last_link(events, LoomEventType::TaskCompleted, task.task_id) == Some(2int)) by {
        assert(last_link(events.drop_last(), LoomEventType::TaskCompleted, task.task_id) == Some(2int));
    }
    assert(crate::replay::missing_integration_min(events, events) is None) by {
        reveal_with_fuel(crate::replay::missing_integration_min, 5);
    }
    assert(crate::replay::integration_context_error(events, events) is None) by {
        reveal_with_fuel(crate::replay::integration_context_error, 5);
    }
    assert(crate::replay::missing_decommission_min(events, events) is None) by {
        reveal_with_fuel(crate::replay::missing_decommission_min, 5);
    }
    assert(crate::replay::mismatched_decommission_min(events, events) is None) by {
        reveal_with_fuel(crate::replay::mismatched_decommission_min, 5);
    }
    assert(count_kind(events, LoomEventType::TaskCompleted) == 1) by {
        reveal_with_fuel(count_kind, 5);
    }
    assert(count_kind(events, LoomEventType::AgentDecommissioned) == 1) by {
        reveal_with_fuel(count_kind, 5);
    }
    assert(count_kind(events, LoomEventType::IntegrationRequested) == 0) by {
        reveal_with_fuel(count_kind, 5);
    }
    assert(count_kind(events, LoomEventType::RouteDecisionRecorded) == 0) by {
        reveal_with_fuel(count_kind, 5);
    }
    assert(count_with_task(events) == 4) by {
        reveal_with_fuel(count_with_task, 5);
    }
    assert(root_ids(events) =~= set![task.root_task_id]) by {
        let m = events.map_values(|e: LoomEvent| e.root_task_id);
        assert forall|x: u64| #[trigger] m.to_set().contains(x) == (x == task.root_task_id) by {
            if x == task.root_task_id {
                assert(m[0] == x);
            }
        }
    }
    assert(set![task.root_task_id].len() == 1);
}

/// The log of every integration run replays: its one integration request
/// passes the replay checks, and the replay reports one integration request
/// of one root task.
pub proof fn law_integration_log_replays(
    events: Seq<LoomEvent>,
    cfg: MockIntegrationConfig,
    group: IntegrationGroup,
)
    requires
        events.len() == 1,
        is_integration_event(events[0], cfg, group),
    ensures
        replay_outcome(events) matches Ok(rep) && rep.event_count == 1 && rep.integration_request_count
            == 1 && rep.root_task_count == 1 && rep.task_event_count == 1 && rep.completion_count == 0
            && rep.decommission_count == 0 && rep.route_decision_count == 0,
{
    reveal_strlit("qtom.mock.integration.v1");
    reveal_strlit("inline://integration/report/");
    lemma_not_blank_after_mark("qtom.mock.integration.v1"@, Seq::<char>::empty());
    assert("qtom.mock.integration.v1"@ + Seq::<char>::empty() =~= "qtom.mock.integration.v1"@);
    lemma_not_blank_after_mark("inline://integration/report/"@, decimal(group.integration_group_id as nat));
    let e = events[0];
    let t0 = events.take(0);
    assert(events.drop_last() =~= t0);
    assert(!has_id(t0, e.event_id));
    assert(scan_outcome(t0) is Ok);
    assert(scan_outcome(events) is Ok);
    assert(crate::replay::missing_integration_min(events, events) is None) by {
        reveal_with_fuel(crate::replay::missing_integration_min, 2);
    }
    assert(crate::replay::integration_context_error(events, events) is None) by {
        reveal_with_fuel(crate::replay::integration_context_error, 2);
    }
    assert(crate::replay::missing_decommission_min(events, events) is None) by {
        reveal_with_fuel(crate::replay::missing_decommission_min, 2);
    }
    assert(crate::replay::mismatched_decommission_min(events, events) is None) by {
        reveal_with_fuel(crate::replay::mismatched_decommission_min, 2);
    }
    assert(count_kind(events, LoomEventType::IntegrationRequested) == 1) by {
        reveal_with_fuel(count_kind, 2);
    }
    assert(count_kind(events, LoomEventType::TaskCompleted) == 0) by {
        reveal_with_fuel(count_kind, 2);
    }
    assert(count_kind(events, LoomEventType::AgentDecommissioned) == 0) by {
        reveal_with_fuel(count_kind, 2);
    }
    assert(count_kind(events, LoomEventType::RouteDecisionRecorded) == 0) by {
        reveal_with_fuel(count_kind, 2);
    }
    assert(count_with_task(events) == 1) by {
        reveal_with_fuel(count_with_task, 2);
    }
    assert(root_ids(events) =~= set![group.root_task_id]) by {
        let m = events.map_values(|x: LoomEvent| x.root_task_id);
        assert forall|x: u64| #[trigger] m.to_set().contains(x) == (x == group.root_task_id) by {
            if x == group.root_task_id {
                assert(m[0] == x);
            }
        }
    }
    assert(set![group.root_task_id].len() == 1);
}

/// The log of a curator run replays when the decommission it is given is
/// the packet's: an agent decommission of the packet's task, under its root
/// and the curator's correlation. The replay then reports one decommission
/// and one memory node.
pub proof fn law_curator_log_replays(
    events: Seq<LoomEvent>,
    cfg: MockCuratorConfig,
    packet: AgentDecommissionPacket,
    d: LoomEvent,
)
    requires
        event_fields_outcome(d) is Ok,
        d.event_type == LoomEventType::AgentDecommissioned,
        d.event_id != cfg.next_event_id,
        d.task_id == Some(packet.task_id),
        d.root_task_id == packet.root_task_id,
        d.correlation_id == cfg.correlation_id,
        events.len() == 2,
        events[0] == d,
        is_curator_event(events[1], cfg, packet, d),
    ensures
        replay_outcome(events) matches Ok(rep) && rep.event_count == 2 && rep.decommission_count == 1
            && rep.memory_node_count == 1 && rep.root_task_count == 1 && rep.task_event_count == 2
            && rep.completion_count == 0 && rep.integration_request_count == 0
            && rep.route_decision_count == 0,
{
    reveal_strlit("qtom.mock.curator.v1");
    reveal_strlit("inline://memory/");
    lemma_not_blank_after_mark("qtom.mock.curator.v1"@, Seq::<char>::empty());
    assert("qtom.mock.curator.v1"@ + Seq::<char>::empty() =~= "qtom.mock.curator.v1"@);
    lemma_not_blank_after_mark("inline://memory/"@, decimal(cfg.next_memory_node_id as nat));
    let m = events[1];
    let t0 = events.take(0);
    let t1 = events.take(1);
    assert(t1.drop_last() =~= t0);
    assert(events.drop_last() =~= t1);
    assert(t1.last() == d);
    assert(!has_id(t0, d.event_id));
    assert(scan_outcome(t0) is Ok);
    assert(scan_outcome(t1) is Ok);
    assert(is_first_with_id(t1, d.event_id, 0));
    lemma_first_of_distinct(t1, 0);
    assert(has_id(t1, d.event_id));
    assert(event_with_id(t1, d.event_id) == d);
    assert(!has_id(t1, m.event_id)) by {
        if has_id(t1, m.event_id) {
            let i = choose|i: int| 0 <= i < t1.len() && #[trigger] t1[i].event_id == m.event_id;
            assert(t1[i] == d);
        }
    }
    assert(scan_outcome(events) is Ok);
    assert(crate::replay::missing_integration_min(events, events) is None) by {
        reveal_with_fuel(crate::replay::missing_integration_min, 3);
    }
    assert(crate::replay::integration_context_error(events, events) is None) by {
        reveal_with_fuel(crate::replay::integration_context_error, 3);
    }
    assert(crate::replay::missing_decommission_min(events, events) is None) by {
        reveal_with_fuel(crate::replay::missing_decommission_min, 3);
    }
    assert(crate::replay::mismatched_decommission_min(events, events) is None) by {
        reveal_with_fuel(crate::replay::mismatched_decommission_min, 3);
    }
    assert(count_kind(events, LoomEventType::AgentDecommissioned) == 1) by {
        reveal_with_fuel(count_kind, 3);
    }
    assert(count_kind(events, LoomEventType::MemoryNodeCreated) == 1) by {
        reveal_with_fuel(count_kind, 3);
    }
    assert(count_kind(events, LoomEventType::TaskCompleted) == 0) by {
        reveal_with_fuel(count_kind, 3);
    }
    assert(count_kind(events, LoomEventType::IntegrationRequested) == 0) by {
        reveal_with_fuel(count_kind, 3);
    }
    assert(count_kind(events, LoomEventType::RouteDecisionRecorded) == 0) by {
        reveal_with_fuel(count_kind, 3);
    }
    assert(count_with_task(events) == 2) by {
        reveal_with_fuel(count_with_task, 3);
    }
    assert(root_ids(events) =~= set![packet.root_task_id]) by {
        let r = events.map_values(|x: LoomEvent| x.root_task_id);
        assert forall|x: u64| #[trigger] r.to_set().contains(x) == (x == packet.root_task_id) by {
            if x == packet.root_task_id {
                assert(r[0] == x);
            }
        }
    }
    assert(set![packet.root_task_id].len() == 1);
}

/// The integration group a director creates joins once every child it
/// created has an artifact: no expected child is missing, and the children
/// the join expects are the director's children, in order.
pub proof fn law_director_group_joins(
    out: DirectorOutput,
    cfg: MockDirectorConfig,
    prompt_id: u64,
    root_task_id: u64,
    root_task_graph_id: u64,
    summary: Seq<char>,
    artifacts: Seq<ArtifactRef>,
)
    requires
        is_director_split(out, cfg, prompt_id, root_task_id, root_task_graph_id, summary),
        forall|i: int| 0 <= i < out.children@.len() ==> has_artifact_for(artifacts, #[trigger] out.children@[i].task_id),
    ensures
        out.integration_group.expected_child_task_ids@.len() != 0,
        out.integration_group.expected_child_task_ids@ == out.children@.map_values(|c: TaskEnvelope| c.task_id),
        first_missing_child(out.integration_group.expected_child_task_ids@, artifacts) is None,
{
    let expected = out.integration_group.expected_child_task_ids@;
    assert(expected =~= out.children@.map_values(|c: TaskEnvelope| c.task_id));
    assert(has_artifact_for(artifacts, out.children@[0].task_id));
    assert(has_artifact_for(artifacts, out.children@[1].task_id));
    let e1 = expected.drop_last();
    assert(e1.drop_last() =~= Seq::<u64>::empty());
    assert(first_missing_child(e1.drop_last(), artifacts) is None);
    assert(e1.last() == out.children@[0].task_id);
    assert(first_missing_child(e1, artifacts) is None);
    assert(expected.last() == out.children@[1].task_id);
}

/// An artifact of one of the `included` tasks.
pub open spec fn of_included_task(included: Seq<u64>) -> spec_fn(ArtifactRef) -> bool {
    |a: ArtifactRef| included.contains(a.task_id)
}

/// An artifact's id.
pub open spec fn artifact_id_fn() -> spec_fn(ArtifactRef) -> u64 {
    |a: ArtifactRef| a.artifact_id
}

/// An integration reports as final exactly the given artifacts of the
/// tasks it includes, in the order they were given: the artifacts of other
/// tasks are left out.
pub proof fn law_final_artifacts_are_those_of_included_tasks(artifacts: Seq<ArtifactRef>, included: Seq<u64>)
    ensures
        final_artifact_ids(artifacts, included) == artifacts.filter(of_included_task(included)).map_values(
            artifact_id_fn(),
        ),
    decreases artifacts.len(),
{
    reveal(Seq::filter);
    let p = of_included_task(included);
    let f = artifact_id_fn();
    if artifacts.len() == 0 {
        assert(artifacts.filter(p) =~= Seq::<ArtifactRef>::empty());
        assert(artifacts.filter(p).map_values(f) =~= Seq::<u64>::empty());
    } else {
        law_final_artifacts_are_those_of_included_tasks(artifacts.drop_last(), included);
        let prev = artifacts.drop_last().filter(p);
        if p(artifacts.last()) {
            assert(artifacts.filter(p) == prev.push(artifacts.last()));
            assert(prev.push(artifacts.last()).map_values(f) =~= prev.map_values(f).push(
                artifacts.last().artifact_id,
            ));
        } else {
            assert(artifacts.filter(p) == prev);
        }
    }
}

/// A curated memory's summary names the packet's final status, then its
/// agent, then its task: "<status> agent <agent id> task <task id>".
pub proof fn law_curated_summary_names_agent_then_task(packet: AgentDecommissionPacket)
    ensures
        curated_summary(packet) == packet.final_status@ + " agent "@ + decimal(packet.agent_id as nat)
            + " task "@ + decimal(packet.task_id as nat),
{
}

} // verus!

