//! The interface through which the loom runs an agent on a task, and the
//! offline constructor runtime that implements it.
use vstd::prelude::*;
use vstd::string::*;
use crate::text::is_blank;
use crate::loom::{InMemoryEventLog, LoomEvent, LoomEventType, of_type};
use crate::loom_model::{AgentDecommissionPacket, ArtifactRef, LoomModelError, TaskEnvelope, ensure_not_empty};
use crate::loom_mock::{
    MockConstructor, MockConstructorConfig, artifact_ref_text, constructor_fits, decommission_ref_text,
    is_constructor_log, lemma_not_blank_after_mark,
};
use crate::text::decimal;

verus! {

/// The context an agent is started with: its prompt, tools and memories.
#[derive(Clone, Debug, PartialEq, Eq)]
pub struct HydratedContext {
    pub prompt_ref: String,
    pub tool_refs: Vec<String>,
    pub memory_refs: Vec<String>,
}

/// What an agent run produced: its artifacts, its decommission packet and its events.
#[derive(Clone, Debug, PartialEq, Eq)]
pub struct AgentExecutionResult {
    pub artifacts: Vec<ArtifactRef>,
    pub decommission_packet: AgentDecommissionPacket,
    pub event_log: InMemoryEventLog,
}

/// Something that can run an agent on a task.
pub trait AgentRuntime {
    /// Whether this runtime can run on `task` (its counters leave room for the run).
    spec fn can_execute(&self, task: TaskEnvelope) -> bool;

    /// Runs an agent on `task` with `context`.
    fn execute(&self, task: &TaskEnvelope, context: &HydratedContext) -> Result<
        AgentExecutionResult,
        LoomModelError,
    >
        requires
            self.can_execute(*task),
    ;
}

impl HydratedContext {
    /// A context with a prompt reference, tools and memories.
    pub fn new(prompt_ref: &str, tool_refs: Vec<String>, memory_refs: Vec<String>) -> (r: Result<
        Self,
        LoomModelError,
    >)
        ensures
            is_blank(prompt_ref@) ==> r == Err::<Self, LoomModelError>(
                LoomModelError::EmptyField("prompt_ref"),
            ),
            !is_blank(prompt_ref@) ==> (r matches Ok(c) && c.prompt_ref@ == prompt_ref@
                && c.tool_refs == tool_refs && c.memory_refs == memory_refs),
    {
        ensure_not_empty("prompt_ref", prompt_ref)?;
        Ok(HydratedContext { prompt_ref: String::from_str(prompt_ref), tool_refs, memory_refs })
    }
}

/// The agent, ids, clock and correlation a mock constructor runtime draws from.
#[derive(Clone, Debug, PartialEq, Eq)]
pub struct MockConstructorRuntimeConfig {
    pub agent_id: u64,
    pub next_artifact_id: u64,
    pub next_packet_id: u64,
    pub next_event_id: u64,
    pub occurred_at_ms: u64,
    pub correlation_id: u64,
}

/// A runtime that runs the offline mock constructor.
#[derive(Clone, Debug, PartialEq, Eq)]
pub struct MockConstructorRuntime {
    config: MockConstructorRuntimeConfig,
}

/// The constructor configuration a runtime configuration stands for.
pub open spec fn constructor_config_of(cfg: MockConstructorRuntimeConfig) -> MockConstructorConfig {
    MockConstructorConfig {
        agent_id: cfg.agent_id,
        next_artifact_id: cfg.next_artifact_id,
        next_event_id: cfg.next_event_id,
        occurred_at_ms: cfg.occurred_at_ms,
        correlation_id: cfg.correlation_id,
    }
}

impl MockConstructorRuntime {
    /// A runtime drawing from `config`.
    pub fn new(config: MockConstructorRuntimeConfig) -> (r: Self)
        ensures
            r.config() == config,
    {
        MockConstructorRuntime { config }
    }

    /// The agent, ids, clock and correlation this runtime draws from.
    pub closed spec fn config(&self) -> MockConstructorRuntimeConfig {
        self.config
    }
}

impl AgentRuntime for MockConstructorRuntime {
    open spec fn can_execute(&self, task: TaskEnvelope) -> bool {
        constructor_fits(constructor_config_of(self.config()))
    }

    /// Builds the task's artifact with the mock constructor and hands over a
    /// completed decommission packet whose deliverable is that artifact and
    /// whose summary is the decommission's reference.
    fn execute(&self, task: &TaskEnvelope, context: &HydratedContext) -> (r: Result<
        AgentExecutionResult,
        LoomModelError,
    >)
        ensures
            r matches Ok(out) && out.artifacts@.len() == 1 && out.artifacts@[0].artifact_id
                == self.config().next_artifact_id && out.artifacts@[0].agent_id
                == self.config().agent_id && out.artifacts@[0].root_task_id == task.root_task_id
                && out.artifacts@[0].task_id == task.task_id && out.artifacts@[0].artifact_kind@
                == "mock.markdown"@ && out.artifacts@[0].content_ref@ == artifact_ref_text(
                constructor_config_of(self.config()),
            ) && out.decommission_packet.packet_id
                == self.config().next_packet_id && out.decommission_packet.agent_id
                == self.config().agent_id && out.decommission_packet.root_task_id
                == task.root_task_id && out.decommission_packet.task_id == task.task_id
                && out.decommission_packet.prompt_id == task.prompt_id
                && out.decommission_packet.plan_id == task.plan_id
                && out.decommission_packet.final_status@ == "completed"@
                && out.decommission_packet.deliverable_refs@ == seq![self.config().next_artifact_id]
                && out.decommission_packet.self_summary_ref@ == decommission_ref_text(
                constructor_config_of(self.config()),
                *task,
            ) && out.event_log.wf() && is_constructor_log(
                out.event_log@,
                constructor_config_of(self.config()),
                *task,
            ),
    {
        let constructor = MockConstructor::new(
            MockConstructorConfig {
                agent_id: self.config.agent_id,
                next_artifact_id: self.config.next_artifact_id,
                next_event_id: self.config.next_event_id,
                occurred_at_ms: self.config.occurred_at_ms,
                correlation_id: self.config.correlation_id,
            },
        );
        let output = constructor.build_child_task(task)?;
        let decommissions = output.event_log.events_by_type(LoomEventType::AgentDecommissioned);
        proof {
            let evs = output.event_log@;
            reveal_with_fuel(Seq::filter, 5);
            assert(evs =~= seq![evs[0], evs[1], evs[2], evs[3]]);
            assert(of_type(evs, LoomEventType::AgentDecommissioned) =~= seq![evs[3]]);
            assert(decommissions@.map_values(|e: &LoomEvent| *e)[0] == evs[3]);
        }
        let payload_ref = decommissions[0].payload_ref.clone();
        proof {
            reveal_strlit("inline://decommission/");
            let cfg = constructor_config_of(self.config);
            lemma_not_blank_after_mark(
                "inline://decommission/"@,
                decimal(cfg.agent_id as nat) + "/"@ + decimal(task.task_id as nat),
            );
            assert(decommission_ref_text(cfg, *task) =~= "inline://decommission/"@ + (decimal(
                cfg.agent_id as nat,
            ) + "/"@ + decimal(task.task_id as nat)));
        }
        let decommission_packet = AgentDecommissionPacket::completed(
            self.config.next_packet_id,
            output.artifact.agent_id,
            task.root_task_id,
            task.task_id,
            task.prompt_id,
            task.plan_id,
            vec![output.artifact.artifact_id],
            payload_ref.as_str(),
        )?;
        Ok(
            AgentExecutionResult {
                artifacts: vec![output.artifact],
                decommission_packet,
                event_log: output.event_log,
            },
        )
    }
}

} // verus!
