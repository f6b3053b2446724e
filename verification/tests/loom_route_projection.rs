use qtom_core::{
    AgentRuntime, HydratedContext, InMemoryEventLog, LoomEvent, LoomEventError, LoomEventType,
    MockConstructorRuntime, MockConstructorRuntimeConfig, TaskEnvelope,
    artifact_provenance_projection, integration_group_projection, loom_projection_bundle,
    loom_replay_report, memory_lineage_projection, route_trace_projection,
    task_dependency_projection, topology_governance_projection,
};

fn event(event_type: LoomEventType, event_id: u64, payload_ref: &str) -> LoomEvent {
    LoomEvent {
        event_id,
        event_type,
        root_task_id: 1,
        task_id: Some(0),
        parent_task_id: None,
        prompt_id: Some(7),
        agent_id: None,
        agent_role: None,
        topology_snapshot_id: Some(9_000 + event_id),
        payload_schema: "test.payload.v1".to_string(),
        payload_ref: payload_ref.to_string(),
        occurred_at_ms: 1_000 + event_id,
        causation_id: None,
        correlation_id: 99,
    }
}

fn caused_by(mut event: LoomEvent, causation_id: u64) -> LoomEvent {
    event.causation_id = Some(causation_id);
    event
}

#[test]
fn topology_governance_projection_is_derived_from_topology_events() {
    let mut log = InMemoryEventLog::new();
    log.append(event(
        LoomEventType::TopologyProposed,
        1,
        "inline://topology/proposal/8000",
    ))
    .expect("proposal should append");
    log.append(caused_by(
        event(
            LoomEventType::TopologyShadowed,
            2,
            "inline://topology/shadow-report/8000",
        ),
        1,
    ))
    .expect("shadow should append");
    log.append(caused_by(
        event(
            LoomEventType::TopologyCanaried,
            3,
            "inline://topology/canary-report/8000",
        ),
        2,
    ))
    .expect("canary should append");
    log.append(caused_by(
        event(
            LoomEventType::TopologyCommitted,
            4,
            "inline://topology/snapshot/9000",
        ),
        1,
    ))
    .expect("commit should append");
    log.append(caused_by(
        event(
            LoomEventType::TopologyRolledBack,
            5,
            "inline://topology/rollback/10000",
        ),
        4,
    ))
    .expect("rollback should append");

    let projection = topology_governance_projection(&log);

    assert!(projection.starts_with("flowchart TD\n"));
    assert!(projection.contains("topology_proposed_1[\"TopologyProposed 8000\"]"));
    assert!(projection.contains("topology_shadowed_2[\"TopologyShadowed 8000\"]"));
    assert!(projection.contains("topology_canaried_3[\"TopologyCanaried 8000\"]"));
    assert!(projection.contains("topology_committed_4[\"TopologyCommitted 9004\"]"));
    assert!(projection.contains("topology_rolled_back_5[\"TopologyRolledBack 9005\"]"));
    assert!(projection.contains("topology_proposed_1 --> topology_shadowed_2"));
    assert!(projection.contains("topology_shadowed_2 --> topology_canaried_3"));
    assert!(projection.contains("topology_proposed_1 --> topology_committed_4"));
    assert!(projection.contains("topology_committed_4 --> topology_rolled_back_5"));
}

#[test]
fn replay_report_rejects_invalid_log_before_projecting() {
    let log = InMemoryEventLog::new();

    let err = loom_replay_report(&log).expect_err("empty replay should fail missing routes");

    assert_eq!(err, LoomEventError::EmptyReplayLog);
}

fn task_event(event_type: LoomEventType, event_id: u64, task_id: u64, payload_ref: &str) -> LoomEvent {
    let mut e = event(event_type, event_id, payload_ref);
    e.task_id = Some(task_id);
    e
}

fn with_agent(mut e: LoomEvent, agent_id: u64) -> LoomEvent {
    e.agent_id = Some(agent_id);
    e
}

fn with_parent(mut e: LoomEvent, parent_task_id: u64) -> LoomEvent {
    e.parent_task_id = Some(parent_task_id);
    e
}

fn append_all(events: Vec<LoomEvent>) -> InMemoryEventLog {
    let mut log = InMemoryEventLog::new();
    for e in events {
        log.append(e).expect("event should append");
    }
    log
}

fn flow_log() -> InMemoryEventLog {
    append_all(vec![
        task_event(LoomEventType::TaskCreated, 1, 10, "inline://task/10"),
        with_parent(task_event(LoomEventType::TaskCreated, 2, 1000, "inline://task/1000"), 10),
        with_parent(task_event(LoomEventType::TaskCreated, 3, 1001, "inline://task/1001"), 10),
        task_event(LoomEventType::RouteDecisionRecorded, 100, 1000, "inline://route-decision/500"),
        with_agent(
            caused_by(task_event(LoomEventType::TaskAssigned, 101, 1000, "inline://assignment/101"), 100),
            10_000,
        ),
        task_event(LoomEventType::ArtifactDeclared, 2000, 1000, "inline://artifact/900"),
        with_agent(
            caused_by(task_event(LoomEventType::ArtifactReady, 2001, 1000, "inline://artifact/900"), 2000),
            10_000,
        ),
        with_agent(
            task_event(LoomEventType::AgentDecommissioned, 2003, 1000, "inline://decommission/10000/1000"),
            10_000,
        ),
        caused_by(task_event(LoomEventType::MemoryNodeCreated, 4000, 1000, "inline://memory/1500"), 2003),
        with_agent(
            task_event(LoomEventType::IntegrationRequested, 5, 10, "inline://integration/group/1"),
            500,
        ),
        with_agent(
            task_event(LoomEventType::IntegrationRequested, 3000, 10, "inline://integration/report/1"),
            700,
        ),
    ])
}

#[test]
fn route_trace_links_decision_assignment_and_agent() {
    assert_eq!(
        route_trace_projection(&flow_log()),
        "flowchart TD\n  task_1000[\"Task 1000\"]\n  route_100[\"RouteDecision 500\"]\n  task_1000 --> route_100\n  assignment_101[\"TaskAssigned 1000\"]\n  route_100 --> assignment_101\n  agent_10000[\"Agent 10000\"]\n  assignment_101 --> agent_10000\n"
    );
}

#[test]
fn task_dependency_links_parents_children_and_integration() {
    assert_eq!(
        task_dependency_projection(&flow_log()),
        "flowchart TD\n  task_10[\"Task 10\"]\n  task_1000[\"Task 1000\"]\n  task_10 --> task_1000\n  task_1001[\"Task 1001\"]\n  task_10 --> task_1001\n  integration_10[\"Integration 10\"]\n  task_1000 --> integration_10\n  task_1001 --> integration_10\n"
    );
}

#[test]
fn artifact_provenance_links_declaration_readiness_and_agent() {
    assert_eq!(
        artifact_provenance_projection(&flow_log()),
        "flowchart TD\n  task_1000[\"Task 1000\"]\n  artifact_declared_2000[\"ArtifactDeclared 900\"]\n  task_1000 --> artifact_declared_2000\n  artifact_ready_2001[\"ArtifactReady 900\"]\n  artifact_declared_2000 --> artifact_ready_2001\n  agent_10000[\"Agent 10000\"]\n  artifact_ready_2001 --> agent_10000\n"
    );
}

#[test]
fn memory_lineage_links_decommission_and_memory() {
    assert_eq!(
        memory_lineage_projection(&flow_log()),
        "flowchart TD\n  task_1000[\"Task 1000\"]\n  decommission_2003[\"Decommission 10000\"]\n  task_1000 --> decommission_2003\n  memory_4000[\"MemoryNode 1500\"]\n  decommission_2003 --> memory_4000\n"
    );
}

#[test]
fn integration_group_links_parent_children_report_and_agent() {
    assert_eq!(
        integration_group_projection(&flow_log()),
        "flowchart TD\n  task_10[\"Task 10\"]\n  integration_group_5[\"IntegrationGroup 1\"]\n  task_10 --> integration_group_5\n  task_1000[\"Task 1000\"]\n  task_1000 --> integration_group_5\n  task_1001[\"Task 1001\"]\n  task_1001 --> integration_group_5\n  integration_report_3000[\"IntegrationReport 1\"]\n  integration_group_5 --> integration_report_3000\n  agent_700[\"Agent 700\"]\n  integration_report_3000 --> agent_700\n"
    );
}

#[test]
fn projections_of_an_empty_log_are_only_the_heading() {
    let bundle = loom_projection_bundle(&InMemoryEventLog::new());

    assert_eq!(bundle.task_dependency, "flowchart TD\n");
    assert_eq!(bundle.route_trace, "flowchart TD\n");
    assert_eq!(bundle.artifact_provenance, "flowchart TD\n");
    assert_eq!(bundle.integration_group, "flowchart TD\n");
    assert_eq!(bundle.memory_lineage, "flowchart TD\n");
    assert_eq!(bundle.topology_governance, "flowchart TD\n");
}

#[test]
fn route_trace_shows_the_last_assignment_a_decision_caused() {
    let log = append_all(vec![
        task_event(LoomEventType::RouteDecisionRecorded, 1, 7, "inline://route-decision/"),
        caused_by(task_event(LoomEventType::TaskAssigned, 2, 7, "inline://assignment/2"), 1),
        with_agent(
            caused_by(task_event(LoomEventType::TaskAssigned, 3, 7, "inline://assignment/3"), 1),
            42,
        ),
    ]);

    assert_eq!(
        route_trace_projection(&log),
        "flowchart TD\n  task_7[\"Task 7\"]\n  route_1[\"RouteDecision unknown\"]\n  task_7 --> route_1\n  assignment_3[\"TaskAssigned 7\"]\n  route_1 --> assignment_3\n  agent_42[\"Agent 42\"]\n  assignment_3 --> agent_42\n"
    );
}

#[test]
fn projection_bundle_is_stable_and_matches_each_projection() {
    let log = flow_log();
    let first = loom_projection_bundle(&log);
    let second = loom_projection_bundle(&log);

    assert_eq!(first, second);
    assert_eq!(first.route_trace, route_trace_projection(&log));
    assert_eq!(first.task_dependency, task_dependency_projection(&log));
    assert_eq!(first.artifact_provenance, artifact_provenance_projection(&log));
    assert_eq!(first.integration_group, integration_group_projection(&log));
    assert_eq!(first.memory_lineage, memory_lineage_projection(&log));
    assert_eq!(first.topology_governance, topology_governance_projection(&log));
}

#[test]
fn replay_report_refuses_a_log_that_fails_replay_with_that_failure() {
    let log = flow_log();

    let err = loom_replay_report(&log).expect_err("an incomplete flow should not replay");

    assert_eq!(err, log.validate_replay().expect_err("validation should fail"));
}

#[test]
fn replay_report_validates_and_projects_a_constructor_run() {
    let task = TaskEnvelope::child(11, 1, 10, 7, 42, 88, "build constructor artifact")
        .expect("child task should be valid");
    let runtime = MockConstructorRuntime::new(MockConstructorRuntimeConfig {
        agent_id: 10_000,
        next_artifact_id: 900,
        next_packet_id: 1_200,
        next_event_id: 2_000,
        occurred_at_ms: 10_000,
        correlation_id: 77,
    });
    let context = HydratedContext::new("inline://prompt/7", vec![], vec![])
        .expect("hydrated context should be valid");
    let output = runtime.execute(&task, &context).expect("runtime should execute");

    let report = loom_replay_report(&output.event_log).expect("constructor run should replay");

    assert_eq!(report.validation, output.event_log.validate_replay().unwrap());
    assert_eq!(report.projections, loom_projection_bundle(&output.event_log));
    assert!(
        report
            .projections
            .artifact_provenance
            .contains("artifact_declared_2000 --> artifact_ready_2001")
    );
    assert!(
        report
            .projections
            .memory_lineage
            .contains("task_11 --> decommission_2003")
    );
}
