use qtom_core::{
    AgentDecommissionPacket, ArtifactRef, InMemoryEventLog, IntegrationGroup, JoinPolicy,
    LoomEvent, LoomEventType, MockConstructor, MockConstructorConfig, MockCurator,
    MockCuratorConfig, MockDirector, MockIntegration, MockIntegrationConfig, ReplayCursor,
    TaskEnvelope, validate_events,
};

fn constructor_events() -> InMemoryEventLog {
    let task = TaskEnvelope::child(11, 1, 10, 7, 42, 88, "build constructor artifact")
        .expect("child task should be valid");
    MockConstructor::new(MockConstructorConfig {
        agent_id: 301,
        next_artifact_id: 900,
        next_event_id: 2_000,
        occurred_at_ms: 10_000,
        correlation_id: 77,
    })
    .build_child_task(&task)
    .expect("constructor should build")
    .event_log
}

#[test]
fn a_validated_replay_loads_event_by_event_into_a_fresh_log() {
    let source = constructor_events();
    let events = source.events().clone();
    let report = validate_events(&events).expect("constructor events should validate");

    let mut log = InMemoryEventLog::new();
    for event in events.iter() {
        log.append(event.clone()).expect("every validated event should append");
    }

    assert_eq!(log.len(), events.len());
    assert_eq!(report.event_count, events.len());
    assert!(report.root_task_count >= 1);
    assert!(report.completion_count <= report.event_count);
}

#[test]
fn replay_reads_back_what_was_appended() {
    let mut log = constructor_events();
    let mut extra = log.events()[3].clone();
    extra.event_id = 2_010;
    extra.event_type = LoomEventType::SignalEmitted;

    log.append(extra.clone()).expect("a fresh signal should append");

    let all: Vec<_> = log.replay(ReplayCursor::start()).into_iter().cloned().collect();
    assert_eq!(all.last(), Some(&extra));
    assert_eq!(all.len(), 5);

    let after: Vec<_> = log.replay(ReplayCursor::after(2_003)).into_iter().cloned().collect();
    assert_eq!(after, vec![extra.clone()]);

    let past: Vec<_> = log.replay(ReplayCursor::after(2_010)).into_iter().cloned().collect();
    assert!(past.is_empty());
}

#[test]
fn a_refused_append_leaves_the_log_unchanged() {
    let mut log = constructor_events();
    let before = log.events().clone();
    let duplicate = before[0].clone();

    assert!(log.append(duplicate).is_err());
    assert_eq!(log.events(), &before);
}

#[test]
fn every_integration_log_replays_as_one_request() {
    let group = IntegrationGroup::new(
        5,
        40,
        41,
        6,
        vec![42],
        JoinPolicy::WaitAll,
        "inline://acceptance/6",
        vec![9],
    )
    .unwrap();
    let artifact = ArtifactRef::new(1, 40, 42, 9, "mock.markdown", "inline://artifact/1").unwrap();
    let output = MockIntegration::new(MockIntegrationConfig {
        integration_agent_id: 9,
        next_event_id: 1,
        occurred_at_ms: 0,
        correlation_id: 3,
    })
    .integrate_completed_children(&group, &[artifact])
    .unwrap();
    let report = output.event_log.validate_replay().unwrap();
    assert_eq!(report.event_count, 1);
    assert_eq!(report.integration_request_count, 1);
    assert_eq!(report.root_task_count, 1);
    assert_eq!(report.task_event_count, 1);
}

#[test]
fn a_curator_log_over_the_packets_decommission_replays() {
    let packet = AgentDecommissionPacket::completed(50, 60, 70, 71, 72, 73, vec![74], "inline://summary/50")
        .unwrap();
    let decommission = LoomEvent {
        event_id: 9,
        event_type: LoomEventType::AgentDecommissioned,
        root_task_id: 70,
        task_id: Some(71),
        parent_task_id: None,
        prompt_id: Some(72),
        agent_id: Some(60),
        agent_role: Some("constructor".to_string()),
        topology_snapshot_id: None,
        payload_schema: "qtom.mock.constructor.v1".to_string(),
        payload_ref: "inline://decommission/60/71".to_string(),
        occurred_at_ms: 1,
        causation_id: None,
        correlation_id: 5,
    };
    let output = MockCurator::new(MockCuratorConfig {
        curator_agent_id: 80,
        next_memory_node_id: 90,
        next_event_id: 10,
        occurred_at_ms: 2,
        correlation_id: 5,
    })
    .curate_decommission_packet(&packet, &decommission)
    .unwrap();
    let report = output.event_log.validate_replay().unwrap();
    assert_eq!(report.event_count, 2);
    assert_eq!(report.decommission_count, 1);
    assert_eq!(report.memory_node_count, 1);
    assert_eq!(report.root_task_count, 1);
    assert_eq!(report.task_event_count, 2);
}

#[test]
fn a_directors_group_joins_once_each_child_has_an_artifact() {
    let split = MockDirector::default()
        .split_root_task(7, 10, 1, "prototype the routing boundary")
        .unwrap();
    let artifacts: Vec<ArtifactRef> = split
        .children
        .iter()
        .enumerate()
        .map(|(idx, child)| {
            ArtifactRef::new(
                900 + idx as u64,
                child.root_task_id,
                child.task_id,
                301,
                "mock.markdown",
                "inline://artifact/x",
            )
            .unwrap()
        })
        .collect();
    let joined = MockIntegration::default()
        .integrate_completed_children(&split.integration_group, &artifacts)
        .unwrap();
    let child_ids: Vec<u64> = split.children.iter().map(|child| child.task_id).collect();
    assert_eq!(joined.report.included_task_ids, child_ids);
    assert_eq!(joined.report.final_artifact_refs, vec![900, 901]);
}
