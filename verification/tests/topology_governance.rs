use qtom_core::{
    LoomModelError, RollbackRecord, TopologyGovernanceStore, TopologyProposal,
    TopologyProposalKind, TopologyProposalStatus, TopologySnapshot, TopologySnapshotStatus,
    validate_topology_governance_records, validate_unique_rollback_ids,
    validate_unique_topology_proposal_ids, validate_unique_topology_snapshot_ids,
};
use qtom_core::topology::first_repeated_id;

fn approved_proposal(id: u64) -> TopologyProposal {
    TopologyProposal::draft(
        id,
        TopologyProposalKind::RoutePolicy,
        "evaluation://agent/900",
        "inline://topology/change-set/1",
        vec!["inline://evidence/1".to_string()],
        50_000,
    )
    .unwrap()
    .mark_tested(vec!["inline://benchmark/1".to_string()], 50_100)
    .unwrap()
    .mark_shadowed(vec!["inline://shadow/1".to_string()], 50_200)
    .unwrap()
    .mark_approved(vec!["inline://approval/1".to_string()], 50_300)
    .unwrap()
}

fn committed(id: u64, snapshot_id: u64, parent: Option<u64>, at: u64) -> (TopologyProposal, TopologySnapshot) {
    approved_proposal(id)
        .commit(
            snapshot_id,
            parent,
            "registry-v1",
            vec!["gradient-v1".to_string()],
            vec!["memory-v1".to_string()],
            vec!["route-v1".to_string()],
            "constraints-v1",
            at,
        )
        .unwrap()
}

fn rollback(id: u64, from: u64, to: u64) -> RollbackRecord {
    RollbackRecord::new(
        id,
        from,
        to,
        "regression in canary",
        "evaluation://agent/900",
        vec!["inline://route-decision/1".to_string()],
        60_000,
    )
    .unwrap()
}

fn two_snapshot_store() -> TopologyGovernanceStore {
    let (p1, s1) = committed(8_000, 9_000, None, 51_000);
    let (p2, s2) = committed(8_001, 9_001, Some(9_000), 52_000);
    TopologyGovernanceStore::new(vec![p1, p2], vec![s1, s2], vec![]).unwrap()
}

#[test]
fn governance_walks_forward_to_a_committed_active_snapshot() {
    let (proposal, snapshot) = committed(8_000, 9_000, None, 51_000);

    assert_eq!(proposal.status, TopologyProposalStatus::Committed);
    assert_eq!(proposal.updated_at_ms, 51_000);
    assert_eq!(snapshot.status, TopologySnapshotStatus::Active);
    assert_eq!(snapshot.source_proposal_id, 8_000);
    assert_eq!(snapshot.created_at_ms, 51_000);
}

#[test]
fn commit_requires_an_approved_proposal() {
    let tested = TopologyProposal::draft(
        8_000,
        TopologyProposalKind::RoutePolicy,
        "evaluation://agent/900",
        "inline://topology/change-set/1",
        vec!["inline://evidence/1".to_string()],
        50_000,
    )
    .unwrap()
    .mark_tested(vec!["inline://benchmark/1".to_string()], 50_100)
    .unwrap();

    let err = tested
        .commit(9_000, None, "registry-v1", vec![], vec![], vec![], "constraints-v1", 51_000)
        .unwrap_err();

    assert_eq!(
        err,
        LoomModelError::InvalidStateTransition {
            from: "Tested",
            to: "Committed"
        }
    );
}

#[test]
fn latest_active_snapshot_is_in_force() {
    let store = two_snapshot_store();

    assert_eq!(store.active_topology_snapshot().unwrap().topology_snapshot_id, 9_001);
}

#[test]
fn rollback_activates_its_target_and_rolls_back_its_source() {
    let store = two_snapshot_store().apply_rollback(rollback(10_000, 9_001, 9_000)).unwrap();

    assert_eq!(store.active_topology_snapshot().unwrap().topology_snapshot_id, 9_000);
    assert_eq!(store.snapshots[1].status, TopologySnapshotStatus::RolledBack);
    assert_eq!(store.rollback_records.len(), 1);
}

#[test]
fn rollback_to_an_unknown_snapshot_is_refused() {
    let err = two_snapshot_store()
        .apply_rollback(rollback(10_000, 9_001, 9_999))
        .unwrap_err();

    assert_eq!(
        err,
        LoomModelError::UnknownTopologySnapshotId {
            field: "rollback.to_topology_snapshot_id",
            topology_snapshot_id: 9_999
        }
    );
}

#[test]
fn rollback_records_need_distinct_endpoints_and_evidence() {
    let same = RollbackRecord::new(1, 9_000, 9_000, "r", "t", vec!["x".to_string()], 1).unwrap_err();
    assert_eq!(
        same,
        LoomModelError::InvalidNumericField {
            field: "to_topology_snapshot_id",
            reason: "must differ from from_topology_snapshot_id",
        }
    );
    let no_refs = RollbackRecord::new(1, 9_000, 9_001, "r", "t", vec![], 1).unwrap_err();
    assert_eq!(no_refs, LoomModelError::EmptyCollection("affected_route_decision_refs"));
}

#[test]
fn duplicate_ids_are_reported_by_the_first_repeat() {
    assert_eq!(first_repeated_id(&[3, 1, 4, 1, 3]), Some(1));
    assert_eq!(first_repeated_id(&[3, 1, 4]), None);

    let (p1, s1) = committed(8_000, 9_000, None, 51_000);
    assert_eq!(
        validate_unique_topology_proposal_ids(&[p1.clone(), p1.clone()]),
        Err(LoomModelError::DuplicateTopologyProposalId(8_000))
    );
    assert_eq!(
        validate_unique_topology_snapshot_ids(&[s1.clone(), s1.clone()]),
        Err(LoomModelError::DuplicateTopologySnapshotId(9_000))
    );
    assert_eq!(
        validate_unique_rollback_ids(&[rollback(5, 1, 2), rollback(5, 2, 1)]),
        Err(LoomModelError::DuplicateRollbackId(5))
    );
    assert_eq!(validate_topology_governance_records(&[p1], &[s1], &[]), Ok(()));
}

#[test]
fn snapshots_must_come_from_known_proposals() {
    let (_, s1) = committed(8_000, 9_000, None, 51_000);

    let err = TopologyGovernanceStore::new(vec![], vec![s1], vec![]).unwrap_err();

    assert_eq!(
        err,
        LoomModelError::UnknownTopologyProposalId {
            field: "snapshot.source_proposal_id",
            topology_proposal_id: 8_000
        }
    );
}

#[test]
fn empty_store_has_no_snapshot_in_force() {
    let store = TopologyGovernanceStore::new(vec![], vec![], vec![]).unwrap();

    assert_eq!(
        store.active_topology_snapshot().unwrap_err(),
        LoomModelError::NoActiveTopologySnapshot
    );
}
