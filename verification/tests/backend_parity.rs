use qtom_core::{BackendMismatch, BackendParityError, RouteError};

#[test]
fn mismatch_points_at_the_first_pair_that_differs() {
    let mismatch = BackendMismatch::from_pair_verdicts(&vec![true, false], 2, 2);
    assert_eq!(
        mismatch,
        BackendMismatch {
            first_mismatch_index: 1,
            reference_len: 2,
            candidate_len: 2,
        }
    );
}

#[test]
fn mismatch_of_a_differing_first_pair_is_zero() {
    let mismatch = BackendMismatch::from_pair_verdicts(&vec![false, true, false], 3, 4);
    assert_eq!(mismatch.first_mismatch_index, 0);
    assert_eq!(mismatch.reference_len, 3);
    assert_eq!(mismatch.candidate_len, 4);
}

#[test]
fn mismatch_of_matching_pairs_is_the_shorter_length() {
    let mismatch = BackendMismatch::from_pair_verdicts(&vec![true, true], 3, 2);
    assert_eq!(mismatch.first_mismatch_index, 2);
    let mismatch = BackendMismatch::from_pair_verdicts(&Vec::new(), 0, 5);
    assert_eq!(mismatch.first_mismatch_index, 0);
}

#[test]
fn parity_errors_display_their_backend_and_cause() {
    let error = BackendParityError::ReferenceRoute {
        backend: "cpu".to_string(),
        source: RouteError::EmptyAgents,
    };
    assert_eq!(error.to_string(), "reference backend cpu failed: router has no agents");

    let error = BackendParityError::CandidateRoute {
        backend: "cuda".to_string(),
        source: RouteError::StateLengthMismatch { agents: 4, states: 3 },
    };
    assert_eq!(
        error.to_string(),
        "candidate backend cuda failed: runtime state length mismatch: 4 agents, 3 states"
    );

    let error = BackendParityError::Mismatch {
        reference_backend: "cpu".to_string(),
        candidate_backend: "cuda".to_string(),
        mismatch: BackendMismatch {
            first_mismatch_index: 1,
            reference_len: 2,
            candidate_len: 3,
        },
    };
    assert_eq!(
        error.to_string(),
        "backend parity mismatch cpu vs cuda: first_mismatch=1 reference_len=2 candidate_len=3"
    );
}
