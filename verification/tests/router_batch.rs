use qtom_core::RouteError;
use qtom_core::batch::{agent_table_width, batch_chunks, validate_batch_shape};

#[test]
fn batch_shape_refuses_an_empty_router_first() {
    assert_eq!(
        validate_batch_shape(0, 4, 3, &vec![5]),
        Err(RouteError::EmptyAgents)
    );
}

#[test]
fn batch_shape_refuses_a_state_count_mismatch() {
    assert_eq!(
        validate_batch_shape(4, 2, 3, &vec![2, 3]),
        Err(RouteError::StateLengthMismatch { agents: 4, states: 3 })
    );
}

#[test]
fn batch_shape_reports_the_first_request_of_the_wrong_width() {
    let error = validate_batch_shape(2, 16, 2, &vec![16, 15, 8]).unwrap_err();
    assert_eq!(
        error,
        RouteError::DimensionMismatch {
            expected: 16,
            actual: 15,
            context: "routing request",
        }
    );
    assert_eq!(
        error.to_string(),
        "routing request dimension mismatch: expected 16, got 15"
    );
}

#[test]
fn batch_shape_accepts_a_matching_batch() {
    assert_eq!(validate_batch_shape(3, 2, 3, &vec![2, 2]), Ok(()));
    assert_eq!(validate_batch_shape(3, 2, 3, &Vec::new()), Ok(()));
}

#[test]
fn batch_chunks_split_in_order_and_cover_every_request() {
    assert_eq!(batch_chunks(10, 3), vec![(0, 4), (4, 8), (8, 10)]);
    assert_eq!(batch_chunks(8, 4), vec![(0, 2), (2, 4), (4, 6), (6, 8)]);
    assert_eq!(batch_chunks(5, 1), vec![(0, 5)]);
}

#[test]
fn batch_chunks_use_at_least_one_and_at_most_one_worker_per_request() {
    assert_eq!(batch_chunks(3, 0), vec![(0, 3)]);
    assert_eq!(batch_chunks(3, 16), vec![(0, 1), (1, 2), (2, 3)]);
    assert_eq!(batch_chunks(0, 4), Vec::<(usize, usize)>::new());
}

#[test]
fn agent_table_width_is_the_first_agents_width() {
    assert_eq!(agent_table_width(&vec![3, 3, 3]), Ok(3));
    assert_eq!(agent_table_width(&Vec::new()), Ok(0));
    assert_eq!(
        agent_table_width(&vec![4, 4, 2, 5]),
        Err(RouteError::DimensionMismatch {
            expected: 4,
            actual: 2,
            context: "agent vector",
        })
    );
}
