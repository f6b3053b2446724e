use qtom_core::TaskEnvelope;
use qtom_core::loom_route::{SLOT_TICKS, route_vector_ticks, stable_text_hash, unit_interval_tick};

fn child_task() -> TaskEnvelope {
    TaskEnvelope::child(11, 1, 10, 7, 42, 88, "build constructor artifact")
        .expect("child task should be valid")
}

#[test]
fn route_request_vector_is_deterministic_for_same_task() {
    let first = route_vector_ticks(&child_task(), 16).expect("first request should build");
    let second = route_vector_ticks(&child_task(), 16).expect("second request should build");

    assert_eq!(first, second);
}

#[test]
fn route_request_vector_changes_with_task_lineage() {
    let first = route_vector_ticks(&child_task(), 16).expect("first request should build");
    let other_task = TaskEnvelope::child(12, 1, 10, 7, 42, 88, "build constructor artifact")
        .expect("other child task should be valid");
    let second = route_vector_ticks(&other_task, 16).expect("second request should build");

    assert_ne!(first, second);
}

#[test]
fn route_request_rejects_zero_dimensions() {
    let err = route_vector_ticks(&child_task(), 0).expect_err("zero dimensions should fail");

    assert_eq!(err.to_string(), "`dimensions` must be greater than zero");
}

#[test]
fn route_vector_ticks_follow_the_task_seeds() {
    let ticks = route_vector_ticks(&child_task(), 16).unwrap();
    assert_eq!(
        ticks,
        vec![11, 32, 72, 100, 166, 243, 7810, 228, 249, 289, 317, 383, 460, 8057, 445, 466]
    );
    assert!(ticks.iter().all(|tick| *tick < SLOT_TICKS));
}

#[test]
fn route_vector_ticks_of_a_root_task_seed_its_parent_with_zero() {
    let root = TaskEnvelope::root(5, 3, "root").unwrap();
    assert_eq!(route_vector_ticks(&root, 3).unwrap(), vec![5, 36, 62]);
}

#[test]
fn stable_text_hash_matches_known_values() {
    assert_eq!(stable_text_hash(""), 0xcbf2_9ce4_8422_2325);
    assert_eq!(stable_text_hash("a"), 0xaf63_bd4c_8601_b7be);
    assert_eq!(stable_text_hash("build constructor artifact"), 0xd604_69e7_41d2_323b);
}

#[test]
fn unit_interval_tick_mixes_high_bits() {
    assert_eq!(unit_interval_tick(11), 11);
    assert_eq!(unit_interval_tick(0xd604_69e7_41d2_323b + 6 * 31), 7810);
}
