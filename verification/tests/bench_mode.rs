use qtom_core::BenchMode;
use qtom_core::FixtureConfig;
use qtom_core::bench_mode::{
    batch_worker_counts, cuda_golden_fixture_config, golden_fixture_config, profile_task_count_for,
    scenario_seed, task_count_for,
};

#[test]
fn stress_flag_selects_stress_mode() {
    assert_eq!(
        BenchMode::from_args(vec!["--stress".to_string()]),
        BenchMode::Stress
    );
    assert_eq!(BenchMode::from_args(Vec::<String>::new()), BenchMode::Smoke);
}

#[test]
fn profile_flag_selects_profile_mode() {
    assert_eq!(
        BenchMode::from_args(vec!["--profile".to_string()]),
        BenchMode::Profile
    );
}

#[test]
fn batch_profile_flag_selects_batch_profile_mode() {
    assert_eq!(
        BenchMode::from_args(vec!["--batch-profile".to_string()]),
        BenchMode::BatchProfile
    );
}

#[test]
fn prod_profile_flag_selects_prod_profile_mode() {
    assert_eq!(
        BenchMode::from_args(vec!["--prod-profile".to_string()]),
        BenchMode::ProdProfile
    );
}

#[test]
fn layout_profile_flag_selects_layout_profile_mode() {
    assert_eq!(
        BenchMode::from_args(vec!["--layout-profile".to_string()]),
        BenchMode::LayoutProfile
    );
}

#[test]
fn candidate_prefilter_profile_flag_selects_mode() {
    assert_eq!(
        BenchMode::from_args(vec!["--candidate-prefilter-profile".to_string()]),
        BenchMode::CandidatePrefilterProfile
    );
}

#[test]
fn write_golden_flag_selects_path_mode() {
    assert_eq!(
        BenchMode::from_args(vec![
            "--write-golden".to_string(),
            "work/golden/default.fixture".to_string()
        ]),
        BenchMode::WriteGolden {
            path: "work/golden/default.fixture".into()
        }
    );
}

#[test]
fn write_cuda_golden_flag_selects_path_mode() {
    assert_eq!(
        BenchMode::from_args(vec![
            "--write-cuda-golden".to_string(),
            "work/golden/cuda-k1.fixture".to_string()
        ]),
        BenchMode::WriteCudaGolden {
            path: "work/golden/cuda-k1.fixture".into()
        }
    );
}

#[test]
fn golden_parity_flag_selects_path_mode() {
    assert_eq!(
        BenchMode::from_args(vec![
            "--golden-parity".to_string(),
            "work/golden/default.fixture".to_string()
        ]),
        BenchMode::GoldenParity {
            path: "work/golden/default.fixture".into()
        }
    );
}

#[test]
fn cuda_parity_flag_selects_path_mode() {
    assert_eq!(
        BenchMode::from_args(vec![
            "--cuda-parity".to_string(),
            "work/golden/cuda-k1.fixture".to_string()
        ]),
        BenchMode::CudaParity {
            path: "work/golden/cuda-k1.fixture".into()
        }
    );
}

#[test]
fn cuda_timing_flag_selects_path_mode() {
    assert_eq!(
        BenchMode::from_args(vec![
            "--cuda-timing".to_string(),
            "work/golden/cuda-k1.fixture".to_string()
        ]),
        BenchMode::CudaTiming {
            path: "work/golden/cuda-k1.fixture".into()
        }
    );
}

#[test]
fn cuda_scale_flag_selects_mode() {
    assert_eq!(
        BenchMode::from_args(vec!["--cuda-scale".to_string()]),
        BenchMode::CudaScale
    );
}

#[test]
fn golden_flags_require_paths() {
    assert_eq!(
        BenchMode::from_args(vec!["--write-golden".to_string()]),
        BenchMode::Invalid("--write-golden requires a path".to_string())
    );
    assert_eq!(
        BenchMode::from_args(vec!["--golden-parity".to_string()]),
        BenchMode::Invalid("--golden-parity requires a path".to_string())
    );
    assert_eq!(
        BenchMode::from_args(vec!["--write-cuda-golden".to_string()]),
        BenchMode::Invalid("--write-cuda-golden requires a path".to_string())
    );
    assert_eq!(
        BenchMode::from_args(vec!["--cuda-parity".to_string()]),
        BenchMode::Invalid("--cuda-parity requires a path".to_string())
    );
    assert_eq!(
        BenchMode::from_args(vec!["--cuda-timing".to_string()]),
        BenchMode::Invalid("--cuda-timing requires a path".to_string())
    );
}

#[test]
fn cuda_plan_flag_selects_path_mode() {
    assert_eq!(
        BenchMode::from_args(vec![
            "--cuda-plan".to_string(),
            "work/golden/default.fixture".to_string()
        ]),
        BenchMode::CudaPlan {
            path: "work/golden/default.fixture".into()
        }
    );
    assert_eq!(
        BenchMode::from_args(vec!["--cuda-plan".to_string()]),
        BenchMode::Invalid("--cuda-plan requires a path".to_string())
    );
}

#[test]
fn later_flags_override_earlier_ones_and_unknown_arguments_are_skipped() {
    assert_eq!(
        BenchMode::from_args(vec![
            "--stress".to_string(),
            "--verbose".to_string(),
            "--cuda-plan".to_string(),
            "plan.fixture".to_string(),
            "--profile".to_string(),
        ]),
        BenchMode::Profile
    );
    assert_eq!(
        BenchMode::from_args(vec![
            "--golden-parity".to_string(),
            "--stress".to_string(),
        ]),
        BenchMode::GoldenParity {
            path: "--stress".into()
        }
    );
}

#[test]
fn missing_path_stops_at_the_flag_that_needs_it() {
    assert_eq!(
        BenchMode::from_args(vec!["--stress".to_string(), "--cuda-timing".to_string()]),
        BenchMode::Invalid("--cuda-timing requires a path".to_string())
    );
}

#[test]
fn modes_name_themselves_and_their_agent_sweeps() {
    assert_eq!(BenchMode::Smoke.as_str(), "smoke");
    assert_eq!(BenchMode::Invalid("x".to_string()).as_str(), "invalid");
    assert_eq!(
        BenchMode::CudaPlan {
            path: "p".to_string()
        }
        .as_str(),
        "cuda-plan"
    );
    assert_eq!(BenchMode::Smoke.agent_counts(), vec![128, 1024, 8192]);
    assert_eq!(BenchMode::Stress.agent_counts(), vec![65536]);
    assert_eq!(BenchMode::ProdProfile.agent_counts(), vec![8192, 65536, 262144]);
    assert!(BenchMode::CudaScale.agent_counts().is_empty());
}

#[test]
fn batch_worker_counts_are_unique_and_bounded() {
    for available in [1, 2, 3, 8, 64] {
        let counts = batch_worker_counts(available, 3);

        assert_eq!(counts[0], 1);
        assert!(counts.windows(2).all(|window| window[0] < window[1]));
        assert!(counts.iter().all(|count| *count <= 3));
    }
}

#[test]
fn batch_worker_counts_try_one_two_half_and_all_threads() {
    assert_eq!(batch_worker_counts(16, 2048), vec![1, 2, 8, 16]);
    assert_eq!(batch_worker_counts(4, 2048), vec![1, 2, 4]);
    assert_eq!(batch_worker_counts(0, 0), vec![1]);
    assert_eq!(batch_worker_counts(16, 6), vec![1, 2, 6]);
}

#[test]
fn sweep_task_counts_follow_the_agent_count() {
    assert_eq!(task_count_for(128), 128);
    assert_eq!(task_count_for(1024), 512);
    assert_eq!(task_count_for(65536), 512);
    assert_eq!(task_count_for(8192), 2048);
    assert_eq!(profile_task_count_for(8192), 512);
    assert_eq!(profile_task_count_for(65536), 256);
    assert_eq!(profile_task_count_for(131072), 128);
    assert_eq!(profile_task_count_for(262144), 64);
}

#[test]
fn scenario_seed_mixes_agent_count_and_k() {
    assert_eq!(scenario_seed(8192, 8), 0x5174_4f45);
    assert_eq!(scenario_seed(8192, 1), 0x5174_4f4c);
    assert_eq!(scenario_seed(1 << 60, 3), 0x5154_4f4e);
}

#[test]
fn golden_fixture_configs_match_the_benchmark_runs() {
    assert_eq!(
        golden_fixture_config(),
        FixtureConfig {
            agent_count: 8192,
            task_count: 2048,
            dimensions: 16,
            k: 8,
            seed: 0x5174_4f45,
        }
    );
    assert_eq!(cuda_golden_fixture_config().k, 1);
    assert_eq!(cuda_golden_fixture_config().seed, 0x5174_4f4c);
}
