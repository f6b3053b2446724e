use qtom_core::types::{AgentLabels, DEFAULT_DIM};
use qtom_core::{
    FixtureConfig, GoldenAgent, GoldenFixtureError, GoldenRecords, GoldenRequest, GoldenState,
    decode_golden_fixture, encode_golden_fixture,
};

fn bits(values: &[f32]) -> Vec<u32> {
    values.iter().map(|value| value.to_bits()).collect()
}

fn records_for(config: FixtureConfig) -> GoldenRecords {
    let mut agents = Vec::new();
    let mut states = Vec::new();
    for idx in 0..config.agent_count {
        let base = idx as f32 * 0.125;
        agents.push(GoldenAgent {
            id: idx as u32,
            labels: AgentLabels {
                model_profile: 1,
                tool_profile: (idx % 8) as u16,
                mcp_profile: (idx % 4) as u16,
                memory_profile: (idx % 16) as u16,
                cost_class: (idx % 3) as u8,
                latency_class: (idx % 5) as u8,
            },
            vector_bits: bits(
                &(0..config.dimensions)
                    .map(|d| base - d as f32 * 0.3)
                    .collect::<Vec<_>>(),
            ),
        });
        states.push(GoldenState {
            queue_depth_bits: (idx as f32 / 7.0).to_bits(),
            latency_bits: (0.1f32 * idx as f32).to_bits(),
            cache_pressure_bits: (-0.0f32).to_bits(),
            availability: (idx % 2) as u32,
        });
    }
    let mut requests = Vec::new();
    for task in 0..config.task_count {
        requests.push(GoldenRequest {
            task_id: task as u64,
            k: config.k,
            fallback_generalist_id: 0,
            radius_bits: f32::INFINITY.to_bits(),
            vector_bits: bits(
                &(0..config.dimensions)
                    .map(|d| (task * 3 + d) as f32 / 11.0)
                    .collect::<Vec<_>>(),
            ),
        });
    }
    GoldenRecords {
        config,
        agents,
        states,
        requests,
    }
}

fn small_records() -> GoldenRecords {
    GoldenRecords {
        config: FixtureConfig {
            agent_count: 1,
            task_count: 1,
            dimensions: 2,
            k: 1,
            seed: 0x2a,
        },
        agents: vec![GoldenAgent {
            id: 7,
            labels: AgentLabels {
                model_profile: 1,
                tool_profile: 2,
                mcp_profile: 3,
                memory_profile: 4,
                cost_class: 5,
                latency_class: 6,
            },
            vector_bits: vec![0x3f80_0000, 0],
        }],
        states: vec![GoldenState {
            queue_depth_bits: 0x3f00_0000,
            latency_bits: 0,
            cache_pressure_bits: 0x3e80_0000,
            availability: 1,
        }],
        requests: vec![GoldenRequest {
            task_id: 9,
            k: 1,
            fallback_generalist_id: 7,
            radius_bits: 0x7f80_0000,
            vector_bits: vec![0x3f80_0000, 0xbf80_0000],
        }],
    }
}

const SMALL_TEXT: &str = "qtom-golden-fixture-v1\nconfig 1 1 2 1 000000000000002a\nagents 1\nagent 7 1 2 3 4 5 6 3f800000 00000000\nstates 1\nstate 3f000000 00000000 3e800000 1\nrequests 1\nrequest 9 1 7 7f800000 3f800000 bf800000\nend\n";

fn refusal(text: &str) -> (usize, String) {
    match decode_golden_fixture(text) {
        Err(GoldenFixtureError::Format { line, message }) => (line, message),
        Err(GoldenFixtureError::Io(error)) => panic!("unexpected I/O error: {error}"),
        Ok(records) => panic!("unexpected fixture: {records:?}"),
    }
}

#[test]
fn golden_fixture_round_trips_exactly() {
    let config = FixtureConfig {
        agent_count: 8,
        task_count: 4,
        dimensions: 3,
        k: 2,
        seed: 0x5154_4f4d,
    };
    let fixture = records_for(config);
    let encoded = encode_golden_fixture(&fixture).unwrap();
    let decoded = decode_golden_fixture(&encoded).unwrap();

    assert_eq!(decoded.config, config);
    assert_eq!(decoded, fixture);
}

#[test]
fn golden_fixture_reports_bad_magic() {
    let error = decode_golden_fixture("wrong-format\n").unwrap_err();

    assert!(
        error
            .to_string()
            .contains("expected qtom-golden-fixture-v1")
    );
}

#[test]
fn golden_fixture_writes_the_exact_text() {
    assert_eq!(encode_golden_fixture(&small_records()).unwrap(), SMALL_TEXT);
}

#[test]
fn golden_fixture_reads_the_exact_text() {
    assert_eq!(decode_golden_fixture(SMALL_TEXT).unwrap(), small_records());
}

#[test]
fn golden_fixture_skips_blank_lines_and_accepts_signs_and_upper_case() {
    let text = "\n  qtom-golden-fixture-v1  \n\r\nconfig +1 1 2 1 2A\nagents 1\n\nagent 7 1 2 3 4 5 6 3F800000 0\nstates 1\nstate 3f000000 0 3E800000 +1\nrequests 1\nrequest 9 1 7 7F800000 3f800000 BF800000\n  end  \n\n";
    assert_eq!(decode_golden_fixture(text).unwrap(), small_records());
}

#[test]
fn golden_fixture_round_trips_an_empty_fixture() {
    let config = FixtureConfig {
        agent_count: 0,
        task_count: 0,
        dimensions: 0,
        k: 0,
        seed: u64::MAX,
    };
    let records = GoldenRecords {
        config,
        agents: Vec::new(),
        states: Vec::new(),
        requests: Vec::new(),
    };
    let encoded = encode_golden_fixture(&records).unwrap();
    assert_eq!(
        encoded,
        "qtom-golden-fixture-v1\nconfig 0 0 0 0 ffffffffffffffff\nagents 0\nstates 0\nrequests 0\nend\n"
    );
    assert_eq!(decode_golden_fixture(&encoded).unwrap(), records);
}

#[test]
fn golden_fixture_reports_end_of_file() {
    assert_eq!(
        refusal(""),
        (1, "expected format magic, reached end of file".to_string())
    );
    assert_eq!(
        refusal("qtom-golden-fixture-v1\n"),
        (2, "expected config, reached end of file".to_string())
    );
    assert_eq!(
        refusal("qtom-golden-fixture-v1\nconfig 1 1 2 1 2a\nagents 1\n"),
        (4, "expected agent, reached end of file".to_string())
    );
}

#[test]
fn golden_fixture_reports_field_counts() {
    assert_eq!(
        refusal("qtom-golden-fixture-v1\nconfig 1 1 2 1\n"),
        (2, "config expected 6 fields, got 5".to_string())
    );
    let text = SMALL_TEXT.replace("agent 7 1 2 3 4 5 6 3f800000 00000000", "agent 7 1 2 3 4 5 6 3f800000");
    assert_eq!(refusal(&text), (4, "agent expected 10 fields, got 9".to_string()));
}

#[test]
fn golden_fixture_reports_keywords() {
    assert_eq!(
        refusal("qtom-golden-fixture-v1\nconfug 1 1 2 1 2a\n"),
        (2, "expected keyword config, got confug".to_string())
    );
    let text = SMALL_TEXT.replace("states 1", "stats 1");
    assert_eq!(refusal(&text), (5, "expected keyword states, got stats".to_string()));
}

#[test]
fn golden_fixture_reports_invalid_values() {
    assert_eq!(
        refusal("qtom-golden-fixture-v1\nconfig x 1 2 1 2a\n"),
        (2, "invalid agent_count: x".to_string())
    );
    let text = SMALL_TEXT.replace("agent 7 ", "agent 4294967296 ");
    assert_eq!(refusal(&text), (4, "invalid agent id: 4294967296".to_string()));
    let text = SMALL_TEXT.replace("state 3f000000", "state 3g000000");
    assert_eq!(refusal(&text), (6, "invalid queue_depth_norm: 3g000000".to_string()));
    let text = SMALL_TEXT.replace("bf800000", "1bf800000");
    assert_eq!(refusal(&text), (8, "invalid request vector: 1bf800000".to_string()));
}

#[test]
fn golden_fixture_reports_end_marker_and_trailing_content() {
    let text = SMALL_TEXT.replace("end\n", "stop\n");
    assert_eq!(refusal(&text), (9, "expected end marker".to_string()));
    let text = format!("{SMALL_TEXT}\nextra\n");
    assert_eq!(refusal(&text), (11, "unexpected trailing content".to_string()));
}

#[test]
fn golden_fixture_reports_shape_mismatches() {
    let text = SMALL_TEXT.replace("config 1 1 2", "config 1 2 2");
    assert_eq!(
        refusal(&text),
        (0, "request count mismatch: config=2, fixture=1".to_string())
    );

    let mut records = small_records();
    records.config.task_count = 3;
    match encode_golden_fixture(&records) {
        Err(GoldenFixtureError::Format { line, message }) => {
            assert_eq!(line, 0);
            assert_eq!(message, "request count mismatch: config=3, fixture=1");
        }
        other => panic!("unexpected result: {other:?}"),
    }

    let mut records = small_records();
    records.agents[0].vector_bits.push(0);
    match encode_golden_fixture(&records) {
        Err(GoldenFixtureError::Format { line, message }) => {
            assert_eq!(line, 0);
            assert_eq!(message, "agent 7 dimension mismatch: expected 2, got 3");
        }
        other => panic!("unexpected result: {other:?}"),
    }
}

#[test]
fn golden_fixture_errors_display_their_line() {
    let error = decode_golden_fixture("wrong-format\n").unwrap_err();
    assert_eq!(
        error.to_string(),
        "golden fixture parse error on line 1: expected qtom-golden-fixture-v1"
    );
    let io = GoldenFixtureError::Io(std::io::Error::new(
        std::io::ErrorKind::NotFound,
        "fixture missing",
    ));
    assert_eq!(io.to_string(), "fixture missing");
}

#[test]
fn fixture_config_default_is_the_benchmark_fixture() {
    assert_eq!(
        FixtureConfig::default(),
        FixtureConfig {
            agent_count: 128,
            task_count: 32,
            dimensions: DEFAULT_DIM,
            k: 8,
            seed: 0x5154_4f4d,
        }
    );
}

#[test]
fn a_read_fixture_is_written_and_read_back_the_same() {
    let text = "qtom-golden-fixture-v1\n\nconfig +1 1 2 1 2A\nagents 1\nagent 7 1 2 3 4 5 6 3F800000 0\nstates 1\nstate 3f000000 0 3E800000 +1\nrequests 1\nrequest 9 1 7 7F800000 3f800000 BF800000\nend\n";
    let read = decode_golden_fixture(text).unwrap();
    let written = encode_golden_fixture(&read).unwrap();
    assert_eq!(written, SMALL_TEXT);
    assert_eq!(decode_golden_fixture(&written).unwrap(), read);
}
