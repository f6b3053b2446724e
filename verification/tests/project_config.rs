use qtom_core::ProjectConfig;
use qtom_core::config::{parse_dotenv, parse_dotenv_line, parse_usize, trim, unquote};

#[test]
fn parses_dotenv_without_leaking_secret_value() {
    let contents = [
        format!("{}=test-token-present", "OPENAI_API_KEY"),
        "QTOM_EVALUATOR_MODEL=test-evaluator".to_string(),
        "QTOM_LOCAL_MODEL=Qwen3-2507".to_string(),
        "QTOM_DEFAULT_K=4".to_string(),
        "QTOM_DEFAULT_AGENT_COUNT=1024".to_string(),
    ]
    .join("\n");

    let config = ProjectConfig::from_env_and_dotenv(&Vec::new(), &contents);

    assert!(config.openai_api_key_present);
    assert_eq!(config.evaluator_model, "test-evaluator");
    assert_eq!(config.local_model, "Qwen3-2507");
    assert_eq!(config.default_k, 4);
    assert_eq!(config.default_agent_count, 1024);
}

#[test]
fn defaults_apply_without_environment_or_file() {
    let config = ProjectConfig::from_env_and_dotenv(&Vec::new(), "");

    assert!(!config.openai_api_key_present);
    assert_eq!(config.evaluator_model, "gpt-5.5-medium");
    assert_eq!(config.local_model, "Qwen3-2507");
    assert_eq!(config.default_k, 8);
    assert_eq!(config.default_agent_count, 128);
}

#[test]
fn environment_wins_over_file_and_bad_counts_fall_back() {
    let env = vec![
        ("QTOM_LOCAL_MODEL".to_string(), "env-model".to_string()),
        ("OPENAI_API_KEY".to_string(), "   ".to_string()),
    ];
    let contents = "QTOM_LOCAL_MODEL=file-model\nOPENAI_API_KEY=secret\nQTOM_DEFAULT_K=lots\nQTOM_DEFAULT_AGENT_COUNT=+64\n";

    let config = ProjectConfig::from_env_and_dotenv(&env, contents);

    assert_eq!(config.local_model, "env-model");
    assert!(!config.openai_api_key_present);
    assert_eq!(config.default_k, 8);
    assert_eq!(config.default_agent_count, 64);
}

#[test]
fn later_file_lines_win_for_the_same_key() {
    let config = ProjectConfig::from_env_and_dotenv(
        &Vec::new(),
        "QTOM_EVALUATOR_MODEL=first\r\nQTOM_EVALUATOR_MODEL='second'\r\n",
    );

    assert_eq!(config.evaluator_model, "second");
}

#[test]
fn dotenv_lines_skip_comments_blanks_and_keyless_entries() {
    assert_eq!(parse_dotenv_line("   "), None);
    assert_eq!(parse_dotenv_line("# KEY=value"), None);
    assert_eq!(parse_dotenv_line("NO_EQUALS"), None);
    assert_eq!(parse_dotenv_line(" = value"), None);
    assert_eq!(
        parse_dotenv_line("  KEY = \"a = b\"  "),
        Some(("KEY".to_string(), "a = b".to_string()))
    );
    assert_eq!(
        parse_dotenv_line("KEY="),
        Some(("KEY".to_string(), String::new()))
    );
}

#[test]
fn dotenv_file_yields_pairs_in_line_order() {
    assert_eq!(
        parse_dotenv("A=1\n\n# note\nB = 'two'\nC"),
        vec![
            ("A".to_string(), "1".to_string()),
            ("B".to_string(), "two".to_string()),
        ]
    );
}

#[test]
fn unquote_removes_only_matching_quotes() {
    assert_eq!(unquote("\"x\""), "x");
    assert_eq!(unquote("'x'"), "x");
    assert_eq!(unquote("\"x'"), "\"x'");
    assert_eq!(unquote("\""), "\"");
    assert_eq!(unquote("''"), "");
    assert_eq!(trim("\t a b \n"), "a b");
}

#[test]
fn counts_read_as_unsigned_decimals() {
    assert_eq!(parse_usize("4"), Some(4));
    assert_eq!(parse_usize("+12"), Some(12));
    assert_eq!(parse_usize("007"), Some(7));
    assert_eq!(parse_usize(""), None);
    assert_eq!(parse_usize("+"), None);
    assert_eq!(parse_usize("-1"), None);
    assert_eq!(parse_usize("1 "), None);
    assert_eq!(parse_usize("99999999999999999999999"), None);
}
