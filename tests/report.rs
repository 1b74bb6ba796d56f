use function_runner::humanize::{instructions_text_of, size_text_of};
use function_runner::run_result::{scaled_limit, Style};
use function_runner::{BytesContainer, BytesContainerType, Codec, FunctionRunResult};

fn result(instructions: u64, logs: &str, scale_factor: u64) -> FunctionRunResult {
    let mock_input_string = "{\"input_test\": \"input_value\"}".to_string();
    let input = BytesContainer::new(
        BytesContainerType::Input,
        Codec::Json,
        mock_input_string.into_bytes(),
    )
    .unwrap();
    let output = BytesContainer::new(
        BytesContainerType::Output,
        Codec::Json,
        b"{\"test\": \"test\"}".to_vec(),
    )
    .unwrap();
    FunctionRunResult {
        name: "test".to_string(),
        size: 100,
        memory_usage: 1000,
        instructions,
        logs: logs.to_string(),
        input,
        output,
        profile: None,
        scale_factor,
        success: true,
    }
}

fn rendered(r: &FunctionRunResult) -> String {
    r.report().iter().map(|p| p.text.as_str()).collect()
}

fn expected_input_display() -> String {
    let v: serde_json::Value = serde_json::from_str("{\"input_test\": \"input_value\"}").unwrap();
    serde_json::to_string_pretty(&v).unwrap()
}

#[test]
fn test_js_output() {
    let function_run_result = result(1001, "test", 1_000_000_000);
    let text = rendered(&function_run_result);
    assert!(text.contains("Instructions: 1.001K"));
    assert!(text.contains("Linear Memory Usage: 1000KB"));
    assert!(text.contains(&expected_input_display()));
    assert!(text.contains("Input Size: 28B"));
    assert!(text.contains("Output Size: 15B"));
}

#[test]
fn test_js_output_1000() {
    let function_run_result = result(1000, "test", 1_000_000_000);
    let text = rendered(&function_run_result);
    assert!(text.contains("Instructions: 1"));
    assert!(text.contains("Linear Memory Usage: 1000KB"));
    assert!(text.contains(&expected_input_display()));
}

#[test]
fn test_instructions_less_than_1000() {
    let function_run_result = result(999, "test", 1_000_000_000);
    let text = rendered(&function_run_result);
    assert!(text.contains("Instructions: 999"));
    assert!(text.contains("Linear Memory Usage: 1000KB"));
    assert!(text.contains(&expected_input_display()));
}

#[test]
fn default_and_scaled_limits_are_reported() {
    let text = rendered(&result(5, "", 1_000_000_000));
    assert!(text.contains("Input Size: 125.00KB"));
    assert!(text.contains("Output Size: 19.53KB"));
    assert!(text.contains("Instructions: 11M"));
    let text = rendered(&result(5, "", 2_000_000_000));
    assert!(text.contains("Input Size: 250.00KB"));
    assert!(text.contains("Output Size: 39.06KB"));
    assert!(text.contains("Instructions: 22M"));
    assert_eq!(scaled_limit(128_000, 2_500_000_000), 320_000);
}

#[test]
fn long_logs_are_flagged() {
    let logs = "x".repeat(6000);
    let r = result(5, &logs, 1_000_000_000);
    let pieces = r.report();
    let warning = pieces
        .iter()
        .find(|p| p.text == "Logs would be truncated in production, length 6000 > 1000 limit")
        .expect("warning present");
    assert_eq!(warning.style, Style::Alert);
    assert!(!rendered(&result(5, "short", 1_000_000_000)).contains("Logs would be truncated"));
}

#[test]
fn over_limit_measurements_are_alerts() {
    let r = result(12_000_000, "", 1_000_000_000);
    let pieces = r.report();
    let line = pieces.iter().find(|p| p.text == "Instructions: 12M").unwrap();
    assert_eq!(line.style, Style::Alert);
    let under = pieces.iter().find(|p| p.text == "Input Size: 28B").unwrap();
    assert_eq!(under.style, Style::Plain);
}

#[test]
fn invalid_output_section() {
    let mut r = result(5, "", 1_000_000_000);
    r.output = BytesContainer::output(Codec::Json, b"garbage".to_vec());
    let text = rendered(&r);
    assert!(text.contains("Invalid Output"));
    assert!(text.contains("JSON Error"));
    assert!(text.contains("garbage"));
    assert!(text.contains("Output Size: 0B"));
}

#[test]
fn humanized_sizes() {
    assert_eq!(size_text_of(0), "0B");
    assert_eq!(size_text_of(1023), "1023B");
    assert_eq!(size_text_of(1024), "1.00KB");
    assert_eq!(size_text_of(128_000), "125.00KB");
    assert_eq!(size_text_of(20_000), "19.53KB");
    assert_eq!(size_text_of(1_048_576), "1.00MB");
    assert_eq!(size_text_of(1_572_864), "1.50MB");
    assert_eq!(size_text_of(3_221_225_472), "3.00GB");
}

#[test]
fn humanized_instructions() {
    assert_eq!(instructions_text_of(0), "0");
    assert_eq!(instructions_text_of(999), "999");
    assert_eq!(instructions_text_of(1000), "1K");
    assert_eq!(instructions_text_of(1001), "1.001K");
    assert_eq!(instructions_text_of(1500), "1.5K");
    assert_eq!(instructions_text_of(11_000_000), "11M");
    assert_eq!(instructions_text_of(2_500_000_000), "2.5B");
}
