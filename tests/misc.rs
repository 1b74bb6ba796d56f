use std::time::Duration;

use function_runner::options::PROFILE_DEFAULT_INTERVAL;
use function_runner::text::parse_usize;
use function_runner::validation::PathMember;
use function_runner::{
    Codec, FunctionBenchmark, InstrCounter, OutputValidationError, Opts, RunStatistics, TestReport,
};

fn opts() -> Opts {
    Opts {
        function: "dir/func.wasm".to_string(),
        input: None,
        export: "_start".to_string(),
        json: false,
        profile: false,
        profile_out: None,
        profile_frequency: None,
        codec: Codec::Json,
        schema_path: None,
        query_path: None,
    }
}

#[test]
fn profile_options() {
    let mut o = opts();
    assert!(o.profile_opts().is_none());
    o.profile = true;
    let p = o.profile_opts().unwrap();
    assert_eq!(p.interval, PROFILE_DEFAULT_INTERVAL);
    assert_eq!(p.out, "func.perf");
    o.profile_frequency = Some(80000);
    o.profile_out = Some("foo.perf".to_string());
    let p = o.profile_opts().unwrap();
    assert_eq!(p.interval, 80000);
    assert_eq!(p.out, "foo.perf");
}

#[test]
fn instruction_counter() {
    let mut c = InstrCounter::new();
    assert_eq!(c.id_for_instruction_text("i32.add"), 0);
    assert_eq!(c.id_for_instruction_text("call 5"), 1);
    assert_eq!(c.id_for_instruction_text("i32.add"), 0);
    assert_eq!(c.id_for_instruction_text("call 7"), 1);
    c.inc(1);
    c.inc(0);
    c.inc(1);
    assert_eq!(c.instruction_for_id(1), Some("call".to_string()));
    assert_eq!(c.instruction_for_id(2), None);
    assert_eq!(c.instruction_for_id(-1), None);
    c.inc(9);
    let totals = c.total_count();
    assert_eq!(
        totals,
        vec![
            ("call".to_string(), 2),
            ("i32.add".to_string(), 1),
            ("<unknown instruciton>".to_string(), 1)
        ]
    );
    let nop = parity_wasm::elements::Instruction::Nop;
    assert_eq!(c.id_for_instruction(&nop), 2);
}

#[test]
fn benchmark_threshold() {
    assert!(FunctionBenchmark::new(Duration::from_millis(5)).within_threshold());
    assert!(!FunctionBenchmark::new(Duration::from_micros(5001)).within_threshold());
    let v: serde_json::Value = serde_json::from_str("{}").unwrap();
    let s = RunStatistics::new(Duration::from_millis(2), Duration::from_millis(1), v, String::new());
    assert!(!s.within_threshold());
}

#[test]
fn validation_error_paths() {
    let e = OutputValidationError::new(
        "bad".to_string(),
        vec![PathMember::Key("lines".to_string()), PathMember::Index(12)],
    );
    assert_eq!(e.message, "bad");
    assert_eq!(e.path, vec!["lines".to_string(), "12".to_string()]);
}

#[test]
fn test_report_tally() {
    let mut r = TestReport::new();
    r.add_success();
    r.add_success();
    assert_eq!(r.successes(), 2);
    assert!(r.passed());
}

#[test]
fn usize_parsing() {
    assert_eq!(parse_usize("42"), Some(42));
    assert_eq!(parse_usize("+7"), Some(7));
    assert_eq!(parse_usize(""), None);
    assert_eq!(parse_usize("+"), None);
    assert_eq!(parse_usize("-1"), None);
    assert_eq!(parse_usize("18446744073709551615"), Some(usize::MAX));
    assert_eq!(parse_usize("18446744073709551616"), None);
}
