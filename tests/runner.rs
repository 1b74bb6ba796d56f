use function_runner::io::{
    join_logs, FinalizeRecord, IOHandler, IOStrategy, Segment, FUNCTION_LOG_LIMIT,
};
use function_runner::{Provider, ValidatedModule};
use function_runner::runner::{guest_result, instructions_used, size_in_kb, GuestOutcome, STARTING_FUEL};
use function_runner::{BytesContainer, BytesContainerType, Codec, FunctionRunResult, MemoryLimiter};

fn json_input(raw: &[u8]) -> BytesContainer {
    BytesContainer::new(BytesContainerType::Input, Codec::Json, raw.to_vec()).unwrap()
}

#[test]
fn memory_limiter_records_high_water() {
    let mut l = MemoryLimiter::new();
    assert!(l.memory_growing(0, 65536, None));
    assert!(l.memory_growing(65536, 13_107_200, Some(20_000_000)));
    assert!(l.memory_growing(0, 131072, None));
    assert!(l.table_growing(0, 10, None));
    assert_eq!(l.max_memory_bytes(), 13_107_200);
    assert_eq!(l.memory_usage_kb(), 12800);
    assert_eq!(l.memory_usage_kb() * 1024, 13_107_200);
    assert_eq!(l.memories(), 2);
}

#[test]
fn fuel_accounting() {
    assert_eq!(instructions_used(Some(STARTING_FUEL)), 0);
    assert_eq!(instructions_used(Some(STARTING_FUEL - 1001)), 1001);
    assert_eq!(instructions_used(Some(0)), STARTING_FUEL);
    assert_eq!(instructions_used(None), STARTING_FUEL);
    assert_eq!(size_in_kb(2048 + 1023), 2);
}

#[test]
fn exit_codes_map_to_results() {
    assert!(guest_result(GuestOutcome::Returned).is_ok());
    assert!(guest_result(GuestOutcome::Exited(0)).is_ok());
    assert_eq!(guest_result(GuestOutcome::Exited(1)).unwrap_err(), "module exited with code: 1");
    assert_eq!(guest_result(GuestOutcome::Exited(-7)).unwrap_err(), "module exited with code: -7");
    assert_eq!(guest_result(GuestOutcome::Trapped("oops".to_string())).unwrap_err(), "oops");
}

#[test]
fn run_with_exit_code_zero_succeeds_without_logs() {
    let l = MemoryLimiter::new();
    let r = FunctionRunResult::from_run(
        "exit_code.wasm".to_string(),
        4096,
        &l,
        Some(STARTING_FUEL - 10),
        GuestOutcome::Exited(0),
        vec![],
        vec![],
        json_input(b"{\"code\":0}"),
        None,
        1_000_000_000,
    );
    assert!(r.success);
    assert_eq!(r.logs, "");
    assert_eq!(r.size, 4);
    assert_eq!(r.instructions, 10);
}

#[test]
fn run_with_exit_code_one_fails_with_message() {
    let mut l = MemoryLimiter::new();
    l.memory_growing(0, 1_310_720, None);
    let r = FunctionRunResult::from_run(
        "exit_code.wasm".to_string(),
        1024,
        &l,
        Some(5),
        GuestOutcome::Exited(1),
        b"{}".to_vec(),
        b"before ".to_vec(),
        json_input(b"{\"code\":1}"),
        None,
        1_000_000_000,
    );
    assert!(!r.success);
    assert_eq!(r.logs, "before module exited with code: 1");
    assert_eq!(r.memory_usage, 1280);
    assert_eq!(r.output.raw, b"{}".to_vec());
    assert_eq!(r.output.codec, Codec::Json);
}

#[test]
fn finalize_record_is_little_endian() {
    let mut b = Vec::new();
    for v in [16u32, 5, 0x0102_0304, 7, 0, 0] {
        b.extend_from_slice(&v.to_le_bytes());
    }
    let f = FinalizeRecord::from_le_bytes(&b);
    assert_eq!(f.output_ptr, 16);
    assert_eq!(f.output_len, 5);
    assert_eq!(f.log_ptr_1, 0x0102_0304);
    assert_eq!(f.log_len_1, 7);
    assert_eq!(f.output(), Segment { ptr: 16, len: 5 });
    // The second segment has length zero: it is no segment.
    assert_eq!(f.log_segments(), vec![Segment { ptr: 0x0102_0304, len: 7 }]);
}

#[test]
fn log_segments_are_joined_in_order() {
    assert_eq!(join_logs(vec![b"ab".to_vec(), vec![], b"cd".to_vec()]), b"abcd".to_vec());
    assert_eq!(join_logs(vec![]), Vec::<u8>::new());
}

#[test]
fn long_logs_get_the_sentinel() {
    let run = |logs: Vec<u8>| {
        FunctionRunResult::from_run(
            "f.wasm".to_string(),
            0,
            &MemoryLimiter::new(),
            None,
            GuestOutcome::Returned,
            vec![],
            logs,
            json_input(b"{}"),
            None,
            1_000_000_000,
        )
    };
    let long = run(join_logs(vec![vec![b'x'; 600], vec![b'y'; 401]]));
    assert_eq!(long.logs.len(), FUNCTION_LOG_LIMIT + 1 + 14);
    assert!(long.logs.starts_with("[TRUNCATED]...xxx"));
    assert!(long.logs.ends_with("yyy"));
    let exact = run(vec![b'z'; 1000]);
    assert_eq!(exact.logs.len(), 1000);
}

#[test]
fn io_strategy_selection() {
    assert_eq!(IOStrategy::for_module(true), IOStrategy::Memory);
    assert_eq!(IOStrategy::for_module(false), IOStrategy::Wasi);
    assert!(IOStrategy::Wasi.links_wasi());
    assert!(!IOStrategy::Memory.links_wasi());
    assert!(IOStrategy::Memory.finalizes(true));
    assert!(!IOStrategy::Memory.finalizes(false));
    assert!(!IOStrategy::Wasi.finalizes(true));
}

#[test]
fn bounded_logs_reach_the_report() {
    let logs = vec![b'l'; 6000];
    let r = FunctionRunResult::from_run(
        "log_truncation_function.wasm".to_string(),
        0,
        &MemoryLimiter::new(),
        Some(STARTING_FUEL),
        GuestOutcome::Returned,
        b"{}".to_vec(),
        logs,
        json_input(b"{}"),
        None,
        1_000_000_000,
    );
    assert!(r.success);
    assert!(r.logs.starts_with("[TRUNCATED]...lll"));
    let text: String = r.report().iter().map(|p| p.text.as_str()).collect();
    assert!(text.contains("[TRUNCATED]..."));
    assert!(text.contains("Logs would be truncated in production, length 6014 > 1000 limit"));
}

#[test]
fn io_handler_follows_the_module() {
    let mem_io = ValidatedModule::new(
        vec!["shopify_function_v2".to_string()],
        vec![Provider { name: "shopify_function_v2".to_string(), bytes: vec![] }],
    )
    .unwrap();
    let h = IOHandler::new(mem_io, json_input(b"{\"a\": 1}"));
    assert_eq!(h.strategy(), IOStrategy::Memory);
    assert_eq!(h.initialize_len(), Some(7));
    assert_eq!(h.input().raw, b"{\"a\":1}".to_vec());
    let wasi = ValidatedModule::new(vec!["wasi_snapshot_preview1".to_string()], vec![]).unwrap();
    let h = IOHandler::new(wasi, json_input(b"[]"));
    assert_eq!(h.strategy(), IOStrategy::Wasi);
    assert_eq!(h.module().imports(), &vec!["wasi_snapshot_preview1".to_string()]);
    assert_eq!(h.into_input().raw, b"[]".to_vec());
}
