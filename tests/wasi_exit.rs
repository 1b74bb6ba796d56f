use function_runner::runner::{GuestOutcome, STARTING_FUEL};
use function_runner::{BytesContainer, BytesContainerType, Codec, FunctionRunResult, MemoryLimiter};
use wasmtime::{Config, Engine, Linker, Module, Store};
use wasmtime_wasi::p1::WasiP1Ctx;
use wasmtime_wasi::{I32Exit, WasiCtxBuilder};

fn engine() -> Engine {
    let mut config = Config::new();
    config
        .memory_reservation(1 << 24)
        .memory_guard_size(1 << 16)
        .memory_reservation_for_growth(1 << 16);
    Engine::new(&config).unwrap()
}

fn exit_with(code: i32) -> GuestOutcome {
    let engine = engine();
    let wat = format!(
        r#"(module
            (import "wasi_snapshot_preview1" "proc_exit" (func $exit (param i32)))
            (memory (export "memory") 1)
            (func (export "_start") (call $exit (i32.const {code}))))"#
    );
    let module = Module::new(&engine, wat).unwrap();
    let mut linker: Linker<WasiP1Ctx> = Linker::new(&engine);
    wasmtime_wasi::p1::add_to_linker_sync(&mut linker, |ctx| ctx).unwrap();
    let mut store = Store::new(&engine, WasiCtxBuilder::new().build_p1());
    let instance = linker.instantiate(&mut store, &module).unwrap();
    let func = instance.get_typed_func::<(), ()>(&mut store, "_start").unwrap();
    match func.call(&mut store, ()) {
        Ok(()) => GuestOutcome::Returned,
        Err(error) => match error.downcast_ref::<I32Exit>() {
            Some(I32Exit(code)) => GuestOutcome::Exited(*code),
            None => GuestOutcome::Trapped(error.to_string()),
        },
    }
}

fn result_of(outcome: GuestOutcome, code: i32) -> FunctionRunResult {
    let input = BytesContainer::new(
        BytesContainerType::Input,
        Codec::Json,
        format!("{{\"code\": {code}}}").into_bytes(),
    )
    .unwrap();
    FunctionRunResult::from_run(
        "exit_code.wasm".to_string(),
        2048,
        &MemoryLimiter::new(),
        Some(STARTING_FUEL),
        outcome,
        Vec::new(),
        Vec::new(),
        input,
        None,
        1_000_000_000,
    )
}

#[test]
fn guest_exit_code_zero_is_success() {
    let outcome = exit_with(0);
    assert!(matches!(outcome, GuestOutcome::Exited(0)));
    let r = result_of(outcome, 0);
    assert!(r.success);
    assert_eq!(r.logs, "");
}

#[test]
fn guest_exit_code_one_is_failure() {
    let outcome = exit_with(1);
    assert!(matches!(outcome, GuestOutcome::Exited(1)));
    let r = result_of(outcome, 1);
    assert!(!r.success);
    assert_eq!(r.logs, "module exited with code: 1");
}
