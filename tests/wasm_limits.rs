use function_runner::validated_module::ValidatedModule;
use function_runner::{MemoryLimiter, Provider};
use wasmtime::{Config, Engine, Instance, Module, Store};

struct Limiter(MemoryLimiter);

impl wasmtime::ResourceLimiter for Limiter {
    fn memory_growing(
        &mut self,
        current: usize,
        desired: usize,
        maximum: Option<usize>,
    ) -> wasmtime::Result<bool> {
        Ok(self.0.memory_growing(current, desired, maximum))
    }

    fn table_growing(
        &mut self,
        current: usize,
        desired: usize,
        maximum: Option<usize>,
    ) -> wasmtime::Result<bool> {
        Ok(self.0.table_growing(current, desired, maximum))
    }

    fn memories(&self) -> usize {
        self.0.memories()
    }
}

fn engine() -> Engine {
    let mut config = Config::new();
    config.wasm_multi_memory(true).wasm_threads(false);
    // Small reservations: the test machine may refuse wasmtime's default
    // multi-gigabyte address-space reservation per memory.
    config
        .memory_reservation(1 << 24)
        .memory_guard_size(1 << 16)
        .memory_reservation_for_growth(1 << 16);
    Engine::new(&config).unwrap()
}

fn instantiate(engine: &Engine, wat: &str) -> (Store<Limiter>, wasmtime::Result<Instance>) {
    let module = Module::new(engine, wat).unwrap();
    let mut store = Store::new(engine, Limiter(MemoryLimiter::new()));
    store.limiter(|l| l);
    let instance = Instance::new(&mut store, &module, &[]);
    (store, instance)
}

#[test]
fn a_third_memory_fails_to_instantiate() {
    let engine = engine();
    let (_, two) = instantiate(&engine, "(module (memory 1) (memory 1))");
    assert!(two.is_ok(), "{:?}", two.err());
    let (_, three) = instantiate(&engine, "(module (memory 1) (memory 1) (memory 1))");
    assert!(three.is_err());
}

#[test]
fn linear_memory_high_water_in_kb() {
    let engine = engine();
    let wat = r#"(module
        (memory 1)
        (func $grow (drop (memory.grow (i32.const 199))) (drop (memory.grow (i32.const 0))))
        (start $grow))"#;
    let (store, instance) = instantiate(&engine, wat);
    assert!(instance.is_ok());
    let limiter = &store.data().0;
    assert_eq!(limiter.max_memory_bytes(), 200 * 65536);
    assert_eq!(limiter.memory_usage_kb(), 12800); // 200 * 64KiB pages
}

fn module_imports(wat: &str) -> Vec<String> {
    let module = Module::new(&engine(), wat).unwrap();
    module.imports().map(|i| i.module().to_string()).collect()
}

fn catalog() -> Vec<Provider> {
    ["shopify_function_v1", "shopify_function_v2"]
        .iter()
        .map(|n| Provider { name: n.to_string(), bytes: vec![] })
        .collect()
}

#[test]
fn validated_module_from_wasmtime_imports() {
    let wat = r#"
        (module
          (import "wasi_snapshot_preview1" "fd_read" (func))
          (import "shopify_function_v2" "shopify_function_input_get" (func))
        )
        "#;
    assert!(ValidatedModule::new(module_imports(wat), catalog()).is_err());
    let wat = r#"
        (module
          (import "wasi_snapshot_preview1" "fd_read" (func))
          (import "shopify_function_v1" "shopify_function_input_get" (func))
        )
        "#;
    let m = ValidatedModule::new(module_imports(wat), catalog()).unwrap();
    assert!(m.uses_wasi());
    assert!(!m.uses_mem_io());
}
