use function_runner::validated_module::{uses_msgpack_provider, ModuleError};
use function_runner::{Provider, ValidatedModule};

fn names(v: &[&str]) -> Vec<String> {
    v.iter().map(|s| s.to_string()).collect()
}

fn provider(name: &str) -> Provider {
    Provider { name: name.to_string(), bytes: vec![0, 97, 115, 109] }
}

#[test]
fn test_module_with_just_wasi() {
    let imports = names(&["wasi_snapshot_preview1"]);
    let m = ValidatedModule::new(imports, vec![]).unwrap();
    assert!(m.uses_wasi());
    assert!(!m.uses_mem_io());
}

#[test]
fn test_module_with_wasi_and_old_provider() {
    let imports = names(&["wasi_snapshot_preview1", "shopify_function_v1"]);
    let m = ValidatedModule::new(imports, vec![provider("shopify_function_v1")]).unwrap();
    assert_eq!(m.std_import().map(|p| p.name.as_str()), Some("shopify_function_v1"));
    assert!(!m.uses_mem_io());
}

#[test]
fn test_module_without_wasi_and_with_new_provider() {
    let imports = names(&["shopify_function_v2"]);
    let m = ValidatedModule::new(imports, vec![provider("shopify_function_v2")]).unwrap();
    assert!(m.uses_mem_io());
    assert!(!m.uses_wasi());
}

#[test]
fn test_module_with_wasi_and_new_provider() {
    let imports = names(&["wasi_snapshot_preview1", "shopify_function_v2"]);
    let e = ValidatedModule::new(imports, vec![provider("shopify_function_v2")]).unwrap_err();
    assert_eq!(
        e.message(),
        "Invalid Function, cannot use `shopify_function_v2` and import WASI. If using Rust, change the build target to `wasm32-unknown-unknown`."
    );
    assert!(matches!(e, ModuleError::MemIoWithWasi(_)));
}

#[test]
fn imports_are_deduplicated_in_order() {
    let imports = names(&["a", "shopify_functions_javy_v1", "a", "b", "shopify_functions_javy_v1"]);
    let m = ValidatedModule::new(imports, vec![provider("shopify_functions_javy_v1")]).unwrap();
    assert_eq!(m.imports(), &names(&["a", "shopify_functions_javy_v1", "b"]));
    assert!(!m.uses_mem_io());
}

#[test]
fn provider_classification() {
    assert!(provider("shopify_functions_javy_v3").is_mem_io_provider());
    assert!(provider("shopify_functions_javy_v10").is_mem_io_provider());
    assert!(!provider("shopify_functions_javy_v2").is_mem_io_provider());
    assert!(provider("shopify_function_v2").is_mem_io_provider());
    assert!(provider("shopify_function_v+2").is_mem_io_provider());
    assert!(!provider("shopify_function_v1").is_mem_io_provider());
    assert!(!provider("shopify_function_v").is_mem_io_provider());
    assert!(!provider("shopify_function_vx").is_mem_io_provider());
    assert!(!provider("shopify_function_v99999999999999999999999").is_mem_io_provider());
    assert!(!provider("other").is_mem_io_provider());
}

#[test]
fn msgpack_provider_detection() {
    assert!(uses_msgpack_provider(&names(&["shopify_function_v1"])));
    assert!(uses_msgpack_provider(&names(&["x", "shopify_functions_javy_v2"])));
    assert!(!uses_msgpack_provider(&names(&["shopify_functions_javy_v1", "wasi_snapshot_preview1"])));
    assert!(!uses_msgpack_provider(&names(&[])));
}
