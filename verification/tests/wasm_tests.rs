use cyberdev_sandbox::errors::SandboxError;
use cyberdev_sandbox::wasm::{
    resolve_wasm_module, SandboxWasm, WasmConfig, WasmInvocation, WasmJob, WasmModuleLocation,
    WasmModuleSource, WasmValue,
};

fn sandbox() -> SandboxWasm {
    SandboxWasm::new(WasmConfig::new("/work/wasm", 128 * 1024, 64, Some(10_000)).unwrap())
}

#[test]
fn config_rejects_zero_limits() {
    assert!(WasmConfig::new("/w", 0, 64, None).is_err());
    assert!(WasmConfig::new("/w", 128, 0, None).is_err());
    assert!(WasmConfig::new("w", 128, 64, None).is_err());
    let cfg = WasmConfig::new("/w", 128, 64, Some(5)).unwrap();
    assert_eq!(cfg.root(), "/w");
    assert_eq!(cfg.max_memory_bytes(), 128);
    assert_eq!(cfg.max_table_elements(), 64);
    assert_eq!(cfg.default_fuel(), Some(5));
}

#[test]
fn module_source_tie_breaks() {
    assert!(matches!(
        resolve_wasm_module(Some("add.wasm".to_string()), Some(vec![1])),
        Err(SandboxError::InvalidOperation(_))
    ));
    assert!(matches!(
        resolve_wasm_module(None, None),
        Err(SandboxError::InvalidOperation(_))
    ));
    assert!(matches!(
        resolve_wasm_module(None, Some(Vec::new())),
        Err(SandboxError::InvalidOperation(_))
    ));
    assert!(matches!(
        resolve_wasm_module(Some("add.wasm".to_string()), None),
        Ok(WasmModuleSource::Path(_))
    ));
    assert!(matches!(
        resolve_wasm_module(None, Some(vec![0, 1])),
        Ok(WasmModuleSource::Bytes(_))
    ));
}

#[test]
fn plan_resolves_module_path_under_root() {
    let job: WasmJob = sandbox()
        .plan_invoke(
            WasmInvocation::new(WasmModuleSource::from_path("add.wasm"), "add")
                .with_params(vec![WasmValue::I32(5), WasmValue::I32(7)]),
        )
        .unwrap();
    match &job.location {
        WasmModuleLocation::File(p) => assert_eq!(p, "/work/wasm/add.wasm"),
        other => panic!("unexpected location: {:?}", other),
    }
    assert_eq!(job.function, "add");
    assert_eq!(job.params, vec![WasmValue::I32(5), WasmValue::I32(7)]);
    assert_eq!(job.fuel, Some(10_000));
    assert_eq!(job.memory_limit, 128 * 1024);
    assert_eq!(job.table_elements_limit, 64);
}

#[test]
fn plan_rejects_escaping_module_path() {
    let err = sandbox()
        .plan_invoke(WasmInvocation::new(WasmModuleSource::from_path("../evil.wasm"), "f"))
        .unwrap_err();
    assert_eq!(err, SandboxError::PathTraversal);
}

#[test]
fn per_call_limits_override_defaults_and_zero_is_rejected() {
    let job = sandbox()
        .plan_invoke(
            WasmInvocation::new(WasmModuleSource::from_bytes(vec![0]), "f")
                .with_fuel(77)
                .with_memory_limit(4096)
                .with_table_elements_limit(8),
        )
        .unwrap();
    assert_eq!(job.fuel, Some(77));
    assert_eq!(job.memory_limit, 4096);
    assert_eq!(job.table_elements_limit, 8);
    assert!(matches!(
        sandbox().plan_invoke(
            WasmInvocation::new(WasmModuleSource::from_bytes(vec![0]), "f").with_memory_limit(0)
        ),
        Err(SandboxError::InvalidOperation(_))
    ));
    assert!(matches!(
        sandbox().plan_invoke(
            WasmInvocation::new(WasmModuleSource::from_bytes(vec![0]), "f")
                .with_table_elements_limit(0)
        ),
        Err(SandboxError::InvalidOperation(_))
    ));
}
