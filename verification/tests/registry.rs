use copperd::capability::build_policies;
use copperd::core_config::{core_data_path_in, core_legacy_path_in, CoreConfig};
use copperd::json::JsonValue;
use copperd::state_store::FileRead;
use copperd::descriptor::{Action, Descriptor, Permission, Platform, RuntimeDescriptor, RuntimeKind, COMPONENT_ABI_V1};
use copperd::extension::{check_permission, supports_platform, Extension, Registry};
use copperd::runtime::{
    select_action, worker_response, DryRunRuntime, RuntimeError, RuntimeProtocolError, RuntimeProtocolResponse,
    SubprocessRuntime, RUNTIME_ABI_VERSION,
};
use copperd::schema::{check_descriptor, ValidationError};

fn action(id: &str, script: &str) -> Action {
    Action { id: id.to_string(), label: id.to_string(), description: None, script: script.to_string() }
}

fn descriptor(id: &str, permissions: Vec<Permission>, platforms: Vec<Platform>, actions: Vec<Action>) -> Descriptor {
    Descriptor {
        schema: None,
        id: id.to_string(),
        name: id.to_string(),
        version: "1.0.0".to_string(),
        trigger: id.to_string(),
        runtime: Some(RuntimeDescriptor {
            kind: RuntimeKind::WasmComponent,
            abi: COMPONENT_ABI_V1.to_string(),
            artifact: format!("{id}.wasm"),
            background: None,
        }),
        platforms,
        permissions,
        inputs: vec![],
        actions,
        ui: None,
        settings: None,
        tray: None,
    }
}

fn extension_with(id: &str, permissions: Vec<Permission>, platforms: Vec<Platform>, actions: Vec<Action>) -> Extension {
    Extension {
        root: format!("/ext/{id}"),
        descriptor: descriptor(id, permissions, platforms, actions),
        wasm_component_path: format!("/ext/{id}/{id}.wasm"),
    }
}

fn extension_with_actions(actions: Vec<Action>) -> Extension {
    extension_with("sample", vec![], vec![], actions)
}

#[test]
fn trigger_uses_first_action_when_action_id_missing() {
    let extension = extension_with_actions(vec![action("first", "return 1;"), action("second", "return 2;")]);
    let value = DryRunRuntime::new().prepare_trigger(&extension, None).expect("prepared trigger");
    assert_eq!(value.action_id, "first");
    assert!(!value.runtime.isolated);
}

#[test]
fn trigger_uses_requested_action_when_present() {
    let extension = extension_with_actions(vec![action("first", "return 1;"), action("second", "return 2;")]);
    let value = DryRunRuntime::new().prepare_trigger(&extension, Some("second")).expect("prepared trigger");
    assert_eq!(value.action_id, "second");
    assert_eq!(value.script, "return 2;");
}

#[test]
fn trigger_errors_for_unknown_action() {
    let extension = extension_with_actions(vec![action("first", "return 1;")]);
    let err = DryRunRuntime::new().prepare_trigger(&extension, Some("missing")).expect_err("unknown action should fail");
    assert!(err.to_string().contains("not found"));
}

#[test]
fn trigger_errors_when_no_actions_exist() {
    let extension = extension_with_actions(vec![]);
    let err = DryRunRuntime::new().prepare_trigger(&extension, None).expect_err("empty actions should fail");
    assert!(err.to_string().contains("no action defined"));
    assert_eq!(select_action(&extension, None), Err("no action defined".to_string()));
}

#[test]
fn protocol_worker_returns_isolated_runtime_metadata() {
    let extension = extension_with_actions(vec![action("run", "return 1;")]);
    let result = worker_response(RUNTIME_ABI_VERSION, &extension, Some("run")).expect("result");
    assert!(result.runtime.isolated);
    assert_eq!(result.runtime.executor, "subprocess-runtime");
}

#[test]
fn protocol_worker_rejects_mismatched_abi_version() {
    let extension = extension_with_actions(vec![action("run", "return 1;")]);
    let error = worker_response("other/1", &extension, Some("run")).expect_err("abi mismatch");
    assert_eq!(error.code, "abi-mismatch");
    assert_eq!(error.message, format!("unsupported runtime ABI 'other/1'; expected '{RUNTIME_ABI_VERSION}'"));
}

#[test]
fn subprocess_answers_are_read_back() {
    let runtime = SubprocessRuntime::new("/bin/copperd".to_string());
    assert_eq!(runtime.worker_args(), vec!["internal".to_string(), "runtime-trigger".to_string()]);
    let empty = runtime.read_worker_answer(true, "boom", Err(String::new())).expect_err("empty stdout");
    assert_eq!(empty.to_string(), "runtime protocol error: runtime worker returned no response: boom");
    let failed = RuntimeProtocolResponse { ok: false, result: None, error: None };
    let err = runtime.read_worker_answer(false, "  stack trace \n", Ok(failed)).expect_err("failed run");
    assert!(matches!(err, RuntimeError::Execution { code, message } if code == "unknown" && message == "stack trace"));
    let reported = RuntimeProtocolResponse {
        ok: false,
        result: None,
        error: Some(RuntimeProtocolError { code: "invalid-action".into(), message: "nope".into() }),
    };
    let err = runtime.read_worker_answer(false, "", Ok(reported)).expect_err("reported error");
    assert_eq!(err.to_string(), "runtime execution failed [invalid-action]: nope");
    let missing = RuntimeProtocolResponse { ok: true, result: None, error: None };
    assert!(matches!(runtime.read_worker_answer(false, "", Ok(missing)), Err(RuntimeError::Protocol(m)) if m == "missing runtime result"));
}

#[test]
fn filter_for_runtime_skips_disabled_extensions() {
    let mut registry = Registry::new();
    registry.insert(extension_with("alpha", vec![], vec![], vec![action("run", "")]));
    registry.insert(extension_with("beta", vec![], vec![], vec![action("run", "")]));
    let core = CoreConfig { disabled_extensions: vec!["beta".to_string()] };
    let filtered = registry.filter_for_runtime(&core, Platform::Linux);
    assert!(filtered.get("alpha").is_some());
    assert!(filtered.get("beta").is_none());
}

#[test]
fn filter_for_runtime_skips_platform_mismatches() {
    let mut registry = Registry::new();
    registry.insert(extension_with("windows-only", vec![], vec![Platform::Windows], vec![action("run", "")]));
    registry.insert(extension_with("anywhere", vec![], vec![], vec![action("run", "")]));
    let core = CoreConfig { disabled_extensions: vec![] };
    let filtered = registry.filter_for_runtime(&core, Platform::Linux);
    assert!(filtered.get("windows-only").is_none());
    assert!(filtered.get("anywhere").is_some());
}

#[test]
fn registry_lists_by_id_and_replaces_same_id() {
    let mut registry = Registry::new();
    registry.insert(extension_with("gamma", vec![], vec![], vec![]));
    registry.insert(extension_with("alpha", vec![Permission::Fs], vec![], vec![]));
    registry.insert(extension_with("alpha", vec![Permission::Store], vec![], vec![]));
    let ids: Vec<&str> = registry.list().iter().map(|e| e.descriptor.id.as_str()).collect();
    assert_eq!(ids, vec!["alpha", "gamma"]);
    let alpha = registry.get("alpha").expect("alpha");
    assert!(check_permission(alpha, Permission::Store));
    assert!(!check_permission(alpha, Permission::Fs));
    assert!(supports_platform(alpha, Platform::Macos));
    let policies = build_policies(&registry);
    assert_eq!(policies[0], ("alpha".to_string(), vec![Permission::Store]));
}

#[test]
fn rejects_invalid_semver_version() {
    let mut d = descriptor("bad-version", vec![], vec![], vec![action("run", "")]);
    d.version = "not-semver".to_string();
    assert!(matches!(check_descriptor(&d), Err(ValidationError::InvalidVersion(v)) if v == "not-semver"));
    d.version = "1.2.3-beta.1".to_string();
    assert!(check_descriptor(&d).is_ok());
}

#[test]
fn rejects_unsupported_schema_version() {
    let mut d = descriptor("old-schema", vec![], vec![], vec![action("run", "")]);
    d.schema = Some("https://Copper.dev/schemas/extension/0.1.0/descriptor.schema.json".to_string());
    assert!(matches!(check_descriptor(&d), Err(ValidationError::UnsupportedSchema(_))));
}

#[test]
fn core_data_lives_below_the_data_root() {
    assert_eq!(core_data_path_in("/data"), "/data/copper-core/config.json");
    assert_eq!(core_legacy_path_in("/data"), "/data/copper-core/data.json");
    let core = CoreConfig { disabled_extensions: vec!["x".to_string()] };
    assert!(!core.is_extension_enabled("x"));
    assert!(core.is_extension_enabled("y"));
}

fn disabled_doc(ids: &[&str]) -> JsonValue {
    let mut items: Vec<JsonValue> = ids.iter().map(|s| JsonValue::Str(s.to_string())).collect();
    items.push(JsonValue::Number(copperd::json::JsonNumber::PosInt(42)));
    JsonValue::Object(vec![("disabledExtensions".to_string(), JsonValue::Array(items))])
}

#[test]
fn core_config_reads_disabled_extensions_from_config_json_first() {
    let config = CoreConfig::from_files(&FileRead::Parsed(disabled_doc(&["alpha-ext", "beta-ext"])), &FileRead::Parsed(disabled_doc(&["legacy-ext"])));
    assert_eq!(config.disabled_extensions, vec!["alpha-ext".to_string(), "beta-ext".to_string()]);
    assert!(config.is_extension_enabled("legacy-ext"));
}

#[test]
fn core_config_falls_back_to_the_legacy_file_only_when_config_json_is_missing() {
    let legacy = CoreConfig::from_files(&FileRead::Missing, &FileRead::Parsed(disabled_doc(&["legacy-ext"])));
    assert!(!legacy.is_extension_enabled("legacy-ext"));
    let broken = CoreConfig::from_files(&FileRead::Invalid("bad".to_string()), &FileRead::Parsed(disabled_doc(&["legacy-ext"])));
    assert!(broken.is_extension_enabled("legacy-ext"));
    assert_eq!(CoreConfig::from_files(&FileRead::Missing, &FileRead::Missing), CoreConfig::default());
}

#[test]
fn protocol_worker_reports_the_chosen_action() {
    let extension = extension_with_actions(vec![action("first", "return 1;"), action("run", "return 2;")]);
    let result = worker_response(RUNTIME_ABI_VERSION, &extension, Some("run")).expect("result");
    assert_eq!(result.action_id, "run");
    assert_eq!(result.runtime.abi_version, RUNTIME_ABI_VERSION);
    let error = worker_response(RUNTIME_ABI_VERSION, &extension, Some("missing")).expect_err("unknown action");
    assert_eq!(error.code, "invalid-action");
    assert_eq!(error.message, "action 'missing' not found");
}

#[test]
fn every_permission_has_its_own_spelling() {
    let all = [
        Permission::Fs,
        Permission::Keyboard,
        Permission::Network,
        Permission::SecureStore,
        Permission::Shell,
        Permission::Store,
        Permission::Ui,
        Permission::WindowsDisplay,
    ];
    let names = copperd::descriptor::permissions_as_strings(&all);
    assert_eq!(names[3], "secure-store");
    assert_eq!(names[7], "windows-display");
    for i in 0..names.len() {
        for j in 0..names.len() {
            assert_eq!(names[i] == names[j], i == j);
        }
    }
    let platforms = [Platform::Windows.as_str(), Platform::Macos.as_str(), Platform::Linux.as_str()];
    assert_eq!(platforms, ["windows", "macos", "linux"]);
}

#[test]
fn versions_follow_the_semver_grammar() {
    let accepted = [
        "0.0.0",
        "1.2.3",
        "10.20.30-alpha.1+build.007",
        "1.2.3-0a.x-y",
        "1.2.3+001",
        "18446744073709551615.0.0",
    ];
    let refused = [
        "", "1.2", "1.2.3.4", "01.2.3", "1.02.3", "1.2.3-", "1.2.3-01", "1.2.3-a..b", "1.2.3+", "1.2.3-a+b+c",
        "1.2.3_x", " 1.2.3", "18446744073709551616.0.0", "1.2.3-é",
    ];
    for version in accepted {
        let mut d = descriptor("semver-check", vec![], vec![], vec![]);
        d.version = version.to_string();
        assert!(check_descriptor(&d).is_ok(), "{version} should be accepted");
    }
    for version in refused {
        let mut d = descriptor("semver-check", vec![], vec![], vec![]);
        d.version = version.to_string();
        assert!(
            matches!(check_descriptor(&d), Err(ValidationError::InvalidVersion(v)) if v == version),
            "{version} should be refused"
        );
    }
}
