use copperd::config_ui::{UiConfigError, UiRoute};
use copperd::core_config::CoreConfig;
use copperd::daemon::{check_response_body, health_payload};
use copperd::descriptor::{
    Action, Descriptor, InputField, InputType, Platform, RuntimeDescriptor, RuntimeKind, SettingsDescriptor,
    SettingsSection, StatusDescriptor, StatusField, StatusFieldFormat, UiDescriptor, COMPONENT_ABI_V1,
};
use copperd::extension::{
    core_extension_roots, core_extensions_dir_from_roots, core_root_candidates, dedup_paths, runtime_extension_roots,
};
use copperd::json::{JsonNumber, JsonValue};
use copperd::settings::{
    apply_result, core_extension_ids, core_info, extension_info, find_discoverable_descriptor, initial_ui_theme,
    is_close_request, model_auth_token, render_page, required_apply_actions, selected_extension, settings_reply,
    settings_route, transport_name, visible_descriptors, SettingsRequest, SettingsResponse, UiTransport,
    COPPER_SETTINGS_PROTOCOL_V1, PAGE_BODY, PAGE_HEAD, PAGE_MODEL_END, PAGE_TAIL,
};
use copperd::state_store::{warnings_json, ExtensionStateStore, StateStoreWarning};

fn member<'a>(v: &'a JsonValue, key: &str) -> Option<&'a JsonValue> {
    match v {
        JsonValue::Object(entries) => entries.iter().find(|(k, _)| k == key).map(|(_, x)| x),
        _ => None,
    }
}

fn text(v: Option<&JsonValue>) -> Option<&str> {
    match v {
        Some(JsonValue::Str(s)) => Some(s.as_str()),
        _ => None,
    }
}

fn items(v: Option<&JsonValue>) -> &Vec<JsonValue> {
    match v {
        Some(JsonValue::Array(xs)) => xs,
        other => panic!("expected an array, got {other:?}"),
    }
}

fn object(entries: Vec<(&str, JsonValue)>) -> JsonValue {
    JsonValue::Object(entries.into_iter().map(|(k, v)| (k.to_string(), v)).collect())
}

fn action(id: &str, label: &str, description: &str) -> Action {
    Action {
        id: id.to_string(),
        label: label.to_string(),
        description: Some(description.to_string()),
        script: id.to_string(),
    }
}

fn settings(apply_actions: Vec<&str>) -> SettingsDescriptor {
    SettingsDescriptor {
        title: Some("Settings".to_string()),
        description: None,
        apply_actions: apply_actions.into_iter().map(str::to_string).collect(),
        tabs: vec![],
        sections: vec![],
        status: None,
    }
}

fn sample_descriptor() -> Descriptor {
    Descriptor {
        schema: Some("https://Copper.dev/schemas/extension/1.0.0/descriptor.schema.json".to_string()),
        id: "desktop-torrent-organizer".to_string(),
        name: "Desktop Torrent Organizer".to_string(),
        version: "1.0.0".to_string(),
        trigger: "desktop-torrents".to_string(),
        runtime: None,
        platforms: vec![],
        permissions: vec![],
        inputs: vec![InputField {
            id: "desktopFolder".to_string(),
            field_type: InputType::FolderPicker,
            label: "Desktop folder".to_string(),
            description: Some("Folder that Copper scans for incoming .torrent files.".to_string()),
            default: JsonValue::Str("~/Desktop".to_string()),
            options: vec![],
            options_source: None,
        }],
        actions: vec![action(
            "move-torrents",
            "Move .torrent files",
            "Run the organizer immediately using the saved settings.",
        )],
        ui: Some(UiDescriptor { ui_type: "form".to_string(), source: None, on_select: None }),
        settings: Some(SettingsDescriptor {
            title: Some("Desktop Torrent Organizer".to_string()),
            description: Some(
                "Configure how Copper watches the desktop and review the latest monitor status.".to_string(),
            ),
            apply_actions: vec![],
            tabs: vec![],
            sections: vec![SettingsSection {
                id: "monitor".to_string(),
                title: "Monitor".to_string(),
                description: Some("Settings used by the background desktop torrent watcher.".to_string()),
                inputs: vec!["desktopFolder".to_string()],
            }],
            status: Some(StatusDescriptor {
                title: Some("Current status".to_string()),
                description: Some("Latest runtime values reported by the daemon.".to_string()),
                fields: vec![StatusField {
                    key: "lastScanUnix".to_string(),
                    label: "Last scan".to_string(),
                    format: Some(StatusFieldFormat::DateTime),
                }],
            }),
        }),
        tray: None,
    }
}

fn info_of(descriptor: &Descriptor) -> JsonValue {
    extension_info(
        descriptor,
        object(vec![]),
        JsonValue::Null,
        object(vec![]),
        JsonValue::Null,
        vec![],
        vec![],
    )
}

fn warning(scope: &str, code: &str) -> StateStoreWarning {
    StateStoreWarning {
        scope: scope.to_string(),
        code: code.to_string(),
        path: format!("/data/{scope}/config.json"),
        message: format!("{code} in {scope}"),
    }
}

fn request(protocol: &str, id: &str, method: &str, path: &str, body: Option<JsonValue>) -> SettingsRequest {
    SettingsRequest {
        protocol: protocol.to_string(),
        request_id: id.to_string(),
        method: method.to_string(),
        path: path.to_string(),
        body,
    }
}

#[test]
fn visible_descriptors_hide_disabled_extensions_from_sidebar_only() {
    let enabled = sample_descriptor();
    let mut disabled = sample_descriptor();
    disabled.id = "disabled-ext".to_string();
    disabled.name = "Disabled Extension".to_string();

    let descriptors = vec![enabled, disabled];
    let core_config = CoreConfig { disabled_extensions: vec!["disabled-ext".to_string()] };

    let visible = visible_descriptors(&descriptors, &core_config);
    assert_eq!(visible.len(), 1);
    assert_eq!(visible[0].id, "desktop-torrent-organizer");
    assert_eq!(descriptors.len(), 2, "discoverable list stays intact");
}

#[test]
fn find_discoverable_descriptor_reads_hidden_extension_metadata() {
    let enabled = sample_descriptor();
    let mut hidden = sample_descriptor();
    hidden.id = "hidden-ext".to_string();
    hidden.name = "Hidden Extension".to_string();
    let discoverable = vec![enabled, hidden];

    let descriptor = find_discoverable_descriptor(&discoverable, "hidden-ext").expect("discoverable");
    assert_eq!(descriptor.id, "hidden-ext");
    assert_eq!(descriptor.name, "Hidden Extension");
    assert!(find_discoverable_descriptor(&discoverable, "missing-ext").is_none());
}

#[test]
fn build_extension_info_supports_hidden_discoverable_extension_commands() {
    let mut hidden = sample_descriptor();
    hidden.id = "hidden-ext".to_string();
    hidden.name = "Hidden Extension".to_string();
    hidden.actions = vec![
        action("status", "Read status", "Read current extension state."),
        action("apply-hidden", "Apply hidden config", "Apply the saved hidden extension config."),
    ];
    hidden.settings = Some(settings(vec!["apply-hidden"]));

    let info = info_of(&hidden);
    let commands = items(member(&info, "commands"));
    assert!(!commands.is_empty(), "discoverable extensions should keep command metadata for the core page");
}

#[test]
fn build_extension_info_exposes_all_component_actions_through_the_local_cli() {
    let descriptor = sample_descriptor();
    let info = info_of(&descriptor);
    assert!(matches!(member(&info, "stateWarnings"), Some(JsonValue::Array(_))));
    let commands = items(member(&info, "commands"));
    assert_eq!(commands.len(), 1);
    let usage = items(member(&commands[0], "usage"));
    assert!(text(usage.first()).unwrap_or_default().contains("copperd trigger desktop-torrent-organizer --action move-torrents"));
}

#[test]
fn build_extension_info_exposes_component_actions_through_the_local_cli() {
    let mut descriptor = sample_descriptor();
    descriptor.runtime = Some(RuntimeDescriptor {
        kind: RuntimeKind::WasmComponent,
        abi: COMPONENT_ABI_V1.to_string(),
        artifact: "desktop-torrent-organizer.wasm".to_string(),
        background: None,
    });
    let info = info_of(&descriptor);
    let commands = items(member(&info, "commands"));
    assert_eq!(commands.len(), 1);
    let usage = items(member(&commands[0], "usage"));
    assert!(text(usage.first()).unwrap_or_default().contains("copperd trigger desktop-torrent-organizer --action move-torrents"));
}

#[test]
fn build_extension_info_explains_user_accessible_commands() {
    let mut descriptor = sample_descriptor();
    descriptor.id = "windows-display-manager".to_string();
    descriptor.name = "Windows Display Manager".to_string();
    descriptor.inputs = vec![];
    descriptor.actions = vec![
        action("status", "Read status", "Read current display state."),
        action("set-resolution", "Set resolution", "Apply the saved resolution."),
    ];
    descriptor.settings = Some(settings(vec!["set-resolution"]));

    let info = info_of(&descriptor);
    let commands = items(member(&info, "commands"));
    assert_eq!(commands.len(), 2);

    let status_command = commands.iter().find(|c| text(member(c, "id")) == Some("status")).expect("status command");
    let status_usage = items(member(status_command, "usage"));
    assert_eq!(status_usage.len(), 1);
    assert!(text(status_usage.first()).unwrap_or_default().contains("copperd trigger windows-display-manager --action status"));

    let set_resolution = commands
        .iter()
        .find(|c| text(member(c, "id")) == Some("set-resolution"))
        .expect("set-resolution command");
    let set_resolution_usage = items(member(set_resolution, "usage"));
    assert_eq!(set_resolution_usage.len(), 2);
    assert!(set_resolution_usage
        .iter()
        .any(|v| text(Some(v)) == Some("Update the saved settings above, then click Save and apply.")));
}

#[test]
fn command_entries_carry_label_description_and_exact_usage() {
    let mut descriptor = sample_descriptor();
    descriptor.actions = vec![
        action("apply", "Apply", "Apply settings."),
        Action { id: "plain".to_string(), label: "Plain".to_string(), description: None, script: "plain".to_string() },
    ];
    descriptor.settings = Some(settings(vec!["apply"]));
    let info = info_of(&descriptor);
    let commands = items(member(&info, "commands"));
    assert_eq!(text(member(&commands[0], "label")), Some("Apply"));
    assert_eq!(text(member(&commands[0], "description")), Some("Apply settings."));
    let usage: Vec<&str> = items(member(&commands[0], "usage")).iter().map(|v| text(Some(v)).unwrap()).collect();
    assert_eq!(
        usage,
        vec![
            "Update the saved settings above, then click Save and apply.",
            "Run `copperd trigger desktop-torrent-organizer --action apply`.",
        ]
    );
    assert!(matches!(member(&commands[1], "description"), Some(JsonValue::Null)));
    let usage: Vec<&str> = items(member(&commands[1], "usage")).iter().map(|v| text(Some(v)).unwrap()).collect();
    assert_eq!(usage, vec!["Run `copperd trigger desktop-torrent-organizer --action plain`."]);
    let applied: Vec<&str> = items(member(&info, "applyActions")).iter().map(|v| text(Some(v)).unwrap()).collect();
    assert_eq!(applied, vec!["apply"]);
    assert_eq!(text(member(&info, "extensionId")), Some("desktop-torrent-organizer"));
    assert_eq!(text(member(&info, "name")), Some("Desktop Torrent Organizer"));
}

#[test]
fn extension_info_lists_config_warnings_before_status_warnings() {
    let descriptor = sample_descriptor();
    let info = extension_info(
        &descriptor,
        object(vec![("lastScanUnix", JsonValue::Number(JsonNumber::PosInt(7)))]),
        JsonValue::Null,
        object(vec![]),
        JsonValue::Null,
        vec![warning("config", "invalid_json")],
        vec![warning("status", "legacy_fallback")],
    );
    let warnings = items(member(&info, "stateWarnings"));
    assert_eq!(warnings.len(), 2);
    assert_eq!(text(member(&warnings[0], "scope")), Some("config"));
    assert_eq!(text(member(&warnings[0], "code")), Some("invalid_json"));
    assert_eq!(text(member(&warnings[1], "scope")), Some("status"));
    assert_eq!(text(member(&warnings[1], "path")), Some("/data/status/config.json"));
    assert!(matches!(member(member(&info, "status").unwrap(), "lastScanUnix"), Some(JsonValue::Number(JsonNumber::PosInt(7)))));
}

#[test]
fn applying_settings_needs_declared_and_supported_apply_actions() {
    let descriptor = sample_descriptor();
    match required_apply_actions(&descriptor) {
        Err(UiConfigError::Request(message)) => assert_eq!(
            message,
            "extension 'desktop-torrent-organizer' does not declare settings apply actions"
        ),
        other => panic!("unexpected: {other:?}"),
    }
    let mut with_apply = sample_descriptor();
    with_apply.settings = Some(settings(vec!["set-resolution"]));
    assert_eq!(required_apply_actions(&with_apply).expect("declared"), vec!["set-resolution".to_string()]);

    match apply_result("windows-display-manager", vec![], object(vec![]), vec![]) {
        Err(error) => assert_eq!(
            error.to_string(),
            "invalid request: extension 'windows-display-manager' does not support settings apply actions in the host"
        ),
        Ok(v) => panic!("unexpected: {v:?}"),
    }
}

#[test]
fn applied_settings_report_each_execution() {
    let result = apply_result(
        "windows-display-manager",
        vec![
            ("set-resolution".to_string(), object(vec![("ok", JsonValue::Bool(true))])),
            ("set-scale".to_string(), JsonValue::Null),
        ],
        object(vec![("scalePercent", JsonValue::Number(JsonNumber::PosInt(125)))]),
        vec![warning("status", "invalid_json")],
    )
    .expect("applied");
    assert!(matches!(member(&result, "ok"), Some(JsonValue::Bool(true))));
    assert_eq!(text(member(&result, "extensionId")), Some("windows-display-manager"));
    let executions = items(member(&result, "executions"));
    assert_eq!(executions.len(), 2);
    assert_eq!(text(member(&executions[0], "actionId")), Some("set-resolution"));
    assert_eq!(text(member(&executions[1], "actionId")), Some("set-scale"));
    assert!(matches!(member(&executions[1], "result"), Some(JsonValue::Null)));
    assert_eq!(items(member(&result, "stateWarnings")).len(), 1);
}

#[test]
fn core_info_includes_runtime_roots() {
    let roots = vec!["C:/tmp/copper-core".to_string(), "C:/tmp/copper-user".to_string()];
    let info = core_info(
        1,
        Platform::Linux.as_str(),
        "C:/tmp/copper-user",
        Some("C:/tmp/copper-core".to_string()),
        &roots,
        "C:/tmp/.Copper/extensions",
        "C:/tmp/.Copper/extensions/copper-core/config.json",
        &vec![],
    );
    assert_eq!(items(member(&info, "runtimeExtensionRoots")).len(), 2);
    assert!(member(&info, "dataRoot").is_some(), "core info should include extension data root");
    assert_eq!(text(member(&info, "hostPlatform")), Some(Platform::Linux.as_str()));
    assert!(matches!(member(&info, "stateWarnings"), Some(JsonValue::Array(_))));
    assert!(member(&info, "selectedExtensionId").is_none());
    assert!(matches!(member(&info, "extensionsLoaded"), Some(JsonValue::Number(JsonNumber::PosInt(1)))));
    assert_eq!(text(member(&info, "coreExtensionsDir")), Some("C:/tmp/copper-core"));
}

#[test]
fn core_info_without_core_directory_reports_null() {
    let info = core_info(0, "windows", "/u", None, &vec![], "/d", "/d/copper-core/config.json", &vec![]);
    assert!(matches!(member(&info, "coreExtensionsDir"), Some(JsonValue::Null)));
    assert_eq!(text(member(&info, "coreDataPath")), Some("/d/copper-core/config.json"));
}

#[test]
fn build_ui_state_rejects_unknown_selected_extension() {
    let ids = vec!["desktop-torrent-organizer".to_string()];
    match selected_extension(Some("missing-extension"), &ids) {
        Err(UiConfigError::ExtensionNotFound(id)) => assert_eq!(id, "missing-extension"),
        other => panic!("unexpected: {other:?}"),
    }
    assert_eq!(selected_extension(Some("desktop-torrent-organizer"), &ids).expect("known"), "desktop-torrent-organizer");
}

#[test]
fn build_ui_state_defaults_to_core_section() {
    let ids = vec!["alpha-ext".to_string()];
    assert!(selected_extension(None, &ids).expect("core").is_empty());
}

#[test]
fn core_extensions_are_those_outside_the_user_directory() {
    let entries = vec![
        ("alpha".to_string(), Some("/home/u/.Copper/extensions".to_string())),
        ("display".to_string(), Some("/opt/copper/extensions".to_string())),
        ("loose".to_string(), None),
    ];
    assert_eq!(
        core_extension_ids(&entries, "/home/u/.Copper/extensions"),
        vec!["display".to_string(), "loose".to_string()]
    );
}

#[test]
fn bones_transport_is_versioned_correlated_and_uses_shared_settings_routes() {
    let ids = vec!["desktop-torrent-organizer".to_string()];
    let save = request(
        COPPER_SETTINGS_PROTOCOL_V1,
        "settings-7",
        "POST",
        "/config/extension/desktop-torrent-organizer",
        Some(object(vec![("desktopFolder", JsonValue::Str("D:/Incoming".to_string()))])),
    );
    let (request_id, route, body) = settings_route(save, true, &ids, &ids).expect("routed");
    assert_eq!(request_id, "settings-7");
    assert!(matches!(route, UiRoute::SaveExtensionConfig(ref id) if id == "desktop-torrent-organizer"));
    assert_eq!(
        body.as_ref().and_then(|b| text(member(b, "desktopFolder"))),
        Some("D:/Incoming")
    );
    let response = settings_reply(request_id, 200, Some(object(vec![("ok", JsonValue::Bool(true))])));
    assert_eq!(response.protocol, COPPER_SETTINGS_PROTOCOL_V1);
    assert_eq!(response.request_id, "settings-7");
    assert!(response.ok);
    assert_eq!(response.status, 200);

    let wrong_protocol = request("copper.settings/2", "settings-8", "GET", "/config/core", None);
    let refused: SettingsResponse = match settings_route(wrong_protocol, true, &ids, &ids) {
        Err(r) => r,
        Ok(_) => panic!("must be refused"),
    };
    assert_eq!(refused.request_id, "settings-8");
    assert!(!refused.ok);
    assert_eq!(refused.status, 400);
    assert!(refused.error.expect("error").contains("unsupported settings protocol"));
}

#[test]
fn settings_requests_with_unknown_methods_are_refused() {
    let ids: Vec<String> = vec![];
    match settings_route(request(COPPER_SETTINGS_PROTOCOL_V1, "r1", "PUT", "/config/core", None), true, &ids, &ids) {
        Err(r) => {
            assert_eq!(r.error.as_deref(), Some("unsupported settings method 'PUT'"));
            assert_eq!(r.status, 400);
            assert!(r.data.is_none());
        }
        Ok(_) => panic!("must be refused"),
    }
}

#[test]
fn settings_requests_without_body_use_saved_inputs() {
    let ids = vec!["alpha".to_string()];
    let (_, route, _) =
        settings_route(request(COPPER_SETTINGS_PROTOCOL_V1, "r2", "POST", "/trigger/extension/alpha/run", None), true, &ids, &ids)
            .expect("routed");
    match route {
        UiRoute::Trigger { extension_id, action_id, use_saved_inputs } => {
            assert_eq!(extension_id, "alpha");
            assert_eq!(action_id.as_deref(), Some("run"));
            assert!(use_saved_inputs);
        }
        other => panic!("unexpected route {other:?}"),
    }
    let (_, route, _) = settings_route(
        request(COPPER_SETTINGS_PROTOCOL_V1, "r3", "POST", "/trigger/extension/alpha", Some(object(vec![]))),
        true,
        &ids,
        &ids,
    )
    .expect("routed");
    assert!(matches!(route, UiRoute::Trigger { use_saved_inputs: false, action_id: None, .. }));
}

#[test]
fn failed_settings_answers_carry_the_route_error() {
    let failed = settings_reply(
        "r4".to_string(),
        404,
        Some(object(vec![("error", JsonValue::Str("not found".to_string()))])),
    );
    assert!(!failed.ok);
    assert_eq!(failed.status, 404);
    assert!(failed.data.is_none());
    assert_eq!(failed.error.as_deref(), Some("not found"));

    let generic = settings_reply("r5".to_string(), 500, None);
    assert_eq!(generic.error.as_deref(), Some("settings request failed"));

    let empty = settings_reply("r6".to_string(), 204, None);
    assert!(empty.ok);
    assert!(empty.data.is_none());
    assert!(empty.error.is_none());

    let refused = SettingsResponse::error("r7".to_string(), "bad".to_string());
    assert_eq!(refused.status, 400);
    assert!(!refused.ok);
}

#[test]
fn only_a_current_post_to_close_closes_the_window() {
    assert!(is_close_request(&request(COPPER_SETTINGS_PROTOCOL_V1, "a", "POST", "/close", None)));
    assert!(!is_close_request(&request(COPPER_SETTINGS_PROTOCOL_V1, "b", "GET", "/close", None)));
    assert!(!is_close_request(&request("copper.settings/0", "c", "POST", "/close", None)));
    assert!(!is_close_request(&request(COPPER_SETTINGS_PROTOCOL_V1, "d", "POST", "/config/core", None)));
}

#[test]
fn native_page_model_carries_no_http_credentials() {
    assert_eq!(transport_name(UiTransport::Bones), "bones");
    assert_eq!(transport_name(UiTransport::Http), "http");
    assert_eq!(model_auth_token(UiTransport::Bones, "secret-token"), "");
    assert_eq!(model_auth_token(UiTransport::Http, "secret-token"), "secret-token");
}

#[test]
fn saved_core_theme_is_the_initial_theme() {
    let saved = object(vec![("uiTheme", JsonValue::Str("obsidian-dark".to_string()))]);
    assert_eq!(initial_ui_theme(Some(&saved)), "obsidian-dark");
    assert_eq!(initial_ui_theme(Some(&object(vec![]))), "light");
    assert_eq!(initial_ui_theme(Some(&object(vec![("uiTheme", JsonValue::Bool(true))]))), "light");
    assert_eq!(initial_ui_theme(None), "light");
}

#[test]
fn settings_page_places_style_model_and_scripts() {
    let page = render_page("{\"allowClose\":false}", "body{}", "renderSection();");
    assert!(page.starts_with("<!doctype html>"));
    assert!(page.contains("<style>\nbody{}\n  </style>"));
    assert!(page.contains("const model = {\"allowClose\":false};\nrenderSection();\n"));
    assert_eq!(page.matches("<script>").count(), 1);
    assert!(page.contains("Save settings"));
    assert!(page.ends_with("</html>\n"));
    assert_eq!(
        page,
        format!("{PAGE_HEAD}body{{}}{PAGE_BODY}{{\"allowClose\":false}}{PAGE_MODEL_END}renderSection();{PAGE_TAIL}")
    );
}

#[test]
fn health_payload_includes_state_warnings() {
    let bones = object(vec![("headless", JsonValue::Bool(true))]);
    let payload = health_payload("/u/extensions", None, 3, bones, &vec![warning("alpha", "invalid_json")]);
    let warnings = items(member(&payload, "stateWarnings"));
    assert_eq!(warnings.len(), 1);
    assert_eq!(text(member(&warnings[0], "code")), Some("invalid_json"));
    assert_eq!(text(member(&payload, "userExtensionsDir")), Some("/u/extensions"));
    assert!(matches!(member(&payload, "coreExtensionsDir"), Some(JsonValue::Null)));
    assert!(matches!(member(&payload, "extensionsLoaded"), Some(JsonValue::Number(JsonNumber::PosInt(3)))));
    assert_eq!(text(member(&payload, "configUiUrl")), Some("bones://settings"));
    let config_ui = member(&payload, "configUi").expect("config ui");
    assert_eq!(text(member(config_ui, "transport")), Some("bones-web"));
    assert_eq!(text(member(config_ui, "presentation")), Some("wry"));
    assert!(matches!(member(config_ui, "onDemand"), Some(JsonValue::Bool(true))));
    assert!(matches!(member(member(&payload, "bones").unwrap(), "headless"), Some(JsonValue::Bool(true))));
}

#[test]
fn warnings_render_as_scope_code_path_message_objects() {
    let rendered = warnings_json(&vec![warning("beta", "legacy_fallback")]);
    let xs = items(Some(&rendered));
    assert_eq!(text(member(&xs[0], "scope")), Some("beta"));
    assert_eq!(text(member(&xs[0], "code")), Some("legacy_fallback"));
    assert_eq!(text(member(&xs[0], "path")), Some("/data/beta/config.json"));
    assert_eq!(text(member(&xs[0], "message")), Some("legacy_fallback in beta"));
}

#[test]
fn config_and_status_paths_are_separated() {
    let store = ExtensionStateStore::new("C:/tmp/copper-user".to_string());
    assert_eq!(store.core_config_path(), "C:/tmp/copper-user/copper-core/config.json");
    assert_eq!(
        store.config_path("desktop-torrent-organizer"),
        "C:/tmp/copper-user/desktop-torrent-organizer/config.json"
    );
    assert_eq!(
        store.status_path("desktop-torrent-organizer"),
        "C:/tmp/copper-user/desktop-torrent-organizer/status.json"
    );
}

#[test]
fn extension_storage_paths_are_scoped_to_extension() {
    let store = ExtensionStateStore::new("C:/tmp/.Copper/extensions".to_string());
    assert_eq!(store.config_path("alpha-ext"), "C:/tmp/.Copper/extensions/alpha-ext/config.json");
    assert_eq!(store.status_path("alpha-ext"), "C:/tmp/.Copper/extensions/alpha-ext/status.json");
}

#[test]
fn missing_core_config_defaults_to_all_enabled() {
    let config = CoreConfig::from_document(None);
    assert_eq!(config, CoreConfig::default());
    assert!(config.is_extension_enabled("alpha-ext"));
}

#[test]
fn parse_http_response_rejects_empty_body() {
    let err = check_response_body(200, "").expect_err("must fail");
    assert!(err.to_string().contains("empty HTTP response"));
    assert_eq!(check_response_body(200, "  {\"ok\":true}\n").expect("body"), "{\"ok\":true}");
}

#[test]
fn runtime_roots_deduplicate_identical_paths() {
    let roots = runtime_extension_roots(&vec![], "C:/tmp/extensions");
    assert!(!roots.is_empty());
    let roots = runtime_extension_roots(
        &vec!["/opt/copper/extensions".to_string(), "/home/u/ext".to_string()],
        "/home/u/ext",
    );
    assert_eq!(roots, vec!["/opt/copper/extensions".to_string(), "/home/u/ext".to_string()]);
}

#[test]
fn core_root_candidates_prefer_adjacent_directories() {
    assert_eq!(
        core_root_candidates("/opt/copper/bin", Some("/opt/copper"), Some("/opt")),
        vec![
            "/opt/copper/bin/extensions".to_string(),
            "/opt/copper/extensions".to_string(),
            "/opt/extensions".to_string(),
            "/opt/copper/bin/core-extensions".to_string(),
            "/opt/copper/core-extensions".to_string(),
        ]
    );
    assert_eq!(
        core_root_candidates("bin", None, None),
        vec!["bin/extensions".to_string(), "bin/core-extensions".to_string()]
    );
}

#[test]
fn core_directory_is_the_last_existing_root() {
    let roots = core_extension_roots(&vec![
        "/opt/copper/bin/extensions".to_string(),
        "/opt/copper/extensions".to_string(),
        "/opt/copper/bin/extensions".to_string(),
    ]);
    assert_eq!(roots.len(), 2);
    assert_eq!(core_extensions_dir_from_roots(&roots).as_deref(), Some("/opt/copper/extensions"));
    assert!(core_extensions_dir_from_roots(&vec![]).is_none());
    assert_eq!(dedup_paths(&vec!["a".to_string(), "a".to_string()]), vec!["a".to_string()]);
}
