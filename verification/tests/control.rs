use copperd::api_call::authorize_method;
use copperd::cli::{default_run_command, format_permissions, plan_daemon_command, Commands, DaemonCommands, DaemonPlan};
use copperd::config_ui::{selection_for, settings_ui_channel, UiOpenOptions};
use copperd::descriptor::BackgroundDescriptor;
use copperd::control_plane::{auth_file_path_in, hex_string, is_blank, ControlPlaneAuth};
use copperd::daemon::{request_url, DaemonConfig, IpcRequest, DEFAULT_BIND_ADDR, DEFAULT_RELOAD_INTERVAL_MS};
use copperd::descriptor::Permission;
use copperd::hotkey::{configured_hotkey, hotkey_change, key_to_vk, parse_hotkey, HotkeyChange};
use copperd::http::{parse_request, read_chunked_body, response_bytes, HttpMethod, HttpResponse};
use copperd::json::{json_is_wf, JsonNumber, JsonValue};
use copperd::scheduler::{plan_background, DaemonScheduler};
use copperd::state_store::{with_store_value, ExtensionStateStore};
use std::time::Duration;

fn json(text: &str) -> JsonValue {
    fn convert(v: serde_json::Value) -> JsonValue {
        match v {
            serde_json::Value::Null => JsonValue::Null,
            serde_json::Value::Bool(b) => JsonValue::Bool(b),
            serde_json::Value::Number(n) => {
                if let Some(u) = n.as_u64() {
                    JsonValue::Number(JsonNumber::PosInt(u))
                } else if let Some(i) = n.as_i64() {
                    JsonValue::Number(JsonNumber::NegInt(i))
                } else {
                    JsonValue::Number(JsonNumber::Other(n.to_string()))
                }
            }
            serde_json::Value::String(s) => JsonValue::Str(s),
            serde_json::Value::Array(items) => JsonValue::Array(items.into_iter().map(convert).collect()),
            serde_json::Value::Object(map) => JsonValue::Object(map.into_iter().map(|(k, v)| (k, convert(v))).collect()),
        }
    }
    convert(serde_json::from_str(text).expect("test JSON"))
}


#[test]
fn ui_open_options_default_values_are_stable() {
    let options = UiOpenOptions::default();
    assert_eq!(options.bind_addr, "127.0.0.1:0");
    assert!(!options.open_browser);
    assert!(options.open_window);
    assert_eq!(options.idle_timeout, Duration::from_secs(300));
}

#[test]
fn settings_handle_preserves_requested_extension_selection() {
    let (handle, requests) = settings_ui_channel();
    handle.open(None).expect("core request");
    handle.open(Some("desktop-torrent-organizer")).expect("extension request");
    assert_eq!(requests.recv().expect("core selection"), None);
    assert_eq!(requests.recv().expect("extension selection").as_deref(), Some("desktop-torrent-organizer"));
}

#[test]
fn settings_handle_reports_a_closed_ui() {
    let (handle, requests) = settings_ui_channel();
    drop(requests);
    let err = handle.open(None).expect_err("closed");
    assert_eq!(err.to_string(), "failed to open native window: settings UI is unavailable");
}

#[test]
fn reads_chunked_body() {
    let body = read_chunked_body(b"4\r\nWiki\r\n5\r\npedia\r\n0\r\n\r\n").expect("chunked body");
    assert_eq!(body, b"Wikipedia");
}

#[test]
fn rejects_invalid_chunk_size() {
    let err = read_chunked_body(b"ZZ\r\nhello\r\n0\r\n\r\n").expect_err("invalid chunk size");
    assert!(err.to_string().contains("invalid chunk size"));
}

#[test]
fn read_chunked_body_rejects_unexpected_eof() {
    let err = read_chunked_body(b"").expect_err("unexpected eof");
    assert!(err.to_string().contains("unexpected EOF"));
}

#[test]
fn read_chunked_body_rejects_invalid_chunk_terminator() {
    let err = read_chunked_body(b"1\r\naZZ0\r\n\r\n").expect_err("invalid chunk terminator");
    assert!(err.to_string().contains("invalid chunk terminator"));
}

#[test]
fn read_chunked_body_skips_trailers() {
    let body = read_chunked_body(b"1\r\na\r\n0\r\nX-Test: 1\r\n\r\n").expect("chunked with trailer");
    assert_eq!(body, b"a");
}

#[test]
fn parse_request_reads_content_length_body() {
    let raw = b"POST /config/core HTTP/1.1\r\nHost: localhost\r\nContent-Length: 12\r\n\r\n{\"k\":\"v123\"}";
    let (request, used) = parse_request(raw, true).expect("request").expect("complete");
    assert_eq!(request.method, HttpMethod::Post);
    assert_eq!(request.path, "/config/core");
    assert_eq!(request.body, br#"{"k":"v123"}"#);
    assert_eq!(used, raw.len());
}

#[test]
fn parse_request_reads_chunked_payload() {
    let raw = b"POST /config/core HTTP/1.1\r\nHost: localhost\r\nTransfer-Encoding: chunked\r\n\r\n4\r\nWiki\r\n5\r\npedia\r\n0\r\n\r\n";
    let (request, _) = parse_request(raw, true).expect("request").expect("complete");
    assert_eq!(request.method, HttpMethod::Post);
    assert_eq!(request.path, "/config/core");
    assert_eq!(request.body, b"Wikipedia");
}

#[test]
fn parse_request_rejects_unsupported_method() {
    let err = parse_request(b"PUT /config/core HTTP/1.1\r\nHost: localhost\r\n\r\n", true).expect_err("unsupported method");
    assert!(err.to_string().contains("unsupported method"));
}

#[test]
fn parse_request_rejects_empty_request() {
    let err = parse_request(b"", true).expect_err("empty request");
    assert!(err.to_string().contains("empty request"));
}

#[test]
fn parse_request_rejects_missing_path() {
    let err = parse_request(b"GET\r\n\r\n", true).expect_err("missing path");
    assert!(err.to_string().contains("missing path"));
}

#[test]
fn parse_request_rejects_missing_method() {
    let err = parse_request(b"\r\n\r\n", true).expect_err("missing method");
    assert!(err.to_string().contains("missing method"));
}

#[test]
fn parse_request_waits_for_more_bytes() {
    assert!(parse_request(b"GET / HTTP/1.1\r\nHost: x\r\n", false).expect("partial").is_none());
}

#[test]
fn write_response_uses_ok_text_for_unknown_status_code() {
    let bytes = response_bytes(&HttpResponse { status: 500, content_type: "text/plain; charset=utf-8", body: b"boom".to_vec() });
    let raw = String::from_utf8(bytes).expect("utf8");
    assert!(raw.starts_with("HTTP/1.1 500 OK"));
    assert!(raw.ends_with("boom"));
}

#[test]
fn ephemeral_auth_generates_token() {
    let auth = ControlPlaneAuth::ephemeral().expect("random source");
    assert_eq!(auth.token().len(), 64);
    assert!(auth.token().chars().all(|c| c.is_ascii_hexdigit() && !c.is_ascii_uppercase()));
    assert!(!auth.is_persisted());
    assert_ne!(ControlPlaneAuth::ephemeral().expect("random source").token(), auth.token());
}

#[test]
fn saved_tokens_are_reused_unless_blank() {
    let (kept, write) = ControlPlaneAuth::from_saved(Some("abc".to_string())).expect("saved token");
    assert_eq!(kept.token(), "abc");
    assert!(!write);
    let (fresh, write) = ControlPlaneAuth::from_saved(Some("   ".to_string())).expect("random source");
    assert_eq!(fresh.token().len(), 64);
    assert!(write && fresh.is_persisted());
    assert!(is_blank(" \t"));
    assert_eq!(hex_string(&[0, 171, 255]), "00abff");
    assert_eq!(auth_file_path_in("/home/u"), "/home/u/.Copper/control-plane/auth.json");
}

#[test]
fn reload_due_tracks_interval() {
    let scheduler = DaemonScheduler::new(Duration::from_millis(0));
    assert!(scheduler.reload_due());
}

#[test]
fn reload_waits_for_its_interval() {
    let mut scheduler = DaemonScheduler::new(Duration::from_secs(10));
    assert!(!scheduler.reload_due_at(0));
    assert!(scheduler.reload_due_at(10_000_000_000));
    scheduler.mark_reload_at(1_000_000_000);
    assert!(!scheduler.reload_due_at(5_000_000_000));
    assert!(scheduler.reload_due_at(11_000_000_000));
}

#[test]
fn daemon_config_default_matches_public_constants() {
    let config = DaemonConfig::default();
    assert_eq!(config.bind_addr, DEFAULT_BIND_ADDR);
    assert_eq!(config.reload_interval, Duration::from_millis(DEFAULT_RELOAD_INTERVAL_MS));
    assert!(!config.extensions_dir.is_empty());
}

#[test]
fn request_url_maps_health_to_http_endpoint() {
    assert_eq!(request_url("127.0.0.1:4765", &IpcRequest::Health), "http://127.0.0.1:4765/health");
}

#[test]
fn format_permissions_handles_empty_and_values() {
    assert_eq!(format_permissions(&[]), "none");
    assert_eq!(format_permissions(&[Permission::Fs, Permission::Shell, Permission::Ui]), "fs,shell,ui");
}

#[test]
fn format_permissions_covers_all_variants() {
    let formatted = format_permissions(&[
        Permission::Fs,
        Permission::Shell,
        Permission::Network,
        Permission::Store,
        Permission::Ui,
        Permission::WindowsDisplay,
    ]);
    assert_eq!(formatted, "fs,shell,network,store,ui,windows-display");
}

#[test]
fn default_run_command_matches_expected_defaults() {
    match default_run_command() {
        Commands::Run { bind_addr, reload_interval_ms, extensions_dir } => {
            assert_eq!(bind_addr, DEFAULT_BIND_ADDR);
            assert_eq!(reload_interval_ms, DEFAULT_RELOAD_INTERVAL_MS);
            assert!(!extensions_dir.is_empty());
        }
        _ => panic!("default command should be run"),
    }
}

fn planned_url(command: DaemonCommands) -> String {
    match plan_daemon_command(command) {
        DaemonPlan::Send { bind_addr, request } => request_url(&bind_addr, &request),
        DaemonPlan::Start(_) => panic!("expected a request"),
    }
}

#[test]
fn cmd_daemon_health_sends_expected_ipc_request() {
    assert_eq!(planned_url(DaemonCommands::Health { bind_addr: "127.0.0.1:1".into() }), "http://127.0.0.1:1/health");
}

#[test]
fn cmd_daemon_list_sends_expected_ipc_request() {
    assert_eq!(planned_url(DaemonCommands::List { bind_addr: "127.0.0.1:1".into() }), "http://127.0.0.1:1/list");
}

#[test]
fn cmd_daemon_trigger_sends_expected_ipc_request() {
    let plan = plan_daemon_command(DaemonCommands::Trigger {
        id: "alpha-ext".to_string(),
        action: Some("run".to_string()),
        bind_addr: "127.0.0.1:1".into(),
    });
    match plan {
        DaemonPlan::Send { bind_addr, request: IpcRequest::Trigger { id, action } } => {
            assert_eq!(request_url(&bind_addr, &IpcRequest::Trigger { id: id.clone(), action: action.clone() }), "http://127.0.0.1:1/trigger");
            assert_eq!(id, "alpha-ext");
            assert_eq!(action.as_deref(), Some("run"));
        }
        other => panic!("unexpected {other:?}"),
    }
}

#[test]
fn cmd_daemon_reload_sends_expected_ipc_request() {
    assert_eq!(planned_url(DaemonCommands::Reload { bind_addr: "127.0.0.1:1".into() }), "http://127.0.0.1:1/reload");
}

#[test]
fn cmd_daemon_verify_sends_expected_ipc_request() {
    assert_eq!(planned_url(DaemonCommands::Verify { bind_addr: "127.0.0.1:1".into() }), "http://127.0.0.1:1/verify");
}

#[test]
fn cmd_daemon_shutdown_sends_expected_ipc_request() {
    assert_eq!(planned_url(DaemonCommands::Shutdown { bind_addr: "127.0.0.1:1".into() }), "http://127.0.0.1:1/shutdown");
}

#[test]
fn authorization_rejects_undeclared_permission() {
    let error = authorize_method("fs.list", &["ui".to_string()]).expect_err("denied");
    assert!(error.contains("permission 'fs'"));
    assert!(error.contains("fs.list"));
}

#[test]
fn authorization_accepts_declared_permission() {
    authorize_method("secureStore.get", &["secure-store".to_string()]).expect("authorized");
}

#[test]
fn authorization_allows_permissionless_notification() {
    authorize_method("notify", &[]).expect("notification has no manifest permission");
}

#[test]
fn parses_single_and_modified_hotkeys() {
    assert_eq!(parse_hotkey("scroll_lock"), Some((0, 0x91)));
    assert_eq!(parse_hotkey("ctrl+alt+f12"), Some((0x0002 | 0x0001, 0x7B)));
}

#[test]
fn hotkey_keys_and_changes() {
    assert_eq!(key_to_vk("a"), Some(0x41));
    assert_eq!(key_to_vk("f24"), Some(0x87));
    assert_eq!(key_to_vk("f25"), None);
    assert_eq!(key_to_vk("escape"), Some(0x1B));
    assert_eq!(parse_hotkey("shift+nonsense"), None);
    assert_eq!(parse_hotkey("win + shift + x"), Some((8 | 4, 0x58)));
    assert_eq!(configured_hotkey(&json(r#"{"triggerKey": "  Ctrl+F9 "}"#)), "ctrl+f9");
    assert_eq!(configured_hotkey(&json("{}")), "scroll_lock");
    assert_eq!(hotkey_change("f9", true, "f9"), HotkeyChange::Keep);
    assert_eq!(hotkey_change("f9", true, ""), HotkeyChange::Replace { unregister: true, register: None });
    assert_eq!(hotkey_change("", false, "f1"), HotkeyChange::Replace { unregister: false, register: Some((0, 0x70)) });
}

#[test]
fn store_uses_expected_paths() {
    let store = ExtensionStateStore::new("C:/tmp/.Copper/extensions".into());
    assert_eq!(store.config_path("alpha-ext"), "C:/tmp/.Copper/extensions/alpha-ext/config.json");
    assert_eq!(store.status_path("alpha-ext"), "C:/tmp/.Copper/extensions/alpha-ext/status.json");
    assert_eq!(store.legacy_path("alpha-ext"), "C:/tmp/.Copper/extensions/alpha-ext/data.json");
    assert_eq!(store.core_config_path(), "C:/tmp/.Copper/extensions/copper-core/config.json");
}

#[test]
fn store_values_are_set_in_objects_only() {
    let updated = with_store_value(json(r#"{"a": 1}"#), "b", JsonValue::Bool(true));
    match updated {
        JsonValue::Object(entries) => {
            assert!(entries.iter().any(|(k, v)| k == "b" && matches!(v, JsonValue::Bool(true))));
            assert!(entries.iter().any(|(k, _)| k == "a"));
        }
        other => panic!("unexpected {other:?}"),
    }
    assert!(matches!(with_store_value(JsonValue::Null, "b", JsonValue::Bool(true)), JsonValue::Null));
}

#[test]
fn error_responses_carry_a_json_error_member() {
    let response = HttpResponse::bad_request("bad input");
    assert_eq!(response.status, 400);
    let body: serde_json::Value = serde_json::from_slice(&response.body).expect("json body");
    assert_eq!(body["error"], "bad input");
    assert_eq!(HttpResponse::not_found().status, 404);
    assert_eq!(HttpResponse::forbidden("no").status, 403);
}

fn watcher_background() -> BackgroundDescriptor {
    BackgroundDescriptor {
        action: "poll".to_string(),
        enabled_config: Some("autoRun".to_string()),
        enabled_by_default: false,
        interval_seconds_config: Some("pollIntervalSeconds".to_string()),
        default_interval_seconds: 10,
    }
}

#[test]
fn manifest_schedule_emits_bones_actions_at_configured_intervals() {
    let config = json(r#"{"autoRun": true, "pollIntervalSeconds": 5}"#);
    let plans = vec![plan_background("watcher", &watcher_background(), &config)];
    let mut scheduler = DaemonScheduler::new(Duration::from_secs(10));
    let now = 1_000_000_000u64;

    let first = scheduler.due_bones_background_at(now, &plans);
    assert_eq!(first.len(), 1);
    assert_eq!(first[0].extension_id, "watcher");
    assert_eq!(first[0].action_id, "poll");
    scheduler.mark_bones_background_run_at(&first[0], now);

    assert!(scheduler.due_bones_background_at(now + 2_000_000_000, &plans).is_empty());
    assert_eq!(scheduler.due_bones_background_at(now + 5_000_000_000, &plans).len(), 1);
}

#[test]
fn manifest_schedule_honors_its_enabled_config() {
    let config = json(r#"{"autoRun": false}"#);
    let plans = vec![plan_background("watcher", &watcher_background(), &config)];
    let mut scheduler = DaemonScheduler::new(Duration::from_secs(10));
    assert!(scheduler.due_bones_background(&plans).is_empty());
}

#[test]
fn a_background_run_delays_only_its_own_action() {
    let watcher = plan_background("watcher", &watcher_background(), &json(r#"{"autoRun": true, "pollIntervalSeconds": 5}"#));
    let other = BackgroundDescriptor {
        action: "tick".to_string(),
        enabled_config: None,
        enabled_by_default: true,
        interval_seconds_config: None,
        default_interval_seconds: 1,
    };
    let plans = vec![watcher, plan_background("other", &other, &json("{}"))];
    let mut scheduler = DaemonScheduler::new(Duration::from_secs(10));
    let first = scheduler.due_bones_background_at(0, &plans);
    assert_eq!(first.len(), 2);
    scheduler.mark_bones_background_run_at(&first[0], 0);
    let later = scheduler.due_bones_background_at(4_000_000_000, &plans);
    assert_eq!(later.len(), 1);
    assert_eq!(later[0].extension_id, "other");
    let again = scheduler.due_bones_background_at(5_000_000_000, &plans);
    assert_eq!(again.len(), 2);
    assert_eq!(again[0].extension_id, "watcher");
}

#[test]
fn background_looks_are_at_least_a_second_apart() {
    let other = BackgroundDescriptor {
        action: "tick".to_string(),
        enabled_config: None,
        enabled_by_default: true,
        interval_seconds_config: None,
        default_interval_seconds: 1,
    };
    let plans = vec![plan_background("other", &other, &json("{}"))];
    let mut scheduler = DaemonScheduler::new(Duration::from_secs(10));
    assert_eq!(scheduler.due_bones_background_at(10_000_000_000, &plans).len(), 1);
    assert!(scheduler.due_bones_background_at(10_500_000_000, &plans).is_empty());
    assert_eq!(scheduler.due_bones_background_at(11_000_000_000, &plans).len(), 1);
}

#[test]
fn the_settings_window_is_handed_the_requested_extension() {
    assert_eq!(selection_for(None), None);
    assert_eq!(selection_for(Some("desktop-torrent-organizer")).as_deref(), Some("desktop-torrent-organizer"));
}

#[test]
fn ui_open_options_keep_the_requested_idle_timeout() {
    let options = UiOpenOptions::for_command(1_500, false, false, true);
    assert_eq!(options.idle_timeout, Duration::from_millis(1_500));
    assert!(options.open_browser);
    assert!(!options.open_window);
    let config = DaemonConfig::with_interval_ms("ext".to_string(), "127.0.0.1:1".to_string(), 250);
    assert_eq!(config.reload_interval, Duration::from_millis(250));
}

#[test]
fn a_background_action_is_not_due_a_nanosecond_early() {
    let plans = vec![plan_background("watcher", &watcher_background(), &json(r#"{"autoRun": true, "pollIntervalSeconds": 5}"#))];
    let mut scheduler = DaemonScheduler::new(Duration::from_secs(10));
    let first = scheduler.due_bones_background_at(0, &plans);
    scheduler.mark_bones_background_run_at(&first[0], 1);
    assert!(scheduler.due_bones_background_at(5_000_000_000, &plans).is_empty());
    assert_eq!(scheduler.due_bones_background_at(6_000_000_001, &plans).len(), 1);
}

#[test]
fn error_answers_are_pretty_json_with_escapes() {
    let answer = HttpResponse::bad_request("a \"quoted\" \\ line\nand\u{1}tab\t é");
    assert_eq!(answer.status, 400);
    assert_eq!(
        String::from_utf8(answer.body).expect("utf-8"),
        "{\n  \"error\": \"a \\\"quoted\\\" \\\\ line\\nand\\u0001tab\\t é\"\n}"
    );
    assert_eq!(String::from_utf8(HttpResponse::not_found().body).expect("utf-8"), "{\n  \"error\": \"not found\"\n}");
}

#[test]
fn merge_sources_must_name_each_member_once() {
    assert!(json_is_wf(&json(r#"{"a": 1, "b": {"a": 2}}"#)));
    assert!(json_is_wf(&JsonValue::Bool(true)));
    let repeated = JsonValue::Object(vec![
        ("a".to_string(), JsonValue::Null),
        ("b".to_string(), JsonValue::Null),
        ("a".to_string(), JsonValue::Bool(false)),
    ]);
    assert!(!json_is_wf(&repeated));
}
