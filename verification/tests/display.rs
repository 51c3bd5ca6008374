use copperd::display_tray::{
    context_menu, default_resolution_presets, icon_variant, menu_command_action, merge_object, parse_resolution_preset,
    parse_status, record_action_result, status_after_action, tooltip, MenuAction, MenuEntry, CMD_EXIT, CMD_RES_BASE,
    CMD_SCALE_BASE, CMD_SETTINGS, CMD_TOGGLE_TASKBAR,
};
use copperd::host_extensions::{update_windows_display_status, HostExtensionRegistry, WINDOWS_DISPLAY_MANAGER_ID};
use copperd::json::{JsonNumber, JsonValue};
use copperd::tray::{
    configure_tray, draw_rect, icon_bitmaps, pin_icon_rgba, solid_green_icon_rgba, AdditionalTrayController,
    TrayError, TrayMenuAction, TrayOps,
};
use copperd::tray_assets::{copper_server_icon, icon_from_pixels, pixmap_failure, render_svg_icon, windows_display_pin_icon, IconSvgs};
use copperd::windows_display::{
    apply_taskbar_state, bridge_env, bridge_failure, bridge_request_for, check_bridge_value, finalize_taskbar_action,
    last_output_line, status_or_default, status_request, windows_bridge_script,
};

fn json(text: &str) -> JsonValue {
    fn convert(v: serde_json::Value) -> JsonValue {
        match v {
            serde_json::Value::Null => JsonValue::Null,
            serde_json::Value::Bool(b) => JsonValue::Bool(b),
            serde_json::Value::Number(n) => {
                if let Some(u) = n.as_u64() {
                    JsonValue::Number(JsonNumber::PosInt(u))
                } else if let Some(i) = n.as_i64() {
                    JsonValue::Number(JsonNumber::NegInt(i))
                } else {
                    JsonValue::Number(JsonNumber::Other(n.to_string()))
                }
            }
            serde_json::Value::String(s) => JsonValue::Str(s),
            serde_json::Value::Array(items) => JsonValue::Array(items.into_iter().map(convert).collect()),
            serde_json::Value::Object(map) => JsonValue::Object(map.into_iter().map(|(k, v)| (k, convert(v))).collect()),
        }
    }
    convert(serde_json::from_str(text).expect("test JSON"))
}


fn member<'a>(v: &'a JsonValue, key: &str) -> Option<&'a JsonValue> {
    match v {
        JsonValue::Object(entries) => entries.iter().find(|(k, _)| k == key).map(|(_, v)| v),
        _ => None,
    }
}

fn as_bool(v: Option<&JsonValue>) -> Option<bool> {
    match v {
        Some(JsonValue::Bool(b)) => Some(*b),
        _ => None,
    }
}

fn as_str(v: Option<&JsonValue>) -> Option<&str> {
    match v {
        Some(JsonValue::Str(s)) => Some(s.as_str()),
        _ => None,
    }
}

fn as_i64(v: Option<&JsonValue>) -> Option<i64> {
    match v {
        Some(JsonValue::Number(JsonNumber::PosInt(n))) => Some(*n as i64),
        Some(JsonValue::Number(JsonNumber::NegInt(n))) => Some(*n),
        _ => None,
    }
}

#[test]
fn windows_bridge_script_uses_live_display_config_for_scale() {
    let script = windows_bridge_script();
    assert!(script.contains("DisplayConfigSetDeviceInfoRaw"));
    assert!(script.contains("QueryDisplayConfig"));
    assert!(script.contains("GetConfiguredScalePercent"));
    assert!(script.contains("GetResolutionModes"));
    assert!(script.contains("availableModes = $resolutionModes"));
    assert!(!script.contains("$status.requiresSignOut = $true"));
}

#[test]
fn apply_taskbar_state_updates_pinned_flag_from_auto_hide() {
    let value = json(r#"{ "action": "status" }"#);
    let value = apply_taskbar_state(value, false);
    assert_eq!(as_bool(member(&value, "taskbarAutoHide")), Some(false));
    assert_eq!(as_bool(member(&value, "taskbarPinned")), Some(true));

    let value = apply_taskbar_state(value, true);
    assert_eq!(as_bool(member(&value, "taskbarAutoHide")), Some(true));
    assert_eq!(as_bool(member(&value, "taskbarPinned")), Some(false));
}

#[test]
fn finalize_taskbar_action_adds_requested_payload() {
    let value = finalize_taskbar_action(json("{}"), "set-taskbar-autohide", true, Some(true));
    assert_eq!(as_str(member(&value, "action")), Some("set-taskbar-autohide"));
    assert_eq!(as_bool(member(&value, "applied")), Some(true));
    let requested = member(&value, "requested").expect("requested");
    assert_eq!(as_bool(member(requested, "taskbarAutoHide")), Some(true));
}

#[test]
fn status_action_uses_defaults_and_dispatches_to_runner() {
    let request = bridge_request_for("status", &json("{}")).expect("status request");
    assert_eq!(request.action, "status");
    assert_eq!(request.resolution_width, 1920);
    assert_eq!(request.resolution_height, 1080);
    assert_eq!(request.refresh_rate, 60);
    assert_eq!(request.scale_percent, 100);
    assert!(!request.taskbar_auto_hide);
}

#[test]
fn set_taskbar_autohide_reads_boolean_flag() {
    let request = bridge_request_for("set-taskbar-autohide", &json(r#"{ "taskbarAutoHide": true }"#)).expect("request");
    assert!(request.taskbar_auto_hide);
}

#[test]
fn set_resolution_clamps_invalid_input_range() {
    let request = bridge_request_for(
        "set-resolution",
        &json(r#"{ "resolutionWidth": 50000, "resolutionHeight": 100, "refreshRate": 1000 }"#),
    )
    .expect("request");
    assert_eq!(request.resolution_width, 16_384);
    assert_eq!(request.resolution_height, 480);
    assert_eq!(request.refresh_rate, 480);
}

#[test]
fn set_scale_clamps_to_supported_range() {
    let low = bridge_request_for("set-scale", &json(r#"{ "scalePercent": 20 }"#)).expect("request");
    assert_eq!(low.scale_percent, 100);
    let high = bridge_request_for("set-scale", &json(r#"{ "scalePercent": 999 }"#)).expect("request");
    assert_eq!(high.scale_percent, 350);
}

#[test]
fn unsupported_action_returns_error() {
    let err = bridge_request_for("unknown-action", &json("{}")).expect_err("unsupported action must fail");
    assert!(err.contains("unsupported windows-display-manager action"));
}

#[test]
fn registry_exposes_capability_metadata() {
    let registry = HostExtensionRegistry::new();
    let capability = registry.capability_info(WINDOWS_DISPLAY_MANAGER_ID).expect("capability");
    assert_eq!(capability.id, "host.windows-display");
    assert_eq!(capability.state_contract.status_schema_version, 1);
}

#[test]
fn windows_display_dynamic_options_degrade_off_windows() {
    let registry = HostExtensionRegistry::new();
    let options = registry.dynamic_options(WINDOWS_DISPLAY_MANAGER_ID, &json("{}"), None);
    assert!(member(&options, "resolutionModes").is_some());
    assert!(member(&options, "scalePercentages").is_some());
    assert!(member(&options, "trayResolutionPresets").is_some());
}

#[test]
fn windows_display_status_persists_snapshot() {
    let state = json(r#"{ "scalePercent": 100 }"#);
    let failed = update_windows_display_status(state, "status", None, Some("bridge failed"), 1_700_000_000);
    assert_eq!(as_str(member(&failed, "lastActionId")), Some("status"));
    assert_eq!(as_bool(member(&failed, "lastActionOk")), Some(false));
    assert_eq!(as_str(member(&failed, "lastError")), Some("bridge failed"));
    assert_eq!(as_i64(member(&failed, "scalePercent")), Some(100));

    let execution = json(r#"{ "taskbarAutoHide": true, "scale": { "currentPercent": 150 }, "resolution": { "width": 2560 } }"#);
    let ok = update_windows_display_status(failed, "status", Some(&execution), None, 1_700_000_001);
    assert_eq!(as_bool(member(&ok, "lastActionOk")), Some(true));
    assert!(member(&ok, "lastError").is_none());
    assert_eq!(as_i64(member(&ok, "scalePercent")), Some(150));
    assert_eq!(as_i64(member(&ok, "resolutionWidth")), Some(2560));
    assert_eq!(as_bool(member(&ok, "taskbarAutoHide")), Some(true));
    assert!(member(&ok, "resolution").is_none());
    let result = member(&ok, "lastResult").expect("last result");
    assert!(member(result, "resolution").is_some());
}

#[test]
fn parse_status_reads_resolution_scale_theme_and_available_modes() {
    let status = parse_status(&json(
        r#"{
            "taskbarAutoHide": true,
            "systemUsesLightTheme": false,
            "resolution": {
                "width": 2560,
                "height": 1440,
                "refreshRate": 144,
                "availableModes": [
                    { "width": 1920, "height": 1080, "refreshRate": 60 },
                    { "width": 2560, "height": 1440, "refreshRate": 144 }
                ]
            },
            "scale": { "currentPercent": 150, "availablePercentages": [100,125,150] }
        }"#,
    ));
    assert!(status.taskbar_auto_hide);
    assert!(!status.system_uses_light_theme);
    assert_eq!(status.width, 2560);
    assert_eq!(status.height, 1440);
    assert_eq!(status.refresh_rate, 144);
    assert_eq!(status.available_resolutions.len(), 2);
    assert_eq!(status.available_resolutions[1].width, 2560);
    assert_eq!(status.current_scale, 150);
    assert_eq!(status.available_scales, vec![100, 125, 150]);
}

#[test]
fn parse_status_falls_back_to_default_resolution_modes() {
    let defaults = default_resolution_presets();
    let status = parse_status(&json("{}"));
    assert_eq!(status.available_resolutions.len(), defaults.len());
    assert_eq!(status.available_resolutions[0].width, defaults[0].width);
    assert_eq!(status.available_resolutions[0].height, defaults[0].height);
    assert_eq!(status.available_resolutions[0].refresh_rate, defaults[0].refresh_rate);
}

#[test]
fn parse_resolution_preset_reads_valid_entries_only() {
    assert!(parse_resolution_preset(&json(r#"{ "width": "bad", "height": 1000, "refreshRate": 60 }"#)).is_none());
    let loaded = parse_resolution_preset(&json(r#"{ "width": 2560, "height": 1440, "refreshRate": 144 }"#))
        .expect("resolution preset");
    assert_eq!(loaded.width, 2560);
    assert_eq!(loaded.refresh_rate, 144);
}

#[test]
fn merge_object_overwrites_keys_from_source() {
    let target = json(r#"{ "scalePercent": 100, "taskbarAutoHide": false }"#);
    let source = json(r#"{ "scalePercent": 150 }"#);
    let merged = merge_object(target, source);
    assert_eq!(as_i64(member(&merged, "scalePercent")), Some(150));
    assert_eq!(as_bool(member(&merged, "taskbarAutoHide")), Some(false));
}

#[test]
fn merge_object_leaves_non_objects_alone() {
    let merged = merge_object(json("[1]"), json(r#"{ "a": 1 }"#));
    assert!(matches!(merged, JsonValue::Array(_)));
}

#[test]
fn set_scale_result_updates_the_shown_scale() {
    let result = json(r#"{ "applied": true, "requested": { "scalePercent": 175 }, "scale": { "currentPercent": 150 } }"#);
    assert_eq!(status_after_action("set-scale", &result).current_scale, 175);
    assert_eq!(status_after_action("status", &result).current_scale, 150);
    let not_applied = json(r#"{ "applied": false, "requested": { "scalePercent": 175 } }"#);
    assert_eq!(status_after_action("set-scale", &not_applied).current_scale, 100);
}

#[test]
fn action_results_are_recorded_in_the_saved_data() {
    let config = record_action_result(json(r#"{ "scalePercent": 125 }"#), "set-scale", json(r#"{ "ok": true }"#));
    assert_eq!(as_str(member(&config, "lastActionId")), Some("set-scale"));
    assert_eq!(as_bool(member(&config, "lastActionOk")), Some(true));
    assert!(member(&config, "lastResult").is_some());
    assert_eq!(as_i64(member(&config, "scalePercent")), Some(125));
}

#[test]
fn tray_menu_reflects_the_status() {
    let status = parse_status(&json(r#"{ "taskbarAutoHide": true, "systemUsesLightTheme": false }"#));
    assert_eq!(icon_variant(&status), (false, false));
    assert_eq!(tooltip(&status), "Taskbar: Auto-hide");
    let presets = default_resolution_presets();
    let menu = context_menu(&status, &presets);
    assert_eq!(menu.len(), 8);
    match &menu[0] {
        MenuEntry::Item { id, checked, .. } => {
            assert_eq!(*id, CMD_TOGGLE_TASKBAR);
            assert_eq!(*checked, Some(false));
        }
        _ => panic!("first entry must be the taskbar toggle"),
    }
    assert!(matches!(menu_command_action(CMD_EXIT, "http://x", &presets, &status.available_scales), MenuAction::Exit));
    match menu_command_action(CMD_SETTINGS, "http://x", &presets, &status.available_scales) {
        MenuAction::OpenSettings(url) => assert_eq!(url, "http://x?section=ext:windows-display-manager"),
        other => panic!("unexpected {other:?}"),
    }
    assert_eq!(menu_command_action(CMD_RES_BASE + 1, "http://x", &presets, &status.available_scales), MenuAction::SetResolution(presets[1]));
    assert_eq!(menu_command_action(CMD_SCALE_BASE, "http://x", &presets, &status.available_scales), MenuAction::SetScale(100));
    assert_eq!(menu_command_action(4242, "http://x", &presets, &status.available_scales), MenuAction::Nothing);
}

#[derive(Default)]
struct FakeTray {
    labels: Vec<String>,
    items: Vec<(String, TrayMenuAction)>,
    fail_label: bool,
    fail_menu: bool,
}

impl TrayOps for FakeTray {
    fn add_label(&mut self, label: &str) -> Result<(), String> {
        if self.fail_label {
            return Err("label failed".to_string());
        }
        self.labels.push(label.to_string());
        Ok(())
    }

    fn add_menu_item(&mut self, label: &str, action: TrayMenuAction) -> Result<(), String> {
        if self.fail_menu {
            return Err("menu failed".to_string());
        }
        self.items.push((label.to_string(), action));
        Ok(())
    }
}

#[test]
fn configure_tray_maps_backend_errors() {
    let mut label_fail = FakeTray { fail_label: true, ..FakeTray::default() };
    let err = configure_tray(&mut label_fail, "http://127.0.0.1:4766".to_string()).expect_err("label failure");
    assert!(err.to_string().contains("label failed"));

    let mut menu_fail = FakeTray { fail_menu: true, ..FakeTray::default() };
    let err = configure_tray(&mut menu_fail, "http://127.0.0.1:4766".to_string()).expect_err("menu failure");
    assert!(err.to_string().contains("menu failed"));
}

#[test]
fn configure_tray_registers_actions_and_exit_callback() {
    let mut tray = FakeTray::default();
    configure_tray(&mut tray, "http://127.0.0.1:4766".to_string()).expect("configure tray");
    assert_eq!(tray.labels, vec!["Daemon is running".to_string()]);
    assert_eq!(tray.items.len(), 2);
    assert_eq!(tray.items[0].0, "Open Copper UI");
    assert!(matches!(&tray.items[0].1, TrayMenuAction::OpenUi(url) if url == "http://127.0.0.1:4766"));
    assert_eq!(tray.items[1].0, "Exit");
    assert!(matches!(tray.items[1].1, TrayMenuAction::Exit));
    assert_eq!(TrayError::Init("x".into()).to_string(), "tray initialization failed: x");
}

#[test]
fn solid_green_icon_has_four_bytes_per_pixel() {
    let data = solid_green_icon_rgba(16, 16);
    assert_eq!(data.len(), 16 * 16 * 4);
    assert_eq!(&data[0..4], &[37, 178, 82, 255]);
}

#[test]
fn pin_icons_differ_by_state_and_theme() {
    let pinned_dark = pin_icon_rgba(true, true);
    let unpinned_dark = pin_icon_rgba(false, true);
    let pinned_light = pin_icon_rgba(true, false);
    assert_eq!(pinned_dark.len(), 1024);
    assert_ne!(pinned_dark, unpinned_dark);
    assert_ne!(pinned_dark, pinned_light);
    let at = |x: usize, y: usize| ((y * 16 + x) * 4) as usize;
    assert_eq!(&pinned_dark[at(8, 3)..at(8, 3) + 4], &[25, 25, 25, 255]);
    assert_eq!(&pinned_dark[at(0, 0)..at(0, 0) + 4], &[0, 0, 0, 0]);
    assert_eq!(&pinned_light[at(8, 14)..at(8, 14) + 4], &[236, 236, 236, 255]);
    assert_eq!(&pinned_light[at(5, 14)..at(5, 14) + 4], &[0, 0, 0, 0]);
}

#[test]
fn draw_rect_paints_inclusive_bounds() {
    let mut rgba = vec![0u8; 1024];
    draw_rect(&mut rgba, 1, 1, 2, 2, [9, 8, 7, 6]);
    let painted: usize = rgba.chunks(4).filter(|p| p == &[9, 8, 7, 6]).count();
    assert_eq!(painted, 4);
    assert_eq!(&rgba[(17 * 4)..(17 * 4 + 4)], &[9, 8, 7, 6]);
}

#[test]
fn icon_bitmaps_flip_rows_and_mark_transparent_pixels() {
    let rgba = vec![1, 2, 3, 255, 4, 5, 6, 0, 7, 8, 9, 10, 11, 12, 13, 0];
    let bitmaps = icon_bitmaps(&rgba, 2, 2).expect("bitmaps");
    assert_eq!(bitmaps.xor, vec![9, 8, 7, 10, 13, 12, 11, 0, 3, 2, 1, 255, 6, 5, 4, 0]);
    assert_eq!(bitmaps.and_mask, vec![0x40, 0, 0, 0, 0x40, 0, 0, 0]);
    assert!(icon_bitmaps(&rgba, 3, 2).is_none());
}

#[test]
fn icon_pixels_are_unpremultiplied() {
    let icon = icon_from_pixels(2, 1, vec![100, 50, 0, 128, 9, 9, 9, 0]);
    assert_eq!(icon.width, 2);
    assert_eq!(icon.rgba, vec![199, 100, 0, 128, 0, 0, 0, 0]);
}

#[test]
fn svg_render_errors_are_reported() {
    assert!(render_svg_icon(b"not an svg").is_err());
    assert_eq!(pixmap_failure(3, 4), "failed to allocate 3x4 tray pixmap");
}

#[test]
fn tray_extension_initialize_without_enabled_extensions_creates_empty_controller() {
    let controller = AdditionalTrayController::initialize(false).expect("controller");
    assert!(controller.specs().is_empty());
    let enabled = AdditionalTrayController::initialize(true).expect("controller");
    assert_eq!(enabled.specs().len(), 1);
    assert_eq!(enabled.specs()[0].extension_id, "windows-display-manager");
    assert_eq!(enabled.specs()[0].title, "Windows Display Manager");
}

fn svg(body: &str) -> Vec<u8> {
    format!(r#"<svg xmlns="http://www.w3.org/2000/svg" width="24" height="24" viewBox="0 0 24 24">{body}</svg>"#).into_bytes()
}

fn icon_svgs() -> IconSvgs {
    IconSvgs {
        copper_server: svg(r##"<rect x="4" y="3" width="16" height="18" rx="2" fill="#b87333"/>"##),
        pin_dark: svg(r##"<path d="M9 2h6v8l3 3H6l3-3z M11 13h2v9h-2z" fill="#191919"/>"##),
        pin_light: svg(r##"<path d="M9 2h6v8l3 3H6l3-3z M11 13h2v9h-2z" fill="#ececec"/>"##),
        pin_off_dark: svg(r##"<path d="M2 9v6h8l3 3V6l-3 3z M13 11v2h9v-2z" fill="#191919"/>"##),
        pin_off_light: svg(r##"<path d="M2 9v6h8l3 3V6l-3 3z M13 11v2h9v-2z" fill="#ececec"/>"##),
    }
}

#[test]
fn copper_server_icon_renders_visible_pixels() {
    let icon = copper_server_icon(&icon_svgs()).expect("server icon");
    assert_eq!(icon.width, 24);
    assert_eq!(icon.height, 24);
    assert!(icon.rgba.chunks_exact(4).any(|pixel| pixel[3] > 0), "icon should contain visible pixels");
}

#[test]
fn pin_variants_render_as_distinct_assets() {
    let svgs = icon_svgs();
    let pinned_dark = windows_display_pin_icon(&svgs, true, true).expect("pinned dark");
    let unpinned_dark = windows_display_pin_icon(&svgs, false, true).expect("unpinned dark");
    let pinned_light = windows_display_pin_icon(&svgs, true, false).expect("pinned light");
    assert_eq!(pinned_dark.width, 24);
    assert_eq!(pinned_dark.height, 24);
    assert_ne!(pinned_dark.rgba, unpinned_dark.rgba);
    assert_ne!(pinned_dark.rgba, pinned_light.rgba);
}

#[test]
fn bridge_requests_travel_through_the_environment() {
    let request = bridge_request_for("set-resolution", &json(r#"{"resolutionWidth":2560,"refreshRate":-5,"taskbarAutoHide":true}"#))
        .expect("request");
    let env = bridge_env(&request);
    let pairs: Vec<(&str, &str)> = env.iter().map(|(k, v)| (k.as_str(), v.as_str())).collect();
    assert_eq!(
        pairs,
        vec![
            ("COPPER_ACTION", "set-resolution"),
            ("COPPER_TASKBAR_AUTOHIDE", "true"),
            ("COPPER_RESOLUTION_WIDTH", "2560"),
            ("COPPER_RESOLUTION_HEIGHT", "1080"),
            ("COPPER_REFRESH_RATE", "1"),
            ("COPPER_SCALE_PERCENT", "100"),
        ]
    );
    let status = status_request(&request);
    assert_eq!(status.action, "status");
    assert_eq!(status.resolution_width, 2560);
}

#[test]
fn bridge_failures_explain_themselves() {
    assert_eq!(bridge_failure("  access denied \n", "ignored", "exit status: 1"), "windows display bridge failed: access denied");
    assert_eq!(bridge_failure(" ", " partial output ", "exit status: 1"), "windows display bridge failed: partial output");
    assert_eq!(bridge_failure("", "\n", "exit status: 2"), "windows display bridge exited with status exit status: 2");
}

#[test]
fn the_bridge_answer_is_its_last_non_blank_line() {
    assert_eq!(last_output_line("warming up\r\n{\"ok\":true}\r\n  \n").as_deref(), Some("{\"ok\":true}"));
    assert_eq!(last_output_line("only line").as_deref(), Some("only line"));
    assert!(last_output_line(" \n\t\n").is_none());
    assert!(last_output_line("").is_none());
}

#[test]
fn bridge_answers_reporting_failure_become_errors() {
    match check_bridge_value(json(r#"{"ok":false,"error":"no display"}"#)) {
        Err(e) => assert_eq!(e, "no display"),
        Ok(_) => panic!("must fail"),
    }
    match check_bridge_value(json(r#"{"ok":false}"#)) {
        Err(e) => assert_eq!(e, "windows display bridge reported failure"),
        Ok(_) => panic!("must fail"),
    }
    let ok = check_bridge_value(json(r#"{"ok":true,"scale":{"currentPercent":125}}"#)).expect("ok");
    assert!(member(&ok, "scale").is_some());
    assert!(check_bridge_value(json(r#"{"resolution":{}}"#)).is_ok());
}

#[test]
fn a_missing_status_report_defaults_to_a_bare_status() {
    let fallback = status_or_default(Err("bridge failed".to_string()));
    assert!(matches!(member(&fallback, "ok"), Some(JsonValue::Bool(true))));
    assert!(matches!(member(&fallback, "action"), Some(JsonValue::Str(s)) if s == "status"));
    let reported = status_or_default(Ok(json(r#"{"taskbarAutoHide":true}"#)));
    assert!(matches!(member(&reported, "taskbarAutoHide"), Some(JsonValue::Bool(true))));
}

#[test]
fn rendered_icons_hold_four_bytes_per_pixel() {
    let wide = r##"<svg xmlns="http://www.w3.org/2000/svg" width="40" height="10"><rect width="40" height="10" fill="#b87333"/></svg>"##;
    let icon = render_svg_icon(wide.as_bytes()).expect("icon");
    assert_eq!((icon.width, icon.height), (40, 10));
    assert_eq!(icon.rgba.len(), 40 * 10 * 4);
    assert!(icon.rgba.chunks_exact(4).all(|pixel| pixel == [0xb8, 0x73, 0x33, 0xff]));
}
