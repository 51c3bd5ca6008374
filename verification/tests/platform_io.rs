use copperd::api::{notify_command, replace_char, sort_entries, FileEntry, NotifyPlatform, ShellResult};
use copperd::autostart::{
    command_output, desired_from_core_config, escape_desktop_exec_arg, linux_desktop_entry, linux_desktop_entry_path,
    macos_launch_agent_path, macos_launch_agent_plist, preferred_windows_launch_path, quoted_path,
    unregister_succeeded, xml_escape, AutoStartError,
};
use copperd::json::{JsonNumber, JsonValue};
use copperd::platform::unix_now_secs;

fn json(text: &str) -> JsonValue {
    fn convert(v: serde_json::Value) -> JsonValue {
        match v {
            serde_json::Value::Null => JsonValue::Null,
            serde_json::Value::Bool(b) => JsonValue::Bool(b),
            serde_json::Value::Number(n) => {
                if let Some(u) = n.as_u64() {
                    JsonValue::Number(JsonNumber::PosInt(u))
                } else if let Some(i) = n.as_i64() {
                    JsonValue::Number(JsonNumber::NegInt(i))
                } else {
                    JsonValue::Number(JsonNumber::Other(n.to_string()))
                }
            }
            serde_json::Value::String(s) => JsonValue::Str(s),
            serde_json::Value::Array(items) => JsonValue::Array(items.into_iter().map(convert).collect()),
            serde_json::Value::Object(map) => JsonValue::Object(map.into_iter().map(|(k, v)| (k, convert(v))).collect()),
        }
    }
    convert(serde_json::from_str(text).expect("test JSON"))
}

#[test]
fn file_entry_fields_are_accessible() {
    let entry = FileEntry {
        name: "Desktop".to_string(),
        path: "C:/Users/test/Desktop".to_string(),
        is_dir: true,
    };
    assert_eq!(entry.name, "Desktop");
    assert!(entry.is_dir);
}

fn entry(name: &str, path: &str) -> FileEntry {
    FileEntry { name: name.to_string(), path: path.to_string(), is_dir: false }
}

#[test]
fn sort_entries_orders_by_name_and_keeps_every_entry() {
    let sorted = sort_entries(vec![entry("b", "1"), entry("a", "2"), entry("c", "3"), entry("a", "4")]);
    let names: Vec<&str> = sorted.iter().map(|e| e.name.as_str()).collect();
    assert_eq!(names, vec!["a", "a", "b", "c"]);
    let paths: Vec<&str> = sorted.iter().map(|e| e.path.as_str()).collect();
    assert_eq!(paths, vec!["2", "4", "1", "3"]);
}

#[test]
fn shell_result_holds_exit_code_and_output() {
    let result = ShellResult { code: -1, stdout: String::new(), stderr: "missing".to_string() };
    assert_eq!(result.code, -1);
    assert_eq!(result.stderr, "missing");
}

#[test]
fn notify_command_differs_by_platform() {
    let win = notify_command(NotifyPlatform::Windows, "it's done").expect("windows command");
    assert_eq!(win.program, "powershell");
    assert!(win.args[5].contains("'Copper','it''s done'"));
    let mac = notify_command(NotifyPlatform::MacOs, "say \"hi\"").expect("macos command");
    assert_eq!(mac.program, "osascript");
    assert_eq!(mac.args[1], "display notification \"say \\\"hi\\\"\" with title \"Copper\"");
    let linux = notify_command(NotifyPlatform::Linux, "hello").expect("linux command");
    assert_eq!(linux.args, vec!["Copper".to_string(), "hello".to_string()]);
    assert!(notify_command(NotifyPlatform::Other, "hello").is_none());
}

#[test]
fn replace_char_replaces_every_occurrence() {
    assert_eq!(replace_char("a'b'c", '\'', "''"), "a''b''c");
}

#[test]
fn desired_from_core_config_defaults_false() {
    assert!(!desired_from_core_config(&json("{}")));
}

#[test]
fn desired_from_core_config_reads_true() {
    assert!(desired_from_core_config(&json(r#"{ "autoStart": true }"#)));
}

#[test]
fn desired_from_core_config_ignores_non_boolean_values() {
    assert!(!desired_from_core_config(&json(r#"{ "autoStart": "yes" }"#)));
}

#[test]
fn linux_desktop_entry_escapes_spaces() {
    let rendered = linux_desktop_entry("/tmp/Copper App/copperd");
    assert!(rendered.contains("Exec=/tmp/Copper\\ App/copperd"));
}

#[test]
fn escape_desktop_exec_arg_escapes_quotes_and_backslashes() {
    assert_eq!(escape_desktop_exec_arg("a\"b'c\\d\te"), "a\\\"b\\'c\\\\d\\\te");
}

#[test]
fn macos_launch_agent_includes_label_and_program() {
    let rendered = macos_launch_agent_plist(
        "/tmp/Copper.app/Contents/MacOS/copperd",
        "/tmp/Copper.app/Contents/MacOS",
        "/tmp/copper.stdout.log",
        "/tmp/copper.stderr.log",
    );
    assert!(rendered.contains("dev.copper.Copper"));
    assert!(rendered.contains("/tmp/Copper.app/Contents/MacOS/copperd"));
}

#[test]
fn xml_escape_replaces_markup_characters() {
    assert_eq!(xml_escape("a&b<c>d"), "a&amp;b&lt;c&gt;d");
}

#[test]
fn autostart_paths_are_below_home() {
    assert_eq!(linux_desktop_entry_path("/home/u"), "/home/u/.config/autostart/Copper.desktop");
    assert_eq!(macos_launch_agent_path("/Users/u"), "/Users/u/Library/LaunchAgents/dev.copper.Copper.plist");
}

#[test]
fn windows_launch_prefers_existing_gui_binary() {
    assert_eq!(preferred_windows_launch_path("copperd.exe".into(), "copper.exe".into(), true), "copper.exe");
    assert_eq!(preferred_windows_launch_path("copperd.exe".into(), "copper.exe".into(), false), "copperd.exe");
    assert_eq!(quoted_path("C:/x y/copper.exe"), "\"C:/x y/copper.exe\"");
}

#[test]
fn unregister_accepts_missing_entries() {
    assert!(unregister_succeeded(true, ""));
    assert!(unregister_succeeded(false, "ERROR: Unable to find the specified registry key"));
    assert!(!unregister_succeeded(false, "Access is denied"));
    assert_eq!(command_output("  out\n", "err  "), "out\nerr");
}

#[test]
fn autostart_errors_have_messages() {
    assert_eq!(AutoStartError::HomeDirUnavailable.to_string(), "home directory is not available");
    assert_eq!(AutoStartError::CommandFailed("x".into()).to_string(), "autostart command failed: x");
}

#[test]
fn unix_now_secs_returns_non_zeroish_timestamp() {
    assert!(unix_now_secs() > 1_700_000_000);
}
