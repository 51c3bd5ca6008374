use copperd::keyboard::{key_label, normalize_combo, send_combo, send_key, type_text};

#[test]
fn normalize_combo_orders_modifiers() {
    let result = normalize_combo("shift+ctrl+a");
    assert_eq!(result.combo, "ctrl+shift+a");
}

#[test]
fn normalize_combo_single_key() {
    let result = normalize_combo("scroll_lock");
    assert_eq!(result.combo, "scroll_lock");
    assert_eq!(result.label, "Scroll Lock");
}

#[test]
fn normalize_combo_label_format() {
    let result = normalize_combo("ctrl+alt+f12");
    assert_eq!(result.combo, "ctrl+alt+f12");
    assert_eq!(result.label, "Ctrl + Alt + F12");
}

#[test]
fn key_label_function_keys() {
    assert_eq!(key_label("f12"), "F12");
    assert_eq!(key_label("f1"), "F1");
}

#[test]
fn key_label_modifiers() {
    assert_eq!(key_label("ctrl"), "Ctrl");
    assert_eq!(key_label("alt"), "Alt");
    assert_eq!(key_label("shift"), "Shift");
}

#[test]
fn type_text_is_noop_and_does_not_panic() {
    type_text("hello world");
}

#[test]
fn send_key_is_noop_and_does_not_panic() {
    send_key("f12");
}

#[test]
fn send_combo_is_noop_and_does_not_panic() {
    send_combo("ctrl+alt+f12");
}

#[test]
fn normalize_combo_keeps_the_first_key_after_the_modifiers() {
    let result = normalize_combo("x + alt + y");
    assert_eq!(result.combo, "alt+x");
    assert_eq!(result.label, "Alt + X");
}

#[test]
fn normalizing_a_normalized_combo_changes_nothing() {
    for combo in ["shift+ctrl+a", " cmd + alt + x + y ", "ctrl+ctrl", "", "+", "shift", "a+b"] {
        let once = normalize_combo(combo);
        let twice = normalize_combo(&once.combo);
        assert_eq!(twice.combo, once.combo);
        assert_eq!(twice.label, once.label);
    }
    assert_eq!(normalize_combo(" cmd + alt + x + y ").combo, "alt+cmd+x");
}
