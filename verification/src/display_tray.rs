use vstd::prelude::*;
use crate::json::{as_bool, as_i64, get, json_wf, members_insert, members_insert_all, json_as_array, json_as_bool, json_as_i64, json_get, JsonValue};
use crate::numbers::{i64_string, int_text};
use crate::text::{concat2, concat3, owned, str_eq};

verus! {

/// A display mode offered in the tray menu.
#[derive(Debug, Clone, Copy, PartialEq, Eq, Structural)]
pub struct ResolutionPreset {
    pub width: i32,
    pub height: i32,
    pub refresh_rate: i32,
}

/// What the display tray shows, read from a bridge status.
#[derive(Debug)]
pub struct DisplayStatus {
    pub taskbar_auto_hide: bool,
    pub width: i32,
    pub height: i32,
    pub refresh_rate: i32,
    pub available_resolutions: Vec<ResolutionPreset>,
    pub current_scale: i32,
    pub available_scales: Vec<i32>,
    pub system_uses_light_theme: bool,
}

pub open spec fn default_presets() -> Seq<ResolutionPreset> {
    seq![
        ResolutionPreset { width: 1920, height: 1080, refresh_rate: 60 },
        ResolutionPreset { width: 2560, height: 1440, refresh_rate: 60 },
    ]
}

pub open spec fn default_scales() -> Seq<i32> {
    seq![100i32, 125i32, 150i32, 175i32, 200i32]
}

pub fn default_resolution_presets() -> (v: Vec<ResolutionPreset>)
    ensures
        v@ == default_presets(),
{
    let mut v: Vec<ResolutionPreset> = Vec::new();
    v.push(ResolutionPreset { width: 1920, height: 1080, refresh_rate: 60 });
    v.push(ResolutionPreset { width: 2560, height: 1440, refresh_rate: 60 });
    assert(v@ =~= default_presets());
    v
}

impl DisplayStatus {
    /// The status shown before the bridge has answered.
    pub fn default_status() -> (s: Self)
        ensures
            !s.taskbar_auto_hide,
            s.width == 1920 && s.height == 1080 && s.refresh_rate == 60,
            s.available_resolutions@ == default_presets(),
            s.current_scale == 100,
            s.available_scales@ == default_scales(),
            s.system_uses_light_theme,
    {
        let mut scales: Vec<i32> = Vec::new();
        scales.push(100);
        scales.push(125);
        scales.push(150);
        scales.push(175);
        scales.push(200);
        assert(scales@ =~= default_scales());
        DisplayStatus {
            taskbar_auto_hide: false,
            width: 1920,
            height: 1080,
            refresh_rate: 60,
            available_resolutions: default_resolution_presets(),
            current_scale: 100,
            available_scales: scales,
            system_uses_light_theme: true,
        }
    }
}

/// `v` as an `i32`, when it is an integer in range.
pub open spec fn as_i32(v: Option<JsonValue>) -> Option<i32> {
    match as_i64(v) {
        Some(x) => if i32::MIN <= x <= i32::MAX {
            Some(x as i32)
        } else {
            None
        },
        None => None,
    }
}

fn json_as_i32(v: Option<&JsonValue>) -> (r: Option<i32>)
    ensures
        r == as_i32(match v { Some(x) => Some(*x), None => None }),
{
    match json_as_i64(v) {
        Some(x) => if i32::MIN as i64 <= x && x <= i32::MAX as i64 {
            Some(x as i32)
        } else {
            None
        },
        None => None,
    }
}

/// A display mode described by `width`, `height` and `refreshRate`.
pub open spec fn preset_of(v: JsonValue) -> Option<ResolutionPreset> {
    match (as_i32(get(v, "width"@)), as_i32(get(v, "height"@)), as_i32(get(v, "refreshRate"@))) {
        (Some(w), Some(h), Some(r)) => Some(ResolutionPreset { width: w, height: h, refresh_rate: r }),
        _ => None,
    }
}

pub fn parse_resolution_preset(value: &JsonValue) -> (r: Option<ResolutionPreset>)
    ensures
        r == preset_of(*value),
{
    let w = json_as_i32(json_get(value, "width"));
    let h = json_as_i32(json_get(value, "height"));
    let rate = json_as_i32(json_get(value, "refreshRate"));
    match (w, h, rate) {
        (Some(w), Some(h), Some(rate)) => Some(ResolutionPreset { width: w, height: h, refresh_rate: rate }),
        _ => None,
    }
}

/// The modes among a list of items, in order.
pub open spec fn presets_in(items: Seq<JsonValue>) -> Seq<ResolutionPreset>
    decreases items.len(),
{
    if items.len() == 0 {
        Seq::empty()
    } else {
        presets_in(items.drop_last()) + match preset_of(items.last()) {
            Some(p) => seq![p],
            None => Seq::empty(),
        }
    }
}

/// The `i32` integers among a list of items, in order.
pub open spec fn i32s_in(items: Seq<JsonValue>) -> Seq<i32>
    decreases items.len(),
{
    if items.len() == 0 {
        Seq::empty()
    } else {
        i32s_in(items.drop_last()) + match as_i32(Some(items.last())) {
            Some(x) => seq![x],
            None => Seq::empty(),
        }
    }
}

fn collect_presets(items: &Vec<JsonValue>) -> (out: Vec<ResolutionPreset>)
    ensures
        out@ == presets_in(items@),
{
    let mut out: Vec<ResolutionPreset> = Vec::new();
    let mut i: usize = 0;
    while i < items.len()
        invariant
            i <= items@.len(),
            out@ == presets_in(items@.take(i as int)),
        decreases items.len() - i,
    {
        assert(items@.take(i + 1).drop_last() =~= items@.take(i as int));
        assert(items@.take(i + 1).last() == items@[i as int]);
        match parse_resolution_preset(&items[i]) {
            Some(p) => {
                out.push(p);
            },
            None => {},
        }
        i = i + 1;
        assert(out@ =~= presets_in(items@.take(i as int)));
    }
    assert(items@.take(i as int) =~= items@);
    out
}

fn collect_i32s(items: &Vec<JsonValue>) -> (out: Vec<i32>)
    ensures
        out@ == i32s_in(items@),
{
    let mut out: Vec<i32> = Vec::new();
    let mut i: usize = 0;
    while i < items.len()
        invariant
            i <= items@.len(),
            out@ == i32s_in(items@.take(i as int)),
        decreases items.len() - i,
    {
        assert(items@.take(i + 1).drop_last() =~= items@.take(i as int));
        assert(items@.take(i + 1).last() == items@[i as int]);
        match json_as_i32(Some(&items[i])) {
            Some(x) => {
                out.push(x);
            },
            None => {},
        }
        i = i + 1;
        assert(out@ =~= i32s_in(items@.take(i as int)));
    }
    assert(items@.take(i as int) =~= items@);
    out
}

pub open spec fn or_default<T>(v: Option<T>, d: T) -> T {
    match v {
        Some(x) => x,
        None => d,
    }
}

pub open spec fn opt_member(v: Option<JsonValue>, key: Seq<char>) -> Option<JsonValue> {
    match v {
        Some(x) => get(x, key),
        None => None,
    }
}

/// The list under `key`, when it is a non-empty list of what `f` reads.
pub open spec fn nonempty_or<T>(found: Seq<T>, present: bool, d: Seq<T>) -> Seq<T> {
    if present && found.len() > 0 {
        found
    } else {
        d
    }
}

/// Reads a bridge status; what is missing or malformed keeps its default.
pub fn parse_status(raw: &JsonValue) -> (s: DisplayStatus)
    ensures
        s.taskbar_auto_hide == or_default(as_bool(get(*raw, "taskbarAutoHide"@)), false),
        s.system_uses_light_theme == or_default(as_bool(get(*raw, "systemUsesLightTheme"@)), true),
        s.width == or_default(as_i32(opt_member(get(*raw, "resolution"@), "width"@)), 1920i32),
        s.height == or_default(as_i32(opt_member(get(*raw, "resolution"@), "height"@)), 1080i32),
        s.refresh_rate == or_default(as_i32(opt_member(get(*raw, "resolution"@), "refreshRate"@)), 60i32),
        s.available_resolutions@ == match crate::json::as_array(
            opt_member(get(*raw, "resolution"@), "availableModes"@),
        ) {
            Some(items) => nonempty_or(presets_in(items), true, default_presets()),
            None => default_presets(),
        },
        s.current_scale == or_default(as_i32(opt_member(get(*raw, "scale"@), "currentPercent"@)), 100i32),
        s.available_scales@ == match crate::json::as_array(
            opt_member(get(*raw, "scale"@), "availablePercentages"@),
        ) {
            Some(items) => nonempty_or(i32s_in(items), true, default_scales()),
            None => default_scales(),
        },
{
    let mut status = DisplayStatus::default_status();
    if let Some(b) = json_as_bool(json_get(raw, "taskbarAutoHide")) {
        status.taskbar_auto_hide = b;
    }
    if let Some(b) = json_as_bool(json_get(raw, "systemUsesLightTheme")) {
        status.system_uses_light_theme = b;
    }
    if let Some(res) = json_get(raw, "resolution") {
        if let Some(w) = json_as_i32(json_get(res, "width")) {
            status.width = w;
        }
        if let Some(h) = json_as_i32(json_get(res, "height")) {
            status.height = h;
        }
        if let Some(r) = json_as_i32(json_get(res, "refreshRate")) {
            status.refresh_rate = r;
        }
        if let Some(values) = json_as_array(json_get(res, "availableModes")) {
            let parsed = collect_presets(values);
            if parsed.len() > 0 {
                status.available_resolutions = parsed;
            }
        }
    }
    if let Some(scale) = json_get(raw, "scale") {
        if let Some(c) = json_as_i32(json_get(scale, "currentPercent")) {
            status.current_scale = c;
        }
        if let Some(values) = json_as_array(json_get(scale, "availablePercentages")) {
            let parsed = collect_i32s(values);
            if parsed.len() > 0 {
                status.available_scales = parsed;
            }
        }
    }
    status
}

/// Which of the four icons the tray shows: pinned or not, dark or light
/// (the dark icon on a light theme).
pub fn icon_variant(status: &DisplayStatus) -> (r: (bool, bool))
    ensures
        r == (!status.taskbar_auto_hide, status.system_uses_light_theme),
{
    (!status.taskbar_auto_hide, status.system_uses_light_theme)
}

pub fn tooltip(status: &DisplayStatus) -> (s: &'static str)
    ensures
        s@ == if status.taskbar_auto_hide { "Taskbar: Auto-hide"@ } else { "Taskbar: Always visible"@ },
{
    if status.taskbar_auto_hide {
        "Taskbar: Auto-hide"
    } else {
        "Taskbar: Always visible"
    }
}

/// Menu command ids.
pub const CMD_TOGGLE_TASKBAR: u32 = 1001;
pub const CMD_SETTINGS: u32 = 1002;
pub const CMD_EXIT: u32 = 1003;
pub const CMD_RES_BASE: u32 = 2000;
pub const CMD_SCALE_BASE: u32 = 3000;

/// An entry of a tray menu.
#[derive(Debug)]
pub enum MenuEntry {
    Item { id: u32, label: String, checked: Option<bool> },
    Separator,
    Submenu { label: String, items: Vec<MenuEntry> },
}

/// `<w> x <h> @<r>Hz`.
pub open spec fn preset_label(p: ResolutionPreset) -> Seq<char> {
    int_text(p.width as int) + " x "@ + int_text(p.height as int) + " @"@ + int_text(p.refresh_rate as int)
        + "Hz"@
}

fn preset_label_string(p: ResolutionPreset) -> (s: String)
    ensures
        s@ == preset_label(p),
{
    let a = concat3(i64_string(p.width as i64).as_str(), " x ", i64_string(p.height as i64).as_str());
    let b = concat3(a.as_str(), " @", i64_string(p.refresh_rate as i64).as_str());
    concat2(b.as_str(), "Hz")
}

/// The resolution submenu: one checked entry per preset, the current mode
/// checked.
pub open spec fn resolution_item_ok(e: MenuEntry, i: int, p: ResolutionPreset, status: DisplayStatus) -> bool {
    e matches MenuEntry::Item { id, label, checked } && id == CMD_RES_BASE + i && label@ == preset_label(p)
        && checked == Some(p.width == status.width && p.height == status.height && p.refresh_rate
        == status.refresh_rate)
}

pub open spec fn scale_item_ok(e: MenuEntry, i: int, scale: i32, status: DisplayStatus) -> bool {
    e matches MenuEntry::Item { id, label, checked } && id == CMD_SCALE_BASE + i && label@ == int_text(
        scale as int,
    ) + "%"@ && checked == Some(scale == status.current_scale)
}

/// The tray's context menu: the pin toggle, the resolution and scale
/// submenus, settings and exit. Entry `i` of a submenu has the id of its
/// base plus `i`, which must fit in a command id; past a thousand presets
/// the resolution ids run into the scale ids, and `menu_action` reads such
/// an id as a resolution.
pub fn context_menu(status: &DisplayStatus, presets: &Vec<ResolutionPreset>) -> (menu: Vec<MenuEntry>)
    requires
        CMD_RES_BASE + presets@.len() <= u32::MAX,
        CMD_SCALE_BASE + status.available_scales@.len() <= u32::MAX,
    ensures
        menu@.len() == 8,
        menu@[0] matches MenuEntry::Item { id, label, checked } && id == CMD_TOGGLE_TASKBAR && label@
            == "Taskbar is pinned"@ && checked == Some(!status.taskbar_auto_hide),
        menu@[1] is Separator,
        menu@[2] matches MenuEntry::Submenu { label, items } && label@ == "Resolution"@ && items@.len()
            == presets@.len() && forall|i: int|
            0 <= i < items@.len() ==> resolution_item_ok(#[trigger] items@[i], i, presets@[i], *status),
        menu@[3] matches MenuEntry::Submenu { label, items } && label@ == "Scale"@ && items@.len()
            == status.available_scales@.len() && forall|i: int|
            0 <= i < items@.len() ==> scale_item_ok(#[trigger] items@[i], i, status.available_scales@[i], *status),
        menu@[4] is Separator,
        menu@[5] matches MenuEntry::Item { id, label, checked } && id == CMD_SETTINGS && label@
            == "Settings..."@ && checked is None,
        menu@[6] is Separator,
        menu@[7] matches MenuEntry::Item { id, label, checked } && id == CMD_EXIT && label@ == "Exit"@
            && checked is None,
{
    let mut menu: Vec<MenuEntry> = Vec::new();
    menu.push(
        MenuEntry::Item {
            id: CMD_TOGGLE_TASKBAR,
            label: owned("Taskbar is pinned"),
            checked: Some(!status.taskbar_auto_hide),
        },
    );
    menu.push(MenuEntry::Separator);
    let mut res_items: Vec<MenuEntry> = Vec::new();
    let mut i: usize = 0;
    while i < presets.len()
        invariant
            i <= presets@.len(),
            CMD_RES_BASE + presets@.len() <= u32::MAX,
            res_items@.len() == i,
            forall|j: int| 0 <= j < i ==> resolution_item_ok(#[trigger] res_items@[j], j, presets@[j], *status),
        decreases presets.len() - i,
    {
        let p = presets[i];
        let checked = p.width == status.width && p.height == status.height && p.refresh_rate == status.refresh_rate;
        res_items.push(
            MenuEntry::Item { id: CMD_RES_BASE + i as u32, label: preset_label_string(p), checked: Some(checked) },
        );
        i = i + 1;
    }
    menu.push(MenuEntry::Submenu { label: owned("Resolution"), items: res_items });
    let mut scale_items: Vec<MenuEntry> = Vec::new();
    let mut k: usize = 0;
    while k < status.available_scales.len()
        invariant
            k <= status.available_scales@.len(),
            CMD_SCALE_BASE + status.available_scales@.len() <= u32::MAX,
            scale_items@.len() == k,
            forall|j: int|
                0 <= j < k ==> scale_item_ok(#[trigger] scale_items@[j], j, status.available_scales@[j], *status),
        decreases status.available_scales.len() - k,
    {
        let s = status.available_scales[k];
        scale_items.push(
            MenuEntry::Item {
                id: CMD_SCALE_BASE + k as u32,
                label: concat2(i64_string(s as i64).as_str(), "%"),
                checked: Some(s == status.current_scale),
            },
        );
        k = k + 1;
    }
    menu.push(MenuEntry::Submenu { label: owned("Scale"), items: scale_items });
    menu.push(MenuEntry::Separator);
    menu.push(MenuEntry::Item { id: CMD_SETTINGS, label: owned("Settings..."), checked: None });
    menu.push(MenuEntry::Separator);
    menu.push(MenuEntry::Item { id: CMD_EXIT, label: owned("Exit"), checked: None });
    menu
}

/// What a chosen menu command does.
#[derive(Debug, PartialEq, Eq)]
pub enum MenuAction {
    ToggleTaskbar,
    /// Open this settings address.
    OpenSettings(String),
    Exit,
    SetResolution(ResolutionPreset),
    SetScale(i32),
    Nothing,
}

/// The action of menu command `command_id`.
pub fn menu_command_action(command_id: u32, daemon_ui_url: &str, presets: &Vec<ResolutionPreset>, scales: &Vec<
    i32,
>) -> (a: MenuAction)
    ensures
        command_id == CMD_TOGGLE_TASKBAR ==> a is ToggleTaskbar,
        command_id == CMD_SETTINGS ==> (a matches MenuAction::OpenSettings(u) && u@ == daemon_ui_url@
            + "?section=ext:windows-display-manager"@),
        command_id == CMD_EXIT ==> a is Exit,
        CMD_RES_BASE <= command_id < CMD_RES_BASE + presets@.len() ==> a == MenuAction::SetResolution(
            presets@[command_id - CMD_RES_BASE],
        ),
        !(CMD_RES_BASE <= command_id < CMD_RES_BASE + presets@.len()) && CMD_SCALE_BASE <= command_id
            < CMD_SCALE_BASE + scales@.len() ==> a == MenuAction::SetScale(scales@[command_id - CMD_SCALE_BASE]),
        command_id != CMD_TOGGLE_TASKBAR && command_id != CMD_SETTINGS && command_id != CMD_EXIT && !(CMD_RES_BASE
            <= command_id < CMD_RES_BASE + presets@.len()) && !(CMD_SCALE_BASE <= command_id < CMD_SCALE_BASE
            + scales@.len()) ==> a is Nothing,
{
    if command_id == CMD_TOGGLE_TASKBAR {
        return MenuAction::ToggleTaskbar;
    }
    if command_id == CMD_SETTINGS {
        return MenuAction::OpenSettings(concat2(daemon_ui_url, "?section=ext:windows-display-manager"));
    }
    if command_id == CMD_EXIT {
        return MenuAction::Exit;
    }
    if command_id >= CMD_RES_BASE && ((command_id - CMD_RES_BASE) as usize) < presets.len() {
        return MenuAction::SetResolution(presets[(command_id - CMD_RES_BASE) as usize]);
    }
    if command_id >= CMD_SCALE_BASE && ((command_id - CMD_SCALE_BASE) as usize) < scales.len() {
        return MenuAction::SetScale(scales[(command_id - CMD_SCALE_BASE) as usize]);
    }
    MenuAction::Nothing
}

/// Copies every member of `source` into `target` when both are objects;
/// otherwise `target` is left as it is.
pub fn merge_object(target: JsonValue, source: JsonValue) -> (r: JsonValue)
    requires
        json_wf(source),
    ensures
        (target is Object && source is Object) ==> (r is Object && forall|k: Seq<char>| #[trigger] get(r, k) == match get(source, k) {
            Some(v) => Some(v),
            None => get(target, k),
        }),
        !(target is Object && source is Object) ==> r == target,
        json_wf(target) ==> json_wf(r),
{
    match (target, source) {
        (JsonValue::Object(t), JsonValue::Object(s)) => JsonValue::Object(members_insert_all(t, s)),
        (t, _) => t,
    }
}

/// Records the outcome of a display action in the extension's saved data:
/// the action's id, that it succeeded, and what the bridge answered. Data
/// that is not an object is left alone.
pub fn record_action_result(config: JsonValue, action_id: &str, result: JsonValue) -> (r: JsonValue)
    ensures
        config is Object ==> r is Object,
        config is Object ==> (get(r, "lastActionId"@) matches Some(JsonValue::Str(id)) && id@ == action_id@),
        config is Object ==> forall|k: Seq<char>| #[trigger] get(r, k) == if k == "lastResult"@ {
            Some(result)
        } else if k == "lastActionOk"@ {
            Some(JsonValue::Bool(true))
        } else if k == "lastActionId"@ {
            get(r, k)
        } else {
            get(config, k)
        },
        !(config is Object) ==> r == config,
{
    proof {
        reveal_strlit("lastActionId");
        reveal_strlit("lastActionOk");
        reveal_strlit("lastResult");
        assert("lastActionId"@[10] != "lastActionOk"@[10]);
        assert("lastActionId"@.len() != "lastResult"@.len());
    }
    match config {
        JsonValue::Object(entries) => {
            let entries = members_insert(entries, owned("lastActionId"), JsonValue::Str(owned(action_id)));
            let entries = members_insert(entries, owned("lastActionOk"), JsonValue::Bool(true));
            let entries = members_insert(entries, owned("lastResult"), result);
            JsonValue::Object(entries)
        },
        other => other,
    }
}

/// The scale that a `set-scale` answer says was applied: the requested
/// percentage, when the bridge reports it applied and it fits an `i32`.
pub open spec fn applied_scale(action_id: Seq<char>, result: JsonValue) -> Option<i32> {
    if action_id == "set-scale"@ && as_bool(get(result, "applied"@)) == Some(true) {
        as_i32(opt_member(get(result, "requested"@), "scalePercent"@))
    } else {
        None
    }
}

/// What the tray shows after an action: the status the bridge answered,
/// with the scale it just applied.
pub fn status_after_action(action_id: &str, result: &JsonValue) -> (s: DisplayStatus)
    ensures
        s.taskbar_auto_hide == or_default(as_bool(get(*result, "taskbarAutoHide"@)), false),
        s.system_uses_light_theme == or_default(as_bool(get(*result, "systemUsesLightTheme"@)), true),
        s.width == or_default(as_i32(opt_member(get(*result, "resolution"@), "width"@)), 1920i32),
        s.height == or_default(as_i32(opt_member(get(*result, "resolution"@), "height"@)), 1080i32),
        s.refresh_rate == or_default(as_i32(opt_member(get(*result, "resolution"@), "refreshRate"@)), 60i32),
        s.available_resolutions@ == match crate::json::as_array(
            opt_member(get(*result, "resolution"@), "availableModes"@),
        ) {
            Some(items) => nonempty_or(presets_in(items), true, default_presets()),
            None => default_presets(),
        },
        s.current_scale == match applied_scale(action_id@, *result) {
            Some(v) => v,
            None => or_default(as_i32(opt_member(get(*result, "scale"@), "currentPercent"@)), 100i32),
        },
        s.available_scales@ == match crate::json::as_array(
            opt_member(get(*result, "scale"@), "availablePercentages"@),
        ) {
            Some(items) => nonempty_or(i32s_in(items), true, default_scales()),
            None => default_scales(),
        },
{
    let mut status = parse_status(result);
    let applied = match json_as_bool(json_get(result, "applied")) {
        Some(b) => b,
        None => false,
    };
    if str_eq(action_id, "set-scale") && applied {
        match json_get(result, "requested") {
            Some(requested) => {
                match json_as_i32(json_get(requested, "scalePercent")) {
                    Some(scale) => {
                        status.current_scale = scale;
                    },
                    None => {},
                }
            },
            None => {},
        }
    }
    status
}

} // verus!
