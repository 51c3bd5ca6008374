use vstd::prelude::*;
use crate::json::{
    as_array, as_i64, as_str, clone_json, get, json_as_array, json_as_i64, json_as_str, json_get,
    members_or_none, members_without, same_json, set_member, JsonNumber, JsonValue,
};
use crate::numbers::{i64_string, int_text, parse_i64, parse_i64_chars};
use crate::text::{concat2, concat3, owned, str_eq, strings_view};

verus! {

/// The extension whose settings the host itself carries out.
pub const WINDOWS_DISPLAY_MANAGER_ID: &'static str = "windows-display-manager";

/// The host capability behind that extension.
pub const WINDOWS_DISPLAY_CAPABILITY: &'static str = "host.windows-display";

/// The capabilities that the host implements for particular extensions.
#[derive(Debug, Default, Clone, Copy)]
pub struct HostExtensionRegistry;

/// Versions of the state files a host capability reads and writes.
#[derive(Debug, Clone, Copy, PartialEq, Eq)]
pub struct HostStateContract {
    pub capability_id: &'static str,
    pub config_schema_version: u32,
    pub status_schema_version: u32,
}

/// What a host capability is and which extensions it serves.
#[derive(Debug, Clone, PartialEq, Eq)]
pub struct HostCapabilityInfo {
    pub id: &'static str,
    pub extension_ids: Vec<&'static str>,
    pub background_polling: bool,
    pub state_contract: HostStateContract,
}

/// The result of one settings action.
#[derive(Debug)]
pub struct AppliedActionResult {
    pub action_id: String,
    pub result: JsonValue,
}

/// The extensions the host serves with a capability of its own.
pub open spec fn hosted(extension_id: Seq<char>) -> bool {
    extension_id == WINDOWS_DISPLAY_MANAGER_ID@
}

pub open spec fn is_display_contract(c: HostStateContract) -> bool {
    &&& c.capability_id@ == WINDOWS_DISPLAY_CAPABILITY@
    &&& c.config_schema_version == 1
    &&& c.status_schema_version == 1
}

fn display_contract() -> (c: HostStateContract)
    ensures
        is_display_contract(c),
{
    HostStateContract {
        capability_id: WINDOWS_DISPLAY_CAPABILITY,
        config_schema_version: 1,
        status_schema_version: 1,
    }
}

impl HostExtensionRegistry {
    pub fn new() -> (r: Self) {
        HostExtensionRegistry
    }

    pub fn capability_info(&self, extension_id: &str) -> (r: Option<HostCapabilityInfo>)
        ensures
            r is Some <==> hosted(extension_id@),
            r matches Some(c) ==> c.id@ == WINDOWS_DISPLAY_CAPABILITY@ && c.extension_ids@.len() == 1
                && c.extension_ids@[0]@ == WINDOWS_DISPLAY_MANAGER_ID@ && !c.background_polling
                && is_display_contract(c.state_contract),
    {
        if str_eq(extension_id, WINDOWS_DISPLAY_MANAGER_ID) {
            let mut ids: Vec<&'static str> = Vec::new();
            ids.push(WINDOWS_DISPLAY_MANAGER_ID);
            Some(
                HostCapabilityInfo {
                    id: WINDOWS_DISPLAY_CAPABILITY,
                    extension_ids: ids,
                    background_polling: false,
                    state_contract: display_contract(),
                },
            )
        } else {
            None
        }
    }

    pub fn state_contract(&self, extension_id: &str) -> (r: Option<HostStateContract>)
        ensures
            r is Some <==> hosted(extension_id@),
            r matches Some(c) ==> is_display_contract(c),
    {
        if str_eq(extension_id, WINDOWS_DISPLAY_MANAGER_ID) {
            Some(display_contract())
        } else {
            None
        }
    }
}

/// The member names of the display status are all different.
pub proof fn lemma_status_keys_distinct()
    ensures
        "lastActionId"@ != "lastActionUnix"@,
        "lastActionId"@ != "lastActionOk"@,
        "lastActionId"@ != "lastResult"@,
        "lastActionId"@ != "lastError"@,
        "lastActionId"@ != "taskbarAutoHide"@,
        "lastActionId"@ != "scalePercent"@,
        "lastActionId"@ != "resolutionWidth"@,
        "lastActionId"@ != "resolutionHeight"@,
        "lastActionId"@ != "refreshRate"@,
        "lastActionId"@ != "_stateContract"@,
        "lastActionUnix"@ != "lastActionOk"@,
        "lastActionUnix"@ != "lastResult"@,
        "lastActionUnix"@ != "lastError"@,
        "lastActionUnix"@ != "taskbarAutoHide"@,
        "lastActionUnix"@ != "scalePercent"@,
        "lastActionUnix"@ != "resolutionWidth"@,
        "lastActionUnix"@ != "resolutionHeight"@,
        "lastActionUnix"@ != "refreshRate"@,
        "lastActionUnix"@ != "_stateContract"@,
        "lastActionOk"@ != "lastResult"@,
        "lastActionOk"@ != "lastError"@,
        "lastActionOk"@ != "taskbarAutoHide"@,
        "lastActionOk"@ != "scalePercent"@,
        "lastActionOk"@ != "resolutionWidth"@,
        "lastActionOk"@ != "resolutionHeight"@,
        "lastActionOk"@ != "refreshRate"@,
        "lastActionOk"@ != "_stateContract"@,
        "lastResult"@ != "lastError"@,
        "lastResult"@ != "taskbarAutoHide"@,
        "lastResult"@ != "scalePercent"@,
        "lastResult"@ != "resolutionWidth"@,
        "lastResult"@ != "resolutionHeight"@,
        "lastResult"@ != "refreshRate"@,
        "lastResult"@ != "_stateContract"@,
        "lastError"@ != "taskbarAutoHide"@,
        "lastError"@ != "scalePercent"@,
        "lastError"@ != "resolutionWidth"@,
        "lastError"@ != "resolutionHeight"@,
        "lastError"@ != "refreshRate"@,
        "lastError"@ != "_stateContract"@,
        "taskbarAutoHide"@ != "scalePercent"@,
        "taskbarAutoHide"@ != "resolutionWidth"@,
        "taskbarAutoHide"@ != "resolutionHeight"@,
        "taskbarAutoHide"@ != "refreshRate"@,
        "taskbarAutoHide"@ != "_stateContract"@,
        "scalePercent"@ != "resolutionWidth"@,
        "scalePercent"@ != "resolutionHeight"@,
        "scalePercent"@ != "refreshRate"@,
        "scalePercent"@ != "_stateContract"@,
        "resolutionWidth"@ != "resolutionHeight"@,
        "resolutionWidth"@ != "refreshRate"@,
        "resolutionWidth"@ != "_stateContract"@,
        "resolutionHeight"@ != "refreshRate"@,
        "resolutionHeight"@ != "_stateContract"@,
        "refreshRate"@ != "_stateContract"@,
{
    reveal_strlit("lastActionId");
    assert("lastActionId"@.len() == 12);
    reveal_strlit("lastActionUnix");
    assert("lastActionUnix"@.len() == 14);
    reveal_strlit("lastActionOk");
    assert("lastActionOk"@.len() == 12);
    reveal_strlit("lastResult");
    assert("lastResult"@.len() == 10);
    reveal_strlit("lastError");
    assert("lastError"@.len() == 9);
    reveal_strlit("taskbarAutoHide");
    assert("taskbarAutoHide"@.len() == 15);
    reveal_strlit("scalePercent");
    assert("scalePercent"@.len() == 12);
    reveal_strlit("resolutionWidth");
    assert("resolutionWidth"@.len() == 15);
    reveal_strlit("resolutionHeight");
    assert("resolutionHeight"@.len() == 16);
    reveal_strlit("refreshRate");
    assert("refreshRate"@.len() == 11);
    reveal_strlit("_stateContract");
    assert("_stateContract"@.len() == 14);
    assert("lastActionId"@[10] != "lastActionOk"@[10]);
    assert("lastActionId"@[0] != "scalePercent"@[0]);
    assert("lastActionUnix"@[0] != "_stateContract"@[0]);
    assert("lastActionOk"@[0] != "scalePercent"@[0]);
    assert("taskbarAutoHide"@[0] != "resolutionWidth"@[0]);
}

/// The `_stateContract` member written into a hosted extension's status.
pub open spec fn is_status_stamp(c: JsonValue) -> bool {
    &&& c is Object
    &&& get(c, "capabilityId"@) matches Some(JsonValue::Str(s)) && s@ == WINDOWS_DISPLAY_CAPABILITY@
    &&& get(c, "schemaVersion"@) == Some(JsonValue::Number(JsonNumber::PosInt(1)))
    &&& get(c, "stateKind"@) matches Some(JsonValue::Str(s)) && s@ == "status"@
}

/// Marks the status of a hosted extension with the version of its contract;
/// any other status is left as it is.
pub fn stamp_status_contract(extension_id: &str, status: JsonValue) -> (r: JsonValue)
    ensures
        hosted(extension_id@) ==> r is Object,
        hosted(extension_id@) ==> (get(r, "_stateContract"@) matches Some(c) && is_status_stamp(c)),
        hosted(extension_id@) ==> forall|k: Seq<char>|
            k != "_stateContract"@ ==> #[trigger] get(r, k) == members_or_none(status, k),
        !hosted(extension_id@) ==> r == status,
{
    if !str_eq(extension_id, WINDOWS_DISPLAY_MANAGER_ID) {
        return status;
    }
    proof {
        reveal_strlit("capabilityId");
        reveal_strlit("schemaVersion");
        reveal_strlit("stateKind");
        assert("capabilityId"@.len() == 12);
        assert("schemaVersion"@.len() == 13);
        assert("stateKind"@.len() == 9);
    }
    let c0 = set_member(
        JsonValue::Object(Vec::new()),
        "capabilityId",
        JsonValue::Str(owned(WINDOWS_DISPLAY_CAPABILITY)),
    );
    let c1 = set_member(c0, "schemaVersion", JsonValue::Number(JsonNumber::PosInt(1)));
    let c2 = set_member(c1, "stateKind", JsonValue::Str(owned("status")));
    assert(get(c1, "capabilityId"@) == get(c0, "capabilityId"@));
    set_member(status, "_stateContract", c2)
}

pub open spec fn opt_get(v: Option<JsonValue>, key: Seq<char>) -> Option<JsonValue> {
    match v {
        Some(x) => get(x, key),
        None => None,
    }
}

/// `r` holds a copy of `src` where there is one, else what the old status held.
pub open spec fn copied_or_kept(r: Option<JsonValue>, src: Option<JsonValue>, kept: Option<JsonValue>) -> bool {
    match src {
        Some(x) => r matches Some(y) && same_json(x, y),
        None => r == kept,
    }
}

fn copy_member_if(v: JsonValue, key: &str, src: Option<&JsonValue>) -> (r: JsonValue)
    requires
        v is Object,
    ensures
        r is Object,
        copied_or_kept(get(r, key@), match src { Some(x) => Some(*x), None => None }, get(v, key@)),
        forall|k: Seq<char>| k != key@ ==> #[trigger] get(r, k) == get(v, k),
{
    match src {
        Some(x) => set_member(v, key, clone_json(x)),
        None => v,
    }
}

fn remove_member(v: JsonValue, key: &str) -> (r: JsonValue)
    requires
        v is Object,
    ensures
        r is Object,
        get(r, key@) is None,
        forall|k: Seq<char>| k != key@ ==> #[trigger] get(r, k) == get(v, k),
{
    match v {
        JsonValue::Object(entries) => JsonValue::Object(members_without(entries, key)),
        _ => v,
    }
}

fn opt_member<'a>(v: Option<&'a JsonValue>, key: &str) -> (r: Option<&'a JsonValue>)
    ensures
        match r {
            Some(x) => opt_get(match v { Some(y) => Some(*y), None => None }, key@) == Some(*x),
            None => opt_get(match v { Some(y) => Some(*y), None => None }, key@) is None,
        },
{
    match v {
        Some(x) => json_get(x, key),
        None => None,
    }
}

/// Records the outcome of a display action in the display status: what ran
/// and when, whether it succeeded, and on success the result and the
/// taskbar, scale and resolution it reports; on failure the error.
pub fn update_windows_display_status(
    state: JsonValue,
    action_id: &str,
    execution: Option<&JsonValue>,
    error: Option<&str>,
    now_secs: u64,
) -> (r: JsonValue)
    ensures
        r is Object,
        get(r, "lastActionId"@) matches Some(JsonValue::Str(s)) && s@ == action_id@,
        get(r, "lastActionUnix"@) == Some(JsonValue::Number(JsonNumber::PosInt(now_secs))),
        get(r, "lastActionOk"@) == Some(JsonValue::Bool(error is None)),
        get(r, "_stateContract"@) matches Some(c) && is_status_stamp(c),
        match execution {
            Some(e) => {
                &&& get(r, "lastResult"@) matches Some(x) && same_json(*e, x)
                &&& get(r, "lastError"@) is None
                &&& copied_or_kept(get(r, "taskbarAutoHide"@), get(*e, "taskbarAutoHide"@), members_or_none(state, "taskbarAutoHide"@))
                &&& copied_or_kept(get(r, "scalePercent"@), opt_get(get(*e, "scale"@), "currentPercent"@), members_or_none(state, "scalePercent"@))
                &&& copied_or_kept(get(r, "resolutionWidth"@), opt_get(get(*e, "resolution"@), "width"@), members_or_none(state, "resolutionWidth"@))
                &&& copied_or_kept(get(r, "resolutionHeight"@), opt_get(get(*e, "resolution"@), "height"@), members_or_none(state, "resolutionHeight"@))
                &&& copied_or_kept(get(r, "refreshRate"@), opt_get(get(*e, "resolution"@), "refreshRate"@), members_or_none(state, "refreshRate"@))
            },
            None => {
                &&& get(r, "lastResult"@) == members_or_none(state, "lastResult"@)
                &&& match error {
                    Some(m) => get(r, "lastError"@) matches Some(JsonValue::Str(s)) && s@ == m@,
                    None => get(r, "lastError"@) == members_or_none(state, "lastError"@),
                }
                &&& get(r, "taskbarAutoHide"@) == members_or_none(state, "taskbarAutoHide"@)
                &&& get(r, "scalePercent"@) == members_or_none(state, "scalePercent"@)
                &&& get(r, "resolutionWidth"@) == members_or_none(state, "resolutionWidth"@)
                &&& get(r, "resolutionHeight"@) == members_or_none(state, "resolutionHeight"@)
                &&& get(r, "refreshRate"@) == members_or_none(state, "refreshRate"@)
            },
        },
        forall|k: Seq<char>|
            k != "lastActionId"@ && k != "lastActionUnix"@ && k != "lastActionOk"@ && k != "lastResult"@
                && k != "lastError"@ && k != "taskbarAutoHide"@ && k != "scalePercent"@ && k
                != "resolutionWidth"@ && k != "resolutionHeight"@ && k != "refreshRate"@ && k
                != "_stateContract"@ ==> #[trigger] get(r, k) == members_or_none(state, k),
{
    proof {
        lemma_status_keys_distinct();
    }
    let ghost st = state;
    let s0 = set_member(state, "lastActionId", JsonValue::Str(owned(action_id)));
    let s1 = set_member(s0, "lastActionUnix", JsonValue::Number(JsonNumber::PosInt(now_secs)));
    let s2 = set_member(s1, "lastActionOk", JsonValue::Bool(error.is_none()));
    assert forall|k: Seq<char>|
        k != "lastActionId"@ && k != "lastActionUnix"@ && k != "lastActionOk"@ implies #[trigger] get(s2, k)
            == members_or_none(st, k) by {
        assert(get(s1, k) == get(s0, k));
    }
    assert(get(s2, "lastActionUnix"@) == get(s1, "lastActionUnix"@));
    assert(get(s2, "lastActionId"@) == get(s0, "lastActionId"@));
    let s3 = match execution {
        Some(e) => {
            let t0 = set_member(s2, "lastResult", clone_json(e));
            let t1 = remove_member(t0, "lastError");
            let t2 = copy_member_if(t1, "taskbarAutoHide", json_get(e, "taskbarAutoHide"));
            let t3 = copy_member_if(t2, "scalePercent", opt_member(json_get(e, "scale"), "currentPercent"));
            let res = json_get(e, "resolution");
            let t4 = copy_member_if(t3, "resolutionWidth", opt_member(res, "width"));
            let t5 = copy_member_if(t4, "resolutionHeight", opt_member(res, "height"));
            let t6 = copy_member_if(t5, "refreshRate", opt_member(res, "refreshRate"));
            assert(get(t6, "lastResult"@) == get(t0, "lastResult"@));
            assert(get(t6, "lastError"@) == get(t1, "lastError"@));
            assert(get(t6, "taskbarAutoHide"@) == get(t2, "taskbarAutoHide"@));
            assert(get(t6, "scalePercent"@) == get(t3, "scalePercent"@));
            assert(get(t6, "resolutionWidth"@) == get(t4, "resolutionWidth"@));
            assert(get(t6, "resolutionHeight"@) == get(t5, "resolutionHeight"@));
            assert(get(t2, "taskbarAutoHide"@) == get(t2, "taskbarAutoHide"@));
            assert(get(t1, "taskbarAutoHide"@) == get(s2, "taskbarAutoHide"@));
            assert(get(t2, "scalePercent"@) == get(s2, "scalePercent"@));
            assert(get(t3, "resolutionWidth"@) == get(s2, "resolutionWidth"@));
            assert(get(t4, "resolutionHeight"@) == get(s2, "resolutionHeight"@));
            assert(get(t5, "refreshRate"@) == get(s2, "refreshRate"@));
            assert(get(t6, "lastActionId"@) == get(s2, "lastActionId"@));
            assert(get(t6, "lastActionUnix"@) == get(s2, "lastActionUnix"@));
            assert(get(t6, "lastActionOk"@) == get(s2, "lastActionOk"@));
            assert forall|k: Seq<char>|
                k != "lastActionId"@ && k != "lastActionUnix"@ && k != "lastActionOk"@ && k != "lastResult"@
                    && k != "lastError"@ && k != "taskbarAutoHide"@ && k != "scalePercent"@ && k
                    != "resolutionWidth"@ && k != "resolutionHeight"@ && k != "refreshRate"@ implies #[trigger] get(
                t6,
                k,
            ) == get(s2, k) by {
                assert(get(t5, k) == get(t4, k));
                assert(get(t3, k) == get(t2, k));
                assert(get(t1, k) == get(t0, k));
            }
            t6
        },
        None => match error {
            Some(m) => {
                let t = set_member(s2, "lastError", JsonValue::Str(owned(m)));
                assert forall|k: Seq<char>| k != "lastError"@ implies #[trigger] get(t, k) == get(s2, k) by {}
                t
            },
            None => s2,
        },
    };
    let r = stamp_status_contract(WINDOWS_DISPLAY_MANAGER_ID, s3);
    assert forall|k: Seq<char>| k != "_stateContract"@ implies #[trigger] get(r, k) == get(s3, k) by {}
    r
}

/// `values` with every repeat of an earlier value left out.
pub open spec fn dedup(values: Seq<Seq<char>>) -> Seq<Seq<char>>
    decreases values.len(),
{
    if values.len() == 0 {
        values
    } else {
        let d = dedup(values.drop_last());
        if d.contains(values.last()) {
            d
        } else {
            d.push(values.last())
        }
    }
}

/// Keeps the first occurrence of each value, in order.
pub fn unique_preserving_order(values: Vec<String>) -> (out: Vec<String>)
    ensures
        strings_view(out@) == dedup(strings_view(values@)),
{
    let mut out: Vec<String> = Vec::new();
    let mut i: usize = 0;
    while i < values.len()
        invariant
            i <= values@.len(),
            strings_view(out@) == dedup(strings_view(values@.take(i as int))),
            forall|a: int, b: int| 0 <= a < b < out@.len() ==> out@[a]@ != out@[b]@,
        decreases values.len() - i,
    {
        assert(strings_view(values@.take(i + 1)).drop_last() =~= strings_view(values@.take(i as int)));
        assert(strings_view(values@.take(i + 1)).last() == values@[i as int]@);
        crate::core_config::push_unique(&mut out, values[i].as_str());
        i = i + 1;
    }
    assert(values@.take(i as int) =~= values@);
    out
}

/// `width`x`height`@`rate`.
pub open spec fn mode_text(w: int, h: int, r: int) -> Seq<char> {
    int_text(w) + "x"@ + int_text(h) + "@"@ + int_text(r)
}

fn mode_string(w: i64, h: i64, r: i64) -> (s: String)
    ensures
        s@ == mode_text(w as int, h as int, r as int),
{
    let a = concat3(i64_string(w).as_str(), "x", i64_string(h).as_str());
    concat3(a.as_str(), "@", i64_string(r).as_str())
}

/// The display mode an object describes by `width`, `height` and
/// `refreshRate` (all integers).
pub open spec fn mode_of(v: JsonValue, wk: Seq<char>, hk: Seq<char>, rk: Seq<char>) -> Option<Seq<char>> {
    match (as_i64(get(v, wk)), as_i64(get(v, hk)), as_i64(get(v, rk))) {
        (Some(w), Some(h), Some(r)) => Some(mode_text(w, h, r)),
        _ => None,
    }
}

fn mode_string_of(v: &JsonValue, wk: &str, hk: &str, rk: &str) -> (r: Option<String>)
    ensures
        match mode_of(*v, wk@, hk@, rk@) {
            Some(m) => r matches Some(s) && s@ == m,
            None => r is None,
        },
{
    let w = json_as_i64(json_get(v, wk));
    let h = json_as_i64(json_get(v, hk));
    let rate = json_as_i64(json_get(v, rk));
    match (w, h, rate) {
        (Some(w), Some(h), Some(rate)) => Some(mode_string(w, h, rate)),
        _ => None,
    }
}

/// The display mode named in the display settings: `resolutionMode`, else
/// built from `resolutionWidth`, `resolutionHeight` and `refreshRate`.
pub open spec fn configured_mode(config: JsonValue) -> Option<Seq<char>> {
    match as_str(get(config, "resolutionMode"@)) {
        Some(m) => Some(m),
        None => mode_of(config, "resolutionWidth"@, "resolutionHeight"@, "refreshRate"@),
    }
}

pub fn configured_resolution_mode(config: &JsonValue) -> (r: Option<String>)
    ensures
        match configured_mode(*config) {
            Some(m) => r matches Some(s) && s@ == m,
            None => r is None,
        },
{
    match json_as_str(json_get(config, "resolutionMode")) {
        Some(m) => Some(owned(m.as_str())),
        None => mode_string_of(config, "resolutionWidth", "resolutionHeight", "refreshRate"),
    }
}

/// The scale in the display settings: an integer, or text that reads as one.
pub open spec fn configured_scale(config: JsonValue) -> Option<int> {
    match get(config, "scalePercent"@) {
        Some(v) => match as_i64(Some(v)) {
            Some(x) => Some(x),
            None => match as_str(Some(v)) {
                Some(t) => parse_i64(t),
                None => None,
            },
        },
        None => None,
    }
}

pub fn configured_scale_percent(config: &JsonValue) -> (r: Option<i64>)
    ensures
        match configured_scale(*config) {
            Some(x) => r == Some(x as i64),
            None => r is None,
        },
{
    let v = json_get(config, "scalePercent");
    match v {
        Some(_) => match json_as_i64(v) {
            Some(x) => Some(x),
            None => match json_as_str(v) {
                Some(t) => {
                    let cs = crate::text::chars_of(t.as_str());
                    parse_i64_chars(cs.as_slice())
                },
                None => None,
            },
        },
        None => None,
    }
}

/// The modes among the items of a list, in order.
pub open spec fn mode_items(items: Seq<JsonValue>) -> Seq<Seq<char>>
    decreases items.len(),
{
    if items.len() == 0 {
        Seq::empty()
    } else {
        mode_items(items.drop_last()) + match mode_of(items.last(), "width"@, "height"@, "refreshRate"@) {
            Some(m) => seq![m],
            None => Seq::empty(),
        }
    }
}

/// The integers among the items of a list, as text.
pub open spec fn int_items(items: Seq<JsonValue>) -> Seq<Seq<char>>
    decreases items.len(),
{
    if items.len() == 0 {
        Seq::empty()
    } else {
        int_items(items.drop_last()) + match as_i64(Some(items.last())) {
            Some(x) => seq![int_text(x)],
            None => Seq::empty(),
        }
    }
}

pub open spec fn opt_items(v: Option<JsonValue>) -> Seq<JsonValue> {
    match as_array(v) {
        Some(items) => items,
        None => Seq::empty(),
    }
}

/// The modes the live display status offers.
pub open spec fn live_modes(status: Option<JsonValue>) -> Seq<Seq<char>> {
    mode_items(opt_items(opt_get(opt_get(status, "resolution"@), "availableModes"@)))
}

/// The scales the live display status offers.
pub open spec fn live_scales(status: Option<JsonValue>) -> Seq<Seq<char>> {
    int_items(opt_items(opt_get(opt_get(status, "scale"@), "availablePercentages"@)))
}

/// The tray presets in the display settings.
pub open spec fn preset_modes(config: JsonValue) -> Seq<Seq<char>> {
    crate::api_call::str_items(opt_items(get(config, "trayResolutionPresets"@)))
}

pub open spec fn offered_modes(config: JsonValue, status: Option<JsonValue>) -> Seq<Seq<char>> {
    dedup(live_modes(status) + preset_modes(config) + seq![
        match configured_mode(config) {
            Some(m) => m,
            None => "1920x1080@60"@,
        },
    ])
}

pub open spec fn offered_scales(config: JsonValue, status: Option<JsonValue>) -> Seq<Seq<char>> {
    dedup(live_scales(status) + seq![
        int_text(
            match configured_scale(config) {
                Some(x) => x,
                None => 100,
            },
        ),
    ] + seq!["100"@, "125"@, "150"@, "175"@, "200"@])
}

/// A JSON array of exactly these strings.
pub open spec fn str_array_is(v: JsonValue, items: Seq<Seq<char>>) -> bool {
    v matches JsonValue::Array(xs) && xs@.len() == items.len() && forall|i: int|
        0 <= i < items.len() ==> (#[trigger] xs@[i] matches JsonValue::Str(s) && s@ == items[i])
}

/// The strings as a JSON array, in order.
pub fn string_array(v: &Vec<String>) -> (r: JsonValue)
    ensures
        str_array_is(r, strings_view(v@)),
{
    let mut xs: Vec<JsonValue> = Vec::new();
    let mut i: usize = 0;
    while i < v.len()
        invariant
            i <= v@.len(),
            xs@.len() == i,
            forall|j: int| 0 <= j < i ==> (#[trigger] xs@[j] matches JsonValue::Str(s) && s@ == v@[j]@),
        decreases v.len() - i,
    {
        xs.push(JsonValue::Str(owned(v[i].as_str())));
        i = i + 1;
    }
    JsonValue::Array(xs)
}

fn push_mode_items(out: &mut Vec<String>, items: &Vec<JsonValue>)
    ensures
        strings_view(final(out)@) == strings_view(old(out)@) + mode_items(items@),
{
    let ghost start = strings_view(out@);
    let mut i: usize = 0;
    while i < items.len()
        invariant
            i <= items@.len(),
            strings_view(out@) == start + mode_items(items@.take(i as int)),
        decreases items.len() - i,
    {
        assert(items@.take(i + 1).drop_last() =~= items@.take(i as int));
        assert(items@.take(i + 1).last() == items@[i as int]);
        let ghost before = strings_view(out@);
        let ghost piece = match mode_of(items@[i as int], "width"@, "height"@, "refreshRate"@) {
            Some(m) => seq![m],
            None => Seq::<Seq<char>>::empty(),
        };
        assert(mode_items(items@.take(i + 1)) == mode_items(items@.take(i as int)) + piece);
        match mode_string_of(&items[i], "width", "height", "refreshRate") {
            Some(m) => {
                out.push(m);
            },
            None => {},
        }
        assert(strings_view(out@) =~= before + piece);
        i = i + 1;
        assert(strings_view(out@) =~= start + mode_items(items@.take(i as int)));
    }
    assert(items@.take(i as int) =~= items@);
}

fn push_int_items(out: &mut Vec<String>, items: &Vec<JsonValue>)
    ensures
        strings_view(final(out)@) == strings_view(old(out)@) + int_items(items@),
{
    let ghost start = strings_view(out@);
    let mut i: usize = 0;
    while i < items.len()
        invariant
            i <= items@.len(),
            strings_view(out@) == start + int_items(items@.take(i as int)),
        decreases items.len() - i,
    {
        assert(items@.take(i + 1).drop_last() =~= items@.take(i as int));
        assert(items@.take(i + 1).last() == items@[i as int]);
        let ghost before = strings_view(out@);
        let ghost piece = match as_i64(Some(items@[i as int])) {
            Some(x) => seq![int_text(x)],
            None => Seq::<Seq<char>>::empty(),
        };
        assert(int_items(items@.take(i + 1)) == int_items(items@.take(i as int)) + piece);
        match json_as_i64(Some(&items[i])) {
            Some(x) => {
                out.push(i64_string(x));
            },
            None => {},
        }
        assert(strings_view(out@) =~= before + piece);
        i = i + 1;
        assert(strings_view(out@) =~= start + int_items(items@.take(i as int)));
    }
    assert(items@.take(i as int) =~= items@);
}

fn push_str_items(out: &mut Vec<String>, items: &Vec<JsonValue>)
    ensures
        strings_view(final(out)@) == strings_view(old(out)@) + crate::api_call::str_items(items@),
{
    let ghost start = strings_view(out@);
    let mut i: usize = 0;
    while i < items.len()
        invariant
            i <= items@.len(),
            strings_view(out@) == start + crate::api_call::str_items(items@.take(i as int)),
        decreases items.len() - i,
    {
        assert(items@.take(i + 1).drop_last() =~= items@.take(i as int));
        assert(items@.take(i + 1).last() == items@[i as int]);
        let ghost before = strings_view(out@);
        let ghost piece = match items@[i as int] {
            JsonValue::Str(t) => seq![t@],
            _ => Seq::<Seq<char>>::empty(),
        };
        assert(crate::api_call::str_items(items@.take(i + 1)) == crate::api_call::str_items(
            items@.take(i as int),
        ) + piece);
        match &items[i] {
            JsonValue::Str(t) => {
                out.push(owned(t.as_str()));
            },
            _ => {},
        }
        assert(strings_view(out@) =~= before + piece);
        i = i + 1;
        assert(strings_view(out@) =~= start + crate::api_call::str_items(items@.take(i as int)));
    }
    assert(items@.take(i as int) =~= items@);
}

fn opt_array<'a>(v: Option<&'a JsonValue>) -> (r: Option<&'a Vec<JsonValue>>)
    ensures
        match r {
            Some(items) => opt_items(match v { Some(x) => Some(*x), None => None }) == items@,
            None => opt_items(match v { Some(x) => Some(*x), None => None }) == Seq::<JsonValue>::empty(),
        },
{
    json_as_array(v)
}

/// The choices the display settings page offers: the display modes (live
/// ones, then the configured presets, then the configured mode) and the
/// scales (live ones, the configured scale, then the usual steps), each
/// without repeats. `live_status` is what the display reports, if anything.
pub fn windows_display_dynamic_options(config: &JsonValue, live_status: Option<&JsonValue>) -> (r: JsonValue)
    ensures
        r is Object,
        get(r, "resolutionModes"@) matches Some(m) && str_array_is(
            m,
            offered_modes(*config, match live_status { Some(x) => Some(*x), None => None }),
        ),
        get(r, "trayResolutionPresets"@) matches Some(m) && str_array_is(
            m,
            offered_modes(*config, match live_status { Some(x) => Some(*x), None => None }),
        ),
        get(r, "scalePercentages"@) matches Some(m) && str_array_is(
            m,
            offered_scales(*config, match live_status { Some(x) => Some(*x), None => None }),
        ),
        forall|k: Seq<char>|
            k != "resolutionModes"@ && k != "trayResolutionPresets"@ && k != "scalePercentages"@ ==> #[trigger] get(
                r,
                k,
            ) is None,
{
    let ghost status = match live_status { Some(x) => Some(*x), None => None };
    let mut modes: Vec<String> = Vec::new();
    match opt_array(opt_member(opt_member(live_status, "resolution"), "availableModes")) {
        Some(items) => push_mode_items(&mut modes, items),
        None => {},
    }
    assert(strings_view(modes@) == live_modes(status));
    match opt_array(json_get(config, "trayResolutionPresets")) {
        Some(items) => push_str_items(&mut modes, items),
        None => {},
    }
    assert(strings_view(modes@) == live_modes(status) + preset_modes(*config));
    let fallback = match configured_resolution_mode(config) {
        Some(m) => m,
        None => owned("1920x1080@60"),
    };
    modes.push(fallback);
    assert(strings_view(modes@) =~= live_modes(status) + preset_modes(*config) + seq![
        match configured_mode(*config) {
            Some(m) => m,
            None => "1920x1080@60"@,
        },
    ]);
    let modes = unique_preserving_order(modes);
    let mut scales: Vec<String> = Vec::new();
    match opt_array(opt_member(opt_member(live_status, "scale"), "availablePercentages")) {
        Some(items) => push_int_items(&mut scales, items),
        None => {},
    }
    assert(strings_view(scales@) == live_scales(status));
    let fallback_scale: i64 = match configured_scale_percent(config) {
        Some(x) => x,
        None => 100,
    };
    scales.push(i64_string(fallback_scale));
    scales.push(owned("100"));
    scales.push(owned("125"));
    scales.push(owned("150"));
    scales.push(owned("175"));
    scales.push(owned("200"));
    assert(strings_view(scales@) =~= live_scales(status) + seq![
        int_text(
            match configured_scale(*config) {
                Some(x) => x,
                None => 100,
            },
        ),
    ] + seq!["100"@, "125"@, "150"@, "175"@, "200"@]);
    let scales = unique_preserving_order(scales);
    proof {
        reveal_strlit("resolutionModes");
        reveal_strlit("trayResolutionPresets");
        reveal_strlit("scalePercentages");
        assert("resolutionModes"@.len() == 15);
        assert("trayResolutionPresets"@.len() == 21);
        assert("scalePercentages"@.len() == 16);
    }
    let r0 = set_member(JsonValue::Object(Vec::new()), "resolutionModes", string_array(&modes));
    let r1 = set_member(r0, "trayResolutionPresets", string_array(&modes));
    let r2 = set_member(r1, "scalePercentages", string_array(&scales));
    assert(get(r1, "resolutionModes"@) == get(r0, "resolutionModes"@));
    assert(get(r2, "resolutionModes"@) == get(r1, "resolutionModes"@));
    assert(get(r2, "trayResolutionPresets"@) == get(r1, "trayResolutionPresets"@));
    assert forall|k: Seq<char>|
        k != "resolutionModes"@ && k != "trayResolutionPresets"@ && k != "scalePercentages"@ implies #[trigger] get(
            r2,
            k,
        ) is None by {
        assert(get(r1, k) == get(r0, k));
    }
    r2
}

impl HostExtensionRegistry {
    /// The choices a hosted extension's settings page offers; `{}` for
    /// any other extension.
    pub fn dynamic_options(&self, extension_id: &str, config: &JsonValue, live_status: Option<&JsonValue>) -> (r:
        JsonValue)
        ensures
            !hosted(extension_id@) ==> r is Object && forall|k: Seq<char>| #[trigger] get(r, k) is None,
            hosted(extension_id@) ==> (get(r, "resolutionModes"@) matches Some(m) && str_array_is(
                m,
                offered_modes(*config, match live_status { Some(x) => Some(*x), None => None }),
            )),
    {
        if str_eq(extension_id, WINDOWS_DISPLAY_MANAGER_ID) {
            windows_display_dynamic_options(config, live_status)
        } else {
            JsonValue::Object(Vec::new())
        }
    }
}

} // verus!
