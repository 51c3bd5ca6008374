//! The settings page's message protocol and the JSON documents the page
//! reads: what a request turns into, how an answer is framed, which
//! commands an extension offers and what the page is told at start.
use vstd::prelude::*;
use crate::core_config::CoreConfig;
use crate::config_ui::{route_path, route_spec, UiConfigError, UiRoute};
use crate::http::{method_of, HttpMethod};
use crate::descriptor::{Action, Descriptor};
use crate::host_extensions::{str_array_is, string_array};
use crate::json::{as_str, get, json_as_str, json_get, set_member, JsonValue};
use crate::state_store::{warnings_json, warnings_json_ok, StateStoreWarning};
use crate::text::{concat2, concat3, owned, str_eq, strings_view};

verus! {

/// The version tag every settings message carries.
pub const COPPER_SETTINGS_PROTOCOL_V1: &'static str = "copper.settings/1";

/// A request from the settings page, sent as a message instead of over HTTP.
#[derive(Debug)]
pub struct SettingsRequest {
    pub protocol: String,
    pub request_id: String,
    pub method: String,
    pub path: String,
    pub body: Option<JsonValue>,
}

/// The answer to a settings request, correlated by `request_id`.
#[derive(Debug)]
pub struct SettingsResponse {
    pub protocol: String,
    pub request_id: String,
    pub ok: bool,
    pub status: u16,
    pub data: Option<JsonValue>,
    pub error: Option<String>,
}

impl SettingsResponse {
    /// A refusal: status 400 with the reason.
    pub fn error(request_id: String, error: String) -> (r: Self)
        ensures
            r.protocol@ == COPPER_SETTINGS_PROTOCOL_V1@,
            r.request_id == request_id,
            !r.ok,
            r.status == 400,
            r.data is None,
            r.error == Some(error),
    {
        SettingsResponse {
            protocol: owned(COPPER_SETTINGS_PROTOCOL_V1),
            request_id,
            ok: false,
            status: 400,
            data: None,
            error: Some(error),
        }
    }
}

/// `e` holds the text `m`.
pub open spec fn error_is(e: Option<String>, m: Seq<char>) -> bool {
    e matches Some(s) && s@ == m
}

/// `resp` is the refusal of request `request_id` for the reason `message`.
pub open spec fn is_refusal(resp: SettingsResponse, request_id: String, message: Seq<char>) -> bool {
    &&& resp.protocol@ == COPPER_SETTINGS_PROTOCOL_V1@
    &&& resp.request_id == request_id
    &&& !resp.ok
    &&& resp.status == 400
    &&& resp.data is None
    &&& error_is(resp.error, message)
}

/// What a settings request asks of the settings routes: the method, the
/// path, and whether it carried a body (a JSON body is never empty once
/// written out, so a body is present exactly when one was sent).
pub open spec fn settings_route_spec(
    request: SettingsRequest,
    allow_close: bool,
    ids: Seq<Seq<char>>,
    discoverable: Seq<Seq<char>>,
) -> Option<UiRoute<Seq<char>>> {
    if request.protocol@ != COPPER_SETTINGS_PROTOCOL_V1@ {
        None
    } else {
        match method_of(request.method@) {
            Some(m) => Some(route_spec(m, request.path@, request.body is None, allow_close, ids, discoverable)),
            None => None,
        }
    }
}

/// Checks a settings request and finds its route. A request in another
/// protocol version, or with a method other than `GET` and `POST`, is
/// answered at once with a refusal.
pub fn settings_route(
    request: SettingsRequest,
    allow_close: bool,
    extension_ids: &Vec<String>,
    discoverable_ids: &Vec<String>,
) -> (r: Result<(String, UiRoute<String>, Option<JsonValue>), SettingsResponse>)
    ensures
        request.protocol@ != COPPER_SETTINGS_PROTOCOL_V1@ ==> (r matches Err(resp) && is_refusal(
            resp,
            request.request_id,
            "unsupported settings protocol '"@ + request.protocol@ + "'"@,
        )),
        request.protocol@ == COPPER_SETTINGS_PROTOCOL_V1@ && method_of(request.method@) is None ==> (
        r matches Err(resp) && is_refusal(
            resp,
            request.request_id,
            "unsupported settings method '"@ + request.method@ + "'"@,
        )),
        settings_route_spec(request, allow_close, strings_view(extension_ids@), strings_view(
            discoverable_ids@,
        )) matches Some(route) ==> (r matches Ok((id, got, body)) && id == request.request_id
            && got.view() == route && body == request.body),
{
    if !str_eq(request.protocol.as_str(), COPPER_SETTINGS_PROTOCOL_V1) {
        let message = concat3("unsupported settings protocol '", request.protocol.as_str(), "'");
        return Err(SettingsResponse::error(request.request_id, message));
    }
    let m = if str_eq(request.method.as_str(), "GET") {
        HttpMethod::Get
    } else if str_eq(request.method.as_str(), "POST") {
        HttpMethod::Post
    } else {
        let message = concat3("unsupported settings method '", request.method.as_str(), "'");
        return Err(SettingsResponse::error(request.request_id, message));
    };
    let route = route_path(
        m,
        request.path.as_str(),
        request.body.is_none(),
        allow_close,
        extension_ids,
        discoverable_ids,
    );
    Ok((request.request_id, route, request.body))
}

/// The text of the `error` member of an answer, if it has one.
pub open spec fn error_text(data: Option<JsonValue>) -> Option<Seq<char>> {
    match data {
        Some(d) => as_str(get(d, "error"@)),
        None => None,
    }
}

/// Frames what a settings route answered. `data` is the answer's JSON body,
/// if it had one that parsed. Below 400 the answer succeeds and carries the
/// data; from 400 on it fails with the body's `error` text, or a generic
/// one.
pub fn settings_reply(request_id: String, status: u16, data: Option<JsonValue>) -> (r: SettingsResponse)
    ensures
        r.protocol@ == COPPER_SETTINGS_PROTOCOL_V1@,
        r.request_id == request_id,
        r.status == status,
        r.ok == (status < 400),
        status < 400 ==> r.data == data && r.error is None,
        status >= 400 ==> r.data is None && error_is(
            r.error,
            match error_text(data) {
                Some(t) => t,
                None => "settings request failed"@,
            },
        ),
{
    if status < 400 {
        SettingsResponse {
            protocol: owned(COPPER_SETTINGS_PROTOCOL_V1),
            request_id,
            ok: true,
            status,
            data,
            error: None,
        }
    } else {
        let error = match &data {
            Some(d) => match json_as_str(json_get(d, "error")) {
                Some(t) => owned(t.as_str()),
                None => owned("settings request failed"),
            },
            None => owned("settings request failed"),
        };
        SettingsResponse {
            protocol: owned(COPPER_SETTINGS_PROTOCOL_V1),
            request_id,
            ok: false,
            status,
            data: None,
            error: Some(error),
        }
    }
}

/// Whether a request asks the settings window to close: a `POST /close` in
/// the current protocol.
pub fn is_close_request(request: &SettingsRequest) -> (r: bool)
    ensures
        r == (request.protocol@ == COPPER_SETTINGS_PROTOCOL_V1@ && request.method@ == "POST"@
            && request.path@ == "/close"@),
{
    str_eq(request.protocol.as_str(), COPPER_SETTINGS_PROTOCOL_V1) && str_eq(
        request.method.as_str(),
        "POST",
    ) && str_eq(request.path.as_str(), "/close")
}

/// The hint shown for an action that the settings page can apply.
pub open spec fn apply_usage_line() -> Seq<char> {
    "Update the saved settings above, then click Save and apply."@
}

/// The hint that runs an action from the command line.
pub open spec fn trigger_usage_line(extension_id: Seq<char>, action_id: Seq<char>) -> Seq<char> {
    "Run `copperd trigger "@ + extension_id + " --action "@ + action_id + "`."@
}

/// How a user runs an action: through the settings page where it is one of
/// the apply actions, and always through the local command line.
pub open spec fn command_usage_spec(
    extension_id: Seq<char>,
    action_id: Seq<char>,
    apply_actions: Seq<Seq<char>>,
) -> Seq<Seq<char>> {
    (if apply_actions.contains(action_id) {
        seq![apply_usage_line()]
    } else {
        Seq::empty()
    }) + seq![trigger_usage_line(extension_id, action_id)]
}

/// The usage hints of one action.
pub fn command_usage(extension_id: &str, action_id: &str, apply_actions: &Vec<String>) -> (r: Vec<
    String,
>)
    ensures
        strings_view(r@) == command_usage_spec(extension_id@, action_id@, strings_view(apply_actions@)),
{
    let mut usage: Vec<String> = Vec::new();
    if crate::text::contains_str(apply_actions.as_slice(), action_id) {
        usage.push(owned("Update the saved settings above, then click Save and apply."));
    }
    let mut line = concat3("Run `copperd trigger ", extension_id, " --action ");
    line.append(action_id);
    line.append("`.");
    usage.push(line);
    proof {
        let a = strings_view(apply_actions@);
        if a.contains(action_id@) {
            assert(strings_view(usage@) =~= command_usage_spec(extension_id@, action_id@, a));
        } else {
            assert(strings_view(usage@) =~= command_usage_spec(extension_id@, action_id@, a));
        }
    }
    usage
}

/// The actions a descriptor's settings page applies.
pub open spec fn apply_actions_of(d: Descriptor) -> Seq<Seq<char>> {
    match d.settings {
        Some(s) => strings_view(s.apply_actions@),
        None => Seq::empty(),
    }
}

/// `v` is the JSON text `t`.
pub open spec fn is_str(v: Option<JsonValue>, t: Seq<char>) -> bool {
    v matches Some(JsonValue::Str(s)) && s@ == t
}

/// `v` is the text of `t` when there is one, and `null` when not.
pub open spec fn is_opt_str(v: Option<JsonValue>, t: Option<String>) -> bool {
    match t {
        Some(x) => is_str(v, x@),
        None => v == Some(JsonValue::Null),
    }
}

/// The page's entry for one action: id, label, description and usage.
pub open spec fn command_info_ok(
    v: JsonValue,
    extension_id: Seq<char>,
    action: Action,
    apply_actions: Seq<Seq<char>>,
) -> bool {
    &&& is_str(get(v, "id"@), action.id@)
    &&& is_str(get(v, "label"@), action.label@)
    &&& is_opt_str(get(v, "description"@), action.description)
    &&& get(v, "usage"@) matches Some(u) && str_array_is(
        u,
        command_usage_spec(extension_id, action.id@, apply_actions),
    )
}

/// The page's entry for one action.
pub fn command_info(extension_id: &str, action: &Action, apply_actions: &Vec<String>) -> (v: JsonValue)
    ensures
        command_info_ok(v, extension_id@, *action, strings_view(apply_actions@)),
{
    proof {
        reveal_strlit("id");
        reveal_strlit("label");
        reveal_strlit("description");
        reveal_strlit("usage");
        assert("id"@.len() == 2);
        assert("label"@.len() == 5);
        assert("description"@.len() == 11);
        assert("usage"@.len() == 5);
        assert("label"@[0] != "usage"@[0]);
    }
    let usage = command_usage(extension_id, action.id.as_str(), apply_actions);
    let description = match &action.description {
        Some(d) => JsonValue::Str(owned(d.as_str())),
        None => JsonValue::Null,
    };
    let v0 = set_member(JsonValue::Object(Vec::new()), "id", JsonValue::Str(owned(action.id.as_str())));
    let v1 = set_member(v0, "label", JsonValue::Str(owned(action.label.as_str())));
    let v2 = set_member(v1, "description", description);
    let v3 = set_member(v2, "usage", string_array(&usage));
    assert(get(v3, "id"@) == get(v0, "id"@));
    assert(get(v3, "label"@) == get(v1, "label"@));
    assert(get(v3, "description"@) == get(v2, "description"@));
    v3
}

/// The commands an extension offers, one entry per action in order.
pub fn extension_commands(descriptor: &Descriptor) -> (r: Vec<JsonValue>)
    ensures
        r@.len() == descriptor.actions@.len(),
        forall|i: int|
            0 <= i < r@.len() ==> command_info_ok(
                #[trigger] r@[i],
                descriptor.id@,
                descriptor.actions@[i],
                apply_actions_of(*descriptor),
            ),
{
    let apply = apply_actions(descriptor);
    let mut out: Vec<JsonValue> = Vec::new();
    let mut i: usize = 0;
    while i < descriptor.actions.len()
        invariant
            i <= descriptor.actions@.len(),
            strings_view(apply@) == apply_actions_of(*descriptor),
            out@.len() == i,
            forall|j: int|
                0 <= j < i ==> command_info_ok(
                    #[trigger] out@[j],
                    descriptor.id@,
                    descriptor.actions@[j],
                    apply_actions_of(*descriptor),
                ),
        decreases descriptor.actions.len() - i,
    {
        let info = command_info(descriptor.id.as_str(), &descriptor.actions[i], &apply);
        out.push(info);
        i = i + 1;
    }
    out
}

/// The apply actions of a descriptor, as a list.
pub fn apply_actions(descriptor: &Descriptor) -> (r: Vec<String>)
    ensures
        strings_view(r@) == apply_actions_of(*descriptor),
{
    let mut out: Vec<String> = Vec::new();
    match &descriptor.settings {
        Some(s) => {
            let mut i: usize = 0;
            while i < s.apply_actions.len()
                invariant
                    descriptor.settings == Some(*s),
                    i <= s.apply_actions@.len(),
                    strings_view(out@) == strings_view(s.apply_actions@).take(i as int),
                decreases s.apply_actions.len() - i,
            {
                out.push(owned(s.apply_actions[i].as_str()));
                proof {
                    assert(strings_view(s.apply_actions@).take(i + 1) =~= strings_view(
                        s.apply_actions@,
                    ).take(i as int).push(s.apply_actions@[i as int]@));
                }
                i = i + 1;
            }
            assert(strings_view(s.apply_actions@).take(i as int) =~= strings_view(s.apply_actions@));
        },
        None => {
            assert(strings_view(out@) =~= Seq::<Seq<char>>::empty());
        },
    }
    out
}

/// The commands member of an extension's page: one entry per action.
pub open spec fn commands_ok(v: Option<JsonValue>, d: Descriptor) -> bool {
    v matches Some(JsonValue::Array(cs)) && cs@.len() == d.actions@.len() && forall|i: int|
        0 <= i < cs@.len() ==> command_info_ok(
            #[trigger] cs@[i],
            d.id@,
            d.actions@[i],
            apply_actions_of(d),
        )
}

/// What the page shows of one extension.
pub open spec fn extension_info_ok(
    v: JsonValue,
    d: Descriptor,
    status: JsonValue,
    status_meta: JsonValue,
    dynamic_options: JsonValue,
    host_capability: JsonValue,
    warnings: Seq<StateStoreWarning>,
) -> bool {
    &&& is_str(get(v, "extensionId"@), d.id@)
    &&& is_str(get(v, "name"@), d.name@)
    &&& get(v, "status"@) == Some(status)
    &&& get(v, "statusMeta"@) == Some(status_meta)
    &&& get(v, "applyActions"@) matches Some(a) && str_array_is(a, apply_actions_of(d))
    &&& commands_ok(get(v, "commands"@), d)
    &&& get(v, "dynamicOptions"@) == Some(dynamic_options)
    &&& get(v, "hostCapability"@) == Some(host_capability)
    &&& get(v, "stateWarnings"@) matches Some(w) && warnings_json_ok(w, warnings)
}

/// The page of one extension: its saved status and what the status shows,
/// its commands, the options the host offers and the warnings met while
/// reading its settings and then its status.
pub fn extension_info(
    descriptor: &Descriptor,
    status: JsonValue,
    status_meta: JsonValue,
    dynamic_options: JsonValue,
    host_capability: JsonValue,
    config_warnings: Vec<StateStoreWarning>,
    status_warnings: Vec<StateStoreWarning>,
) -> (v: JsonValue)
    ensures
        extension_info_ok(
            v,
            *descriptor,
            status,
            status_meta,
            dynamic_options,
            host_capability,
            config_warnings@ + status_warnings@,
        ),
{
    proof {
        reveal_strlit("extensionId");
        reveal_strlit("name");
        reveal_strlit("status");
        reveal_strlit("statusMeta");
        reveal_strlit("applyActions");
        reveal_strlit("commands");
        reveal_strlit("dynamicOptions");
        reveal_strlit("hostCapability");
        reveal_strlit("stateWarnings");
        assert("extensionId"@.len() == 11);
        assert("name"@.len() == 4);
        assert("status"@.len() == 6);
        assert("statusMeta"@.len() == 10);
        assert("applyActions"@.len() == 12);
        assert("commands"@.len() == 8);
        assert("dynamicOptions"@.len() == 14);
        assert("hostCapability"@.len() == 14);
        assert("stateWarnings"@.len() == 13);
        assert("dynamicOptions"@[0] != "hostCapability"@[0]);
    }
    let ghost cw = config_warnings@;
    let ghost sw = status_warnings@;
    let mut warnings = config_warnings;
    let mut rest = status_warnings;
    warnings.append(&mut rest);
    assert(warnings@ =~= cw + sw);
    let apply = apply_actions(descriptor);
    let commands = extension_commands(descriptor);
    let v0 = set_member(JsonValue::Object(Vec::new()), "extensionId", JsonValue::Str(owned(descriptor.id.as_str())));
    let v1 = set_member(v0, "name", JsonValue::Str(owned(descriptor.name.as_str())));
    let v2 = set_member(v1, "status", status);
    let v3 = set_member(v2, "statusMeta", status_meta);
    let v4 = set_member(v3, "applyActions", string_array(&apply));
    let v5 = set_member(v4, "commands", JsonValue::Array(commands));
    let v6 = set_member(v5, "dynamicOptions", dynamic_options);
    let v7 = set_member(v6, "hostCapability", host_capability);
    let v8 = set_member(v7, "stateWarnings", warnings_json(&warnings));
    assert(get(v8, "extensionId"@) == get(v0, "extensionId"@));
    assert(get(v8, "name"@) == get(v1, "name"@));
    assert(get(v8, "status"@) == get(v2, "status"@));
    assert(get(v8, "statusMeta"@) == get(v3, "statusMeta"@));
    assert(get(v8, "applyActions"@) == get(v4, "applyActions"@));
    assert(get(v8, "commands"@) == get(v5, "commands"@));
    assert(get(v8, "dynamicOptions"@) == get(v6, "dynamicOptions"@));
    assert(get(v8, "hostCapability"@) == get(v7, "hostCapability"@));
    v8
}

/// Applying settings needs apply actions: the list of them, or the refusal
/// of an extension that declares none.
pub fn required_apply_actions(descriptor: &Descriptor) -> (r: Result<Vec<String>, UiConfigError>)
    ensures
        apply_actions_of(*descriptor).len() == 0 ==> (r matches Err(UiConfigError::Request(m)) && m@
            == "extension '"@ + descriptor.id@ + "' does not declare settings apply actions"@),
        apply_actions_of(*descriptor).len() > 0 ==> (r matches Ok(a) && strings_view(a@)
            == apply_actions_of(*descriptor)),
{
    let apply = apply_actions(descriptor);
    if apply.len() == 0 {
        Err(
            UiConfigError::Request(
                concat3("extension '", descriptor.id.as_str(), "' does not declare settings apply actions"),
            ),
        )
    } else {
        Ok(apply)
    }
}

/// One applied action: `{actionId, result}`.
pub open spec fn execution_ok(v: JsonValue, e: (String, JsonValue)) -> bool {
    is_str(get(v, "actionId"@), e.0@) && get(v, "result"@) == Some(e.1)
}

/// The answer to a successful apply.
pub open spec fn apply_result_ok(
    v: JsonValue,
    extension_id: Seq<char>,
    executions: Seq<(String, JsonValue)>,
    status: JsonValue,
    warnings: Seq<StateStoreWarning>,
) -> bool {
    &&& get(v, "ok"@) == Some(JsonValue::Bool(true))
    &&& is_str(get(v, "extensionId"@), extension_id)
    &&& get(v, "executions"@) matches Some(JsonValue::Array(xs)) && xs@.len() == executions.len()
        && forall|i: int| 0 <= i < xs@.len() ==> execution_ok(#[trigger] xs@[i], executions[i])
    &&& get(v, "status"@) == Some(status)
    &&& get(v, "stateWarnings"@) matches Some(w) && warnings_json_ok(w, warnings)
}

/// The answer to applying an extension's settings, given what each apply
/// action returned and the status read afterwards. When the host ran none
/// of them, the extension has no host support for applying.
pub fn apply_result(
    extension_id: &str,
    executions: Vec<(String, JsonValue)>,
    status: JsonValue,
    warnings: Vec<StateStoreWarning>,
) -> (r: Result<JsonValue, UiConfigError>)
    ensures
        executions@.len() == 0 ==> (r matches Err(UiConfigError::Request(m)) && m@ == "extension '"@
            + extension_id@ + "' does not support settings apply actions in the host"@),
        executions@.len() > 0 ==> (r matches Ok(v) && apply_result_ok(
            v,
            extension_id@,
            executions@,
            status,
            warnings@,
        )),
{
    if executions.len() == 0 {
        return Err(
            UiConfigError::Request(
                concat3(
                    "extension '",
                    extension_id,
                    "' does not support settings apply actions in the host",
                ),
            ),
        );
    }
    proof {
        reveal_strlit("ok");
        reveal_strlit("extensionId");
        reveal_strlit("executions");
        reveal_strlit("status");
        reveal_strlit("stateWarnings");
        reveal_strlit("actionId");
        reveal_strlit("result");
        assert("ok"@.len() == 2);
        assert("extensionId"@.len() == 11);
        assert("executions"@.len() == 10);
        assert("status"@.len() == 6);
        assert("stateWarnings"@.len() == 13);
        assert("actionId"@.len() == 8);
        assert("result"@.len() == 6);
    }
    let ghost es = executions@;
    let mut xs: Vec<JsonValue> = Vec::new();
    let mut rest = executions;
    let mut i: usize = 0;
    let n = rest.len();
    while i < n
        invariant
            n == es.len(),
            i <= n,
            rest@ == es.skip(i as int),
            xs@.len() == i,
            forall|j: int| 0 <= j < i ==> execution_ok(#[trigger] xs@[j], es[j]),
        decreases n - i,
    {
        let e = rest.remove(0);
        assert(e == es[i as int]);
        assert(rest@ =~= es.skip(i + 1));
        proof {
            reveal_strlit("actionId");
            reveal_strlit("result");
            assert("actionId"@.len() == 8);
            assert("result"@.len() == 6);
        }
        let x0 = set_member(JsonValue::Object(Vec::new()), "actionId", JsonValue::Str(e.0));
        let x1 = set_member(x0, "result", e.1);
        assert(get(x1, "actionId"@) == get(x0, "actionId"@));
        xs.push(x1);
        i = i + 1;
    }
    let v0 = set_member(JsonValue::Object(Vec::new()), "ok", JsonValue::Bool(true));
    let v1 = set_member(v0, "extensionId", JsonValue::Str(owned(extension_id)));
    let v2 = set_member(v1, "executions", JsonValue::Array(xs));
    let v3 = set_member(v2, "status", status);
    let v4 = set_member(v3, "stateWarnings", warnings_json(&warnings));
    assert(get(v4, "ok"@) == get(v0, "ok"@));
    assert(get(v4, "extensionId"@) == get(v1, "extensionId"@));
    assert(get(v4, "executions"@) == get(v2, "executions"@));
    assert(get(v4, "status"@) == get(v3, "status"@));
    Ok(v4)
}

/// The core page's facts about the host.
pub open spec fn core_info_ok(
    v: JsonValue,
    extensions_loaded: usize,
    host_platform: Seq<char>,
    user_extensions_dir: Seq<char>,
    core_extensions_dir: Option<String>,
    runtime_roots: Seq<Seq<char>>,
    data_root: Seq<char>,
    core_data_path: Seq<char>,
    warnings: Seq<StateStoreWarning>,
) -> bool {
    &&& crate::json::as_u64(get(v, "extensionsLoaded"@)) == Some(extensions_loaded as int)
    &&& is_str(get(v, "hostPlatform"@), host_platform)
    &&& is_str(get(v, "userExtensionsDir"@), user_extensions_dir)
    &&& is_opt_str(get(v, "coreExtensionsDir"@), core_extensions_dir)
    &&& get(v, "runtimeExtensionRoots"@) matches Some(a) && str_array_is(a, runtime_roots)
    &&& is_str(get(v, "dataRoot"@), data_root)
    &&& is_str(get(v, "coreDataPath"@), core_data_path)
    &&& get(v, "stateWarnings"@) matches Some(w) && warnings_json_ok(w, warnings)
}

/// The core page's facts: how many extensions are shown, the platform,
/// where extensions and their data live, and the warnings met while
/// scanning the saved state.
pub fn core_info(
    extensions_loaded: usize,
    host_platform: &str,
    user_extensions_dir: &str,
    core_extensions_dir: Option<String>,
    runtime_roots: &Vec<String>,
    data_root: &str,
    core_data_path: &str,
    warnings: &Vec<StateStoreWarning>,
) -> (v: JsonValue)
    ensures
        core_info_ok(
            v,
            extensions_loaded,
            host_platform@,
            user_extensions_dir@,
            core_extensions_dir,
            strings_view(runtime_roots@),
            data_root@,
            core_data_path@,
            warnings@,
        ),
{
    proof {
        reveal_strlit("extensionsLoaded");
        reveal_strlit("hostPlatform");
        reveal_strlit("userExtensionsDir");
        reveal_strlit("coreExtensionsDir");
        reveal_strlit("runtimeExtensionRoots");
        reveal_strlit("dataRoot");
        reveal_strlit("coreDataPath");
        reveal_strlit("stateWarnings");
        assert("extensionsLoaded"@.len() == 16);
        assert("hostPlatform"@.len() == 12);
        assert("userExtensionsDir"@.len() == 17);
        assert("coreExtensionsDir"@.len() == 17);
        assert("runtimeExtensionRoots"@.len() == 21);
        assert("dataRoot"@.len() == 8);
        assert("coreDataPath"@.len() == 12);
        assert("stateWarnings"@.len() == 13);
        assert("hostPlatform"@[0] != "coreDataPath"@[0]);
        assert("userExtensionsDir"@[0] != "coreExtensionsDir"@[0]);
    }
    let core_dir = match core_extensions_dir {
        Some(d) => JsonValue::Str(d),
        None => JsonValue::Null,
    };
    let v0 = set_member(
        JsonValue::Object(Vec::new()),
        "extensionsLoaded",
        JsonValue::Number(crate::json::JsonNumber::PosInt(extensions_loaded as u64)),
    );
    let v1 = set_member(v0, "hostPlatform", JsonValue::Str(owned(host_platform)));
    let v2 = set_member(v1, "userExtensionsDir", JsonValue::Str(owned(user_extensions_dir)));
    let v3 = set_member(v2, "coreExtensionsDir", core_dir);
    let v4 = set_member(v3, "runtimeExtensionRoots", string_array(runtime_roots));
    let v5 = set_member(v4, "dataRoot", JsonValue::Str(owned(data_root)));
    let v6 = set_member(v5, "coreDataPath", JsonValue::Str(owned(core_data_path)));
    let v7 = set_member(v6, "stateWarnings", warnings_json(warnings));
    assert(get(v7, "extensionsLoaded"@) == get(v0, "extensionsLoaded"@));
    assert(get(v7, "hostPlatform"@) == get(v1, "hostPlatform"@));
    assert(get(v7, "userExtensionsDir"@) == get(v2, "userExtensionsDir"@));
    assert(get(v7, "coreExtensionsDir"@) == get(v3, "coreExtensionsDir"@));
    assert(get(v7, "runtimeExtensionRoots"@) == get(v4, "runtimeExtensionRoots"@));
    assert(get(v7, "dataRoot"@) == get(v5, "dataRoot"@));
    assert(get(v7, "coreDataPath"@) == get(v6, "coreDataPath"@));
    v7
}

/// The descriptors the sidebar lists: those of enabled extensions, in order.
pub open spec fn visible_spec(ds: Seq<Descriptor>, config: CoreConfig) -> Seq<Descriptor> {
    ds.filter(|d: Descriptor| !config.disables(d.id@))
}

/// The descriptors of the enabled extensions, in order. Disabled ones stay
/// discoverable; they are only left out of this list.
pub fn visible_descriptors<'a>(discoverable: &'a Vec<Descriptor>, core_config: &CoreConfig) -> (r: Vec<
    &'a Descriptor,
>)
    ensures
        r@.map_values(|d: &Descriptor| *d) == visible_spec(discoverable@, *core_config),
{
    let mut out: Vec<&'a Descriptor> = Vec::new();
    let mut i: usize = 0;
    while i < discoverable.len()
        invariant
            i <= discoverable@.len(),
            out@.map_values(|d: &Descriptor| *d) == visible_spec(discoverable@.take(i as int), *core_config),
        decreases discoverable.len() - i,
    {
        let d = &discoverable[i];
        proof {
            assert(discoverable@.take(i + 1).drop_last() =~= discoverable@.take(i as int));
            reveal(Seq::filter);
        }
        if core_config.is_extension_enabled(d.id.as_str()) {
            out.push(d);
            assert(out@.map_values(|d: &Descriptor| *d) =~= visible_spec(discoverable@.take(i as int), *core_config).push(*d));
        }
        i = i + 1;
    }
    assert(discoverable@.take(i as int) =~= discoverable@);
    out
}

/// The first position of a descriptor with the id `id`.
pub open spec fn first_with_id(ds: Seq<Descriptor>, id: Seq<char>) -> Option<int> {
    if exists|i: int| 0 <= i < ds.len() && (#[trigger] ds[i]).id@ == id {
        let i = choose|i: int|
            0 <= i < ds.len() && (#[trigger] ds[i]).id@ == id && forall|j: int|
                0 <= j < i ==> (#[trigger] ds[j]).id@ != id;
        Some(i)
    } else {
        None
    }
}

/// The descriptor of a discoverable extension, enabled or not: the first
/// one with the id.
pub fn find_discoverable_descriptor<'a>(discoverable: &'a Vec<Descriptor>, extension_id: &str) -> (r:
    Option<&'a Descriptor>)
    ensures
        match r {
            Some(d) => exists|i: int|
                0 <= i < discoverable@.len() && *d == discoverable@[i] && d.id@ == extension_id@
                    && forall|j: int| 0 <= j < i ==> (#[trigger] discoverable@[j]).id@ != extension_id@,
            None => forall|i: int| 0 <= i < discoverable@.len() ==> (#[trigger] discoverable@[i]).id@ != extension_id@,
        },
{
    let mut i: usize = 0;
    while i < discoverable.len()
        invariant
            i <= discoverable@.len(),
            forall|j: int| 0 <= j < i ==> (#[trigger] discoverable@[j]).id@ != extension_id@,
        decreases discoverable.len() - i,
    {
        if str_eq(discoverable[i].id.as_str(), extension_id) {
            return Some(&discoverable[i]);
        }
        i = i + 1;
    }
    None
}

/// The extension the page opens on: the requested one, which must be
/// shown, or the core page (the empty id) when none is requested.
pub fn selected_extension(selected: Option<&str>, extension_ids: &Vec<String>) -> (r: Result<
    String,
    UiConfigError,
>)
    ensures
        match selected {
            None => r matches Ok(s) && s@.len() == 0,
            Some(id) => if strings_view(extension_ids@).contains(id@) {
                r matches Ok(s) && s@ == id@
            } else {
                r matches Err(UiConfigError::ExtensionNotFound(m)) && m@ == id@
            },
        },
{
    match selected {
        Some(id) => {
            if crate::text::contains_str(extension_ids.as_slice(), id) {
                Ok(owned(id))
            } else {
                Err(UiConfigError::ExtensionNotFound(owned(id)))
            }
        },
        None => {
            let s = String::new();
            Ok(s)
        },
    }
}

/// The ids of extensions that do not live under the user's extension
/// directory. Each entry is an extension's id with the (resolved) directory
/// that holds its folder, if it has one.
pub open spec fn core_ids_spec(entries: Seq<(String, Option<String>)>, user_root: Seq<char>) -> Seq<Seq<char>> {
    entries.filter(|e: (String, Option<String>)| match e.1 {
        Some(p) => p@ != user_root,
        None => true,
    }).map_values(|e: (String, Option<String>)| e.0@)
}

/// The core extensions: those whose folder is not under the user's
/// extension directory.
pub fn core_extension_ids(entries: &Vec<(String, Option<String>)>, user_root: &str) -> (r: Vec<String>)
    ensures
        strings_view(r@) == core_ids_spec(entries@, user_root@),
{
    let mut out: Vec<String> = Vec::new();
    let mut i: usize = 0;
    while i < entries.len()
        invariant
            i <= entries@.len(),
            strings_view(out@) == core_ids_spec(entries@.take(i as int), user_root@),
        decreases entries.len() - i,
    {
        proof {
            assert(entries@.take(i + 1).drop_last() =~= entries@.take(i as int));
            reveal(Seq::filter);
        }
        let core = match &entries[i].1 {
            Some(p) => !str_eq(p.as_str(), user_root),
            None => true,
        };
        let ghost before = entries@.take(i as int).filter(|e: (String, Option<String>)| match e.1 {
            Some(p) => p@ != user_root@,
            None => true,
        });
        if core {
            out.push(owned(entries[i].0.as_str()));
            assert(entries@.take(i + 1).filter(|e: (String, Option<String>)| match e.1 {
                Some(p) => p@ != user_root@,
                None => true,
            }) == before.push(entries@[i as int]));
            assert(before.push(entries@[i as int]).map_values(|e: (String, Option<String>)| e.0@)
                =~= before.map_values(|e: (String, Option<String>)| e.0@).push(entries@[i as int].0@));
            assert(strings_view(out@) =~= core_ids_spec(entries@.take(i + 1), user_root@));
        } else {
            assert(entries@.take(i + 1).filter(|e: (String, Option<String>)| match e.1 {
                Some(p) => p@ != user_root@,
                None => true,
            }) == before);
        }
        i = i + 1;
    }
    assert(entries@.take(i as int) =~= entries@);
    out
}

/// How the settings page talks to the host: HTTP with the control-plane
/// token, or messages over the native window's channel.
#[derive(Debug, Clone, Copy, PartialEq, Eq, Structural)]
pub enum UiTransport {
    Http,
    Bones,
}

/// The transport's name in the page model.
pub fn transport_name(transport: UiTransport) -> (r: &'static str)
    ensures
        r@ == (if transport == UiTransport::Bones { "bones"@ } else { "http"@ }),
{
    match transport {
        UiTransport::Bones => "bones",
        UiTransport::Http => "http",
    }
}

/// The token the page model carries: the control-plane token over HTTP,
/// none over the native channel, which needs no credential.
pub fn model_auth_token<'a>(transport: UiTransport, token: &'a str) -> (r: &'a str)
    ensures
        r@ == (if transport == UiTransport::Http { token@ } else { ""@ }),
{
    match transport {
        UiTransport::Http => token,
        UiTransport::Bones => "",
    }
}

/// The theme the page starts in: the saved `uiTheme` of the core settings,
/// or `light`.
pub fn initial_ui_theme(core_config: Option<&JsonValue>) -> (r: String)
    ensures
        r@ == match core_config {
            Some(v) => match as_str(get(*v, "uiTheme"@)) {
                Some(t) => t,
                None => "light"@,
            },
            None => "light"@,
        },
{
    match core_config {
        Some(v) => match json_as_str(json_get(v, "uiTheme")) {
            Some(t) => owned(t.as_str()),
            None => owned("light"),
        },
        None => owned("light"),
    }
}

/// The page up to its style sheet.
pub const PAGE_HEAD: &'static str = r#"<!doctype html>
<html lang="en">
<head>
  <meta charset="utf-8" />
  <meta name="viewport" content="width=device-width, initial-scale=1" />
  <title>Copper Settings</title>
  <style>
"#;

/// The page from its style sheet to the model.
pub const PAGE_BODY: &'static str = r#"
  </style>
</head>
<body>
  <div class="layout">
    <aside class="sidebar">
      <div class="title">Settings</div>
      <p class="subtitle">Manifest-driven pages with optional tabs.</p>
      <div id="nav"></div>
    </aside>
    <main class="main">
      <div class="page-eyebrow" id="pageEyebrow">Extension</div>
      <h1 class="page-title" id="pageTitle">Copper</h1>
      <p class="page-sub" id="pageSub">Core Copper configuration</p>
      <div class="tab-row" id="tabs"></div>
      <section id="contentView"></section>
      <div class="btn-row">
        <button class="primary" id="saveBtn">Save settings</button>
        <button id="reloadExtensionsBtn">Reload extensions</button>
        <button id="closeBtn">Close</button>
      </div>
      <div class="status-msg" id="statusMsg"></div>
    </main>
  </div>
  <script>
    const model = "#;

/// The page from the model to its scripts.
pub const PAGE_MODEL_END: &'static str = r#";
"#;

/// The page after its scripts.
pub const PAGE_TAIL: &'static str = r#"
    renderSection().catch(err => setStatus('Load failed: ' + err));
  </script>
</body>
</html>
"#;

/// The settings page: the style sheet, the model as inline JSON and the
/// page scripts in their places.
pub fn render_page(model_inline: &str, style: &str, script: &str) -> (r: String)
    ensures
        r@ == PAGE_HEAD@ + style@ + PAGE_BODY@ + model_inline@ + PAGE_MODEL_END@ + script@ + PAGE_TAIL@,
{
    let mut page = concat3(PAGE_HEAD, style, PAGE_BODY);
    page.append(model_inline);
    page.append(PAGE_MODEL_END);
    page.append(script);
    page.append(PAGE_TAIL);
    page
}

} // verus!
