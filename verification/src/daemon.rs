use vstd::prelude::*;
use crate::scheduler::{duration_as_nanos, duration_from_millis};
use crate::descriptor::{permission_name, permissions_as_strings};
use crate::extension::{ExtensionError, Registry};
use crate::http::{decimal, decimal_string};
use crate::json::{get, set_member, JsonNumber, JsonValue};
use crate::state_store::{warnings_json, warnings_json_ok, StateStoreWarning};
use crate::text::{concat2, concat3, owned, str_eq};
use std::time::Duration;

verus! {

/// Where the daemon's control plane listens by default.
pub const DEFAULT_BIND_ADDR: &'static str = "127.0.0.1:4765";

/// How often the daemon reloads its extensions by default, in milliseconds.
pub const DEFAULT_RELOAD_INTERVAL_MS: u64 = 3000;


/// How the daemon runs.
#[derive(Debug)]
pub struct DaemonConfig {
    pub extensions_dir: String,
    pub bind_addr: String,
    pub reload_interval: Duration,
}

impl DaemonConfig {
    /// The daemon's settings with a reload interval in milliseconds.
    pub fn with_interval_ms(extensions_dir: String, bind_addr: String, reload_interval_ms: u64) -> (c: Self)
        ensures
            c.extensions_dir == extensions_dir,
            c.bind_addr == bind_addr,
            duration_as_nanos(c.reload_interval) == reload_interval_ms as u128 * 1_000_000,
    {
        DaemonConfig { extensions_dir, bind_addr, reload_interval: duration_from_millis(reload_interval_ms) }
    }
}

impl Default for DaemonConfig {
    fn default() -> (c: Self)
        ensures
            c.bind_addr@ == DEFAULT_BIND_ADDR@,
            exists|h: Seq<char>| c.extensions_dir@ == crate::platform::extensions_dir_in(h),
            duration_as_nanos(c.reload_interval) == DEFAULT_RELOAD_INTERVAL_MS as u128 * 1_000_000,
    {
        DaemonConfig {
            extensions_dir: crate::platform::default_extensions_dir(),
            bind_addr: owned(DEFAULT_BIND_ADDR),
            reload_interval: duration_from_millis(DEFAULT_RELOAD_INTERVAL_MS),
        }
    }
}

/// A request on the daemon's control plane.
#[derive(Debug, Clone)]
pub enum IpcRequest {
    Health,
    List,
    Trigger { id: String, action: Option<String> },
    Reload,
    Verify,
    Shutdown,
}

/// The daemon's answer.
#[derive(Debug)]
pub struct IpcResponse {
    pub ok: bool,
    pub message: String,
    pub data: Option<JsonValue>,
}

impl IpcResponse {
    pub fn ok(message: String, data: Option<JsonValue>) -> (r: Self)
        ensures
            r.ok,
            r.message == message,
            r.data == data,
    {
        IpcResponse { ok: true, message, data }
    }

    pub fn err(message: String) -> (r: Self)
        ensures
            !r.ok,
            r.message == message,
            r.data is None,
    {
        IpcResponse { ok: false, message, data: None }
    }
}

/// Why a daemon operation failed.
#[derive(Debug)]
pub enum DaemonError {
    Io(String),
    Serde(String),
    Extension(ExtensionError),
    SignalHandler(String),
    Protocol(String),
    Tray(String),
}

impl DaemonError {
    pub open spec fn message(&self) -> Seq<char> {
        match self {
            DaemonError::Io(m) => "I/O error: "@ + m@,
            DaemonError::Serde(m) => "serialization error: "@ + m@,
            DaemonError::Extension(e) => e.message(),
            DaemonError::SignalHandler(m) => "signal handler error: "@ + m@,
            DaemonError::Protocol(m) => "protocol error: "@ + m@,
            DaemonError::Tray(m) => "tray error: "@ + m@,
        }
    }

    pub fn to_string(&self) -> (s: String)
        ensures
            s@ == self.message(),
    {
        match self {
            DaemonError::Io(m) => concat2("I/O error: ", m.as_str()),
            DaemonError::Serde(m) => concat2("serialization error: ", m.as_str()),
            DaemonError::Extension(e) => e.to_string(),
            DaemonError::SignalHandler(m) => concat2("signal handler error: ", m.as_str()),
            DaemonError::Protocol(m) => concat2("protocol error: ", m.as_str()),
            DaemonError::Tray(m) => concat2("tray error: ", m.as_str()),
        }
    }
}

/// The endpoint of each request kind.
pub open spec fn endpoint(request: IpcRequest) -> Seq<char> {
    match request {
        IpcRequest::Health => "/health"@,
        IpcRequest::List => "/list"@,
        IpcRequest::Trigger { .. } => "/trigger"@,
        IpcRequest::Reload => "/reload"@,
        IpcRequest::Verify => "/verify"@,
        IpcRequest::Shutdown => "/shutdown"@,
    }
}

/// Reads go by `GET`, everything else by `POST`.
pub open spec fn uses_get(request: IpcRequest) -> bool {
    request is Health || request is List
}

/// The URL of a request to the daemon at `bind_addr`.
pub fn request_url(bind_addr: &str, request: &IpcRequest) -> (url: String)
    ensures
        url@ == "http://"@ + bind_addr@ + endpoint(*request),
{
    let path = match request {
        IpcRequest::Health => "/health",
        IpcRequest::List => "/list",
        IpcRequest::Trigger { .. } => "/trigger",
        IpcRequest::Reload => "/reload",
        IpcRequest::Verify => "/verify",
        IpcRequest::Shutdown => "/shutdown",
    };
    concat3("http://", bind_addr, path)
}

pub fn request_uses_get(request: &IpcRequest) -> (r: bool)
    ensures
        r == uses_get(*request),
{
    match request {
        IpcRequest::Health | IpcRequest::List => true,
        _ => false,
    }
}

/// What a request on the control plane asks for, by method and path.
#[derive(Debug, Clone, Copy, PartialEq, Eq, Structural)]
pub enum IpcRoute {
    Health,
    List,
    Reload,
    Verify,
    Shutdown,
    /// `POST /trigger`, whose body names the extension.
    Trigger,
    Unsupported,
}

pub open spec fn ipc_route_spec(method: Seq<char>, url: Seq<char>) -> IpcRoute {
    if method == "GET"@ && url == "/health"@ {
        IpcRoute::Health
    } else if method == "GET"@ && url == "/list"@ {
        IpcRoute::List
    } else if method == "POST"@ && url == "/reload"@ {
        IpcRoute::Reload
    } else if method == "POST"@ && url == "/verify"@ {
        IpcRoute::Verify
    } else if method == "POST"@ && url == "/shutdown"@ {
        IpcRoute::Shutdown
    } else if method == "POST"@ && url == "/trigger"@ {
        IpcRoute::Trigger
    } else {
        IpcRoute::Unsupported
    }
}

pub fn ipc_route(method: &str, url: &str) -> (r: IpcRoute)
    ensures
        r == ipc_route_spec(method@, url@),
{
    let get = str_eq(method, "GET");
    let post = str_eq(method, "POST");
    if get && str_eq(url, "/health") {
        IpcRoute::Health
    } else if get && str_eq(url, "/list") {
        IpcRoute::List
    } else if post && str_eq(url, "/reload") {
        IpcRoute::Reload
    } else if post && str_eq(url, "/verify") {
        IpcRoute::Verify
    } else if post && str_eq(url, "/shutdown") {
        IpcRoute::Shutdown
    } else if post && str_eq(url, "/trigger") {
        IpcRoute::Trigger
    } else {
        IpcRoute::Unsupported
    }
}

/// The route a request of each kind asks for: the route of the same name.
pub open spec fn requested_route(request: IpcRequest) -> IpcRoute {
    match request {
        IpcRequest::Health => IpcRoute::Health,
        IpcRequest::List => IpcRoute::List,
        IpcRequest::Trigger { .. } => IpcRoute::Trigger,
        IpcRequest::Reload => IpcRoute::Reload,
        IpcRequest::Verify => IpcRoute::Verify,
        IpcRequest::Shutdown => IpcRoute::Shutdown,
    }
}

/// The method a request is sent with.
pub open spec fn request_method(request: IpcRequest) -> Seq<char> {
    if uses_get(request) {
        "GET"@
    } else {
        "POST"@
    }
}

/// What the client sends is what the daemon serves: a request of any kind,
/// sent with its method to its endpoint, is routed to the route of that
/// kind, so requests of different kinds never reach the same route; the
/// same path with the other method is not served.
pub proof fn law_each_request_is_routed_to_itself(request: IpcRequest, other: IpcRequest)
    ensures
        ipc_route_spec(request_method(request), endpoint(request)) == requested_route(request),
        requested_route(request) == requested_route(other) ==> endpoint(request) == endpoint(other),
        ipc_route_spec(
            if uses_get(request) {
                "POST"@
            } else {
                "GET"@
            },
            endpoint(request),
        ) == IpcRoute::Unsupported,
{
    reveal_strlit("GET");
    reveal_strlit("POST");
    reveal_strlit("/health");
    reveal_strlit("/list");
    reveal_strlit("/trigger");
    reveal_strlit("/reload");
    reveal_strlit("/verify");
    reveal_strlit("/shutdown");
    assert("GET"@ != "POST"@ && "POST"@ != "GET"@) by {
        assert("GET"@.len() != "POST"@.len());
    }
    let paths = seq!["/health"@, "/list"@, "/reload"@, "/verify"@, "/shutdown"@, "/trigger"@];
    assert forall|i: int, j: int| 0 <= i < 6 && 0 <= j < 6 && i != j implies #[trigger] paths[i] != #[trigger] paths[j]
        by {
        assert(paths[i][1] != paths[j][1]);
    }
    assert(paths[0] == "/health"@ && paths[1] == "/list"@ && paths[2] == "/reload"@ && paths[3] == "/verify"@
        && paths[4] == "/shutdown"@ && paths[5] == "/trigger"@);
}

/// A request passes when the daemon has no token, or the request carries it.
pub open spec fn ipc_authorized_spec(expected: Option<Seq<char>>, given: Option<Seq<char>>) -> bool {
    match expected {
        None => true,
        Some(t) => given == Some(t),
    }
}

pub fn ipc_authorized(expected: Option<&str>, given: Option<&str>) -> (r: bool)
    ensures
        r == ipc_authorized_spec(
            match expected { Some(e) => Some(e@), None => None },
            match given { Some(g) => Some(g@), None => None },
        ),
{
    match expected {
        None => true,
        Some(t) => match given {
            Some(g) => str_eq(g, t),
            None => false,
        },
    }
}

/// What handling a request came to.
#[derive(Debug)]
pub enum IpcOutcome {
    Unauthorized,
    Unsupported,
    InvalidTrigger(String),
    Health(Result<JsonValue, String>),
    List(JsonValue),
    Trigger(Result<JsonValue, String>),
    Reload(Result<usize, String>),
    Verify(Result<usize, String>),
    Shutdown,
}

fn count_object(key: &str, n: usize) -> (r: JsonValue)
    ensures
        get(r, key@) == Some(JsonValue::Number(JsonNumber::PosInt(n as u64))),
        forall|k: Seq<char>| k != key@ ==> #[trigger] get(r, k) is None,
{
    set_member(JsonValue::Object(Vec::new()), key, JsonValue::Number(JsonNumber::PosInt(n as u64)))
}

/// The answer the daemon sends for an outcome.
pub fn ipc_response(outcome: IpcOutcome) -> (r: IpcResponse)
    ensures
        match outcome {
            IpcOutcome::Unauthorized => !r.ok && r.message@ == "unauthorized request"@ && r.data is None,
            IpcOutcome::Unsupported => !r.ok && r.message@ == "unsupported request"@ && r.data is None,
            IpcOutcome::InvalidTrigger(e) => !r.ok && r.message@ == "invalid request: "@ + e@ && r.data
                is None,
            IpcOutcome::Health(Ok(d)) => r.ok && r.message@ == "daemon alive"@ && r.data == Some(d),
            IpcOutcome::Health(Err(m)) => !r.ok && r.message == m && r.data is None,
            IpcOutcome::List(d) => r.ok && r.message@ == "extensions listed"@ && r.data == Some(d),
            IpcOutcome::Trigger(Ok(d)) => r.ok && r.message@ == "trigger prepared"@ && r.data == Some(d),
            IpcOutcome::Trigger(Err(m)) => !r.ok && r.message == m && r.data is None,
            IpcOutcome::Reload(Ok(n)) => r.data matches Some(d) && get(d, "extensionsLoaded"@) == Some(
                JsonValue::Number(JsonNumber::PosInt(n as u64)),
            ) && r.ok && r.message@ == "reloaded "@ + decimal(n as nat) + " extension(s)"@,
            IpcOutcome::Reload(Err(m)) => !r.ok && r.message == m && r.data is None,
            IpcOutcome::Verify(Ok(n)) => r.data matches Some(d) && get(d, "extensionsVerified"@) == Some(
                JsonValue::Number(JsonNumber::PosInt(n as u64)),
            ) && r.ok && r.message@ == "verified "@ + decimal(n as nat) + " extension(s)"@,
            IpcOutcome::Verify(Err(m)) => !r.ok && r.message == m && r.data is None,
            IpcOutcome::Shutdown => r.ok && r.message@ == "shutdown signal accepted"@ && r.data is None,
        },
{
    match outcome {
        IpcOutcome::Unauthorized => IpcResponse::err(owned("unauthorized request")),
        IpcOutcome::Unsupported => IpcResponse::err(owned("unsupported request")),
        IpcOutcome::InvalidTrigger(e) => IpcResponse::err(concat2("invalid request: ", e.as_str())),
        IpcOutcome::Health(Ok(d)) => IpcResponse::ok(owned("daemon alive"), Some(d)),
        IpcOutcome::Health(Err(m)) => IpcResponse::err(m),
        IpcOutcome::List(d) => IpcResponse::ok(owned("extensions listed"), Some(d)),
        IpcOutcome::Trigger(Ok(d)) => IpcResponse::ok(owned("trigger prepared"), Some(d)),
        IpcOutcome::Trigger(Err(m)) => IpcResponse::err(m),
        IpcOutcome::Reload(Ok(n)) => IpcResponse::ok(
            concat3("reloaded ", decimal_string(n as u64).as_str(), " extension(s)"),
            Some(count_object("extensionsLoaded", n)),
        ),
        IpcOutcome::Reload(Err(m)) => IpcResponse::err(m),
        IpcOutcome::Verify(Ok(n)) => IpcResponse::ok(
            concat3("verified ", decimal_string(n as u64).as_str(), " extension(s)"),
            Some(count_object("extensionsVerified", n)),
        ),
        IpcOutcome::Verify(Err(m)) => IpcResponse::err(m),
        IpcOutcome::Shutdown => IpcResponse::ok(owned("shutdown signal accepted"), None),
    }
}

/// The HTTP status the daemon answers with.
pub fn response_status(response: &IpcResponse) -> (s: u16)
    ensures
        s == if response.ok { 200u16 } else { 400u16 },
{
    if response.ok {
        200
    } else {
        400
    }
}

/// The body of a daemon answer, refused when it is blank.
pub fn check_response_body(status_code: u16, body: &str) -> (r: Result<String, DaemonError>)
    ensures
        crate::chars::trim(body@).len() == 0 ==> (r matches Err(DaemonError::Protocol(m)) && m@
            == "daemon returned an empty HTTP response with status "@ + decimal(status_code as nat)),
        crate::chars::trim(body@).len() > 0 ==> (r matches Ok(t) && t@ == crate::chars::trim(body@)),
{
    let cs = crate::text::chars_of(body);
    let t = crate::chars::trim_chars(cs.as_slice());
    if t.len() == 0 {
        Err(
            DaemonError::Protocol(
                concat2(
                    "daemon returned an empty HTTP response with status ",
                    decimal_string(status_code as u64).as_str(),
                ),
            ),
        )
    } else {
        Ok(crate::text::string_from_chars(t.as_slice()))
    }
}

/// One line of the extension list: id, name, version, trigger and
/// permissions.
pub open spec fn list_entry_ok(v: JsonValue, ext: crate::extension::Extension) -> bool {
    &&& get(v, "id"@) matches Some(JsonValue::Str(s)) && s@ == ext.descriptor.id@
    &&& get(v, "name"@) matches Some(JsonValue::Str(s)) && s@ == ext.descriptor.name@
    &&& get(v, "version"@) matches Some(JsonValue::Str(s)) && s@ == ext.descriptor.version@
    &&& get(v, "trigger"@) matches Some(JsonValue::Str(s)) && s@ == ext.descriptor.trigger@
    &&& get(v, "permissions"@) matches Some(JsonValue::Array(ps)) && ps@.len()
        == ext.descriptor.permissions@.len() && forall|i: int|
        0 <= i < ps@.len() ==> (#[trigger] ps@[i] matches JsonValue::Str(s) && s@ == permission_name(
            ext.descriptor.permissions@[i],
        ))
}

fn list_entry(ext: &crate::extension::Extension) -> (v: JsonValue)
    ensures
        list_entry_ok(v, *ext),
{
    proof {
        reveal_strlit("id");
        reveal_strlit("name");
        reveal_strlit("version");
        reveal_strlit("trigger");
        reveal_strlit("permissions");
        assert("id"@.len() == 2);
        assert("name"@.len() == 4);
        assert("version"@.len() == 7);
        assert("trigger"@.len() == 7);
        assert("permissions"@.len() == 11);
        assert("version"@[0] != "trigger"@[0]);
    }
    let names = permissions_as_strings(ext.descriptor.permissions.as_slice());
    let mut ps: Vec<JsonValue> = Vec::new();
    let mut i: usize = 0;
    while i < names.len()
        invariant
            i <= names@.len(),
            names@.len() == ext.descriptor.permissions@.len(),
            forall|j: int| 0 <= j < names@.len() ==> #[trigger] names@[j]@ == permission_name(ext.descriptor.permissions@[j]),
            ps@.len() == i,
            forall|j: int| 0 <= j < i ==> (#[trigger] ps@[j] matches JsonValue::Str(s) && s@ == names@[j]@),
        decreases names.len() - i,
    {
        ps.push(JsonValue::Str(owned(names[i].as_str())));
        i = i + 1;
    }
    let v0 = set_member(JsonValue::Object(Vec::new()), "id", JsonValue::Str(owned(ext.descriptor.id.as_str())));
    let v1 = set_member(v0, "name", JsonValue::Str(owned(ext.descriptor.name.as_str())));
    let v2 = set_member(v1, "version", JsonValue::Str(owned(ext.descriptor.version.as_str())));
    let v3 = set_member(v2, "trigger", JsonValue::Str(owned(ext.descriptor.trigger.as_str())));
    let v4 = set_member(v3, "permissions", JsonValue::Array(ps));
    assert(get(v1, "id"@) == get(v0, "id"@));
    assert(get(v2, "id"@) == get(v1, "id"@));
    assert(get(v3, "id"@) == get(v2, "id"@));
    assert(get(v4, "id"@) == get(v3, "id"@));
    assert(get(v2, "name"@) == get(v1, "name"@));
    assert(get(v3, "name"@) == get(v2, "name"@));
    assert(get(v4, "name"@) == get(v3, "name"@));
    assert(get(v3, "version"@) == get(v2, "version"@));
    assert(get(v4, "version"@) == get(v3, "version"@));
    assert(get(v4, "trigger"@) == get(v3, "trigger"@));
    v4
}

/// The extension list the daemon reports, in registry order.
pub fn list_payload(registry: &Registry) -> (v: JsonValue)
    ensures
        v matches JsonValue::Array(items) && items@.len() == registry.entries().len() && forall|i: int|
            0 <= i < items@.len() ==> list_entry_ok(#[trigger] items@[i], registry.entries()[i]),
{
    let exts = registry.list();
    let mut items: Vec<JsonValue> = Vec::new();
    let mut i: usize = 0;
    while i < exts.len()
        invariant
            i <= exts@.len(),
            exts@ == registry.entries(),
            items@.len() == i,
            forall|j: int| 0 <= j < i ==> list_entry_ok(#[trigger] items@[j], exts@[j]),
        decreases exts.len() - i,
    {
        items.push(list_entry(&exts[i]));
        i = i + 1;
    }
    JsonValue::Array(items)
}

/// The first extension that fails the pack checks: one without actions, or
/// whose component file is missing (`present[i]` says whether the file of
/// the `i`-th extension exists).
pub open spec fn verify_failure(exts: Seq<crate::extension::Extension>, present: Seq<bool>) -> Option<int>
    decreases exts.len(),
{
    if exts.len() == 0 {
        None
    } else {
        match verify_failure(exts.drop_last(), present) {
            Some(i) => Some(i),
            None => if exts.last().descriptor.actions@.len() == 0 || !present[exts.len() - 1] {
                Some(exts.len() - 1)
            } else {
                None
            },
        }
    }
}

/// Checks the pack: every extension has an action and its component file.
/// Gives the number checked, or the message for the first failure.
pub fn verify_registry(registry: &Registry, present: &Vec<bool>) -> (r: Result<usize, String>)
    requires
        present@.len() == registry.entries().len(),
    ensures
        match verify_failure(registry.entries(), present@) {
            None => r == Ok::<usize, String>(registry.entries().len() as usize),
            Some(i) => r matches Err(m) && (if registry.entries()[i].descriptor.actions@.len() == 0 {
                m@ == "extension "@ + registry.entries()[i].descriptor.id@ + " has no actions"@
            } else {
                m@ == "extension "@ + registry.entries()[i].descriptor.id@
                    + " is missing runtime artifact "@ + registry.entries()[i].wasm_component_path@
            }),
        },
{
    let exts = registry.list();
    let mut i: usize = 0;
    while i < exts.len()
        invariant
            i <= exts@.len(),
            exts@ == registry.entries(),
            present@.len() == exts@.len(),
            verify_failure(exts@.take(i as int), present@) is None,
        decreases exts.len() - i,
    {
        assert(exts@.take(i + 1).drop_last() =~= exts@.take(i as int));
        let ext = &exts[i];
        if ext.descriptor.actions.len() == 0 {
            proof {
                lemma_verify_failure_prefix(exts@, present@, i as int);
            }
            return Err(concat3("extension ", ext.descriptor.id.as_str(), " has no actions"));
        }
        if !present[i] {
            proof {
                lemma_verify_failure_prefix(exts@, present@, i as int);
            }
            let a = concat3("extension ", ext.descriptor.id.as_str(), " is missing runtime artifact ");
            return Err(concat2(a.as_str(), ext.wasm_component_path.as_str()));
        }
        i = i + 1;
    }
    assert(exts@.take(i as int) =~= exts@);
    Ok(exts.len())
}

/// A failure found at position `i` of a prefix that had none before stays
/// the first failure of the whole list.
proof fn lemma_verify_failure_prefix(exts: Seq<crate::extension::Extension>, present: Seq<bool>, i: int)
    requires
        0 <= i < exts.len(),
        verify_failure(exts.take(i), present) is None,
        exts[i].descriptor.actions@.len() == 0 || !present[i],
    ensures
        verify_failure(exts, present) == Some(i),
    decreases exts.len(),
{
    if i == exts.len() - 1 {
        assert(exts.drop_last() =~= exts.take(i));
    } else {
        assert(exts.drop_last().take(i) =~= exts.take(i));
        lemma_verify_failure_prefix(exts.drop_last(), present, i);
    }
}


/// How the settings UI is offered: over the component runtime's web
/// presentation, opened on demand.
pub open spec fn config_ui_ok(v: Option<JsonValue>) -> bool {
    &&& v matches Some(c)
    &&& get(c, "transport"@) matches Some(JsonValue::Str(t)) && t@ == "bones-web"@
    &&& get(c, "presentation"@) matches Some(JsonValue::Str(p)) && p@ == "wry"@
    &&& get(c, "onDemand"@) == Some(JsonValue::Bool(true))
}

/// The daemon's health answer.
pub open spec fn health_ok(
    v: JsonValue,
    user_extensions_dir: Seq<char>,
    core_extensions_dir: Option<String>,
    extensions_loaded: usize,
    bones: JsonValue,
    warnings: Seq<StateStoreWarning>,
) -> bool {
    &&& get(v, "userExtensionsDir"@) matches Some(JsonValue::Str(s)) && s@ == user_extensions_dir
    &&& match core_extensions_dir {
        Some(d) => get(v, "coreExtensionsDir"@) matches Some(JsonValue::Str(s)) && s@ == d@,
        None => get(v, "coreExtensionsDir"@) == Some(JsonValue::Null),
    }
    &&& crate::json::as_u64(get(v, "extensionsLoaded"@)) == Some(extensions_loaded as int)
    &&& get(v, "bones"@) == Some(bones)
    &&& get(v, "configUiUrl"@) matches Some(JsonValue::Str(s)) && s@ == "bones://settings"@
    &&& config_ui_ok(get(v, "configUi"@))
    &&& get(v, "stateWarnings"@) matches Some(w) && warnings_json_ok(w, warnings)
}

/// The health answer: where extensions live, how many are loaded, the
/// component runtime's status, how the settings UI is reached and the
/// warnings found in the saved state.
pub fn health_payload(
    user_extensions_dir: &str,
    core_extensions_dir: Option<String>,
    extensions_loaded: usize,
    bones: JsonValue,
    warnings: &Vec<StateStoreWarning>,
) -> (v: JsonValue)
    ensures
        health_ok(v, user_extensions_dir@, core_extensions_dir, extensions_loaded, bones, warnings@),
{
    proof {
        reveal_strlit("userExtensionsDir");
        reveal_strlit("coreExtensionsDir");
        reveal_strlit("extensionsLoaded");
        reveal_strlit("bones");
        reveal_strlit("configUiUrl");
        reveal_strlit("configUi");
        reveal_strlit("stateWarnings");
        reveal_strlit("transport");
        reveal_strlit("presentation");
        reveal_strlit("onDemand");
        assert("userExtensionsDir"@.len() == 17);
        assert("coreExtensionsDir"@.len() == 17);
        assert("extensionsLoaded"@.len() == 16);
        assert("bones"@.len() == 5);
        assert("configUiUrl"@.len() == 11);
        assert("configUi"@.len() == 8);
        assert("stateWarnings"@.len() == 13);
        assert("transport"@.len() == 9);
        assert("presentation"@.len() == 12);
        assert("onDemand"@.len() == 8);
        assert("userExtensionsDir"@[0] != "coreExtensionsDir"@[0]);
    }
    let c0 = set_member(JsonValue::Object(Vec::new()), "transport", JsonValue::Str(owned("bones-web")));
    let c1 = set_member(c0, "presentation", JsonValue::Str(owned("wry")));
    let c2 = set_member(c1, "onDemand", JsonValue::Bool(true));
    assert(get(c2, "transport"@) == get(c0, "transport"@));
    assert(get(c2, "presentation"@) == get(c1, "presentation"@));
    let core_dir = match core_extensions_dir {
        Some(d) => JsonValue::Str(d),
        None => JsonValue::Null,
    };
    let v0 = set_member(JsonValue::Object(Vec::new()), "userExtensionsDir", JsonValue::Str(owned(user_extensions_dir)));
    let v1 = set_member(v0, "coreExtensionsDir", core_dir);
    let v2 = set_member(
        v1,
        "extensionsLoaded",
        JsonValue::Number(JsonNumber::PosInt(extensions_loaded as u64)),
    );
    let v3 = set_member(v2, "bones", bones);
    let v4 = set_member(v3, "configUiUrl", JsonValue::Str(owned("bones://settings")));
    let v5 = set_member(v4, "configUi", c2);
    let v6 = set_member(v5, "stateWarnings", warnings_json(warnings));
    assert(get(v6, "userExtensionsDir"@) == get(v0, "userExtensionsDir"@));
    assert(get(v6, "coreExtensionsDir"@) == get(v1, "coreExtensionsDir"@));
    assert(get(v6, "extensionsLoaded"@) == get(v2, "extensionsLoaded"@));
    assert(get(v6, "bones"@) == get(v3, "bones"@));
    assert(get(v6, "configUiUrl"@) == get(v4, "configUiUrl"@));
    assert(get(v6, "configUi"@) == get(v5, "configUi"@));
    v6
}

} // verus!
