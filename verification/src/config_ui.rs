use vstd::prelude::*;
use crate::scheduler::{duration_as_nanos, duration_from_millis};
use crate::chars::first_index;
use crate::http::{authorized, pairs_view, HttpMethod, HttpRequest};
use crate::text::{concat2, concat3, contains_str, owned, strings_view, strip, strip_prefix};
use std::sync::mpsc::{Receiver, Sender};
use std::time::Duration;

verus! {

/// Where the settings server listens when no address is given.
pub const DEFAULT_UI_BIND: &'static str = "127.0.0.1:0";

/// Where the daemon serves the settings UI.
pub const DEFAULT_DAEMON_UI_BIND: &'static str = "127.0.0.1:4766";


/// How a settings window is opened.
#[derive(Debug)]
pub struct UiOpenOptions {
    pub bind_addr: String,
    pub open_browser: bool,
    pub open_window: bool,
    pub idle_timeout: Duration,
}

impl UiOpenOptions {
    /// The options of `ui open`: a browser when asked for, else a window
    /// unless the browser was turned off; the idle timeout in milliseconds.
    pub fn for_command(idle_timeout_ms: u64, no_browser: bool, window: bool, browser: bool) -> (o: Self)
        ensures
            o.bind_addr@ == DEFAULT_UI_BIND@,
            o.open_browser == browser,
            o.open_window == (window || (!browser && !no_browser)),
            duration_as_nanos(o.idle_timeout) == idle_timeout_ms as u128 * 1_000_000,
    {
        UiOpenOptions {
            bind_addr: owned(DEFAULT_UI_BIND),
            open_browser: browser,
            open_window: window || (!browser && !no_browser),
            idle_timeout: duration_from_millis(idle_timeout_ms),
        }
    }
}

impl Default for UiOpenOptions {
    /// A window (no browser) on a free local port, closing after five idle
    /// minutes.
    fn default() -> (o: Self)
        ensures
            o.bind_addr@ == DEFAULT_UI_BIND@,
            !o.open_browser,
            o.open_window,
            duration_as_nanos(o.idle_timeout) == 300_000_000_000,
    {
        UiOpenOptions {
            bind_addr: owned(DEFAULT_UI_BIND),
            open_browser: false,
            open_window: true,
            idle_timeout: duration_from_millis(300000),
        }
    }
}

#[verifier::external_type_specification]
#[verifier::external_body]
#[verifier::reject_recursive_types(T)]
pub struct ExSender<T>(std::sync::mpsc::Sender<T>);

#[verifier::external_type_specification]
#[verifier::external_body]
#[verifier::reject_recursive_types(T)]
pub struct ExReceiver<T>(std::sync::mpsc::Receiver<T>);

/// `Sender::clone`: another sender on the same channel.
pub assume_specification<T>[ <std::sync::mpsc::Sender<T> as std::clone::Clone>::clone ](
    sender: &std::sync::mpsc::Sender<T>,
) -> (r: std::sync::mpsc::Sender<T>);

/// `std::sync::mpsc::channel`.
#[verifier::external_body]
fn selection_channel() -> (Sender<Option<String>>, Receiver<Option<String>>) {
    std::sync::mpsc::channel()
}

/// `Sender::send`: whether the value was handed to a live receiver (that
/// depends on the other end, so nothing more is claimed).
#[verifier::external_body]
fn send_selection(sender: &Sender<Option<String>>, selection: Option<String>) -> bool {
    sender.send(selection).is_ok()
}

/// Asks the settings window, wherever it runs, to open on an extension or
/// on the core settings.
#[derive(Debug, Clone)]
pub struct SettingsUiHandle {
    sender: Sender<Option<String>>,
}

/// A handle and the receiving end of its requests.
pub fn settings_ui_channel() -> (SettingsUiHandle, Receiver<Option<String>>) {
    let (sender, receiver) = selection_channel();
    (SettingsUiHandle { sender }, receiver)
}

/// The message when the settings window is gone.
pub open spec fn unavailable_window(e: UiConfigError) -> bool {
    e matches UiConfigError::Window(m) && m@ == "settings UI is unavailable"@
}

/// What a request for the settings window hands to it: the extension's id,
/// or nothing for the core settings.
pub fn selection_for(extension_id: Option<&str>) -> (s: Option<String>)
    ensures
        match extension_id {
            Some(id) => s matches Some(t) && t@ == id@,
            None => s is None,
        },
{
    match extension_id {
        Some(id) => Some(owned(id)),
        None => None,
    }
}

impl SettingsUiHandle {
    /// Requests the window for `extension_id`, or the core settings.
    pub fn open(&self, extension_id: Option<&str>) -> (r: Result<(), UiConfigError>)
        ensures
            r matches Err(e) ==> unavailable_window(e),
    {
        let selection = selection_for(extension_id);
        if send_selection(&self.sender, selection) {
            Ok(())
        } else {
            Err(UiConfigError::Window(owned("settings UI is unavailable")))
        }
    }
}

/// A settings-UI failure, with the text of what went wrong.
#[derive(Debug, Clone)]
pub enum UiConfigError {
    Io(String),
    AutoStart(String),
    Extension(String),
    Json(String),
    ExtensionNotFound(String),
    Request(String),
    Browser(String),
    Window(String),
}

impl UiConfigError {
    pub open spec fn message(&self) -> Seq<char> {
        match self {
            UiConfigError::Io(m) => m@,
            UiConfigError::AutoStart(m) => m@,
            UiConfigError::Extension(m) => m@,
            UiConfigError::Json(m) => m@,
            UiConfigError::ExtensionNotFound(id) => "extension '"@ + id@ + "' not found"@,
            UiConfigError::Request(m) => "invalid request: "@ + m@,
            UiConfigError::Browser(m) => "failed to open browser: "@ + m@,
            UiConfigError::Window(m) => "failed to open native window: "@ + m@,
        }
    }

    pub fn to_string(&self) -> (s: String)
        ensures
            s@ == self.message(),
    {
        match self {
            UiConfigError::Io(m) => owned(m.as_str()),
            UiConfigError::AutoStart(m) => owned(m.as_str()),
            UiConfigError::Extension(m) => owned(m.as_str()),
            UiConfigError::Json(m) => owned(m.as_str()),
            UiConfigError::ExtensionNotFound(id) => concat3("extension '", id.as_str(), "' not found"),
            UiConfigError::Request(m) => concat2("invalid request: ", m.as_str()),
            UiConfigError::Browser(m) => concat2("failed to open browser: ", m.as_str()),
            UiConfigError::Window(m) => concat2("failed to open native window: ", m.as_str()),
        }
    }
}

/// What the settings server does with a request. `S` is `String` for a
/// route and `Seq<char>` for its specification.
#[derive(Debug)]
pub enum UiRoute<S> {
    /// `GET /`: the settings page.
    Page,
    /// `GET /descriptor`: the extension catalog.
    Descriptor,
    /// `GET /config/core`: the saved core settings.
    CoreConfig,
    /// `POST /config/core`: merge the body into the core settings.
    SaveCoreConfig,
    /// `POST /close` where the UI may be closed: answer 204 and stop.
    Close,
    /// `POST /close` where it may not.
    CloseDisabled,
    /// `GET /info/core`.
    CoreInfo,
    /// `POST /apply/extension/<id>`.
    ApplyExtension(S),
    /// `/info/extension/<id>` for a discoverable extension.
    ExtensionInfo(S),
    /// `GET /config/extension/<id>`.
    ExtensionConfig(S),
    /// `POST /config/extension/<id>`: merge the body into its settings.
    SaveExtensionConfig(S),
    /// `POST /trigger/extension/<id>[/<action>]`; with an empty body the
    /// saved settings are the inputs.
    Trigger { extension_id: S, action_id: Option<S>, use_saved_inputs: bool },
    /// The request lacks the control-plane token or comes from elsewhere.
    Forbidden,
    NotFound,
}

impl UiRoute<String> {
    pub open spec fn view(&self) -> UiRoute<Seq<char>> {
        match self {
            UiRoute::Page => UiRoute::Page,
            UiRoute::Descriptor => UiRoute::Descriptor,
            UiRoute::CoreConfig => UiRoute::CoreConfig,
            UiRoute::SaveCoreConfig => UiRoute::SaveCoreConfig,
            UiRoute::Close => UiRoute::Close,
            UiRoute::CloseDisabled => UiRoute::CloseDisabled,
            UiRoute::CoreInfo => UiRoute::CoreInfo,
            UiRoute::ApplyExtension(id) => UiRoute::ApplyExtension(id@),
            UiRoute::ExtensionInfo(id) => UiRoute::ExtensionInfo(id@),
            UiRoute::ExtensionConfig(id) => UiRoute::ExtensionConfig(id@),
            UiRoute::SaveExtensionConfig(id) => UiRoute::SaveExtensionConfig(id@),
            UiRoute::Trigger { extension_id, action_id, use_saved_inputs } => UiRoute::Trigger {
                extension_id: extension_id@,
                action_id: match action_id {
                    Some(a) => Some(a@),
                    None => None,
                },
                use_saved_inputs: *use_saved_inputs,
            },
            UiRoute::Forbidden => UiRoute::Forbidden,
            UiRoute::NotFound => UiRoute::NotFound,
        }
    }
}

/// `rest.splitn(2, '/')`: the text before the first `/` and, if there is
/// one, the text after it.
pub open spec fn split_first_slash(rest: Seq<char>) -> (Seq<char>, Option<Seq<char>>) {
    match first_index(rest, '/') {
        Some(i) => (rest.take(i), Some(rest.skip(i + 1))),
        None => (rest, None),
    }
}

/// The route of a request that needs no further check. `ids` are the
/// enabled extensions, `discoverable` all that were found.
pub open spec fn route_spec(
    m: HttpMethod,
    path: Seq<char>,
    body_empty: bool,
    allow_close: bool,
    ids: Seq<Seq<char>>,
    discoverable: Seq<Seq<char>>,
) -> UiRoute<Seq<char>> {
    if m == HttpMethod::Get && path == "/"@ {
        UiRoute::Page
    } else if m == HttpMethod::Get && path == "/descriptor"@ {
        UiRoute::Descriptor
    } else if m == HttpMethod::Get && path == "/config/core"@ {
        UiRoute::CoreConfig
    } else if m == HttpMethod::Post && path == "/config/core"@ {
        UiRoute::SaveCoreConfig
    } else if m == HttpMethod::Post && path == "/close"@ {
        if allow_close {
            UiRoute::Close
        } else {
            UiRoute::CloseDisabled
        }
    } else if m == HttpMethod::Get && path == "/info/core"@ {
        UiRoute::CoreInfo
    } else if strip(path, "/apply/extension/"@) is Some {
        let id = strip(path, "/apply/extension/"@)->0;
        if m != HttpMethod::Post || !ids.contains(id) {
            UiRoute::NotFound
        } else {
            UiRoute::ApplyExtension(id)
        }
    } else if strip(path, "/info/extension/"@) is Some {
        let id = strip(path, "/info/extension/"@)->0;
        if discoverable.contains(id) {
            UiRoute::ExtensionInfo(id)
        } else {
            UiRoute::NotFound
        }
    } else if strip(path, "/config/extension/"@) is Some {
        let id = strip(path, "/config/extension/"@)->0;
        if !ids.contains(id) {
            UiRoute::NotFound
        } else if m == HttpMethod::Get {
            UiRoute::ExtensionConfig(id)
        } else {
            UiRoute::SaveExtensionConfig(id)
        }
    } else if strip(path, "/trigger/extension/"@) is Some {
        let (id, action) = split_first_slash(strip(path, "/trigger/extension/"@)->0);
        if m != HttpMethod::Post || id.len() == 0 || !ids.contains(id) {
            UiRoute::NotFound
        } else {
            UiRoute::Trigger { extension_id: id, action_id: action, use_saved_inputs: body_empty }
        }
    } else {
        UiRoute::NotFound
    }
}

/// Only the settings page itself is served without the token.
pub open spec fn needs_auth(m: HttpMethod, path: Seq<char>) -> bool {
    !(m == HttpMethod::Get && path == "/"@)
}

fn split_action(rest: &str) -> (r: (String, Option<String>))
    ensures
        r.0@ == split_first_slash(rest@).0,
        match split_first_slash(rest@).1 {
            Some(a) => r.1 matches Some(b) && b@ == a,
            None => r.1 is None,
        },
{
    let cs = crate::text::chars_of(rest);
    match crate::chars::find_char(cs.as_slice(), '/') {
        Some(i) => {
            let id = rest.substring_char(0, i);
            let action = rest.substring_char(i + 1, rest.unicode_len());
            assert(id@ =~= rest@.take(i as int));
            assert(action@ =~= rest@.skip(i + 1));
            (owned(id), Some(owned(action)))
        },
        None => {
            (owned(rest), None)
        },
    }
}

/// Chooses what to do with a request (the token is checked elsewhere).
pub fn route_request(
    request: &HttpRequest,
    allow_close: bool,
    extension_ids: &Vec<String>,
    discoverable_ids: &Vec<String>,
) -> (r: UiRoute<String>)
    ensures
        r.view() == route_spec(
            request.method,
            request.path@,
            request.body@.len() == 0,
            allow_close,
            strings_view(extension_ids@),
            strings_view(discoverable_ids@),
        ),
{
    route_path(
        request.method,
        request.path.as_str(),
        request.body.len() == 0,
        allow_close,
        extension_ids,
        discoverable_ids,
    )
}

/// The route of a method and path; `body_empty` tells whether the request
/// carried a body.
pub fn route_path(
    m: HttpMethod,
    path: &str,
    body_empty: bool,
    allow_close: bool,
    extension_ids: &Vec<String>,
    discoverable_ids: &Vec<String>,
) -> (r: UiRoute<String>)
    ensures
        r.view() == route_spec(
            m,
            path@,
            body_empty,
            allow_close,
            strings_view(extension_ids@),
            strings_view(discoverable_ids@),
        ),
{
    let get = m == HttpMethod::Get;
    let post = m == HttpMethod::Post;
    if get && crate::text::str_eq(path, "/") {
        UiRoute::Page
    } else if get && crate::text::str_eq(path, "/descriptor") {
        UiRoute::Descriptor
    } else if get && crate::text::str_eq(path, "/config/core") {
        UiRoute::CoreConfig
    } else if post && crate::text::str_eq(path, "/config/core") {
        UiRoute::SaveCoreConfig
    } else if post && crate::text::str_eq(path, "/close") {
        if allow_close {
            UiRoute::Close
        } else {
            UiRoute::CloseDisabled
        }
    } else if get && crate::text::str_eq(path, "/info/core") {
        UiRoute::CoreInfo
    } else if let Some(id) = strip_prefix(path, "/apply/extension/") {
        if !post || !contains_str(extension_ids.as_slice(), id) {
            UiRoute::NotFound
        } else {
            UiRoute::ApplyExtension(owned(id))
        }
    } else if let Some(id) = strip_prefix(path, "/info/extension/") {
        if contains_str(discoverable_ids.as_slice(), id) {
            UiRoute::ExtensionInfo(owned(id))
        } else {
            UiRoute::NotFound
        }
    } else if let Some(id) = strip_prefix(path, "/config/extension/") {
        if !contains_str(extension_ids.as_slice(), id) {
            UiRoute::NotFound
        } else if get {
            UiRoute::ExtensionConfig(owned(id))
        } else {
            UiRoute::SaveExtensionConfig(owned(id))
        }
    } else if let Some(rest) = strip_prefix(path, "/trigger/extension/") {
        if !post {
            return UiRoute::NotFound;
        }
        let (id, action) = split_action(rest);
        if id.unicode_len() == 0 || !contains_str(extension_ids.as_slice(), id.as_str()) {
            UiRoute::NotFound
        } else {
            UiRoute::Trigger {
                extension_id: id,
                action_id: action,
                use_saved_inputs: body_empty,
            }
        }
    } else {
        UiRoute::NotFound
    }
}

/// The route of a request on the settings server: `Forbidden` where the
/// token is needed and missing or wrong, else as `route_request` decides.
pub fn connection_route(
    request: &HttpRequest,
    token: &str,
    origin: &str,
    allow_close: bool,
    extension_ids: &Vec<String>,
    discoverable_ids: &Vec<String>,
) -> (r: UiRoute<String>)
    ensures
        r.view() == (if needs_auth(request.method, request.path@) && !authorized(
            request.method,
            pairs_view(request.headers@),
            token@,
            origin@,
        ) {
            UiRoute::Forbidden
        } else {
            route_spec(
                request.method,
                request.path@,
                request.body@.len() == 0,
                allow_close,
                strings_view(extension_ids@),
                strings_view(discoverable_ids@),
            )
        }),
{
    let open_page = request.method == HttpMethod::Get && crate::text::str_eq(request.path.as_str(), "/");
    if !open_page && !crate::http::request_is_authorized(request, token, origin) {
        return UiRoute::Forbidden;
    }
    route_request(request, allow_close, extension_ids, discoverable_ids)
}

/// Opens the settings in a native window. This build has no native window
/// support, so the request is always refused.
pub fn open_in_native_window(extensions_dir: &str, selected_extension_id: Option<&str>) -> (r: Result<(), UiConfigError>)
    ensures
        r matches Err(UiConfigError::Window(m)) && m@ == "native UI support is not available in this build"@,
{
    Err(UiConfigError::Window(owned("native UI support is not available in this build")))
}

} // verus!
