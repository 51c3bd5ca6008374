use vstd::prelude::*;
use crate::json::{get, json_as_array, json_as_bool, json_as_str, json_get, or_null, take_member, JsonValue};
use crate::text::{concat2, concat3, has_prefix, has_prefix_str, owned, str_eq, strings_view};

verus! {

/// The manifest permission an extension needs to call API `method`.
pub open spec fn required_api_permission(method: Seq<char>) -> Option<Seq<char>> {
    if has_prefix(method, "fs."@) {
        Some("fs"@)
    } else if has_prefix(method, "shell."@) {
        Some("shell"@)
    } else if has_prefix(method, "store."@) {
        Some("store"@)
    } else if has_prefix(method, "ui."@) {
        Some("ui"@)
    } else if has_prefix(method, "keyboard."@) {
        Some("keyboard"@)
    } else if has_prefix(method, "secureStore."@) {
        Some("secure-store"@)
    } else {
        None
    }
}

pub open spec fn permission_error(p: Seq<char>, method: Seq<char>) -> Seq<char> {
    "permission '"@ + p + "' is required for API method '"@ + method + "'"@
}

/// Refuses an API call whose permission the extension did not declare.
pub fn authorize_method(method: &str, permissions: &[String]) -> (r: Result<(), String>)
    ensures
        match required_api_permission(method@) {
            Some(p) => if strings_view(permissions@).contains(p) {
                r is Ok
            } else {
                r matches Err(e) && e@ == permission_error(p, method@)
            },
            None => r is Ok,
        },
{
    let required = if has_prefix_str(method, "fs.") {
        Some("fs")
    } else if has_prefix_str(method, "shell.") {
        Some("shell")
    } else if has_prefix_str(method, "store.") {
        Some("store")
    } else if has_prefix_str(method, "ui.") {
        Some("ui")
    } else if has_prefix_str(method, "keyboard.") {
        Some("keyboard")
    } else if has_prefix_str(method, "secureStore.") {
        Some("secure-store")
    } else {
        None
    };
    match required {
        Some(p) => {
            if crate::text::contains_str(permissions, p) {
                Ok(())
            } else {
                let head = concat3("permission '", p, "' is required for API method '");
                Err(concat3(head.as_str(), method, "'"))
            }
        },
        None => Ok(()),
    }
}

/// A host API call of an extension script, with its arguments read. `S` is
/// the text type and `L` the list of texts.
#[derive(Debug)]
#[allow(inconsistent_fields)]
pub enum ApiCall<S, L> {
    FsList { path: S },
    FsMove { src: S, dst: S },
    FsDelete { path: S },
    ShellRun { cmd: S, args: L },
    ShellWhich { binary: S },
    Notify { message: S },
    StoreGet { key: S },
    StoreSet { key: S, value: JsonValue },
    /// `ui.show` and `ui.update`, which answer `null`.
    UiNoop,
    TypeText { text: S },
    SendKey { key: S },
    SendCombo { combo: S },
    NormalizeCombo { combo: S },
    SecureStoreGet { service: S, key: S },
    SecureStoreSet { service: S, key: S, value: S },
    SecureStoreDelete { service: S, key: S },
    /// A `windows.display.*` method.
    WindowsDisplay { method: S },
}

impl ApiCall<String, Vec<String>> {
    pub open spec fn view(&self) -> ApiCall<Seq<char>, Seq<Seq<char>>> {
        match self {
            ApiCall::FsList { path } => ApiCall::FsList { path: path@ },
            ApiCall::FsMove { src, dst } => ApiCall::FsMove { src: src@, dst: dst@ },
            ApiCall::FsDelete { path } => ApiCall::FsDelete { path: path@ },
            ApiCall::ShellRun { cmd, args } => ApiCall::ShellRun { cmd: cmd@, args: strings_view(args@) },
            ApiCall::ShellWhich { binary } => ApiCall::ShellWhich { binary: binary@ },
            ApiCall::Notify { message } => ApiCall::Notify { message: message@ },
            ApiCall::StoreGet { key } => ApiCall::StoreGet { key: key@ },
            ApiCall::StoreSet { key, value } => ApiCall::StoreSet { key: key@, value: *value },
            ApiCall::UiNoop => ApiCall::UiNoop,
            ApiCall::TypeText { text } => ApiCall::TypeText { text: text@ },
            ApiCall::SendKey { key } => ApiCall::SendKey { key: key@ },
            ApiCall::SendCombo { combo } => ApiCall::SendCombo { combo: combo@ },
            ApiCall::NormalizeCombo { combo } => ApiCall::NormalizeCombo { combo: combo@ },
            ApiCall::SecureStoreGet { service, key } => ApiCall::SecureStoreGet {
                service: service@,
                key: key@,
            },
            ApiCall::SecureStoreSet { service, key, value } => ApiCall::SecureStoreSet {
                service: service@,
                key: key@,
                value: value@,
            },
            ApiCall::SecureStoreDelete { service, key } => ApiCall::SecureStoreDelete {
                service: service@,
                key: key@,
            },
            ApiCall::WindowsDisplay { method } => ApiCall::WindowsDisplay { method: method@ },
        }
    }
}

/// `params[key].as_str().unwrap_or("")`.
pub open spec fn str_param(params: JsonValue, key: Seq<char>) -> Seq<char> {
    match get(params, key) {
        Some(JsonValue::Str(s)) => s@,
        _ => Seq::empty(),
    }
}

/// The strings among `items`, in order.
pub open spec fn str_items(items: Seq<JsonValue>) -> Seq<Seq<char>>
    decreases items.len(),
{
    if items.len() == 0 {
        Seq::empty()
    } else {
        str_items(items.drop_last()) + match items.last() {
            JsonValue::Str(s) => seq![s@],
            _ => Seq::empty(),
        }
    }
}

/// The string arguments of `shell.run`.
pub open spec fn args_param(params: JsonValue) -> Seq<Seq<char>> {
    match get(params, "args"@) {
        Some(JsonValue::Array(items)) => str_items(items@),
        _ => Seq::empty(),
    }
}

/// The call that API `method` with `params` stands for, if the method exists.
pub open spec fn api_call_spec(method: Seq<char>, params: JsonValue) -> Option<
    ApiCall<Seq<char>, Seq<Seq<char>>>,
> {
    if method == "fs.list"@ {
        Some(ApiCall::FsList { path: str_param(params, "path"@) })
    } else if method == "fs.move"@ {
        Some(ApiCall::FsMove { src: str_param(params, "src"@), dst: str_param(params, "dst"@) })
    } else if method == "fs.delete"@ {
        Some(ApiCall::FsDelete { path: str_param(params, "path"@) })
    } else if method == "shell.run"@ {
        Some(ApiCall::ShellRun { cmd: str_param(params, "cmd"@), args: args_param(params) })
    } else if method == "shell.which"@ {
        Some(ApiCall::ShellWhich { binary: str_param(params, "binary"@) })
    } else if method == "notify"@ {
        Some(ApiCall::Notify { message: str_param(params, "message"@) })
    } else if method == "store.get"@ {
        Some(ApiCall::StoreGet { key: str_param(params, "key"@) })
    } else if method == "store.set"@ {
        Some(
            ApiCall::StoreSet { key: str_param(params, "key"@), value: or_null(get(params, "value"@)) },
        )
    } else if method == "ui.show"@ || method == "ui.update"@ {
        Some(ApiCall::UiNoop)
    } else if method == "keyboard.typeText"@ {
        Some(ApiCall::TypeText { text: str_param(params, "text"@) })
    } else if method == "keyboard.sendKey"@ {
        Some(ApiCall::SendKey { key: str_param(params, "key"@) })
    } else if method == "keyboard.sendCombo"@ {
        Some(ApiCall::SendCombo { combo: str_param(params, "combo"@) })
    } else if method == "keyboard.normalizeCombo"@ {
        Some(ApiCall::NormalizeCombo { combo: str_param(params, "combo"@) })
    } else if method == "secureStore.get"@ {
        Some(
            ApiCall::SecureStoreGet {
                service: str_param(params, "service"@),
                key: str_param(params, "key"@),
            },
        )
    } else if method == "secureStore.set"@ {
        Some(
            ApiCall::SecureStoreSet {
                service: str_param(params, "service"@),
                key: str_param(params, "key"@),
                value: str_param(params, "value"@),
            },
        )
    } else if method == "secureStore.delete"@ {
        Some(
            ApiCall::SecureStoreDelete {
                service: str_param(params, "service"@),
                key: str_param(params, "key"@),
            },
        )
    } else if has_prefix(method, "windows.display."@) {
        Some(ApiCall::WindowsDisplay { method })
    } else {
        None
    }
}

fn str_arg(params: &JsonValue, key: &str) -> (s: String)
    ensures
        s@ == str_param(*params, key@),
{
    match json_as_str(json_get(params, key)) {
        Some(s) => owned(s.as_str()),
        None => String::new(),
    }
}

fn string_args(params: &JsonValue) -> (out: Vec<String>)
    ensures
        strings_view(out@) == args_param(*params),
{
    let mut out: Vec<String> = Vec::new();
    match json_as_array(json_get(params, "args")) {
        Some(items) => {
            let mut i: usize = 0;
            while i < items.len()
                invariant
                    i <= items@.len(),
                    strings_view(out@) == str_items(items@.take(i as int)),
                decreases items.len() - i,
            {
                assert(items@.take(i + 1).drop_last() =~= items@.take(i as int));
                match &items[i] {
                    JsonValue::Str(s) => {
                        out.push(owned(s.as_str()));
                    },
                    _ => {},
                }
                i = i + 1;
                assert(strings_view(out@) =~= str_items(items@.take(i as int)));
            }
            assert(items@.take(i as int) =~= items@);
        },
        None => {
            assert(strings_view(out@) =~= Seq::<Seq<char>>::empty());
        },
    }
    out
}

pub open spec fn unknown_method_error(method: Seq<char>) -> Seq<char> {
    "unknown API method: "@ + method
}

/// Reads an API call of an extension script: refused without the declared
/// permission, else the call with its arguments, or an error for a method
/// that does not exist.
pub fn decode_api_call(method: &str, params: JsonValue, permissions: &[String]) -> (r: Result<
    ApiCall<String, Vec<String>>,
    String,
>)
    ensures
        match required_api_permission(method@) {
            Some(p) if !strings_view(permissions@).contains(p) => r matches Err(e) && e@
                == permission_error(p, method@),
            _ => match api_call_spec(method@, params) {
                Some(c) => r matches Ok(x) && x.view() == c,
                None => r matches Err(e) && e@ == unknown_method_error(method@),
            },
        },
{
    match authorize_method(method, permissions) {
        Err(e) => {
            return Err(e);
        },
        Ok(()) => {},
    }
    if str_eq(method, "fs.list") {
        Ok(ApiCall::FsList { path: str_arg(&params, "path") })
    } else if str_eq(method, "fs.move") {
        Ok(ApiCall::FsMove { src: str_arg(&params, "src"), dst: str_arg(&params, "dst") })
    } else if str_eq(method, "fs.delete") {
        Ok(ApiCall::FsDelete { path: str_arg(&params, "path") })
    } else if str_eq(method, "shell.run") {
        Ok(ApiCall::ShellRun { cmd: str_arg(&params, "cmd"), args: string_args(&params) })
    } else if str_eq(method, "shell.which") {
        Ok(ApiCall::ShellWhich { binary: str_arg(&params, "binary") })
    } else if str_eq(method, "notify") {
        Ok(ApiCall::Notify { message: str_arg(&params, "message") })
    } else if str_eq(method, "store.get") {
        Ok(ApiCall::StoreGet { key: str_arg(&params, "key") })
    } else if str_eq(method, "store.set") {
        let key = str_arg(&params, "key");
        let (value, _) = take_member(params, "value");
        Ok(ApiCall::StoreSet { key, value })
    } else if str_eq(method, "ui.show") || str_eq(method, "ui.update") {
        Ok(ApiCall::UiNoop)
    } else if str_eq(method, "keyboard.typeText") {
        Ok(ApiCall::TypeText { text: str_arg(&params, "text") })
    } else if str_eq(method, "keyboard.sendKey") {
        Ok(ApiCall::SendKey { key: str_arg(&params, "key") })
    } else if str_eq(method, "keyboard.sendCombo") {
        Ok(ApiCall::SendCombo { combo: str_arg(&params, "combo") })
    } else if str_eq(method, "keyboard.normalizeCombo") {
        Ok(ApiCall::NormalizeCombo { combo: str_arg(&params, "combo") })
    } else if str_eq(method, "secureStore.get") {
        Ok(ApiCall::SecureStoreGet { service: str_arg(&params, "service"), key: str_arg(&params, "key") })
    } else if str_eq(method, "secureStore.set") {
        Ok(
            ApiCall::SecureStoreSet {
                service: str_arg(&params, "service"),
                key: str_arg(&params, "key"),
                value: str_arg(&params, "value"),
            },
        )
    } else if str_eq(method, "secureStore.delete") {
        Ok(
            ApiCall::SecureStoreDelete {
                service: str_arg(&params, "service"),
                key: str_arg(&params, "key"),
            },
        )
    } else if has_prefix_str(method, "windows.display.") {
        Ok(ApiCall::WindowsDisplay { method: owned(method) })
    } else {
        Err(concat2("unknown API method: ", method))
    }
}

} // verus!
