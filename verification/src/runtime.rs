use vstd::prelude::*;
use crate::descriptor::{permission_name, permissions_as_strings, Action};
use crate::extension::Extension;
use crate::json::{get, members_or_none, set_member, JsonValue};
use crate::text::{chars_of, concat2, concat3, owned, str_eq, string_from_chars, strings_view};
use crate::chars::{trim, trim_chars};

verus! {

/// Version of the protocol between the daemon and a runtime worker.
pub const RUNTIME_ABI_VERSION: &'static str = "copper.runtime/1";

/// Who prepared a trigger, and how.
#[derive(Debug, Clone, PartialEq, Eq)]
pub struct RuntimeMetadata {
    pub abi_version: String,
    pub executor: String,
    pub isolated: bool,
}

/// What a runtime prepared for a trigger.
#[derive(Debug)]
pub struct RuntimeTriggerResult {
    pub extension_id: String,
    pub action_id: String,
    pub permissions: Vec<String>,
    pub script: String,
    pub main_ts_path: String,
    pub runtime: RuntimeMetadata,
    pub extras: JsonValue,
}

/// Why a runtime could not prepare a trigger.
#[derive(Debug)]
pub enum RuntimeError {
    Io(String),
    Serde(String),
    Protocol(String),
    Execution { code: String, message: String },
}

impl RuntimeError {
    pub open spec fn message(&self) -> Seq<char> {
        match self {
            RuntimeError::Io(m) => "runtime I/O error: "@ + m@,
            RuntimeError::Serde(m) => "runtime serialization error: "@ + m@,
            RuntimeError::Protocol(m) => "runtime protocol error: "@ + m@,
            RuntimeError::Execution { code, message } => "runtime execution failed ["@ + code@ + "]: "@
                + message@,
        }
    }

    pub fn to_string(&self) -> (s: String)
        ensures
            s@ == self.message(),
    {
        match self {
            RuntimeError::Io(m) => concat2("runtime I/O error: ", m.as_str()),
            RuntimeError::Serde(m) => concat2("runtime serialization error: ", m.as_str()),
            RuntimeError::Protocol(m) => concat2("runtime protocol error: ", m.as_str()),
            RuntimeError::Execution { code, message } => {
                let a = concat3("runtime execution failed [", code.as_str(), "]: ");
                concat2(a.as_str(), message.as_str())
            },
        }
    }
}

/// The action a trigger runs: the one named, else the first one.
pub fn select_action(extension: &Extension, action_id: Option<&str>) -> (r: Result<usize, String>)
    ensures
        match action_id {
            Some(a) => match r {
                Ok(i) => i < extension.descriptor.actions@.len() && extension.descriptor.actions@[i as int].id@
                    == a@ && forall|j: int| 0 <= j < i ==> extension.descriptor.actions@[j].id@ != a@,
                Err(m) => m@ == "action '"@ + a@ + "' not found"@ && forall|j: int|
                    0 <= j < extension.descriptor.actions@.len() ==> extension.descriptor.actions@[j].id@ != a@,
            },
            None => if extension.descriptor.actions@.len() > 0 {
                r == Ok::<usize, String>(0)
            } else {
                r matches Err(m) && m@ == "no action defined"@
            },
        },
{
    crate::cli::select_action_index(&extension.descriptor.actions, action_id)
}

/// An optional text as its view.
pub open spec fn opt_view(a: Option<&str>) -> Option<Seq<char>> {
    match a {
        Some(x) => Some(x@),
        None => None,
    }
}

/// A prepared trigger for `extension`: the first action with the requested
/// id (the first action when none is requested), with its script, the
/// extension's permissions, its component path and no extras.
pub open spec fn trigger_fields_ok(t: RuntimeTriggerResult, extension: Extension, action_id: Option<Seq<char>>) -> bool {
    &&& t.extension_id@ == extension.descriptor.id@
    &&& exists|i: int| 0 <= i < extension.descriptor.actions@.len() && t.action_id@
        == extension.descriptor.actions@[i].id@ && t.script@ == extension.descriptor.actions@[i].script@
        && match action_id {
        Some(a) => extension.descriptor.actions@[i].id@ == a && forall|j: int|
            0 <= j < i ==> (#[trigger] extension.descriptor.actions@[j]).id@ != a,
        None => i == 0,
    }
    &&& strings_view(t.permissions@) == extension.descriptor.permissions@.map_values(
        |p: crate::descriptor::Permission| permission_name(p),
    )
    &&& t.main_ts_path@ == extension.wasm_component_path@
    &&& t.extras matches JsonValue::Object(members) && members@.len() == 0
}

/// The refusal of a trigger whose action does not exist: the requested id
/// names no action, or there is no action at all.
pub open spec fn trigger_refused(code: Seq<char>, message: Seq<char>, extension: Extension, action_id: Option<Seq<char>>) -> bool {
    code == "invalid-action"@ && match action_id {
        Some(a) => message == "action '"@ + a + "' not found"@ && forall|j: int|
            0 <= j < extension.descriptor.actions@.len() ==> (#[trigger] extension.descriptor.actions@[j]).id@ != a,
        None => message == "no action defined"@ && extension.descriptor.actions@.len() == 0,
    }
}

/// The runtime that prepares triggers in this process without running
/// anything.
#[derive(Debug, Default, Clone, Copy)]
pub struct DryRunRuntime;

impl DryRunRuntime {
    pub fn new() -> Self {
        DryRunRuntime
    }

    /// Prepares a trigger: the chosen action's script, the extension's
    /// permissions and its component path.
    pub fn prepare_trigger(&self, extension: &Extension, action_id: Option<&str>) -> (r: Result<
        RuntimeTriggerResult,
        RuntimeError,
    >)
        ensures
            match r {
                Ok(t) => {
                    &&& trigger_fields_ok(t, *extension, opt_view(action_id))
                    &&& t.runtime.abi_version@ == RUNTIME_ABI_VERSION@
                    &&& t.runtime.executor@ == "in-process-dry-run"@
                    &&& !t.runtime.isolated
                },
                Err(RuntimeError::Execution { code, message }) => trigger_refused(
                    code@,
                    message@,
                    *extension,
                    opt_view(action_id),
                ),
                Err(_) => false,
            },
    {
        let index = match select_action(extension, action_id) {
            Ok(i) => i,
            Err(message) => {
                return Err(RuntimeError::Execution { code: owned("invalid-action"), message });
            },
        };
        let action = &extension.descriptor.actions[index];
        let permissions = permissions_as_strings(extension.descriptor.permissions.as_slice());
        assert(strings_view(permissions@) =~= extension.descriptor.permissions@.map_values(
            |p: crate::descriptor::Permission| permission_name(p),
        ));
        Ok(
            RuntimeTriggerResult {
                extension_id: owned(extension.descriptor.id.as_str()),
                action_id: owned(action.id.as_str()),
                permissions,
                script: owned(action.script.as_str()),
                main_ts_path: owned(extension.wasm_component_path.as_str()),
                runtime: RuntimeMetadata {
                    abi_version: owned(RUNTIME_ABI_VERSION),
                    executor: owned("in-process-dry-run"),
                    isolated: false,
                },
                extras: JsonValue::Object(Vec::new()),
            },
        )
    }
}

/// An error as a runtime worker reports it.
#[derive(Debug)]
pub struct RuntimeProtocolError {
    pub code: String,
    pub message: String,
}

pub fn runtime_error_to_protocol(error: RuntimeError) -> (p: RuntimeProtocolError)
    ensures
        match error {
            RuntimeError::Execution { code, message } => p.code == code && p.message == message,
            RuntimeError::Protocol(m) => p.code@ == "protocol"@ && p.message == m,
            RuntimeError::Io(m) => p.code@ == "io"@ && p.message == m,
            RuntimeError::Serde(m) => p.code@ == "serde"@ && p.message == m,
        },
{
    match error {
        RuntimeError::Execution { code, message } => RuntimeProtocolError { code, message },
        RuntimeError::Protocol(message) => RuntimeProtocolError { code: owned("protocol"), message },
        RuntimeError::Io(message) => RuntimeProtocolError { code: owned("io"), message },
        RuntimeError::Serde(message) => RuntimeProtocolError { code: owned("serde"), message },
    }
}

/// The answer of a runtime worker to a trigger request: refused for another
/// ABI version, else the dry-run preparation marked as done in an isolated
/// worker.
pub fn worker_response(abi_version: &str, extension: &Extension, action_id: Option<&str>) -> (r: Result<
    RuntimeTriggerResult,
    RuntimeProtocolError,
>)
    ensures
        abi_version@ != RUNTIME_ABI_VERSION@ ==> (r matches Err(e) && e.code@ == "abi-mismatch"@
            && e.message@ == "unsupported runtime ABI '"@ + abi_version@ + "'; expected '"@
            + RUNTIME_ABI_VERSION@ + "'"@),
        abi_version@ == RUNTIME_ABI_VERSION@ ==> match r {
            Ok(t) => trigger_fields_ok(t, *extension, opt_view(action_id)) && t.runtime.executor@
                == "subprocess-runtime"@ && t.runtime.isolated && t.runtime.abi_version@ == RUNTIME_ABI_VERSION@,
            Err(e) => trigger_refused(e.code@, e.message@, *extension, opt_view(action_id)),
        },
{
    if !str_eq(abi_version, RUNTIME_ABI_VERSION) {
        let a = concat3("unsupported runtime ABI '", abi_version, "'; expected '");
        return Err(
            RuntimeProtocolError {
                code: owned("abi-mismatch"),
                message: concat3(a.as_str(), RUNTIME_ABI_VERSION, "'"),
            },
        );
    }
    match DryRunRuntime.prepare_trigger(extension, action_id) {
        Ok(mut t) => {
            t.runtime = RuntimeMetadata {
                abi_version: owned(RUNTIME_ABI_VERSION),
                executor: owned("subprocess-runtime"),
                isolated: true,
            };
            Ok(t)
        },
        Err(e) => Err(runtime_error_to_protocol(e)),
    }
}

/// The inputs a script runs with: the given object with `action` added
/// when it has none; anything else is kept under `_raw` beside `action`.
pub fn merge_trigger_inputs(inputs: JsonValue, action_id: &str) -> (r: JsonValue)
    ensures
        r is Object,
        inputs is Object && get(inputs, "action"@) is Some ==> get(r, "action"@) == get(inputs, "action"@),
        inputs is Object && get(inputs, "action"@) is None ==> (get(r, "action"@) matches Some(
            JsonValue::Str(s),
        ) && s@ == action_id@),
        inputs is Object ==> forall|k: Seq<char>| k != "action"@ ==> #[trigger] get(r, k) == get(inputs, k),
        !(inputs is Object) ==> (get(r, "action"@) matches Some(JsonValue::Str(s)) && s@ == action_id@
            && get(r, "_raw"@) == Some(inputs)),
{
    match inputs {
        JsonValue::Object(entries) => {
            let v = JsonValue::Object(entries);
            if crate::json::json_get(&v, "action").is_some() {
                v
            } else {
                set_member(v, "action", JsonValue::Str(owned(action_id)))
            }
        },
        other => {
            proof {
                reveal_strlit("action");
                reveal_strlit("_raw");
                assert("action"@.len() == 6);
                assert("_raw"@.len() == 4);
            }
            let r0 = set_member(JsonValue::Object(Vec::new()), "action", JsonValue::Str(owned(action_id)));
            let r1 = set_member(r0, "_raw", other);
            assert(get(r1, "action"@) == get(r0, "action"@));
            r1
        },
    }
}

/// A runtime worker's whole answer.
#[derive(Debug)]
pub struct RuntimeProtocolResponse {
    pub ok: bool,
    pub result: Option<RuntimeTriggerResult>,
    pub error: Option<RuntimeProtocolError>,
}

/// The runtime that prepares triggers in a worker process: this program
/// run again with `internal runtime-trigger`.
#[derive(Debug, Clone)]
pub struct SubprocessRuntime {
    executable: String,
}

impl SubprocessRuntime {
    pub fn new(executable: String) -> (r: Self)
        ensures
            r.executable_spec() == executable@,
    {
        SubprocessRuntime { executable }
    }

    pub closed spec fn executable_spec(&self) -> Seq<char> {
        self.executable@
    }

    pub fn executable(&self) -> (e: &str)
        ensures
            e@ == self.executable_spec(),
    {
        self.executable.as_str()
    }

    /// The arguments that start a worker.
    pub fn worker_args(&self) -> (args: Vec<String>)
        ensures
            args@.len() == 2,
            args@[0]@ == "internal"@,
            args@[1]@ == "runtime-trigger"@,
    {
        let mut args: Vec<String> = Vec::new();
        args.push(owned("internal"));
        args.push(owned("runtime-trigger"));
        args
    }

    /// Reads what a worker answered: nothing on standard output is a
    /// protocol error carrying standard error; an answer that is not a
    /// response is a serialization error; a successful response must carry
    /// its result; a failed one gives its error, or an `unknown` one with the
    /// trimmed standard error.
    pub fn read_worker_answer(
        &self,
        stdout_empty: bool,
        stderr: &str,
        response: Result<RuntimeProtocolResponse, String>,
    ) -> (r: Result<RuntimeTriggerResult, RuntimeError>)
        ensures
            stdout_empty ==> (r matches Err(RuntimeError::Protocol(m)) && m@ == "runtime worker returned no response: "@
                + stderr@),
            !stdout_empty ==> match response {
                Err(e) => r matches Err(RuntimeError::Serde(m)) && m@ == e@,
                Ok(resp) => if resp.ok {
                    match resp.result {
                        Some(t) => r == Ok::<RuntimeTriggerResult, RuntimeError>(t),
                        None => r matches Err(RuntimeError::Protocol(m)) && m@ == "missing runtime result"@,
                    }
                } else {
                    match resp.error {
                        Some(e) => r matches Err(RuntimeError::Execution { code, message }) && code == e.code
                            && message == e.message,
                        None => r matches Err(RuntimeError::Execution { code, message }) && code@ == "unknown"@
                            && message@ == trim(stderr@),
                    }
                },
            },
    {
        if stdout_empty {
            return Err(RuntimeError::Protocol(concat2("runtime worker returned no response: ", stderr)));
        }
        let resp = match response {
            Ok(resp) => resp,
            Err(e) => {
                return Err(RuntimeError::Serde(e));
            },
        };
        if resp.ok {
            return match resp.result {
                Some(t) => Ok(t),
                None => Err(RuntimeError::Protocol(owned("missing runtime result"))),
            };
        }
        match resp.error {
            Some(e) => Err(RuntimeError::Execution { code: e.code, message: e.message }),
            None => {
                let cs = chars_of(stderr);
                let t = trim_chars(cs.as_slice());
                Err(RuntimeError::Execution { code: owned("unknown"), message: string_from_chars(t.as_slice()) })
            },
        }
    }
}

} // verus!
