use vstd::prelude::*;
use crate::config_ui::UiConfigError;
use crate::daemon::{DaemonConfig, DaemonError, IpcRequest, IpcResponse, DEFAULT_BIND_ADDR, DEFAULT_RELOAD_INTERVAL_MS};
use crate::descriptor::{permission_name, Action, Permission};
use crate::extension::ExtensionError;
use crate::json::{get, set_member, JsonValue};
use crate::schema::ValidationError;
use crate::text::{concat2, concat3, owned, str_eq, strings_view};

verus! {

/// Why a command failed.
#[derive(Debug)]
pub enum CliError {
    Message(String),
    Io(String),
    Validation(ValidationError),
    Extension(ExtensionError),
    Daemon(DaemonError),
    UiConfig(UiConfigError),
}

impl CliError {
    pub open spec fn message(&self) -> Seq<char> {
        match self {
            CliError::Message(m) => m@,
            CliError::Io(m) => m@,
            CliError::Validation(v) => v.message(),
            CliError::Extension(e) => e.message(),
            CliError::Daemon(d) => d.message(),
            CliError::UiConfig(u) => u.message(),
        }
    }

    pub fn to_string(&self) -> (s: String)
        ensures
            s@ == self.message(),
    {
        match self {
            CliError::Message(m) => owned(m.as_str()),
            CliError::Io(m) => owned(m.as_str()),
            CliError::Validation(v) => v.to_string(),
            CliError::Extension(e) => e.to_string(),
            CliError::Daemon(d) => d.to_string(),
            CliError::UiConfig(u) => u.to_string(),
        }
    }
}

/// The commands of `copperd`.
#[derive(Debug)]
pub enum Commands {
    Run { extensions_dir: String, bind_addr: String, reload_interval_ms: u64 },
    Validate { manifest: String },
    List { extensions_dir: String },
    Verify { extensions_dir: String },
    Trigger { id: String, action: Option<String>, extensions_dir: String, inputs: Vec<String> },
    Doctor,
    Daemon { command: DaemonCommands },
    Ui { command: UiCommands },
}

/// The `daemon` subcommands.
#[derive(Debug)]
pub enum DaemonCommands {
    Run { extensions_dir: String, bind_addr: String, reload_interval_ms: u64 },
    Health { bind_addr: String },
    List { bind_addr: String },
    Trigger { id: String, action: Option<String>, bind_addr: String },
    Reload { bind_addr: String },
    Verify { bind_addr: String },
    Shutdown { bind_addr: String },
}

/// The `ui` subcommands.
#[derive(Debug)]
pub enum UiCommands {
    Open {
        extension: String,
        extensions_dir: String,
        idle_timeout_ms: u64,
        no_browser: bool,
        window: bool,
        browser: bool,
    },
}

/// The command line: at most one command.
#[derive(Debug)]
pub struct Args {
    pub command: Option<Commands>,
}

/// Without a command `copperd` runs the daemon with its defaults.
pub fn default_run_command() -> (c: Commands)
    ensures
        c matches Commands::Run { extensions_dir, bind_addr, reload_interval_ms } && bind_addr@
            == DEFAULT_BIND_ADDR@ && reload_interval_ms == DEFAULT_RELOAD_INTERVAL_MS && exists|h: Seq<char>|
            extensions_dir@ == crate::platform::extensions_dir_in(h),
{
    Commands::Run {
        extensions_dir: crate::platform::default_extensions_dir(),
        bind_addr: owned(DEFAULT_BIND_ADDR),
        reload_interval_ms: DEFAULT_RELOAD_INTERVAL_MS,
    }
}

/// The command to run: the one given, else the default.
pub fn chosen_command(args: Args) -> (c: Commands)
    ensures
        args.command matches Some(given) ==> c == given,
        args.command is None ==> c matches Commands::Run { .. },
{
    match args.command {
        Some(c) => c,
        None => default_run_command(),
    }
}

/// What a `daemon` subcommand does: start the daemon here, or send one
/// request to a running daemon.
#[derive(Debug)]
pub enum DaemonPlan {
    Start(DaemonConfig),
    Send { bind_addr: String, request: IpcRequest },
}

pub fn plan_daemon_command(command: DaemonCommands) -> (p: DaemonPlan)
    ensures
        match command {
            DaemonCommands::Run { extensions_dir, bind_addr, .. } => p matches DaemonPlan::Start(c)
                && c.extensions_dir == extensions_dir && c.bind_addr == bind_addr,
            DaemonCommands::Health { bind_addr } => p matches DaemonPlan::Send { bind_addr: b, request }
                && b == bind_addr && request is Health,
            DaemonCommands::List { bind_addr } => p matches DaemonPlan::Send { bind_addr: b, request }
                && b == bind_addr && request is List,
            DaemonCommands::Trigger { id, action, bind_addr } => p matches DaemonPlan::Send {
                bind_addr: b,
                request: IpcRequest::Trigger { id: i, action: a },
            } && b == bind_addr && i == id && a == action,
            DaemonCommands::Reload { bind_addr } => p matches DaemonPlan::Send { bind_addr: b, request }
                && b == bind_addr && request is Reload,
            DaemonCommands::Verify { bind_addr } => p matches DaemonPlan::Send { bind_addr: b, request }
                && b == bind_addr && request is Verify,
            DaemonCommands::Shutdown { bind_addr } => p matches DaemonPlan::Send { bind_addr: b, request }
                && b == bind_addr && request is Shutdown,
        },
{
    match command {
        DaemonCommands::Run { extensions_dir, bind_addr, reload_interval_ms } => DaemonPlan::Start(
            DaemonConfig::with_interval_ms(extensions_dir, bind_addr, reload_interval_ms),
        ),
        DaemonCommands::Health { bind_addr } => DaemonPlan::Send { bind_addr, request: IpcRequest::Health },
        DaemonCommands::List { bind_addr } => DaemonPlan::Send { bind_addr, request: IpcRequest::List },
        DaemonCommands::Trigger { id, action, bind_addr } => DaemonPlan::Send {
            bind_addr,
            request: IpcRequest::Trigger { id, action },
        },
        DaemonCommands::Reload { bind_addr } => DaemonPlan::Send { bind_addr, request: IpcRequest::Reload },
        DaemonCommands::Verify { bind_addr } => DaemonPlan::Send { bind_addr, request: IpcRequest::Verify },
        DaemonCommands::Shutdown { bind_addr } => DaemonPlan::Send {
            bind_addr,
            request: IpcRequest::Shutdown,
        },
    }
}

/// Texts joined with `,`.
pub open spec fn comma_joined(parts: Seq<Seq<char>>) -> Seq<char>
    decreases parts.len(),
{
    if parts.len() == 0 {
        Seq::empty()
    } else if parts.len() == 1 {
        parts[0]
    } else {
        comma_joined(parts.drop_last()) + ","@ + parts.last()
    }
}

pub open spec fn permission_names(perms: Seq<Permission>) -> Seq<Seq<char>> {
    perms.map_values(|p: Permission| permission_name(p))
}

fn join_commas(parts: &Vec<String>) -> (s: String)
    ensures
        s@ == comma_joined(strings_view(parts@)),
{
    let mut s = String::new();
    let mut i: usize = 0;
    while i < parts.len()
        invariant
            i <= parts@.len(),
            s@ == comma_joined(strings_view(parts@.take(i as int))),
        decreases parts.len() - i,
    {
        assert(strings_view(parts@.take(i + 1)).drop_last() =~= strings_view(parts@.take(i as int)));
        if i == 0 {
            s = owned(parts[0].as_str());
            assert(strings_view(parts@.take(1)) =~= seq![parts@[0]@]);
        } else {
            s = concat3(s.as_str(), ",", parts[i].as_str());
        }
        i = i + 1;
    }
    assert(parts@.take(i as int) =~= parts@);
    s
}

/// `none` for no permissions, else their names joined with `,`.
pub fn format_permissions(perms: &[Permission]) -> (s: String)
    ensures
        perms@.len() == 0 ==> s@ == "none"@,
        perms@.len() > 0 ==> s@ == comma_joined(permission_names(perms@)),
{
    if perms.len() == 0 {
        return owned("none");
    }
    let names = crate::descriptor::permissions_as_strings(perms);
    assert(strings_view(names@) =~= permission_names(perms@));
    join_commas(&names)
}

/// The action to run: the one named, else the first.
pub fn select_action_index(actions: &Vec<Action>, action: Option<&str>) -> (r: Result<usize, String>)
    ensures
        match action {
            Some(a) => match r {
                Ok(i) => i < actions@.len() && actions@[i as int].id@ == a@ && forall|j: int|
                    0 <= j < i ==> actions@[j].id@ != a@,
                Err(m) => m@ == "action '"@ + a@ + "' not found"@ && forall|j: int|
                    0 <= j < actions@.len() ==> actions@[j].id@ != a@,
            },
            None => if actions@.len() > 0 {
                r == Ok::<usize, String>(0)
            } else {
                r matches Err(m) && m@ == "no action defined"@
            },
        },
{
    match action {
        Some(a) => {
            let mut i: usize = 0;
            while i < actions.len()
                invariant
                    i <= actions@.len(),
                    action == Some(a),
                    forall|j: int| 0 <= j < i ==> actions@[j].id@ != a@,
                decreases actions.len() - i,
            {
                if str_eq(actions[i].id.as_str(), a) {
                    return Ok(i);
                }
                i = i + 1;
            }
            Err(concat3("action '", a, "' not found"))
        },
        None => {
            if actions.len() > 0 {
                Ok(0)
            } else {
                Err(owned("no action defined"))
            }
        },
    }
}

/// The inputs given as `key=value` on the command line (a later key wins;
/// text without `=` is ignored).
pub open spec fn input_value(raw: Seq<Seq<char>>, key: Seq<char>) -> Option<Seq<char>>
    decreases raw.len(),
{
    if raw.len() == 0 {
        None
    } else {
        let r = raw.last();
        match crate::chars::first_index(r, '=') {
            Some(i) => if r.take(i) == key {
                Some(r.skip(i + 1))
            } else {
                input_value(raw.drop_last(), key)
            },
            None => input_value(raw.drop_last(), key),
        }
    }
}

/// `out` holds the input under `k` exactly when one was given.
pub open spec fn holds_input(out: JsonValue, given: Option<Seq<char>>, k: Seq<char>) -> bool {
    match given {
        Some(v) => get(out, k) matches Some(JsonValue::Str(s)) && s@ == v,
        None => get(out, k) is None,
    }
}

pub fn parse_inputs(raw_inputs: &Vec<String>) -> (r: JsonValue)
    ensures
        r is Object,
        forall|k: Seq<char>| #[trigger] holds_input(r, input_value(strings_view(raw_inputs@), k), k),
{
    let mut out = JsonValue::Object(Vec::new());
    let mut i: usize = 0;
    while i < raw_inputs.len()
        invariant
            i <= raw_inputs@.len(),
            out is Object,
            forall|k: Seq<char>| #[trigger] holds_input(out, input_value(strings_view(raw_inputs@.take(i as int)), k), k),
        decreases raw_inputs.len() - i,
    {
        let ghost pre = strings_view(raw_inputs@.take(i as int));
        let ghost next = strings_view(raw_inputs@.take(i + 1));
        assert(next.drop_last() =~= pre);
        assert(next.last() == raw_inputs@[i as int]@);
        let raw = raw_inputs[i].as_str();
        let cs = crate::text::chars_of(raw);
        match crate::chars::find_char(cs.as_slice(), '=') {
            Some(p) => {
                let key = crate::text::string_from_chars(vstd::slice::slice_subrange(cs.as_slice(), 0, p));
                let val = crate::text::string_from_chars(
                    vstd::slice::slice_subrange(cs.as_slice(), p + 1, cs.len()),
                );
                assert(cs@.subrange(0, p as int) =~= raw@.take(p as int));
                assert(cs@.subrange(p + 1, cs@.len() as int) =~= raw@.skip(p + 1));
                let ghost kv = key@;
                let ghost old_out = out;
                out = set_member(out, key.as_str(), JsonValue::Str(val));
                assert forall|k: Seq<char>| #[trigger] holds_input(out, input_value(next, k), k) by {
                    if k != kv {
                        assert(input_value(next, k) == input_value(pre, k));
                        assert(holds_input(old_out, input_value(pre, k), k));
                    }
                }
            },
            None => {
                assert forall|k: Seq<char>| #[trigger] holds_input(out, input_value(next, k), k) by {
                    assert(input_value(next, k) == input_value(pre, k));
                    assert(holds_input(out, input_value(pre, k), k));
                }
            },
        }
        i = i + 1;
    }
    assert(raw_inputs@.take(i as int) =~= raw_inputs@);
    out
}

/// The line printed before a trigger runs.
pub fn trigger_line(extension_id: &str, action_id: &str, permissions: &Vec<String>) -> (s: String)
    ensures
        s@ == "Trigger: extension='"@ + extension_id@ + "' action='"@ + action_id@ + "' permissions="@
            + (if permissions@.len() == 0 { "none"@ } else { comma_joined(strings_view(permissions@)) }),
{
    let perms = if permissions.len() == 0 {
        owned("none")
    } else {
        join_commas(permissions)
    };
    let a = concat3("Trigger: extension='", extension_id, "' action='");
    let b = concat3(a.as_str(), action_id, "' permissions=");
    concat2(b.as_str(), perms.as_str())
}

/// The environment check: one line naming each required tool as ok or
/// missing, and an error when one of them is missing.
pub fn doctor_report(rustc: bool, cargo: bool) -> (r: (String, Result<(), CliError>))
    ensures
        r.0@ == "required: rustc="@ + (if rustc { "ok"@ } else { "missing"@ }) + " cargo="@ + (if cargo {
            "ok"@
        } else {
            "missing"@
        }),
        (rustc && cargo) ==> r.1 is Ok,
        !(rustc && cargo) ==> (r.1 matches Err(CliError::Message(m)) && m@
            == "missing required Rust toolchain components"@),
{
    let a = concat3("required: rustc=", if rustc { "ok" } else { "missing" }, " cargo=");
    let line = concat2(a.as_str(), if cargo { "ok" } else { "missing" });
    if rustc && cargo {
        (line, Ok(()))
    } else {
        (line, Err(CliError::Message(owned("missing required Rust toolchain components"))))
    }
}

/// A refused daemon answer is an error with its message.
pub fn check_ipc_response(response: &IpcResponse) -> (r: Result<(), CliError>)
    ensures
        response.ok ==> r is Ok,
        !response.ok ==> (r matches Err(CliError::Message(m)) && m@ == response.message@),
{
    if response.ok {
        Ok(())
    } else {
        Err(CliError::Message(owned(response.message.as_str())))
    }
}

} // verus!
