use vstd::prelude::*;
use crate::chars::{contains_chars, contains_seq, trim, trim_chars};
use crate::json::{as_bool, get, json_as_bool, json_get, JsonValue};
use crate::state_store::{join, join_path};
use crate::text::{chars_of, concat2, concat3, owned, push_char, string_from_chars};

verus! {

/// The core configuration member that turns start-at-login on.
pub const CORE_AUTO_START_KEY: &'static str = "autoStart";

/// The name under which the daemon is registered to start at login.
pub const AUTOSTART_NAME: &'static str = "Copper";

/// Whether start-at-login is on after a sync.
#[derive(Debug, Clone, Copy, PartialEq, Eq, Structural)]
pub struct AutoStartStatus {
    pub enabled: bool,
}

/// Why start-at-login could not be changed.
#[derive(Debug)]
pub enum AutoStartError {
    Io(String),
    HomeDirUnavailable,
    CurrentExeUnavailable,
    CommandFailed(String),
    UnsupportedPlatform,
}

impl AutoStartError {
    pub open spec fn message(&self) -> Seq<char> {
        match self {
            AutoStartError::Io(m) => m@,
            AutoStartError::HomeDirUnavailable => "home directory is not available"@,
            AutoStartError::CurrentExeUnavailable => "current executable path is not available"@,
            AutoStartError::CommandFailed(m) => "autostart command failed: "@ + m@,
            AutoStartError::UnsupportedPlatform => "autostart is not supported on this platform"@,
        }
    }

    pub fn to_string(&self) -> (s: String)
        ensures
            s@ == self.message(),
    {
        match self {
            AutoStartError::Io(m) => m.clone(),
            AutoStartError::HomeDirUnavailable => owned("home directory is not available"),
            AutoStartError::CurrentExeUnavailable => owned("current executable path is not available"),
            AutoStartError::CommandFailed(m) => concat2("autostart command failed: ", m.as_str()),
            AutoStartError::UnsupportedPlatform => owned("autostart is not supported on this platform"),
        }
    }
}

/// Whether the core configuration asks to start at login (`autoStart`,
/// off unless it is `true`).
pub open spec fn desired_spec(config: JsonValue) -> bool {
    as_bool(get(config, CORE_AUTO_START_KEY@)) == Some(true)
}

pub fn desired_from_core_config(config: &JsonValue) -> (r: bool)
    ensures
        r == desired_spec(*config),
{
    match json_as_bool(json_get(config, CORE_AUTO_START_KEY)) {
        Some(b) => b,
        None => false,
    }
}

/// The status a sync reports once the platform registration has been made
/// to match the configuration.
pub fn status_for(config: &JsonValue) -> (s: AutoStartStatus)
    ensures
        s.enabled == desired_spec(*config),
{
    AutoStartStatus { enabled: desired_from_core_config(config) }
}

/// Whether a character must be escaped in a desktop-entry `Exec` argument.
pub open spec fn needs_exec_escape(c: char) -> bool {
    c == ' ' || c == '\t' || c == '\n' || c == '"' || c == '\'' || c == '\\'
}

/// A desktop-entry `Exec` argument with blanks, quotes and backslashes
/// escaped by a backslash.
pub open spec fn exec_escaped(s: Seq<char>) -> Seq<char>
    decreases s.len(),
{
    if s.len() == 0 {
        seq![]
    } else {
        exec_escaped(s.drop_last()) + if needs_exec_escape(s.last()) {
            seq!['\\', s.last()]
        } else {
            seq![s.last()]
        }
    }
}

pub fn escape_desktop_exec_arg(value: &str) -> (escaped: String)
    ensures
        escaped@ == exec_escaped(value@),
{
    let cs = chars_of(value);
    let mut escaped = String::new();
    let mut i: usize = 0;
    while i < cs.len()
        invariant
            i <= cs@.len(),
            cs@ == value@,
            escaped@ == exec_escaped(value@.take(i as int)),
        decreases cs@.len() - i,
    {
        let ch = cs[i];
        assert(value@.take(i + 1).drop_last() =~= value@.take(i as int));
        if ch == ' ' || ch == '\t' || ch == '\n' || ch == '"' || ch == '\'' || ch == '\\' {
            push_char(&mut escaped, '\\');
        }
        push_char(&mut escaped, ch);
        i = i + 1;
    }
    assert(value@.take(i as int) =~= value@);
    escaped
}

/// The desktop entry that starts `exe` at login.
pub open spec fn desktop_entry(exe: Seq<char>) -> Seq<char> {
    "[Desktop Entry]\nType=Application\nVersion=1.0\nName=Copper\nExec="@ + exec_escaped(exe)
        + "\nTerminal=false\nX-GNOME-Autostart-enabled=true\n"@
}

pub fn linux_desktop_entry(exe: &str) -> (entry: String)
    ensures
        entry@ == desktop_entry(exe@),
{
    let arg = escape_desktop_exec_arg(exe);
    concat3(
        "[Desktop Entry]\nType=Application\nVersion=1.0\nName=Copper\nExec=",
        arg.as_str(),
        "\nTerminal=false\nX-GNOME-Autostart-enabled=true\n",
    )
}

/// Where the desktop entry goes below a home directory.
pub open spec fn desktop_entry_path_in(home: Seq<char>) -> Seq<char> {
    join(join(join(home, ".config"@), "autostart"@), "Copper.desktop"@)
}

pub fn linux_desktop_entry_path(home: &str) -> (p: String)
    ensures
        p@ == desktop_entry_path_in(home@),
{
    let a = join_path(home, ".config");
    let b = join_path(a.as_str(), "autostart");
    join_path(b.as_str(), "Copper.desktop")
}

/// The XML text of a character: `&`, `<` and `>` as entities.
pub open spec fn xml_char(c: char) -> Seq<char> {
    if c == '&' {
        "&amp;"@
    } else if c == '<' {
        "&lt;"@
    } else if c == '>' {
        "&gt;"@
    } else {
        seq![c]
    }
}

pub open spec fn xml_escaped(s: Seq<char>) -> Seq<char>
    decreases s.len(),
{
    if s.len() == 0 {
        seq![]
    } else {
        xml_escaped(s.drop_last()) + xml_char(s.last())
    }
}

pub fn xml_escape(value: &str) -> (out: String)
    ensures
        out@ == xml_escaped(value@),
{
    let cs = chars_of(value);
    let mut out = String::new();
    let mut i: usize = 0;
    while i < cs.len()
        invariant
            i <= cs@.len(),
            cs@ == value@,
            out@ == xml_escaped(value@.take(i as int)),
        decreases cs@.len() - i,
    {
        let ch = cs[i];
        assert(value@.take(i + 1).drop_last() =~= value@.take(i as int));
        if ch == '&' {
            out.append("&amp;");
        } else if ch == '<' {
            out.append("&lt;");
        } else if ch == '>' {
            out.append("&gt;");
        } else {
            push_char(&mut out, ch);
        }
        i = i + 1;
    }
    assert(value@.take(i as int) =~= value@);
    out
}

/// The launch agent that starts `exe` at login, in `working_dir`, with its
/// output logged to the two files.
pub open spec fn launch_agent(exe: Seq<char>, working_dir: Seq<char>, stdout_log: Seq<char>, stderr_log: Seq<char>) -> Seq<
    char,
> {
    "<?xml version=\"1.0\" encoding=\"UTF-8\"?>\n<!DOCTYPE plist PUBLIC \"-//Apple//DTD PLIST 1.0//EN\" \"http://www.apple.com/DTDs/PropertyList-1.0.dtd\">\n<plist version=\"1.0\">\n<dict>\n  <key>Label</key>\n  <string>dev.copper.Copper</string>\n  <key>ProgramArguments</key>\n  <array>\n    <string>"@
        + xml_escaped(exe) + "</string>\n  </array>\n  <key>RunAtLoad</key>\n  <true/>\n  <key>WorkingDirectory</key>\n  <string>"@
        + xml_escaped(working_dir) + "</string>\n  <key>StandardOutPath</key>\n  <string>"@ + xml_escaped(stdout_log)
        + "</string>\n  <key>StandardErrorPath</key>\n  <string>"@ + xml_escaped(stderr_log)
        + "</string>\n</dict>\n</plist>\n"@
}

pub fn macos_launch_agent_plist(exe: &str, working_dir: &str, stdout_log: &str, stderr_log: &str) -> (plist: String)
    ensures
        plist@ == launch_agent(exe@, working_dir@, stdout_log@, stderr_log@),
{
    let mut out = owned(
        "<?xml version=\"1.0\" encoding=\"UTF-8\"?>\n<!DOCTYPE plist PUBLIC \"-//Apple//DTD PLIST 1.0//EN\" \"http://www.apple.com/DTDs/PropertyList-1.0.dtd\">\n<plist version=\"1.0\">\n<dict>\n  <key>Label</key>\n  <string>dev.copper.Copper</string>\n  <key>ProgramArguments</key>\n  <array>\n    <string>",
    );
    let e = xml_escape(exe);
    out.append(e.as_str());
    out.append(
        "</string>\n  </array>\n  <key>RunAtLoad</key>\n  <true/>\n  <key>WorkingDirectory</key>\n  <string>",
    );
    let w = xml_escape(working_dir);
    out.append(w.as_str());
    out.append("</string>\n  <key>StandardOutPath</key>\n  <string>");
    let o = xml_escape(stdout_log);
    out.append(o.as_str());
    out.append("</string>\n  <key>StandardErrorPath</key>\n  <string>");
    let r = xml_escape(stderr_log);
    out.append(r.as_str());
    out.append("</string>\n</dict>\n</plist>\n");
    out
}

/// Where the launch agent goes below a home directory.
pub open spec fn launch_agent_path_in(home: Seq<char>) -> Seq<char> {
    join(join(join(home, "Library"@), "LaunchAgents"@), "dev.copper.Copper.plist"@)
}

pub fn macos_launch_agent_path(home: &str) -> (p: String)
    ensures
        p@ == launch_agent_path_in(home@),
{
    let a = join_path(home, "Library");
    let b = join_path(a.as_str(), "LaunchAgents");
    join_path(b.as_str(), "dev.copper.Copper.plist")
}

/// The launcher to register on Windows: the GUI binary beside the daemon
/// when it exists, else the daemon itself.
pub fn preferred_windows_launch_path(exe: String, gui_candidate: String, gui_exists: bool) -> (p: String)
    ensures
        p@ == if gui_exists {
            gui_candidate@
        } else {
            exe@
        },
{
    if gui_exists {
        gui_candidate
    } else {
        exe
    }
}

/// A path in double quotes, as the Run key stores it.
pub fn quoted_path(path: &str) -> (q: String)
    ensures
        q@ == "\""@ + path@ + "\""@,
{
    concat3("\"", path, "\"")
}

/// What a command printed, standard output then standard error, trimmed.
pub fn command_output(stdout: &str, stderr: &str) -> (out: String)
    ensures
        out@ == trim(stdout@ + stderr@),
{
    let both = concat2(stdout, stderr);
    let cs = chars_of(both.as_str());
    let t = trim_chars(cs.as_slice());
    string_from_chars(t.as_slice())
}

/// Removing the Run entry succeeded, or failed only because it was absent.
pub fn unregister_succeeded(status_ok: bool, output: &str) -> (r: bool)
    ensures
        r == (status_ok || contains_seq(output@, "Unable to find"@)),
{
    if status_ok {
        return true;
    }
    let hay = chars_of(output);
    let needle = chars_of("Unable to find");
    contains_chars(hay.as_slice(), needle.as_slice())
}

} // verus!
