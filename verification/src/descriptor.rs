use vstd::prelude::*;
use crate::json::JsonValue;

verus! {

/// Schema URL that a manifest may declare in its `$schema` field.
pub const SUPPORTED_SCHEMA_URL: &'static str =
    "https://Copper.dev/schemas/extension/1.0.0/descriptor.schema.json";

/// ABI tag of the component runtime.
pub const COMPONENT_ABI_V1: &'static str = "copper.component/1";

/// Permissions an extension manifest may request.
#[derive(Debug, Clone, Copy, PartialEq, Eq, Structural)]
pub enum Permission {
    Fs,
    Keyboard,
    Network,
    SecureStore,
    Shell,
    Store,
    Ui,
    WindowsDisplay,
}

/// The manifest spelling of a permission.
pub open spec fn permission_name(p: Permission) -> Seq<char> {
    match p {
        Permission::Fs => "fs"@,
        Permission::Keyboard => "keyboard"@,
        Permission::Network => "network"@,
        Permission::SecureStore => "secure-store"@,
        Permission::Shell => "shell"@,
        Permission::Store => "store"@,
        Permission::Ui => "ui"@,
        Permission::WindowsDisplay => "windows-display"@,
    }
}

pub fn permission_as_string(p: Permission) -> (s: String)
    ensures
        s@ == permission_name(p),
{
    match p {
        Permission::Fs => String::from_str("fs"),
        Permission::Keyboard => String::from_str("keyboard"),
        Permission::Network => String::from_str("network"),
        Permission::SecureStore => String::from_str("secure-store"),
        Permission::Shell => String::from_str("shell"),
        Permission::Store => String::from_str("store"),
        Permission::Ui => String::from_str("ui"),
        Permission::WindowsDisplay => String::from_str("windows-display"),
    }
}

/// Spells every permission, in order.
pub fn permissions_as_strings(permissions: &[Permission]) -> (out: Vec<String>)
    ensures
        out.len() == permissions.len(),
        forall|i: int| 0 <= i < permissions.len() ==> #[trigger] out[i]@ == permission_name(permissions[i]),
{
    let mut out: Vec<String> = Vec::new();
    let mut i: usize = 0;
    while i < permissions.len()
        invariant
            i <= permissions.len(),
            out.len() == i,
            forall|j: int| 0 <= j < i ==> #[trigger] out[j]@ == permission_name(permissions[j]),
        decreases permissions.len() - i,
    {
        out.push(permission_as_string(permissions[i]));
        i = i + 1;
    }
    out
}

/// The runtime kinds a manifest may declare.
#[derive(Debug, Clone, Copy, PartialEq, Eq, Structural)]
pub enum RuntimeKind {
    WasmComponent,
}

/// The `runtime` section of a manifest.
#[derive(Debug)]
pub struct RuntimeDescriptor {
    pub kind: RuntimeKind,
    pub abi: String,
    pub artifact: String,
    pub background: Option<BackgroundDescriptor>,
}

/// A background action that the daemon runs on a schedule.
#[derive(Debug)]
pub struct BackgroundDescriptor {
    pub action: String,
    pub enabled_config: Option<String>,
    pub enabled_by_default: bool,
    pub interval_seconds_config: Option<String>,
    pub default_interval_seconds: u64,
}

/// Kinds of input fields in a manifest.
#[derive(Debug, Clone, Copy, PartialEq, Eq, Structural)]
pub enum InputType {
    Text,
    Number,
    Boolean,
    FolderPicker,
    FilePicker,
    Hotkey,
    Select,
    ListSelect,
    MultiSelect,
}

/// Operating systems an extension may be limited to.
#[derive(Debug, Clone, Copy, PartialEq, Eq, Structural)]
pub enum Platform {
    Windows,
    Macos,
    Linux,
}

pub open spec fn platform_name(p: Platform) -> Seq<char> {
    match p {
        Platform::Windows => "windows"@,
        Platform::Macos => "macos"@,
        Platform::Linux => "linux"@,
    }
}

impl Platform {
    pub fn as_str(&self) -> (s: &'static str)
        ensures
            s@ == platform_name(*self),
    {
        match self {
            Platform::Windows => "windows",
            Platform::Macos => "macos",
            Platform::Linux => "linux",
        }
    }
}

/// No two permissions share a manifest spelling, so a spelling names at
/// most one permission.
pub proof fn law_permission_names_are_distinct(p: Permission, q: Permission)
    ensures
        permission_name(p) == permission_name(q) ==> p == q,
{
    reveal_strlit("fs");
    reveal_strlit("keyboard");
    reveal_strlit("network");
    reveal_strlit("secure-store");
    reveal_strlit("shell");
    reveal_strlit("store");
    reveal_strlit("ui");
    reveal_strlit("windows-display");
    if permission_name(p) == permission_name(q) && p != q {
        let a = permission_name(p);
        let b = permission_name(q);
        assert(a.len() == b.len());
        assert(a[0] == b[0]);
        assert(a[1] == b[1]);
        assert(a[2] == b[2]);
    }
}

/// No two platforms share a manifest spelling.
pub proof fn law_platform_names_are_distinct(p: Platform, q: Platform)
    ensures
        platform_name(p) == platform_name(q) ==> p == q,
{
    reveal_strlit("windows");
    reveal_strlit("macos");
    reveal_strlit("linux");
    if platform_name(p) == platform_name(q) && p != q {
        assert(platform_name(p)[0] == platform_name(q)[0]);
    }
}

#[derive(Debug)]
pub struct InputField {
    pub id: String,
    pub field_type: InputType,
    pub label: String,
    pub description: Option<String>,
    pub default: JsonValue,
    pub options: Vec<String>,
    pub options_source: Option<String>,
}

#[derive(Debug)]
pub struct Action {
    pub id: String,
    pub label: String,
    pub description: Option<String>,
    pub script: String,
}

#[derive(Debug)]
pub struct UiDescriptor {
    pub ui_type: String,
    pub source: Option<String>,
    pub on_select: Option<String>,
}

#[derive(Debug)]
pub struct TrayDescriptor {
    pub provider: String,
    pub title: String,
    pub tooltip: Option<String>,
}

#[derive(Debug, Clone, Copy, PartialEq, Eq, Structural)]
pub enum StatusFieldFormat {
    Text,
    Boolean,
    Number,
    Path,
    DateTime,
}

#[derive(Debug)]
pub struct SettingsSection {
    pub id: String,
    pub title: String,
    pub description: Option<String>,
    pub inputs: Vec<String>,
}

#[derive(Debug)]
pub struct SettingsTab {
    pub id: String,
    pub title: String,
    pub description: Option<String>,
    pub sections: Vec<String>,
    pub show_status: bool,
    pub show_commands: bool,
}

#[derive(Debug)]
pub struct StatusField {
    pub key: String,
    pub label: String,
    pub format: Option<StatusFieldFormat>,
}

#[derive(Debug)]
pub struct StatusDescriptor {
    pub title: Option<String>,
    pub description: Option<String>,
    pub fields: Vec<StatusField>,
}

#[derive(Debug)]
pub struct SettingsDescriptor {
    pub title: Option<String>,
    pub description: Option<String>,
    pub apply_actions: Vec<String>,
    pub tabs: Vec<SettingsTab>,
    pub sections: Vec<SettingsSection>,
    pub status: Option<StatusDescriptor>,
}

/// An extension manifest.
#[derive(Debug)]
pub struct Descriptor {
    pub schema: Option<String>,
    pub id: String,
    pub name: String,
    pub version: String,
    pub trigger: String,
    pub runtime: Option<RuntimeDescriptor>,
    pub platforms: Vec<Platform>,
    pub permissions: Vec<Permission>,
    pub inputs: Vec<InputField>,
    pub actions: Vec<Action>,
    pub ui: Option<UiDescriptor>,
    pub settings: Option<SettingsDescriptor>,
    pub tray: Option<TrayDescriptor>,
}

} // verus!
