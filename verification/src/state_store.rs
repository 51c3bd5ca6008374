use vstd::prelude::*;
use crate::json::{get, is_object, is_empty_object, json_is_object, members_insert, set_member, JsonValue};
use crate::text::{concat2, concat3};

verus! {

/// Name of the core host's own state directory.
pub const CORE_EXTENSION_ID: &'static str = "copper-core";

/// A path below `base`: the library joins path segments with `/`.
pub open spec fn join(base: Seq<char>, segment: Seq<char>) -> Seq<char> {
    base + "/"@ + segment
}

pub fn join_path(base: &str, segment: &str) -> (out: String)
    ensures
        out@ == join(base@, segment@),
{
    concat3(base, "/", segment)
}

/// Per-extension state files below one data root:
/// `<root>/<id>/config.json`, `<root>/<id>/status.json` and the legacy `<root>/<id>/data.json`.
#[derive(Debug, Clone)]
pub struct ExtensionStateStore {
    data_root: String,
}

/// A problem found while reading a state file.
#[derive(Debug, Clone)]
pub struct StateStoreWarning {
    pub scope: String,
    pub code: String,
    pub path: String,
    pub message: String,
}

/// A state file's contents (always an object) and what was wrong with it.
#[derive(Debug)]
pub struct LoadedState {
    pub value: JsonValue,
    pub warnings: Vec<StateStoreWarning>,
}

/// What reading one state file gave: no file, a parsed document, or text that
/// is not JSON (with the parser's message).
#[derive(Debug)]
pub enum FileRead {
    Missing,
    Parsed(JsonValue),
    Invalid(String),
}

impl ExtensionStateStore {
    pub closed spec fn root(&self) -> Seq<char> {
        self.data_root@
    }

    pub open spec fn spec_config_path(&self, id: Seq<char>) -> Seq<char> {
        join(join(self.root(), id), "config.json"@)
    }

    pub open spec fn spec_status_path(&self, id: Seq<char>) -> Seq<char> {
        join(join(self.root(), id), "status.json"@)
    }

    pub open spec fn spec_legacy_path(&self, id: Seq<char>) -> Seq<char> {
        join(join(self.root(), id), "data.json"@)
    }

    pub fn new(data_root: String) -> (s: Self)
        ensures
            s.root() == data_root@,
    {
        Self { data_root }
    }

    /// The store under a home directory: `<home>/.Copper/extensions`.
    pub fn from_home_dir(home: &str) -> (s: Self)
        ensures
            s.root() == join(join(home@, ".Copper"@), "extensions"@),
    {
        let copper = join_path(home, ".Copper");
        Self { data_root: join_path(copper.as_str(), "extensions") }
    }

    pub fn data_root(&self) -> (r: &str)
        ensures
            r@ == self.root(),
    {
        self.data_root.as_str()
    }

    pub fn config_path(&self, extension_id: &str) -> (p: String)
        ensures
            p@ == self.spec_config_path(extension_id@),
    {
        let dir = join_path(self.data_root.as_str(), extension_id);
        join_path(dir.as_str(), "config.json")
    }

    pub fn status_path(&self, extension_id: &str) -> (p: String)
        ensures
            p@ == self.spec_status_path(extension_id@),
    {
        let dir = join_path(self.data_root.as_str(), extension_id);
        join_path(dir.as_str(), "status.json")
    }

    pub fn legacy_path(&self, extension_id: &str) -> (p: String)
        ensures
            p@ == self.spec_legacy_path(extension_id@),
    {
        let dir = join_path(self.data_root.as_str(), extension_id);
        join_path(dir.as_str(), "data.json")
    }

    pub fn core_config_path(&self) -> (p: String)
        ensures
            p@ == self.spec_config_path(CORE_EXTENSION_ID@),
    {
        self.config_path(CORE_EXTENSION_ID)
    }
}

/// The message of a warning about a state file that is not an object.
pub open spec fn non_object_message(path: Seq<char>) -> Seq<char> {
    "State file '"@ + path + "' must contain a top-level JSON object"@
}

pub open spec fn invalid_json_message(path: Seq<char>, err: Seq<char>) -> Seq<char> {
    "Failed to parse state file '"@ + path + "': "@ + err
}

pub open spec fn legacy_message(path: Seq<char>) -> Seq<char> {
    "Using legacy state file '"@ + path + "' because the primary file is missing"@
}

fn warning(scope: &str, code: &str, path: &str, message: String) -> (w: StateStoreWarning)
    ensures
        w.scope@ == scope@,
        w.code@ == code@,
        w.path@ == path@,
        w.message@ == message@,
{
    StateStoreWarning {
        scope: String::from_str(scope),
        code: String::from_str(code),
        path: String::from_str(path),
        message,
    }
}

/// The state and warnings that reading `read` from `path` yields.
pub open spec fn loaded_matches(
    value: JsonValue,
    warnings: Seq<StateStoreWarning>,
    read: FileRead,
    scope: Seq<char>,
    path: Seq<char>,
) -> bool {
    match read {
        FileRead::Missing => is_empty_object(value) && warnings.len() == 0,
        FileRead::Parsed(v) => if is_object(v) {
            value == v && warnings.len() == 0
        } else {
            is_empty_object(value) && warnings.len() == 1
                && warnings[0].code@ == "non-object-json"@
                && warnings[0].scope@ == scope
                && warnings[0].path@ == path
                && warnings[0].message@ == non_object_message(path)
        },
        FileRead::Invalid(err) => is_empty_object(value) && warnings.len() == 1
            && warnings[0].code@ == "invalid-json"@
            && warnings[0].scope@ == scope
            && warnings[0].path@ == path
            && warnings[0].message@ == invalid_json_message(path, err@),
    }
}

/// Interprets what was read from a state file: an object is kept; a missing file
/// reads as `{}`; anything else reads as `{}` with a warning coded
/// `non-object-json` or `invalid-json`.
pub fn loaded_from_read(read: FileRead, scope: &str, path: &str) -> (r: LoadedState)
    ensures
        is_object(r.value),
        loaded_matches(r.value, r.warnings@, read, scope@, path@),
{
    match read {
        FileRead::Missing => LoadedState { value: JsonValue::Object(Vec::new()), warnings: Vec::new() },
        FileRead::Parsed(v) => {
            if json_is_object(&v) {
                LoadedState { value: v, warnings: Vec::new() }
            } else {
                let message = concat3("State file '", path, "' must contain a top-level JSON object");
                let mut warnings = Vec::new();
                warnings.push(warning(scope, "non-object-json", path, message));
                LoadedState { value: JsonValue::Object(Vec::new()), warnings }
            }
        },
        FileRead::Invalid(err) => {
            let head = concat3("Failed to parse state file '", path, "': ");
            let message = concat2(head.as_str(), err.as_str());
            let mut warnings = Vec::new();
            warnings.push(warning(scope, "invalid-json", path, message));
            LoadedState { value: JsonValue::Object(Vec::new()), warnings }
        },
    }
}

/// A state file with a legacy fallback: the primary file wins when it exists;
/// otherwise an existing legacy file is read and a `legacy-path-in-use` warning
/// goes first; otherwise the state is `{}`.
pub fn loaded_with_legacy(
    scope: &str,
    primary_path: &str,
    primary: FileRead,
    legacy_path: &str,
    legacy: FileRead,
) -> (r: LoadedState)
    ensures
        is_object(r.value),
        !(primary is Missing) ==> loaded_matches(r.value, r.warnings@, primary, scope@, primary_path@),
        primary is Missing && legacy is Missing ==> is_empty_object(r.value) && r.warnings@.len() == 0,
        primary is Missing && !(legacy is Missing) ==> {
            &&& loaded_matches(r.value, r.warnings@.subrange(1, r.warnings@.len() as int), legacy, scope@, legacy_path@)
            &&& r.warnings@.len() >= 1
            &&& r.warnings@[0].code@ == "legacy-path-in-use"@
            &&& r.warnings@[0].scope@ == scope@
            &&& r.warnings@[0].path@ == legacy_path@
            &&& r.warnings@[0].message@ == legacy_message(legacy_path@)
        },
{
    if !matches!(primary, FileRead::Missing) {
        return loaded_from_read(primary, scope, primary_path);
    }
    if matches!(legacy, FileRead::Missing) {
        return LoadedState { value: JsonValue::Object(Vec::new()), warnings: Vec::new() };
    }
    let loaded = loaded_from_read(legacy, scope, legacy_path);
    let message = concat3("Using legacy state file '", legacy_path, "' because the primary file is missing");
    let mut warnings = Vec::new();
    warnings.push(warning(scope, "legacy-path-in-use", legacy_path, message));
    let LoadedState { value, warnings: rest } = loaded;
    let ghost rest_v = rest@;
    let mut rest = rest;
    warnings.append(&mut rest);
    assert(warnings@.subrange(1, warnings@.len() as int) =~= rest_v);
    LoadedState { value, warnings }
}

proof fn lemma_middle_determined(p: Seq<char>, a: Seq<char>, b: Seq<char>, q: Seq<char>)
    requires
        p + a + q == p + b + q,
    ensures
        a == b,
{
    let l = p + a + q;
    let r = p + b + q;
    assert(l.len() == r.len());
    assert forall|i: int| 0 <= i < a.len() implies a[i] == b[i] by {
        assert(l[p.len() + i] == a[i]);
        assert(r[p.len() + i] == b[i]);
    }
    assert(a =~= b);
}

proof fn lemma_suffix_differs(x: Seq<char>, y: Seq<char>, sx: Seq<char>, sy: Seq<char>, k: int)
    requires
        1 <= k <= sx.len(),
        k <= sy.len(),
        sx[sx.len() - k] != sy[sy.len() - k],
    ensures
        x + sx != y + sy,
{
    let l = x + sx;
    let r = y + sy;
    if l == r {
        assert(l[l.len() - k] == sx[sx.len() - k]);
        assert(r[r.len() - k] == sy[sy.len() - k]);
    }
}

/// Each extension's state files are its own: two different extensions never share
/// a config, status or legacy file, and one extension's config, status and legacy
/// files are three different files.
pub proof fn law_state_paths_are_scoped(store: ExtensionStateStore, a: Seq<char>, b: Seq<char>)
    ensures
        a != b ==> store.spec_config_path(a) != store.spec_config_path(b),
        a != b ==> store.spec_status_path(a) != store.spec_status_path(b),
        a != b ==> store.spec_legacy_path(a) != store.spec_legacy_path(b),
        store.spec_config_path(a) != store.spec_status_path(b),
        store.spec_config_path(a) != store.spec_legacy_path(b),
        store.spec_status_path(a) != store.spec_legacy_path(b),
{
    reveal_strlit("config.json");
    reveal_strlit("status.json");
    reveal_strlit("data.json");
    reveal_strlit("/");
    let root = store.root();
    let pre = root + "/"@;
    assert(store.spec_config_path(a) == pre + a + ("/"@ + "config.json"@));
    assert(store.spec_config_path(b) == pre + b + ("/"@ + "config.json"@));
    assert(store.spec_status_path(a) == pre + a + ("/"@ + "status.json"@));
    assert(store.spec_status_path(b) == pre + b + ("/"@ + "status.json"@));
    assert(store.spec_legacy_path(a) == pre + a + ("/"@ + "data.json"@));
    assert(store.spec_legacy_path(b) == pre + b + ("/"@ + "data.json"@));
    if store.spec_config_path(a) == store.spec_config_path(b) {
        lemma_middle_determined(pre, a, b, "/"@ + "config.json"@);
    }
    if store.spec_status_path(a) == store.spec_status_path(b) {
        lemma_middle_determined(pre, a, b, "/"@ + "status.json"@);
    }
    if store.spec_legacy_path(a) == store.spec_legacy_path(b) {
        lemma_middle_determined(pre, a, b, "/"@ + "data.json"@);
    }
    lemma_suffix_differs(join(root, a), join(root, b), "/"@ + "config.json"@, "/"@ + "status.json"@, 11);
    lemma_suffix_differs(join(root, a), join(root, b), "/"@ + "config.json"@, "/"@ + "data.json"@, 9);
    lemma_suffix_differs(join(root, a), join(root, b), "/"@ + "status.json"@, "/"@ + "data.json"@, 9);
}

/// The key-value store of an extension with `key` set to `value`; a store
/// that is not an object is left as it is.
pub fn with_store_value(store: JsonValue, key: &str, value: JsonValue) -> (r: JsonValue)
    ensures
        is_object(store) ==> is_object(r) && forall|k: Seq<char>| #[trigger] get(r, k) == if k == key@ {
            Some(value)
        } else {
            get(store, k)
        },
        !is_object(store) ==> r == store,
{
    match store {
        JsonValue::Object(entries) => JsonValue::Object(members_insert(entries, String::from_str(key), value)),
        other => other,
    }
}

/// A warning as JSON: `{scope, code, path, message}`.
pub open spec fn warning_json_ok(v: JsonValue, w: StateStoreWarning) -> bool {
    &&& get(v, "scope"@) matches Some(JsonValue::Str(s)) && s@ == w.scope@
    &&& get(v, "code"@) matches Some(JsonValue::Str(s)) && s@ == w.code@
    &&& get(v, "path"@) matches Some(JsonValue::Str(s)) && s@ == w.path@
    &&& get(v, "message"@) matches Some(JsonValue::Str(s)) && s@ == w.message@
}

/// A list of warnings as a JSON array, in order.
pub open spec fn warnings_json_ok(v: JsonValue, ws: Seq<StateStoreWarning>) -> bool {
    v matches JsonValue::Array(xs) && xs@.len() == ws.len() && forall|i: int|
        0 <= i < ws.len() ==> warning_json_ok(#[trigger] xs@[i], ws[i])
}

fn warning_json(w: &StateStoreWarning) -> (v: JsonValue)
    ensures
        warning_json_ok(v, *w),
{
    proof {
        reveal_strlit("scope");
        reveal_strlit("code");
        reveal_strlit("path");
        reveal_strlit("message");
        assert("scope"@.len() == 5);
        assert("code"@.len() == 4);
        assert("path"@.len() == 4);
        assert("message"@.len() == 7);
        assert("code"@[0] != "path"@[0]);
    }
    let v0 = set_member(JsonValue::Object(Vec::new()), "scope", JsonValue::Str(crate::text::owned(w.scope.as_str())));
    let v1 = set_member(v0, "code", JsonValue::Str(crate::text::owned(w.code.as_str())));
    let v2 = set_member(v1, "path", JsonValue::Str(crate::text::owned(w.path.as_str())));
    let v3 = set_member(v2, "message", JsonValue::Str(crate::text::owned(w.message.as_str())));
    assert(get(v3, "scope"@) == get(v0, "scope"@));
    assert(get(v3, "code"@) == get(v1, "code"@));
    assert(get(v3, "path"@) == get(v2, "path"@));
    v3
}

/// The warnings as a JSON array of `{scope, code, path, message}` objects.
pub fn warnings_json(ws: &Vec<StateStoreWarning>) -> (v: JsonValue)
    ensures
        warnings_json_ok(v, ws@),
{
    let mut xs: Vec<JsonValue> = Vec::new();
    let mut i: usize = 0;
    while i < ws.len()
        invariant
            i <= ws@.len(),
            xs@.len() == i,
            forall|j: int| 0 <= j < i ==> warning_json_ok(#[trigger] xs@[j], ws@[j]),
        decreases ws.len() - i,
    {
        xs.push(warning_json(&ws[i]));
        i = i + 1;
    }
    JsonValue::Array(xs)
}

} // verus!
