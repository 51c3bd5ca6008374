use vstd::prelude::*;
use vstd::utf8::{encode_scalar, encode_utf8};
use crate::capability::{covers, is_capability_authorized, AuthorizedCapabilityJob, Capability, CopperEnvelope, COPPER_BUS_PROTOCOL_V1};
use crate::descriptor::Permission;
use crate::http::{decimal, decimal_string};
use crate::json::{
    as_bool, as_i64, as_str, get, json_as_bool, json_as_i64, json_as_str, json_get, json_is_object, or_null,
    take_member, JsonNumber, JsonValue,
};
use crate::keyboard::{normalize_combo, KeyCombo};
use crate::numbers::{i64_string, int_text};
use crate::text::{chars_of, concat2, concat3, owned};

verus! {

/// The sender named on capability job results.
pub const COPPER_JOB_SENDER: &'static str = "copper-jobs";

/// How many jobs wait for the worker at most.
pub const WORKER_QUEUE_CAPACITY: usize = 64;

/// Why a capability job failed: a stable code and a message.
#[derive(Debug)]
pub struct JobFailure {
    pub code: String,
    pub message: String,
}

pub open spec fn fails_with(f: JobFailure, code: Seq<char>, message: Seq<char>) -> bool {
    f.code@ == code && f.message@ == message
}

fn failure(code: &str, message: String) -> (f: JobFailure)
    ensures
        f.code@ == code@,
        f.message@ == message@,
{
    JobFailure { code: owned(code), message }
}

/// A finished capability job, with the envelope for its component.
#[derive(Debug)]
pub struct CompletedCapabilityJob {
    pub extension_id: String,
    pub envelope: CopperEnvelope,
    pub succeeded: bool,
}

/// The result envelope of a job: its value, or its failure, answering the
/// job's request.
pub fn complete_job(job: AuthorizedCapabilityJob, result: Result<JsonValue, JobFailure>) -> (c: CompletedCapabilityJob)
    ensures
        c.extension_id == job.extension_id,
        c.succeeded == result is Ok,
        result matches Ok(v) ==> (c.envelope matches CopperEnvelope::JobResult { protocol, request_id, job_id, result: r }
            && protocol@ == COPPER_BUS_PROTOCOL_V1@ && request_id == job.request_id && job_id == job.job_id && r == v),
        result matches Err(f) ==> (c.envelope matches CopperEnvelope::Error { protocol, request_id, job_id, code, message }
            && protocol@ == COPPER_BUS_PROTOCOL_V1@ && request_id == Some(job.request_id) && job_id == Some(
            job.job_id,
        ) && code == f.code && message == f.message),
{
    let AuthorizedCapabilityJob { job_id, extension_id, request_id, .. } = job;
    match result {
        Ok(value) => CompletedCapabilityJob {
            extension_id,
            envelope: CopperEnvelope::JobResult {
                protocol: owned(COPPER_BUS_PROTOCOL_V1),
                request_id,
                job_id,
                result: value,
            },
            succeeded: true,
        },
        Err(f) => CompletedCapabilityJob {
            extension_id,
            envelope: CopperEnvelope::Error {
                protocol: owned(COPPER_BUS_PROTOCOL_V1),
                request_id: Some(request_id),
                job_id: Some(job_id),
                code: f.code,
                message: f.message,
            },
            succeeded: false,
        },
    }
}

/// The answer for a job that could not be handed to the worker.
pub fn worker_unavailable(job: AuthorizedCapabilityJob) -> (c: CompletedCapabilityJob)
    ensures
        c.extension_id == job.extension_id,
        !c.succeeded,
        c.envelope matches CopperEnvelope::Error { protocol, request_id, job_id, code, message }
            && protocol@ == COPPER_BUS_PROTOCOL_V1@ && request_id == Some(job.request_id) && job_id == Some(job.job_id)
            && code@ == "worker-unavailable"@ && message@ == "capability worker is unavailable"@,
{
    complete_job(job, Err(failure("worker-unavailable", owned("capability worker is unavailable"))))
}

/// The failure of a job whose permission was withdrawn while it waited.
pub fn permission_revoked() -> (f: JobFailure)
    ensures
        fails_with(f, "permission-revoked"@, "manifest permission was revoked before execution"@),
{
    failure("permission-revoked", owned("manifest permission was revoked before execution"))
}

/// The failure of a job whose capability the worker does not handle.
pub fn unsupported_capability() -> (f: JobFailure)
    ensures
        fails_with(f, "unsupported-capability"@, "capability has no native worker handler yet"@),
{
    failure("unsupported-capability", owned("capability has no native worker handler yet"))
}

/// A control character: `U+0000`-`U+001F` or `U+007F`-`U+009F`.
pub open spec fn is_control(c: char) -> bool {
    (c as u32) <= 0x1F || (0x7F <= (c as u32) && (c as u32) <= 0x9F)
}

pub open spec fn has_control(s: Seq<char>) -> bool {
    exists|i: int| 0 <= i < s.len() && is_control(#[trigger] s[i])
}

fn contains_control(s: &str) -> (r: bool)
    ensures
        r == has_control(s@),
{
    let cs = chars_of(s);
    let mut i: usize = 0;
    while i < cs.len()
        invariant
            i <= cs@.len(),
            cs@ == s@,
            forall|j: int| 0 <= j < i ==> !is_control(#[trigger] s@[j]),
        decreases cs@.len() - i,
    {
        let c = cs[i] as u32;
        if c <= 0x1F || (0x7F <= c && c <= 0x9F) {
            assert(is_control(s@[i as int]));
            return true;
        }
        i = i + 1;
    }
    false
}

/// The number of bytes of a character in UTF-8.
pub open spec fn char_width(c: char) -> nat {
    if (c as u32) <= 0x7F {
        1
    } else if (c as u32) <= 0x7FF {
        2
    } else if (c as u32) <= 0xFFFF {
        3
    } else {
        4
    }
}

proof fn lemma_encode_push(a: Seq<char>, c: char)
    ensures
        encode_utf8(a.push(c)) == encode_utf8(a) + encode_scalar(c as u32),
    decreases a.len(),
{
    if a.len() == 0 {
        assert(a.push(c).drop_first() =~= Seq::<char>::empty());
        assert(encode_utf8(Seq::<char>::empty()) == Seq::<u8>::empty());
        assert(encode_utf8(a.push(c)) =~= encode_scalar(c as u32));
        assert(encode_utf8(a) + encode_scalar(c as u32) =~= encode_scalar(c as u32));
    } else {
        assert(a.push(c).drop_first() =~= a.drop_first().push(c));
        lemma_encode_push(a.drop_first(), c);
        assert(a.push(c)[0] == a[0]);
        let x = encode_scalar(a[0] as u32);
        let y = encode_utf8(a.drop_first());
        let z = encode_scalar(c as u32);
        assert(x + (y + z) =~= (x + y) + z);
    }
}

proof fn lemma_scalar_width(c: char)
    ensures
        encode_scalar(c as u32).len() == char_width(c),
{
    vstd::utf8::char_is_scalar(c);
}

/// Whether a text takes more than `max` bytes in UTF-8.
fn exceeds_bytes(s: &str, max: usize) -> (r: bool)
    requires
        max <= 0x4000_0000,
    ensures
        r == (encode_utf8(s@).len() > max),
{
    let cs = chars_of(s);
    let mut total: usize = 0;
    let mut i: usize = 0;
    while i < cs.len()
        invariant
            i <= cs@.len(),
            cs@ == s@,
            max <= 0x4000_0000,
            total == encode_utf8(s@.take(i as int)).len(),
            total <= max,
        decreases cs@.len() - i,
    {
        let c = cs[i];
        proof {
            assert(s@.take(i + 1) =~= s@.take(i as int).push(c));
            lemma_encode_push(s@.take(i as int), c);
            lemma_scalar_width(c);
        }
        let w: usize = if (c as u32) <= 0x7F {
            1
        } else if (c as u32) <= 0x7FF {
            2
        } else if (c as u32) <= 0xFFFF {
            3
        } else {
            4
        };
        total = total + w;
        if total > max {
            proof {
                lemma_encode_prefix_bound(s@, i + 1);
            }
            return true;
        }
        i = i + 1;
    }
    assert(s@.take(i as int) =~= s@);
    false
}

proof fn lemma_encode_prefix_bound(s: Seq<char>, i: int)
    requires
        0 <= i <= s.len(),
    ensures
        encode_utf8(s.take(i)).len() <= encode_utf8(s).len(),
    decreases s.len() - i,
{
    if i < s.len() {
        lemma_encode_prefix_bound(s, i + 1);
        assert(s.take(i + 1) =~= s.take(i).push(s[i]));
        lemma_encode_push(s.take(i), s[i]);
    } else {
        assert(s.take(i) =~= s);
    }
}

/// A store key: one to 256 bytes, no control characters.
pub open spec fn valid_store_key(k: Seq<char>) -> bool {
    k.len() > 0 && encode_utf8(k).len() <= 256 && !has_control(k)
}

/// The key a store job names (the empty text when there is none).
pub open spec fn key_arg(args: JsonValue) -> Seq<char> {
    match as_str(get(args, "key"@)) {
        Some(k) => k,
        None => ""@,
    }
}

pub fn read_key(args: &JsonValue) -> (r: Result<String, JobFailure>)
    ensures
        valid_store_key(key_arg(*args)) ==> (r matches Ok(k) && k@ == key_arg(*args)),
        !valid_store_key(key_arg(*args)) ==> (r matches Err(f) && fails_with(
            f,
            "invalid-args"@,
            "store key must be 1-256 characters without control characters"@,
        )),
{
    let key: &str = match json_as_str(json_get(args, "key")) {
        Some(k) => k.as_str(),
        None => "",
    };
    if key.is_empty() || exceeds_bytes(key, 256) || contains_control(key) {
        return Err(failure("invalid-args", owned("store key must be 1-256 characters without control characters")));
    }
    Ok(owned(key))
}

/// What a store job asks of the extension's state.
#[derive(Debug)]
pub enum StoreRequest {
    GetValue { key: String },
    SetValue { key: String, value: JsonValue },
    ConfigGet,
    ConfigMerge { value: JsonValue },
    StatusGet,
    StatusMerge { value: JsonValue },
}

/// What reading a store job gives: `get` and `set` need a valid key, `set`
/// a value, and the merges an object value; other operations are unknown.
pub open spec fn store_request_ok(operation: Seq<char>, args: JsonValue, r: Result<StoreRequest, JobFailure>) -> bool {
    &&& operation == "get"@ ==> if valid_store_key(key_arg(args)) {
        r matches Ok(StoreRequest::GetValue { key }) && key@ == key_arg(args)
    } else {
        r matches Err(f) && f.code@ == "invalid-args"@
    }
    &&& operation == "set"@ ==> if !valid_store_key(key_arg(args)) {
        r matches Err(f) && f.code@ == "invalid-args"@
    } else if get(args, "value"@) is None {
        r matches Err(f) && fails_with(f, "invalid-args"@, "store.set requires a value"@)
    } else {
        r matches Ok(StoreRequest::SetValue { key, value }) && key@ == key_arg(args) && Some(value) == get(
            args,
            "value"@,
        )
    }
    &&& operation == "config.get"@ ==> (r matches Ok(StoreRequest::ConfigGet))
    &&& operation == "status.get"@ ==> (r matches Ok(StoreRequest::StatusGet))
    &&& operation == "config.merge"@ ==> match get(args, "value"@) {
        Some(v) => if v is Object {
            r matches Ok(StoreRequest::ConfigMerge { value }) && value == v
        } else {
            r matches Err(f) && fails_with(f, "invalid-args"@, "state merge requires an object value"@)
        },
        None => r matches Err(f) && fails_with(f, "invalid-args"@, "state merge requires an object value"@),
    }
    &&& operation == "status.merge"@ ==> match get(args, "value"@) {
        Some(v) => if v is Object {
            r matches Ok(StoreRequest::StatusMerge { value }) && value == v
        } else {
            r matches Err(f) && fails_with(f, "invalid-args"@, "state merge requires an object value"@)
        },
        None => r matches Err(f) && fails_with(f, "invalid-args"@, "state merge requires an object value"@),
    }
    &&& !(operation == "get"@ || operation == "set"@ || operation == "config.get"@ || operation == "status.get"@
        || operation == "config.merge"@ || operation == "status.merge"@) ==> (r matches Err(f) && fails_with(
        f,
        "unknown-operation"@,
        "unsupported store operation '"@ + operation + "'"@,
    ))
}

/// Reads a store job: `get` and `set` need a valid key, `set` a value, and
/// the merges an object value.
pub fn store_request(operation: &str, args: JsonValue) -> (r: Result<StoreRequest, JobFailure>)
    ensures
        store_request_ok(operation@, args, r),
{
    proof {
        reveal_strlit("get");
        reveal_strlit("set");
        reveal_strlit("config.get");
        reveal_strlit("status.get");
        reveal_strlit("config.merge");
        reveal_strlit("status.merge");
        assert("get"@[0] != "set"@[0]);
        assert("config.get"@[0] != "status.get"@[0]);
        assert("config.merge"@[0] != "status.merge"@[0]);
        assert("set"@.len() != "status.get"@.len() && "set"@.len() != "config.get"@.len());
        assert("set"@.len() != "status.merge"@.len() && "set"@.len() != "config.merge"@.len());
        assert("get"@.len() != "status.get"@.len() && "get"@.len() != "config.get"@.len());
        assert("get"@.len() != "status.merge"@.len() && "get"@.len() != "config.merge"@.len());
        assert("config.get"@.len() != "status.merge"@.len() && "config.get"@.len() != "config.merge"@.len());
        assert("status.get"@.len() != "status.merge"@.len() && "status.get"@.len() != "config.merge"@.len());
    }
    if crate::text::str_eq(operation, "get") {
        return match read_key(&args) {
            Ok(key) => Ok(StoreRequest::GetValue { key }),
            Err(f) => Err(f),
        };
    }
    if crate::text::str_eq(operation, "set") {
        let key = match read_key(&args) {
            Ok(key) => key,
            Err(f) => {
                return Err(f);
            },
        };
        let present = json_get(&args, "value").is_some();
        if !present {
            return Err(failure("invalid-args", owned("store.set requires a value")));
        }
        let (value, _) = take_member(args, "value");
        return Ok(StoreRequest::SetValue { key, value });
    }
    if crate::text::str_eq(operation, "config.get") {
        return Ok(StoreRequest::ConfigGet);
    }
    if crate::text::str_eq(operation, "status.get") {
        return Ok(StoreRequest::StatusGet);
    }
    let merge_config = crate::text::str_eq(operation, "config.merge");
    let merge_status = crate::text::str_eq(operation, "status.merge");
    if merge_config || merge_status {
        let is_obj = match json_get(&args, "value") {
            Some(v) => json_is_object(v),
            None => false,
        };
        if !is_obj {
            return Err(failure("invalid-args", owned("state merge requires an object value")));
        }
        let (value, _) = take_member(args, "value");
        if merge_config {
            return Ok(StoreRequest::ConfigMerge { value });
        } else {
            return Ok(StoreRequest::StatusMerge { value });
        }
    }
    Err(failure("unknown-operation", concat3("unsupported store operation '", operation, "'")))
}

/// The value a `get` job answers: the stored member, or `null`.
pub fn stored_value(state: JsonValue, key: &str) -> (v: JsonValue)
    ensures
        v == or_null(get(state, key@)),
{
    let (v, _) = take_member(state, key);
    v
}

pub open spec fn has_nul(s: Seq<char>) -> bool {
    exists|i: int| 0 <= i < s.len() && s[i] == '\0'
}

fn contains_nul(s: &str) -> (r: bool)
    ensures
        r == has_nul(s@),
{
    let cs = chars_of(s);
    let mut i: usize = 0;
    while i < cs.len()
        invariant
            i <= cs@.len(),
            cs@ == s@,
            forall|j: int| 0 <= j < i ==> s@[j] != '\0',
        decreases cs@.len() - i,
    {
        if cs[i] == '\0' {
            return true;
        }
        i = i + 1;
    }
    false
}

/// A text argument: a string of at most `max` bytes without NUL
/// characters, or the message that says why not.
pub open spec fn text_arg(args: JsonValue, field: Seq<char>, max: nat) -> Result<Seq<char>, Seq<char>> {
    match as_str(get(args, field)) {
        None => Err("'"@ + field + "' must be a string"@),
        Some(v) => if encode_utf8(v).len() > max || has_nul(v) {
            Err("'"@ + field + "' must be at most "@ + decimal(max) + " bytes without NUL characters"@)
        } else {
            Ok(v)
        },
    }
}

/// An identifier argument: a text argument without control characters.
pub open spec fn identifier_arg(args: JsonValue, field: Seq<char>, max: nat) -> Result<Seq<char>, Seq<char>> {
    match text_arg(args, field, max) {
        Ok(v) => if has_control(v) {
            Err("'"@ + field + "' must not contain control characters"@)
        } else {
            Ok(v)
        },
        Err(m) => Err(m),
    }
}

/// Whether `r` is what reading an argument whose expected outcome is `e`
/// gives: the value, or an `invalid-args` failure with the message.
pub open spec fn read_as(r: Result<String, JobFailure>, e: Result<Seq<char>, Seq<char>>) -> bool {
    match e {
        Ok(v) => r matches Ok(s) && s@ == v,
        Err(m) => r matches Err(f) && fails_with(f, "invalid-args"@, m),
    }
}

pub fn read_value_string(args: &JsonValue, field: &str, max_bytes: usize) -> (r: Result<String, JobFailure>)
    requires
        max_bytes <= 0x4000_0000,
    ensures
        read_as(r, text_arg(*args, field@, max_bytes as nat)),
{
    let value = match json_as_str(json_get(args, field)) {
        Some(v) => v,
        None => {
            return Err(failure("invalid-args", concat3("'", field, "' must be a string")));
        },
    };
    if exceeds_bytes(value.as_str(), max_bytes) || contains_nul(value.as_str()) {
        let head = concat3("'", field, "' must be at most ");
        let n = decimal_string(max_bytes as u64);
        return Err(failure("invalid-args", concat3(head.as_str(), n.as_str(), " bytes without NUL characters")));
    }
    Ok(owned(value.as_str()))
}

pub fn read_identifier(args: &JsonValue, field: &str, max_bytes: usize) -> (r: Result<String, JobFailure>)
    requires
        max_bytes <= 0x4000_0000,
    ensures
        read_as(r, identifier_arg(*args, field@, max_bytes as nat)),
{
    let value = match read_value_string(args, field, max_bytes) {
        Ok(v) => v,
        Err(f) => {
            return Err(f);
        },
    };
    if contains_control(value.as_str()) {
        return Err(failure("invalid-args", concat3("'", field, "' must not contain control characters")));
    }
    Ok(value)
}

/// The message for an operation that a capability does not offer.
pub open spec fn unknown_operation_message(family: Seq<char>, operation: Seq<char>) -> Seq<char> {
    "unsupported "@ + family + " operation '"@ + operation + "'"@
}

fn unknown_operation(family: &str, operation: &str) -> (f: JobFailure)
    ensures
        fails_with(f, "unknown-operation"@, unknown_operation_message(family@, operation@)),
{
    let head = concat3("unsupported ", family, " operation '");
    failure("unknown-operation", concat3(head.as_str(), operation, "'"))
}

/// What a keyboard job asks for.
#[derive(Debug)]
pub enum KeyboardRequest {
    TypeText { text: String },
    SendKey { key: String },
    SendCombo { combo: String },
    NormalizeCombo { combo: String },
}

/// Reads a keyboard job: `type-text` takes a text of at most 60 KiB,
/// `send-key` a key name of at most 64 bytes, the combo operations a combo
/// of at most 256 bytes.
pub fn keyboard_request(operation: &str, args: &JsonValue) -> (r: Result<KeyboardRequest, JobFailure>)
    ensures
        operation@ == "type-text"@ ==> match text_arg(*args, "text"@, 61440) {
            Ok(v) => r matches Ok(KeyboardRequest::TypeText { text }) && text@ == v,
            Err(m) => r matches Err(f) && fails_with(f, "invalid-args"@, m),
        },
        operation@ == "send-key"@ ==> match identifier_arg(*args, "key"@, 64) {
            Ok(v) => r matches Ok(KeyboardRequest::SendKey { key }) && key@ == v,
            Err(m) => r matches Err(f) && fails_with(f, "invalid-args"@, m),
        },
        operation@ == "send-combo"@ ==> match identifier_arg(*args, "combo"@, 256) {
            Ok(v) => r matches Ok(KeyboardRequest::SendCombo { combo }) && combo@ == v,
            Err(m) => r matches Err(f) && fails_with(f, "invalid-args"@, m),
        },
        operation@ == "normalize-combo"@ ==> match identifier_arg(*args, "combo"@, 256) {
            Ok(v) => r matches Ok(KeyboardRequest::NormalizeCombo { combo }) && combo@ == v,
            Err(m) => r matches Err(f) && fails_with(f, "invalid-args"@, m),
        },
        !(operation@ == "type-text"@ || operation@ == "send-key"@ || operation@ == "send-combo"@ || operation@
            == "normalize-combo"@) ==> (r matches Err(f) && fails_with(
            f,
            "unknown-operation"@,
            unknown_operation_message("keyboard"@, operation@),
        )),
{
    proof {
        reveal_strlit("type-text");
        reveal_strlit("send-key");
        reveal_strlit("send-combo");
        reveal_strlit("normalize-combo");
        assert("type-text"@.len() != "send-key"@.len() && "type-text"@.len() != "send-combo"@.len());
        assert("type-text"@.len() != "normalize-combo"@.len() && "send-key"@.len() != "send-combo"@.len());
        assert("send-key"@.len() != "normalize-combo"@.len() && "send-combo"@.len() != "normalize-combo"@.len());
    }
    if crate::text::str_eq(operation, "type-text") {
        return match read_value_string(args, "text", 61440) {
            Ok(text) => Ok(KeyboardRequest::TypeText { text }),
            Err(f) => Err(f),
        };
    }
    if crate::text::str_eq(operation, "send-key") {
        return match read_identifier(args, "key", 64) {
            Ok(key) => Ok(KeyboardRequest::SendKey { key }),
            Err(f) => Err(f),
        };
    }
    if crate::text::str_eq(operation, "send-combo") {
        return match read_identifier(args, "combo", 256) {
            Ok(combo) => Ok(KeyboardRequest::SendCombo { combo }),
            Err(f) => Err(f),
        };
    }
    if crate::text::str_eq(operation, "normalize-combo") {
        return match read_identifier(args, "combo", 256) {
            Ok(combo) => Ok(KeyboardRequest::NormalizeCombo { combo }),
            Err(f) => Err(f),
        };
    }
    Err(unknown_operation("keyboard", operation))
}

/// The answer of a `normalize-combo` job: the normalized combo and its label.
pub fn normalized_combo_json(combo: KeyCombo) -> (v: JsonValue)
    ensures
        as_str(get(v, "combo"@)) == Some(combo.combo@),
        as_str(get(v, "label"@)) == Some(combo.label@),
        v is Object,
{
    let KeyCombo { combo, label } = combo;
    let mut entries: Vec<(String, JsonValue)> = Vec::new();
    entries = crate::json::members_insert(entries, owned("combo"), JsonValue::Str(combo));
    entries = crate::json::members_insert(entries, owned("label"), JsonValue::Str(label));
    proof {
        reveal_strlit("combo");
        reveal_strlit("label");
        assert("combo"@[0] != "label"@[0]);
    }
    JsonValue::Object(entries)
}

/// What a secure-store job asks for.
#[derive(Debug)]
pub enum SecureStoreRequest {
    GetSecret { service: String, key: String },
    SetSecret { service: String, key: String, value: String },
    DeleteSecret { service: String, key: String },
}

/// Reads a secure-store job: every operation names a service and a key
/// (identifiers of at most 256 bytes, read in that order); `set` also takes
/// a value of at most 60 KiB.
pub fn secure_store_request(operation: &str, args: &JsonValue) -> (r: Result<SecureStoreRequest, JobFailure>)
    ensures
        (operation@ == "get"@ || operation@ == "set"@ || operation@ == "delete"@) ==> match identifier_arg(
            *args,
            "service"@,
            256,
        ) {
            Err(m) => r matches Err(f) && fails_with(f, "invalid-args"@, m),
            Ok(service) => match identifier_arg(*args, "key"@, 256) {
                Err(m) => r matches Err(f) && fails_with(f, "invalid-args"@, m),
                Ok(key) => if operation@ == "get"@ {
                    r matches Ok(SecureStoreRequest::GetSecret { service: s, key: k }) && s@ == service && k@ == key
                } else if operation@ == "delete"@ {
                    r matches Ok(SecureStoreRequest::DeleteSecret { service: s, key: k }) && s@ == service && k@ == key
                } else {
                    match text_arg(*args, "value"@, 61440) {
                        Err(m) => r matches Err(f) && fails_with(f, "invalid-args"@, m),
                        Ok(value) => r matches Ok(SecureStoreRequest::SetSecret { service: s, key: k, value: v })
                            && s@ == service && k@ == key && v@ == value,
                    }
                },
            },
        },
        !(operation@ == "get"@ || operation@ == "set"@ || operation@ == "delete"@) ==> (r matches Err(f) && fails_with(
            f,
            "unknown-operation"@,
            unknown_operation_message("secure-store"@, operation@),
        )),
{
    proof {
        reveal_strlit("get");
        reveal_strlit("set");
        reveal_strlit("delete");
        assert("get"@[0] != "set"@[0]);
        assert("get"@.len() != "delete"@.len() && "set"@.len() != "delete"@.len());
    }
    let is_get = crate::text::str_eq(operation, "get");
    let is_set = crate::text::str_eq(operation, "set");
    let is_delete = crate::text::str_eq(operation, "delete");
    if !(is_get || is_set || is_delete) {
        return Err(unknown_operation("secure-store", operation));
    }
    let service = match read_identifier(args, "service", 256) {
        Ok(v) => v,
        Err(f) => {
            return Err(f);
        },
    };
    let key = match read_identifier(args, "key", 256) {
        Ok(v) => v,
        Err(f) => {
            return Err(f);
        },
    };
    if is_get {
        return Ok(SecureStoreRequest::GetSecret { service, key });
    }
    if is_delete {
        return Ok(SecureStoreRequest::DeleteSecret { service, key });
    }
    match read_value_string(args, "value", 61440) {
        Ok(value) => Ok(SecureStoreRequest::SetSecret { service, key, value }),
        Err(f) => Err(f),
    }
}

/// The answer of a secure-store `get`: the secret, or `null`.
pub fn secret_json(secret: Option<String>) -> (v: JsonValue)
    ensures
        match secret {
            Some(s) => v matches JsonValue::Str(t) && t@ == s@,
            None => v is Null,
        },
{
    match secret {
        Some(s) => JsonValue::Str(s),
        None => JsonValue::Null,
    }
}

/// A boolean argument, or the message that says it is not one.
pub open spec fn bool_arg(args: JsonValue, field: Seq<char>) -> Result<bool, Seq<char>> {
    match as_bool(get(args, field)) {
        Some(b) => Ok(b),
        None => Err("'"@ + field + "' must be a boolean"@),
    }
}

/// An integer argument within `[min, max]`, or the message that says it is
/// not one.
pub open spec fn integer_arg(args: JsonValue, field: Seq<char>, min: int, max: int) -> Result<int, Seq<char>> {
    match as_i64(get(args, field)) {
        Some(v) => if min <= v <= max {
            Ok(v)
        } else {
            Err("'"@ + field + "' must be an integer from "@ + int_text(min) + " through "@ + int_text(max))
        },
        None => Err("'"@ + field + "' must be an integer from "@ + int_text(min) + " through "@ + int_text(max)),
    }
}

fn read_bool(args: &JsonValue, field: &str) -> (r: Result<bool, JobFailure>)
    ensures
        match bool_arg(*args, field@) {
            Ok(b) => r == Ok::<bool, JobFailure>(b),
            Err(m) => r matches Err(f) && fails_with(f, "invalid-args"@, m),
        },
{
    match json_as_bool(json_get(args, field)) {
        Some(b) => Ok(b),
        None => Err(failure("invalid-args", concat3("'", field, "' must be a boolean"))),
    }
}

fn read_integer(args: &JsonValue, field: &str, minimum: i64, maximum: i64) -> (r: Result<i64, JobFailure>)
    ensures
        match integer_arg(*args, field@, minimum as int, maximum as int) {
            Ok(v) => r matches Ok(x) && x == v,
            Err(m) => r matches Err(f) && fails_with(f, "invalid-args"@, m),
        },
{
    match json_as_i64(json_get(args, field)) {
        Some(v) => if minimum <= v && v <= maximum {
            return Ok(v);
        },
        None => {},
    }
    let head = concat3("'", field, "' must be an integer from ");
    let lo = i64_string(minimum);
    let hi = i64_string(maximum);
    let mid = concat3(head.as_str(), lo.as_str(), " through ");
    Err(failure("invalid-args", concat2(mid.as_str(), hi.as_str())))
}

fn int_json(v: i64) -> (j: JsonValue)
    requires
        v >= 0,
    ensures
        as_i64(Some(j)) == Some(v as int),
{
    JsonValue::Number(JsonNumber::PosInt(v as u64))
}

/// Reads a display job into the bridge action to run and its settings:
/// `status` and `toggle-taskbar-autohide` take none; `set-taskbar-autohide`
/// takes `autoHide`; `set-resolution` a width (640-16384), height (480-16384)
/// and refresh rate (1-480); `set-scale` a percentage (100-350).
pub fn display_request(operation: &str, args: &JsonValue) -> (r: Result<(String, JsonValue), JobFailure>)
    ensures
        r matches Ok((action, _)) ==> action@ == operation@,
        (operation@ == "status"@ || operation@ == "toggle-taskbar-autohide"@) ==> (r matches Ok((_, config)) && (config
            matches JsonValue::Object(entries) && entries@.len() == 0)),
        operation@ == "set-taskbar-autohide"@ ==> match bool_arg(*args, "autoHide"@) {
            Ok(b) => r matches Ok((_, config)) && get(config, "taskbarAutoHide"@) == Some(JsonValue::Bool(b)),
            Err(m) => r matches Err(f) && fails_with(f, "invalid-args"@, m),
        },
        operation@ == "set-resolution"@ ==> match integer_arg(*args, "width"@, 640, 16384) {
            Err(m) => r matches Err(f) && fails_with(f, "invalid-args"@, m),
            Ok(w) => match integer_arg(*args, "height"@, 480, 16384) {
                Err(m) => r matches Err(f) && fails_with(f, "invalid-args"@, m),
                Ok(h) => match integer_arg(*args, "refreshRate"@, 1, 480) {
                    Err(m) => r matches Err(f) && fails_with(f, "invalid-args"@, m),
                    Ok(rr) => r matches Ok((_, config)) && as_i64(get(config, "resolutionWidth"@)) == Some(w) && as_i64(
                        get(config, "resolutionHeight"@),
                    ) == Some(h) && as_i64(get(config, "refreshRate"@)) == Some(rr),
                },
            },
        },
        operation@ == "set-scale"@ ==> match integer_arg(*args, "scalePercent"@, 100, 350) {
            Ok(v) => r matches Ok((_, config)) && as_i64(get(config, "scalePercent"@)) == Some(v),
            Err(m) => r matches Err(f) && fails_with(f, "invalid-args"@, m),
        },
        !(operation@ == "status"@ || operation@ == "toggle-taskbar-autohide"@ || operation@ == "set-taskbar-autohide"@
            || operation@ == "set-resolution"@ || operation@ == "set-scale"@) ==> (r matches Err(f) && fails_with(
            f,
            "unknown-operation"@,
            unknown_operation_message("windows-display"@, operation@),
        )),
{
    proof {
        reveal_strlit("status");
        reveal_strlit("toggle-taskbar-autohide");
        reveal_strlit("set-taskbar-autohide");
        reveal_strlit("set-resolution");
        reveal_strlit("set-scale");
        reveal_strlit("resolutionWidth");
        reveal_strlit("resolutionHeight");
        reveal_strlit("refreshRate");
        assert("resolutionWidth"@.len() != "resolutionHeight"@.len());
        assert("resolutionWidth"@.len() != "refreshRate"@.len());
        assert("resolutionHeight"@.len() != "refreshRate"@.len());
        assert("status"@.len() != "toggle-taskbar-autohide"@.len() && "status"@.len() != "set-taskbar-autohide"@.len());
        assert("status"@.len() != "set-resolution"@.len() && "status"@.len() != "set-scale"@.len());
        assert("toggle-taskbar-autohide"@.len() != "set-taskbar-autohide"@.len());
        assert("toggle-taskbar-autohide"@.len() != "set-resolution"@.len());
        assert("toggle-taskbar-autohide"@.len() != "set-scale"@.len());
        assert("set-taskbar-autohide"@.len() != "set-resolution"@.len());
        assert("set-taskbar-autohide"@.len() != "set-scale"@.len());
        assert("set-resolution"@.len() != "set-scale"@.len());
    }
    if crate::text::str_eq(operation, "status") || crate::text::str_eq(operation, "toggle-taskbar-autohide") {
        return Ok((owned(operation), JsonValue::Object(Vec::new())));
    }
    if crate::text::str_eq(operation, "set-taskbar-autohide") {
        let b = match read_bool(args, "autoHide") {
            Ok(b) => b,
            Err(f) => {
                return Err(f);
            },
        };
        let config = crate::json::set_member(JsonValue::Object(Vec::new()), "taskbarAutoHide", JsonValue::Bool(b));
        return Ok((owned(operation), config));
    }
    if crate::text::str_eq(operation, "set-resolution") {
        let w = match read_integer(args, "width", 640, 16384) {
            Ok(v) => v,
            Err(f) => {
                return Err(f);
            },
        };
        let h = match read_integer(args, "height", 480, 16384) {
            Ok(v) => v,
            Err(f) => {
                return Err(f);
            },
        };
        let rr = match read_integer(args, "refreshRate", 1, 480) {
            Ok(v) => v,
            Err(f) => {
                return Err(f);
            },
        };
        let c0 = crate::json::set_member(JsonValue::Object(Vec::new()), "resolutionWidth", int_json(w));
        let c1 = crate::json::set_member(c0, "resolutionHeight", int_json(h));
        let c2 = crate::json::set_member(c1, "refreshRate", int_json(rr));
        return Ok((owned(operation), c2));
    }
    if crate::text::str_eq(operation, "set-scale") {
        let v = match read_integer(args, "scalePercent", 100, 350) {
            Ok(v) => v,
            Err(f) => {
                return Err(f);
            },
        };
        let config = crate::json::set_member(JsonValue::Object(Vec::new()), "scalePercent", int_json(v));
        return Ok((owned(operation), config));
    }
    Err(unknown_operation("windows-display", operation))
}

/// Gates a checked display job on the platform: off Windows a valid job is
/// refused as unsupported; a job with bad arguments keeps its failure.
pub fn platform_gate(request: Result<(String, JsonValue), JobFailure>, on_windows: bool) -> (r: Result<
    (String, JsonValue),
    JobFailure,
>)
    ensures
        request is Err ==> r == request,
        request is Ok && on_windows ==> r == request,
        request is Ok && !on_windows ==> (r matches Err(f) && fails_with(
            f,
            "platform-unsupported"@,
            "windows-display capability is only available on Windows"@,
        )),
{
    match request {
        Ok(v) => if on_windows {
            Ok(v)
        } else {
            Err(failure("platform-unsupported", owned("windows-display capability is only available on Windows")))
        },
        Err(f) => Err(f),
    }
}

/// Decides what a state job does once the worker takes it: the job's
/// permission is checked again against the extension's current manifest
/// permissions (`None` when the extension is gone), only store jobs have a
/// handler, and the operation and its arguments are read.
pub fn plan_state_job(permissions: Option<&Vec<Permission>>, capability: Capability, operation: &str, args: JsonValue) -> (r:
    Result<StoreRequest, JobFailure>)
    ensures
        !(permissions matches Some(p) && covers(p@, capability)) ==> (r matches Err(f) && fails_with(
            f,
            "permission-revoked"@,
            "manifest permission was revoked before execution"@,
        )),
        (permissions matches Some(p) && covers(p@, capability)) && capability != Capability::Store ==> (r matches Err(
            f,
        ) && fails_with(f, "unsupported-capability"@, "capability has no native worker handler yet"@)),
        (permissions matches Some(p) && covers(p@, capability)) && capability == Capability::Store ==> store_request_ok(
            operation@,
            args,
            r,
        ),
{
    let permitted = match permissions {
        Some(p) => is_capability_authorized(p.as_slice(), capability),
        None => false,
    };
    if !permitted {
        return Err(permission_revoked());
    }
    match capability {
        Capability::Store => store_request(operation, args),
        _ => Err(unsupported_capability()),
    }
}

} // verus!
