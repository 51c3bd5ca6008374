use vstd::prelude::*;
use crate::descriptor::{permission_name, Permission};
use crate::http::{decimal, decimal_string};
use crate::json::JsonValue;
use crate::text::{concat2, owned, str_eq, strings_view};

verus! {

/// Version tag of Copper's own messages on the bus.
pub const COPPER_BUS_PROTOCOL_V1: &'static str = "copper.bus/1";

/// Bus endpoint that takes capability requests from extension components.
pub const COPPER_CAPABILITY_ENDPOINT: &'static str = "copper-capabilities";

/// Largest capability request accepted, in bytes.
pub const MAX_REQUEST_BYTES: usize = 65536;

/// Most jobs waiting at once, over all extensions.
pub const MAX_PENDING_JOBS: usize = 256;

/// Most jobs waiting at once for one extension.
pub const MAX_PENDING_PER_EXTENSION: usize = 32;

/// How many accepted request ids are remembered against replay.
pub const MAX_REPLAY_KEYS: usize = 1024;

/// Native capability families that extensions ask the host for.
#[derive(Debug, Clone, Copy, PartialEq, Eq, Structural)]
pub enum Capability {
    Fs,
    Keyboard,
    Network,
    Notify,
    Clock,
    SecureStore,
    Shell,
    Store,
    Ui,
    WindowsDisplay,
}

/// The manifest permission a capability needs, if any.
pub open spec fn required(c: Capability) -> Option<Permission> {
    match c {
        Capability::Fs => Some(Permission::Fs),
        Capability::Keyboard => Some(Permission::Keyboard),
        Capability::Network => Some(Permission::Network),
        Capability::Notify => None,
        Capability::Clock => None,
        Capability::SecureStore => Some(Permission::SecureStore),
        Capability::Shell => Some(Permission::Shell),
        Capability::Store => Some(Permission::Store),
        Capability::Ui => Some(Permission::Ui),
        Capability::WindowsDisplay => Some(Permission::WindowsDisplay),
    }
}

/// How a capability is spelled on the bus: its name in kebab case.
pub open spec fn capability_name(c: Capability) -> Seq<char> {
    match c {
        Capability::Fs => "fs"@,
        Capability::Keyboard => "keyboard"@,
        Capability::Network => "network"@,
        Capability::Notify => "notify"@,
        Capability::Clock => "clock"@,
        Capability::SecureStore => "secure-store"@,
        Capability::Shell => "shell"@,
        Capability::Store => "store"@,
        Capability::Ui => "ui"@,
        Capability::WindowsDisplay => "windows-display"@,
    }
}

impl Capability {
    /// The manifest permission required before this capability is queued.
    pub fn required_permission(self) -> (r: Option<Permission>)
        ensures
            r == required(self),
    {
        match self {
            Capability::Fs => Some(Permission::Fs),
            Capability::Keyboard => Some(Permission::Keyboard),
            Capability::Network => Some(Permission::Network),
            Capability::Notify => None,
            Capability::Clock => None,
            Capability::SecureStore => Some(Permission::SecureStore),
            Capability::Shell => Some(Permission::Shell),
            Capability::Store => Some(Permission::Store),
            Capability::Ui => Some(Permission::Ui),
            Capability::WindowsDisplay => Some(Permission::WindowsDisplay),
        }
    }
}

/// Whether `permissions` cover `capability`.
pub open spec fn covers(permissions: Seq<Permission>, capability: Capability) -> bool {
    match required(capability) {
        None => true,
        Some(p) => permissions.contains(p),
    }
}

pub fn is_capability_authorized(permissions: &[Permission], capability: Capability) -> (r: bool)
    ensures
        r == covers(permissions@, capability),
{
    match capability.required_permission() {
        None => true,
        Some(p) => {
            let mut i: usize = 0;
            while i < permissions.len()
                invariant
                    i <= permissions.len(),
                    required(capability) == Some(p),
                    forall|j: int| 0 <= j < i ==> permissions@[j] != p,
                decreases permissions.len() - i,
            {
                if permissions[i] == p {
                    assert(permissions@[i as int] == p);
                    assert(permissions@.contains(p));
                    return true;
                }
                i = i + 1;
            }
            false
        },
    }
}

pub open spec fn token_char(c: char) -> bool {
    ('a' <= c && c <= 'z') || ('A' <= c && c <= 'Z') || ('0' <= c && c <= '9') || c == '.' || c
        == '_' || c == '-'
}

/// A request id or operation name: 1 to 128 ASCII letters, digits, `.`, `_`
/// or `-`.
pub open spec fn is_token(s: Seq<char>) -> bool {
    1 <= s.len() <= 128 && forall|i: int| 0 <= i < s.len() ==> token_char(#[trigger] s[i])
}

pub fn valid_token(value: &str) -> (r: bool)
    ensures
        r == is_token(value@),
{
    let n = value.unicode_len();
    if n == 0 || n > 128 {
        return false;
    }
    let mut i: usize = 0;
    while i < n
        invariant
            n == value@.len(),
            i <= n,
            forall|j: int| 0 <= j < i ==> token_char(#[trigger] value@[j]),
        decreases n - i,
    {
        let c = value.get_char(i);
        if !(('a' <= c && c <= 'z') || ('A' <= c && c <= 'Z') || ('0' <= c && c <= '9') || c == '.'
            || c == '_' || c == '-') {
            assert(!token_char(value@[i as int]));
            return false;
        }
        i = i + 1;
    }
    true
}

/// A capability request that passed the broker, waiting for a worker.
#[derive(Debug)]
pub struct AuthorizedCapabilityJob {
    pub job_id: String,
    pub extension_id: String,
    pub request_id: String,
    pub capability: Capability,
    pub operation: String,
    pub args: JsonValue,
}

/// A request payload as decoded from its JSON text.
#[derive(Debug)]
pub enum CapabilityPayload {
    /// A `capability-request` message.
    Request { protocol: String, request_id: String, capability: Capability, operation: String, args: JsonValue },
    /// Another kind of Copper message.
    OtherMessage,
    /// Text that is not a Copper message, with the decoder's complaint.
    Malformed(String),
}

/// Copper's own messages on the bus.
#[derive(Debug)]
#[allow(inconsistent_fields)]
pub enum CopperEnvelope {
    ActionRequest { protocol: String, request_id: String, action_id: String, input: JsonValue },
    CapabilityRequest {
        protocol: String,
        request_id: String,
        capability: Capability,
        operation: String,
        args: JsonValue,
    },
    JobAccepted { protocol: String, request_id: String, job_id: String },
    JobResult { protocol: String, request_id: String, job_id: String, result: JsonValue },
    Error {
        protocol: String,
        request_id: Option<String>,
        job_id: Option<String>,
        code: String,
        message: String,
    },
}

impl CopperEnvelope {
    pub fn error(request_id: Option<String>, code: &str, message: String) -> (e: Self)
        ensures
            e matches CopperEnvelope::Error { protocol, request_id: r, job_id, code: c, message: m }
                && protocol@ == COPPER_BUS_PROTOCOL_V1@ && r == request_id && job_id is None && c@
                == code@ && m == message,
    {
        CopperEnvelope::Error {
            protocol: owned(COPPER_BUS_PROTOCOL_V1),
            request_id,
            job_id: None,
            code: owned(code),
            message,
        }
    }
}

/// Why the broker turns a request down.
#[derive(Debug, Clone, Copy, PartialEq, Eq, Structural)]
pub enum Refusal {
    RequestTooLarge,
    InvalidMessage,
    InvalidJson,
    ProtocolMismatch,
    InvalidRequestId,
    InvalidOperation,
    UnknownSender,
    PermissionDenied,
    ReplayedRequest,
    SenderQueueFull,
    QueueFull,
}

/// The error code sent back for a refusal.
pub open spec fn refusal_code(r: Refusal) -> Seq<char> {
    match r {
        Refusal::RequestTooLarge => "request-too-large"@,
        Refusal::InvalidMessage => "invalid-message"@,
        Refusal::InvalidJson => "invalid-json"@,
        Refusal::ProtocolMismatch => "protocol-mismatch"@,
        Refusal::InvalidRequestId => "invalid-request-id"@,
        Refusal::InvalidOperation => "invalid-operation"@,
        Refusal::UnknownSender => "unknown-sender"@,
        Refusal::PermissionDenied => "permission-denied"@,
        Refusal::ReplayedRequest => "replayed-request"@,
        Refusal::SenderQueueFull => "sender-queue-full"@,
        Refusal::QueueFull => "queue-full"@,
    }
}

/// The message sent back for a refusal (`detail` is the decoder's complaint).
pub open spec fn refusal_message(r: Refusal, detail: Seq<char>) -> Seq<char> {
    match r {
        Refusal::RequestTooLarge => "capability request exceeds 64 KiB"@,
        Refusal::InvalidMessage => "capability endpoint accepts only capability-request messages"@,
        Refusal::InvalidJson => "invalid request: "@ + detail,
        Refusal::ProtocolMismatch => "expected protocol copper.bus/1"@,
        Refusal::InvalidRequestId => "requestId must be 1-128 ASCII letters, digits, '.', '_', or '-'"@,
        Refusal::InvalidOperation => "operation must be 1-128 ASCII letters, digits, '.', '_', or '-'"@,
        Refusal::UnknownSender => "sender is not an active Copper WASM extension"@,
        Refusal::PermissionDenied => "manifest does not declare the required permission"@,
        Refusal::ReplayedRequest => "requestId was already accepted for this sender"@,
        Refusal::SenderQueueFull => "extension capability queue is full"@,
        Refusal::QueueFull => "capability queue is full"@,
    }
}

/// Whether the refusal is sent back with the request id.
pub open spec fn names_request(r: Refusal) -> bool {
    !(r == Refusal::RequestTooLarge || r == Refusal::InvalidMessage || r == Refusal::InvalidJson)
}

fn refusal_parts(r: Refusal, detail: &str) -> (out: (&'static str, String))
    ensures
        out.0@ == refusal_code(r),
        out.1@ == refusal_message(r, detail@),
{
    match r {
        Refusal::RequestTooLarge => ("request-too-large", owned("capability request exceeds 64 KiB")),
        Refusal::InvalidMessage => (
            "invalid-message",
            owned("capability endpoint accepts only capability-request messages"),
        ),
        Refusal::InvalidJson => ("invalid-json", concat2("invalid request: ", detail)),
        Refusal::ProtocolMismatch => ("protocol-mismatch", owned("expected protocol copper.bus/1")),
        Refusal::InvalidRequestId => (
            "invalid-request-id",
            owned("requestId must be 1-128 ASCII letters, digits, '.', '_', or '-'"),
        ),
        Refusal::InvalidOperation => (
            "invalid-operation",
            owned("operation must be 1-128 ASCII letters, digits, '.', '_', or '-'"),
        ),
        Refusal::UnknownSender => (
            "unknown-sender",
            owned("sender is not an active Copper WASM extension"),
        ),
        Refusal::PermissionDenied => (
            "permission-denied",
            owned("manifest does not declare the required permission"),
        ),
        Refusal::ReplayedRequest => (
            "replayed-request",
            owned("requestId was already accepted for this sender"),
        ),
        Refusal::SenderQueueFull => ("sender-queue-full", owned("extension capability queue is full")),
        Refusal::QueueFull => ("queue-full", owned("capability queue is full")),
    }
}

} // verus!

verus! {

/// The permissions on record for extension `id` (a later entry wins).
pub open spec fn policy_of(pols: Seq<(Seq<char>, Seq<Permission>)>, id: Seq<char>) -> Option<
    Seq<Permission>,
>
    decreases pols.len(),
{
    if pols.len() == 0 {
        None
    } else if pols.last().0 == id {
        Some(pols.last().1)
    } else {
        policy_of(pols.drop_last(), id)
    }
}

pub open spec fn policies_view(v: Seq<(String, Vec<Permission>)>) -> Seq<(Seq<char>, Seq<Permission>)> {
    v.map_values(|p: (String, Vec<Permission>)| (p.0@, p.1@))
}

/// How many of `jobs` belong to extension `id`.
pub open spec fn count_for(jobs: Seq<AuthorizedCapabilityJob>, id: Seq<char>) -> nat
    decreases jobs.len(),
{
    if jobs.len() == 0 {
        0
    } else {
        count_for(jobs.drop_last(), id) + if jobs.last().extension_id@ == id {
            1nat
        } else {
            0nat
        }
    }
}

/// Whether the policies on record still allow `job`.
pub open spec fn job_allowed(pols: Seq<(Seq<char>, Seq<Permission>)>, job: AuthorizedCapabilityJob) -> bool {
    match policy_of(pols, job.extension_id@) {
        Some(perms) => covers(perms, job.capability),
        None => false,
    }
}

/// The replay window after remembering `key`: the oldest key leaves once
/// the window is full.
pub open spec fn remember(replay: Seq<(Seq<char>, Seq<char>)>, key: (Seq<char>, Seq<char>)) -> Seq<
    (Seq<char>, Seq<char>),
> {
    (if replay.len() >= MAX_REPLAY_KEYS { replay.drop_first() } else { replay }).push(key)
}

pub open spec fn saturating_inc(x: u64) -> u64 {
    if x == u64::MAX {
        x
    } else {
        (x + 1) as u64
    }
}

pub open spec fn payload_request_id(p: CapabilityPayload) -> Option<String> {
    match p {
        CapabilityPayload::Request { request_id, .. } => Some(request_id),
        _ => None,
    }
}

pub open spec fn payload_detail(p: CapabilityPayload) -> Seq<char> {
    match p {
        CapabilityPayload::Malformed(d) => d@,
        _ => Seq::empty(),
    }
}

/// The permission broker: manifest policy, the queue of authorized jobs,
/// the replay window and the counters.
pub struct CopperCapabilityModule {
    policies: Vec<(String, Vec<Permission>)>,
    pending: Vec<AuthorizedCapabilityJob>,
    replay: Vec<(String, String)>,
    next_job_id: u64,
    accepted: u64,
    rejected: u64,
}

impl CopperCapabilityModule {
    pub closed spec fn policies(&self) -> Seq<(Seq<char>, Seq<Permission>)> {
        policies_view(self.policies@)
    }

    /// Authorized jobs, oldest first.
    pub closed spec fn pending(&self) -> Seq<AuthorizedCapabilityJob> {
        self.pending@
    }

    /// Remembered (sender, request id) pairs, oldest first.
    pub closed spec fn replay(&self) -> Seq<(Seq<char>, Seq<char>)> {
        crate::http::pairs_view(self.replay@)
    }

    pub closed spec fn next_job(&self) -> u64 {
        self.next_job_id
    }

    pub closed spec fn accepted(&self) -> u64 {
        self.accepted
    }

    pub closed spec fn rejected(&self) -> u64 {
        self.rejected
    }

    /// Every queued job is allowed by the policies on record.
    pub open spec fn queue_authorized(&self) -> bool {
        forall|i: int| 0 <= i < self.pending().len() ==> job_allowed(self.policies(), #[trigger] self.pending()[i])
    }

    /// What the broker decides on a request of `len` bytes from `sender`:
    /// `None` accepts it.
    pub open spec fn verdict(&self, sender: Seq<char>, len: int, payload: CapabilityPayload) -> Option<Refusal> {
        if len > MAX_REQUEST_BYTES {
            Some(Refusal::RequestTooLarge)
        } else {
            match payload {
                CapabilityPayload::Malformed(_) => Some(Refusal::InvalidJson),
                CapabilityPayload::OtherMessage => Some(Refusal::InvalidMessage),
                CapabilityPayload::Request { protocol, request_id, capability, operation, .. } => {
                    if protocol@ != COPPER_BUS_PROTOCOL_V1@ {
                        Some(Refusal::ProtocolMismatch)
                    } else if !is_token(request_id@) {
                        Some(Refusal::InvalidRequestId)
                    } else if !is_token(operation@) {
                        Some(Refusal::InvalidOperation)
                    } else {
                        match policy_of(self.policies(), sender) {
                            None => Some(Refusal::UnknownSender),
                            Some(perms) => if !covers(perms, capability) {
                                Some(Refusal::PermissionDenied)
                            } else if self.replay().contains((sender, request_id@)) {
                                Some(Refusal::ReplayedRequest)
                            } else if count_for(self.pending(), sender) >= MAX_PENDING_PER_EXTENSION {
                                Some(Refusal::SenderQueueFull)
                            } else if self.pending().len() >= MAX_PENDING_JOBS {
                                Some(Refusal::QueueFull)
                            } else {
                                None
                            },
                        }
                    }
                },
            }
        }
    }

    /// A broker with the given policies and nothing queued or remembered.
    pub fn new(policies: Vec<(String, Vec<Permission>)>) -> (m: Self)
        ensures
            m.policies() == policies_view(policies@),
            m.pending().len() == 0,
            m.replay().len() == 0,
            m.next_job() == 0,
            m.accepted() == 0,
            m.rejected() == 0,
            m.queue_authorized(),
    {
        CopperCapabilityModule {
            policies,
            pending: Vec::new(),
            replay: Vec::new(),
            next_job_id: 0,
            accepted: 0,
            rejected: 0,
        }
    }

    fn policy_index(&self, sender: &str) -> (r: Option<usize>)
        ensures
            match policy_of(self.policies(), sender@) {
                Some(perms) => r matches Some(i) && i < self.policies@.len() && self.policies@[i as int].1@
                    == perms,
                None => r is None,
            },
    {
        let mut k: usize = self.policies.len();
        assert(self.policies@.take(k as int) =~= self.policies@);
        while k > 0
            invariant
                k <= self.policies@.len(),
                policy_of(self.policies(), sender@) == policy_of(
                    policies_view(self.policies@.take(k as int)),
                    sender@,
                ),
            decreases k,
        {
            assert(policies_view(self.policies@.take(k as int)).last() == (
                self.policies@[k - 1].0@,
                self.policies@[k - 1].1@,
            ));
            if str_eq(self.policies[k - 1].0.as_str(), sender) {
                return Some(k - 1);
            }
            assert(policies_view(self.policies@.take(k as int)).drop_last() =~= policies_view(
                self.policies@.take(k - 1),
            ));
            k = k - 1;
        }
        None
    }

    fn pending_for(&self, sender: &str) -> (n: usize)
        ensures
            n == count_for(self.pending(), sender@),
    {
        let mut n: usize = 0;
        let mut i: usize = 0;
        while i < self.pending.len()
            invariant
                i <= self.pending@.len(),
                n == count_for(self.pending@.take(i as int), sender@),
                n <= i,
            decreases self.pending.len() - i,
        {
            assert(self.pending@.take(i + 1).drop_last() =~= self.pending@.take(i as int));
            if str_eq(self.pending[i].extension_id.as_str(), sender) {
                n = n + 1;
            }
            i = i + 1;
        }
        assert(self.pending@.take(i as int) =~= self.pending@);
        n
    }

    fn replay_contains(&self, sender: &str, request_id: &str) -> (r: bool)
        ensures
            r == self.replay().contains((sender@, request_id@)),
    {
        let mut i: usize = 0;
        while i < self.replay.len()
            invariant
                i <= self.replay@.len(),
                forall|j: int| 0 <= j < i ==> #[trigger] self.replay()[j] != (sender@, request_id@),
            decreases self.replay.len() - i,
        {
            assert(self.replay()[i as int] == (self.replay@[i as int].0@, self.replay@[i as int].1@));
            if str_eq(self.replay[i].0.as_str(), sender) && str_eq(self.replay[i].1.as_str(), request_id) {
                assert(self.replay()[i as int] == (sender@, request_id@));
                return true;
            }
            i = i + 1;
        }
        false
    }

    fn refuse(&mut self, request_id: Option<String>, why: Refusal, detail: &str) -> (reply: CopperEnvelope)
        ensures
            reply matches CopperEnvelope::Error { protocol, request_id: r, job_id, code, message }
                && protocol@ == COPPER_BUS_PROTOCOL_V1@ && r == request_id && job_id is None && code@
                == refusal_code(why) && message@ == refusal_message(why, detail@),
            final(self).rejected() == saturating_inc(old(self).rejected()),
            final(self).policies() == old(self).policies(),
            final(self).pending() == old(self).pending(),
            final(self).replay() == old(self).replay(),
            final(self).next_job() == old(self).next_job(),
            final(self).accepted() == old(self).accepted(),
    {
        self.rejected = if self.rejected == u64::MAX { self.rejected } else { self.rejected + 1 };
        let (code, message) = refusal_parts(why, detail);
        CopperEnvelope::error(request_id, code, message)
    }
}

} // verus!

verus! {

impl CopperCapabilityModule {
    /// Decides on a capability request of `payload_len` bytes from `sender`
    /// and, when it is accepted, queues the job. Every call moves exactly one
    /// of the two counters (short of their maximum).
    pub fn authorize(&mut self, sender: &str, payload_len: usize, payload: CapabilityPayload) -> (reply:
        CopperEnvelope)
        ensures
            final(self).policies() == old(self).policies(),
            match old(self).verdict(sender@, payload_len as int, payload) {
                Some(why) => {
                    &&& reply matches CopperEnvelope::Error { protocol, request_id, job_id, code, message }
                        && protocol@ == COPPER_BUS_PROTOCOL_V1@ && request_id == (if names_request(why) {
                        payload_request_id(payload)
                    } else {
                        None
                    }) && job_id is None && code@ == refusal_code(why) && message@ == refusal_message(
                        why,
                        payload_detail(payload),
                    )
                    &&& final(self).pending() == old(self).pending()
                    &&& final(self).replay() == old(self).replay()
                    &&& final(self).next_job() == old(self).next_job()
                    &&& final(self).accepted() == old(self).accepted()
                    &&& final(self).rejected() == saturating_inc(old(self).rejected())
                },
                None => payload matches CapabilityPayload::Request {
                    protocol: _,
                    request_id,
                    capability,
                    operation,
                    args,
                } && {
                    let id = saturating_inc(old(self).next_job());
                    let job = final(self).pending().last();
                    &&& reply matches CopperEnvelope::JobAccepted { protocol, request_id: r, job_id }
                        && protocol@ == COPPER_BUS_PROTOCOL_V1@ && r == request_id && job_id@ == "job-"@
                        + decimal(id as nat)
                    &&& final(self).pending().len() == old(self).pending().len() + 1
                    &&& final(self).pending().drop_last() == old(self).pending()
                    &&& job.job_id@ == "job-"@ + decimal(id as nat)
                    &&& job.extension_id@ == sender@
                    &&& job.request_id@ == request_id@
                    &&& job.capability == capability
                    &&& job.operation == operation
                    &&& job.args == args
                    &&& final(self).replay() == remember(old(self).replay(), (sender@, request_id@))
                    &&& final(self).next_job() == id
                    &&& final(self).accepted() == saturating_inc(old(self).accepted())
                    &&& final(self).rejected() == old(self).rejected()
                },
            },
            old(self).queue_authorized() ==> final(self).queue_authorized(),
    {
        if payload_len > MAX_REQUEST_BYTES {
            return self.refuse(None, Refusal::RequestTooLarge, "");
        }
        let ghost before = *self;
        match payload {
            CapabilityPayload::Malformed(detail) => {
                return self.refuse(None, Refusal::InvalidJson, detail.as_str());
            },
            CapabilityPayload::OtherMessage => {
                return self.refuse(None, Refusal::InvalidMessage, "");
            },
            CapabilityPayload::Request { protocol, request_id, capability, operation, args } => {
                if !str_eq(protocol.as_str(), COPPER_BUS_PROTOCOL_V1) {
                    return self.refuse(Some(request_id), Refusal::ProtocolMismatch, "");
                }
                if !valid_token(request_id.as_str()) {
                    return self.refuse(Some(request_id), Refusal::InvalidRequestId, "");
                }
                if !valid_token(operation.as_str()) {
                    return self.refuse(Some(request_id), Refusal::InvalidOperation, "");
                }
                let pi = match self.policy_index(sender) {
                    Some(i) => i,
                    None => {
                        return self.refuse(Some(request_id), Refusal::UnknownSender, "");
                    },
                };
                if !is_capability_authorized(self.policies[pi].1.as_slice(), capability) {
                    return self.refuse(Some(request_id), Refusal::PermissionDenied, "");
                }
                if self.replay_contains(sender, request_id.as_str()) {
                    return self.refuse(Some(request_id), Refusal::ReplayedRequest, "");
                }
                if self.pending_for(sender) >= MAX_PENDING_PER_EXTENSION {
                    return self.refuse(Some(request_id), Refusal::SenderQueueFull, "");
                }
                if self.pending.len() >= MAX_PENDING_JOBS {
                    return self.refuse(Some(request_id), Refusal::QueueFull, "");
                }
                self.next_job_id = if self.next_job_id == u64::MAX {
                    self.next_job_id
                } else {
                    self.next_job_id + 1
                };
                let job_id = concat2("job-", decimal_string(self.next_job_id).as_str());
                if self.replay.len() >= MAX_REPLAY_KEYS {
                    let _expired = self.replay.remove(0);
                }
                self.replay.push((owned(sender), request_id.clone()));
                assert(self.replay() =~= remember(before.replay(), (sender@, request_id@)));
                let job = AuthorizedCapabilityJob {
                    job_id: job_id.clone(),
                    extension_id: owned(sender),
                    request_id: request_id.clone(),
                    capability,
                    operation,
                    args,
                };
                proof {
                    assert(job_allowed(self.policies(), job));
                }
                self.pending.push(job);
                assert(self.pending().drop_last() =~= before.pending());
                self.accepted = if self.accepted == u64::MAX { self.accepted } else { self.accepted + 1 };
                CopperEnvelope::JobAccepted {
                    protocol: owned(COPPER_BUS_PROTOCOL_V1),
                    request_id,
                    job_id,
                }
            },
        }
    }

    /// Installs new manifest policies and drops the queued jobs they no
    /// longer allow, keeping the order of the rest.
    pub fn replace_policies(&mut self, policies: Vec<(String, Vec<Permission>)>)
        ensures
            final(self).policies() == policies_view(policies@),
            final(self).pending() == old(self).pending().filter(
                |j: AuthorizedCapabilityJob| job_allowed(policies_view(policies@), j),
            ),
            final(self).replay() == old(self).replay(),
            final(self).next_job() == old(self).next_job(),
            final(self).accepted() == old(self).accepted(),
            final(self).rejected() == old(self).rejected(),
            final(self).queue_authorized(),
    {
        self.policies = policies;
        let ghost pols = self.policies();
        let ghost pred = |j: AuthorizedCapabilityJob| job_allowed(pols, j);
        let ghost old_pending = self.pending@;
        let mut kept: Vec<AuthorizedCapabilityJob> = Vec::new();
        let mut rest: Vec<AuthorizedCapabilityJob> = Vec::new();
        std::mem::swap(&mut rest, &mut self.pending);
        let ghost all = rest@;
        let total = rest.len();
        assert(rest@ =~= all.skip(0));
        let mut i: usize = 0;
        while rest.len() > 0
            invariant
                i + rest@.len() == all.len(),
                all.len() == total,
                rest@ == all.skip(i as int),
                kept@ == all.take(i as int).filter(pred),
                pols == self.policies(),
                pred == (|j: AuthorizedCapabilityJob| job_allowed(pols, j)),
            decreases rest@.len(),
        {
            let job = rest.remove(0);
            assert(job == all[i as int]);
            assert(all.take(i + 1).drop_last() =~= all.take(i as int));
            assert(all.take(i + 1).last() == job);
            proof {
                reveal(Seq::filter);
            }
            let allowed = match self.policy_index(job.extension_id.as_str()) {
                Some(pi) => is_capability_authorized(self.policies[pi].1.as_slice(), job.capability),
                None => false,
            };
            assert(allowed == pred(job));
            if allowed {
                kept.push(job);
            }
            i = i + 1;
            assert(rest@ =~= all.skip(i as int));
        }
        assert(all.take(i as int) =~= all);
        self.pending = kept;
        proof {
            assert forall|k: int| 0 <= k < self.pending().len() implies job_allowed(
                self.policies(),
                #[trigger] self.pending()[k],
            ) by {
                all.lemma_filter_pred(pred, k);
            }
        }
    }

    /// Takes the oldest queued job.
    pub fn pop_pending(&mut self) -> (r: Option<AuthorizedCapabilityJob>)
        ensures
            old(self).pending().len() == 0 ==> r is None && final(self).pending() == old(self).pending(),
            old(self).pending().len() > 0 ==> r == Some(old(self).pending()[0]) && final(self).pending()
                == old(self).pending().drop_first(),
            final(self).policies() == old(self).policies(),
            final(self).replay() == old(self).replay(),
            final(self).next_job() == old(self).next_job(),
            final(self).accepted() == old(self).accepted(),
            final(self).rejected() == old(self).rejected(),
            old(self).queue_authorized() ==> final(self).queue_authorized(),
    {
        if self.pending.len() == 0 {
            None
        } else {
            let job = self.pending.remove(0);
            assert(self.pending@ =~= old(self).pending@.drop_first());
            proof {
                assert forall|k: int| old(self).queue_authorized() && 0 <= k < self.pending().len()
                    implies job_allowed(self.policies(), #[trigger] self.pending()[k]) by {
                    assert(self.pending()[k] == old(self).pending()[k + 1]);
                }
            }
            Some(job)
        }
    }

    /// Puts a job back at the head of the queue.
    pub fn requeue_front(&mut self, job: AuthorizedCapabilityJob)
        ensures
            final(self).pending() == seq![job] + old(self).pending(),
            final(self).policies() == old(self).policies(),
            final(self).replay() == old(self).replay(),
            final(self).next_job() == old(self).next_job(),
            final(self).accepted() == old(self).accepted(),
            final(self).rejected() == old(self).rejected(),
    {
        self.pending.insert(0, job);
        assert(self.pending@ =~= seq![job] + old(self).pending@);
    }

    pub fn pending_count(&self) -> (n: usize)
        ensures
            n == self.pending().len(),
    {
        self.pending.len()
    }

    pub fn accepted_count(&self) -> (n: u64)
        ensures
            n == self.accepted(),
    {
        self.accepted
    }

    pub fn rejected_count(&self) -> (n: u64)
        ensures
            n == self.rejected(),
    {
        self.rejected
    }
}

} // verus!

verus! {

/// Once the broker has accepted request id `q` from `sender`, the next
/// request from `sender` that carries `q` again is refused.
pub proof fn law_accepted_request_is_not_replayed(
    before: CopperCapabilityModule,
    after: CopperCapabilityModule,
    sender: Seq<char>,
    len: int,
    first: CapabilityPayload,
    len_again: int,
    again: CapabilityPayload,
)
    requires
        before.verdict(sender, len, first) is None,
        first matches CapabilityPayload::Request { request_id, .. } && after.replay() == remember(
            before.replay(),
            (sender, request_id@),
        ),
        again matches CapabilityPayload::Request { request_id: q, .. } && first matches CapabilityPayload::Request {
            request_id,
            ..
        } && q@ == request_id@,
    ensures
        after.verdict(sender, len_again, again) is Some,
        len_again <= MAX_REQUEST_BYTES && (again matches CapabilityPayload::Request {
            protocol,
            capability,
            operation,
            ..
        } && protocol@ == COPPER_BUS_PROTOCOL_V1@ && is_token(operation@) && (policy_of(after.policies(), sender)
            matches Some(perms) && covers(perms, capability))) ==> after.verdict(sender, len_again, again) == Some(
            Refusal::ReplayedRequest,
        ),
{
    if let CapabilityPayload::Request { request_id, .. } = first {
        let key = (sender, request_id@);
        assert(after.replay().last() == key);
        assert(after.replay().contains(key));
    }
}

/// A request is accepted only from an extension whose manifest covers the
/// capability, and only while its own queue holds fewer than
/// `MAX_PENDING_PER_EXTENSION` jobs and the shared queue fewer than
/// `MAX_PENDING_JOBS`.
pub proof fn law_accepted_requests_are_permitted_and_bounded(
    m: CopperCapabilityModule,
    sender: Seq<char>,
    len: int,
    p: CapabilityPayload,
)
    requires
        m.verdict(sender, len, p) is None,
    ensures
        len <= MAX_REQUEST_BYTES,
        p matches CapabilityPayload::Request { protocol, request_id, capability, operation, .. } && {
            &&& protocol@ == COPPER_BUS_PROTOCOL_V1@
            &&& is_token(request_id@)
            &&& is_token(operation@)
            &&& policy_of(m.policies(), sender) matches Some(perms) && covers(perms, capability)
            &&& !m.replay().contains((sender, request_id@))
        },
        count_for(m.pending(), sender) < MAX_PENDING_PER_EXTENSION,
        m.pending().len() < MAX_PENDING_JOBS,
{
}

/// One sender cannot take the whole shared queue: once `MAX_PENDING_PER_EXTENSION`
/// of its jobs wait, its next request, however valid, is refused with
/// `sender-queue-full`, and that share is smaller than the shared queue, so
/// room is left for other senders.
pub proof fn law_one_sender_cannot_fill_the_shared_queue(
    m: CopperCapabilityModule,
    sender: Seq<char>,
    len: int,
    p: CapabilityPayload,
)
    requires
        len <= MAX_REQUEST_BYTES,
        p matches CapabilityPayload::Request { protocol, request_id, capability, operation, .. } && {
            &&& protocol@ == COPPER_BUS_PROTOCOL_V1@
            &&& is_token(request_id@)
            &&& is_token(operation@)
            &&& policy_of(m.policies(), sender) matches Some(perms) && covers(perms, capability)
            &&& !m.replay().contains((sender, request_id@))
        },
        count_for(m.pending(), sender) >= MAX_PENDING_PER_EXTENSION,
    ensures
        m.verdict(sender, len, p) == Some(Refusal::SenderQueueFull),
        MAX_PENDING_PER_EXTENSION < MAX_PENDING_JOBS,
{
}

/// A well-formed request from another sender whose manifest covers the
/// capability is accepted while that sender has room of its own and the
/// shared queue has room, whatever other senders have queued.
pub proof fn law_permitted_requests_with_room_are_accepted(
    m: CopperCapabilityModule,
    sender: Seq<char>,
    len: int,
    p: CapabilityPayload,
)
    requires
        len <= MAX_REQUEST_BYTES,
        p matches CapabilityPayload::Request { protocol, request_id, capability, operation, .. } && {
            &&& protocol@ == COPPER_BUS_PROTOCOL_V1@
            &&& is_token(request_id@)
            &&& is_token(operation@)
            &&& policy_of(m.policies(), sender) matches Some(perms) && covers(perms, capability)
            &&& !m.replay().contains((sender, request_id@))
        },
        count_for(m.pending(), sender) < MAX_PENDING_PER_EXTENSION,
        m.pending().len() < MAX_PENDING_JOBS,
    ensures
        m.verdict(sender, len, p) is None,
{
}

/// A well-formed request is refused with `unknown-sender` when no active
/// extension has the sender's id, and with `permission-denied` when the
/// sender's manifest does not declare the permission the capability needs;
/// a request in another protocol is refused with `protocol-mismatch` before
/// anything else is looked at.
pub proof fn law_senders_are_checked_against_their_manifest(
    m: CopperCapabilityModule,
    sender: Seq<char>,
    len: int,
    p: CapabilityPayload,
)
    requires
        len <= MAX_REQUEST_BYTES,
        p is Request,
    ensures
        (p matches CapabilityPayload::Request { protocol, .. } && protocol@ != COPPER_BUS_PROTOCOL_V1@) ==> m.verdict(
            sender,
            len,
            p,
        ) == Some(Refusal::ProtocolMismatch),
        (p matches CapabilityPayload::Request { protocol, request_id, operation, .. } && protocol@
            == COPPER_BUS_PROTOCOL_V1@ && is_token(request_id@) && is_token(operation@) && policy_of(
            m.policies(),
            sender,
        ) is None) ==> m.verdict(sender, len, p) == Some(Refusal::UnknownSender),
        (p matches CapabilityPayload::Request { protocol, request_id, operation, capability, .. } && protocol@
            == COPPER_BUS_PROTOCOL_V1@ && is_token(request_id@) && is_token(operation@) && (policy_of(
            m.policies(),
            sender,
        ) matches Some(perms) && !covers(perms, capability))) ==> m.verdict(sender, len, p) == Some(
            Refusal::PermissionDenied,
        ),
{
}

/// Notifications and the clock need no permission; every other capability
/// needs its own one (the display one needs `windows-display`).
pub proof fn law_only_notify_and_clock_are_permissionless(perms: Seq<Permission>, c: Capability)
    ensures
        covers(perms, Capability::Notify),
        covers(perms, Capability::Clock),
        covers(perms, Capability::WindowsDisplay) <==> perms.contains(Permission::WindowsDisplay),
        c != Capability::Notify && c != Capability::Clock ==> required(c) is Some,
{
}

/// A capability needs the manifest permission spelled as the capability
/// itself is spelled on the bus, and only notifications and the clock need
/// none: an extension may use a capability exactly when it declares the
/// permission of the same name.
pub proof fn law_a_capability_needs_the_permission_of_its_name(c: Capability, perms: Seq<Permission>)
    ensures
        match required(c) {
            Some(p) => permission_name(p) == capability_name(c),
            None => c == Capability::Notify || c == Capability::Clock,
        },
        c != Capability::Notify && c != Capability::Clock ==> (covers(perms, c) <==> exists|i: int|
            0 <= i < perms.len() && permission_name(#[trigger] perms[i]) == capability_name(c)),
{
    if c != Capability::Notify && c != Capability::Clock {
        let p = required(c)->0;
        if covers(perms, c) {
            let i = choose|i: int| 0 <= i < perms.len() && perms[i] == p;
            assert(permission_name(perms[i]) == capability_name(c));
        }
        assert forall|i: int| 0 <= i < perms.len() && permission_name(#[trigger] perms[i]) == capability_name(c)
            implies covers(perms, c) by {
            crate::descriptor::law_permission_names_are_distinct(perms[i], p);
            assert(perms[i] == p);
        }
    }
}

/// The replay window never holds more than `MAX_REPLAY_KEYS` keys.
pub proof fn law_replay_window_is_bounded(replay: Seq<(Seq<char>, Seq<char>)>, key: (Seq<char>, Seq<char>))
    requires
        replay.len() <= MAX_REPLAY_KEYS,
    ensures
        remember(replay, key).len() <= MAX_REPLAY_KEYS,
        remember(replay, key).last() == key,
{
}

/// A job taken from the shared queue and handed back (because the worker
/// was full) regains its place: popping the first pending job and then
/// requeueing it leaves the queue as it was.
pub proof fn law_requeue_restores_popped_job(pending: Seq<AuthorizedCapabilityJob>)
    requires
        pending.len() > 0,
    ensures
        seq![pending[0]] + pending.drop_first() == pending,
{
    assert(seq![pending[0]] + pending.drop_first() =~= pending);
}

/// The manifest permissions of every extension of a registry, by id: what
/// the broker checks capability requests against.
pub fn build_policies(registry: &crate::extension::Registry) -> (p: Vec<(String, Vec<Permission>)>)
    ensures
        policies_view(p@) == registry.entries().map_values(
            |e: crate::extension::Extension| (e.descriptor.id@, e.descriptor.permissions@),
        ),
{
    let list = registry.list();
    let ghost want = registry.entries().map_values(
        |e: crate::extension::Extension| (e.descriptor.id@, e.descriptor.permissions@),
    );
    let mut out: Vec<(String, Vec<Permission>)> = Vec::new();
    let mut i: usize = 0;
    while i < list.len()
        invariant
            i <= list@.len(),
            list@ == registry.entries(),
            want == registry.entries().map_values(
                |e: crate::extension::Extension| (e.descriptor.id@, e.descriptor.permissions@),
            ),
            out@.len() == i,
            forall|j: int| 0 <= j < i ==> #[trigger] policies_view(out@)[j] == want[j],
        decreases list@.len() - i,
    {
        let id = owned(list[i].descriptor.id.as_str());
        let mut perms: Vec<Permission> = Vec::new();
        let src = &list[i].descriptor.permissions;
        let mut k: usize = 0;
        while k < src.len()
            invariant
                k <= src@.len(),
                perms@ == src@.take(k as int),
            decreases src@.len() - k,
        {
            perms.push(src[k]);
            assert(src@.take(k + 1) =~= src@.take(k as int).push(src@[k as int]));
            k = k + 1;
        }
        assert(src@.take(k as int) =~= src@);
        let ghost before = out@;
        out.push((id, perms));
        proof {
            assert forall|j: int| 0 <= j < i + 1 implies #[trigger] policies_view(out@)[j] == want[j] by {
                if j < i {
                    assert(out@[j] == before[j]);
                    assert(policies_view(before)[j] == want[j]);
                }
            }
        }
        i = i + 1;
    }
    assert(policies_view(out@) =~= want);
    out
}

} // verus!
