use vstd::prelude::*;
use crate::capability::{CopperEnvelope, COPPER_BUS_PROTOCOL_V1};
use crate::extension::{Extension, Registry};
use crate::http::{decimal, decimal_string};
use crate::json::{as_str, get, lookup, members_insert, JsonNumber, JsonValue};
use crate::text::{concat2, concat3, owned, str_eq};

verus! {

/// The endpoint that observes extension lifecycle events.
pub const COPPER_CONTROL_ENDPOINT: &'static str = "copper-control";

/// The sender named on action requests.
pub const COPPER_ACTION_SENDER: &'static str = "copper-actions";

/// How many capability jobs one step moves in each direction.
pub const MAX_JOB_PUMP_PER_STEP: usize = 32;

/// Where an extension is in its life.
#[derive(Debug, Clone, Copy, PartialEq, Eq, Structural)]
pub enum CopperLifecycleState {
    Loaded,
    Faulted,
    Reloading,
    Reloaded,
    Stopped,
}

/// The kebab-case name of a lifecycle state.
pub open spec fn state_name(s: CopperLifecycleState) -> Seq<char> {
    match s {
        CopperLifecycleState::Loaded => "loaded"@,
        CopperLifecycleState::Faulted => "faulted"@,
        CopperLifecycleState::Reloading => "reloading"@,
        CopperLifecycleState::Reloaded => "reloaded"@,
        CopperLifecycleState::Stopped => "stopped"@,
    }
}

impl CopperLifecycleState {
    pub fn as_str(&self) -> (s: &'static str)
        ensures
            s@ == state_name(*self),
    {
        match self {
            CopperLifecycleState::Loaded => "loaded",
            CopperLifecycleState::Faulted => "faulted",
            CopperLifecycleState::Reloading => "reloading",
            CopperLifecycleState::Reloaded => "reloaded",
            CopperLifecycleState::Stopped => "stopped",
        }
    }
}

/// The state recorded for extension `k`: the last entry with that id.
pub open spec fn state_of(entries: Seq<(String, CopperLifecycleState)>, k: Seq<char>) -> Option<CopperLifecycleState>
    decreases entries.len(),
{
    if entries.len() == 0 {
        None
    } else if entries.last().0@ == k {
        Some(entries.last().1)
    } else {
        state_of(entries.drop_last(), k)
    }
}

/// No two entries name the same extension.
pub open spec fn ids_unique(entries: Seq<(String, CopperLifecycleState)>) -> bool {
    forall|i: int, j: int| 0 <= i < j < entries.len() ==> entries[i].0@ != entries[j].0@
}

proof fn lemma_state_of_absent(entries: Seq<(String, CopperLifecycleState)>, k: Seq<char>)
    requires
        forall|i: int| 0 <= i < entries.len() ==> entries[i].0@ != k,
    ensures
        state_of(entries, k) is None,
    decreases entries.len(),
{
    if entries.len() > 0 {
        lemma_state_of_absent(entries.drop_last(), k);
    }
}

proof fn lemma_state_of_update(
    entries: Seq<(String, CopperLifecycleState)>,
    p: int,
    e: (String, CopperLifecycleState),
    k: Seq<char>,
)
    requires
        0 <= p < entries.len(),
        entries[p].0@ == e.0@,
        ids_unique(entries),
    ensures
        state_of(entries.update(p, e), k) == if k == e.0@ {
            Some(e.1)
        } else {
            state_of(entries, k)
        },
    decreases entries.len(),
{
    let u = entries.update(p, e);
    if p == entries.len() - 1 {
        assert(u.drop_last() =~= entries.drop_last());
    } else {
        assert(u.drop_last() =~= entries.drop_last().update(p, e));
        assert(entries.last().0@ != e.0@);
        lemma_state_of_update(entries.drop_last(), p, e, k);
    }
}

/// What the control endpoint has seen of extension lifecycles.
#[derive(Debug, Clone)]
pub struct CopperControlHandle {
    lifecycle_event_count: usize,
    lifecycle_decode_errors: usize,
    extensions: Vec<(String, CopperLifecycleState)>,
}

impl CopperControlHandle {
    pub closed spec fn events(&self) -> nat {
        self.lifecycle_event_count as nat
    }

    pub closed spec fn decode_errors(&self) -> nat {
        self.lifecycle_decode_errors as nat
    }

    pub closed spec fn states(&self) -> Seq<(String, CopperLifecycleState)> {
        self.extensions@
    }

    pub open spec fn wf(&self) -> bool {
        ids_unique(self.states())
    }

    /// Nothing seen yet.
    pub fn new() -> (h: Self)
        ensures
            h.wf(),
            h.events() == 0,
            h.decode_errors() == 0,
            h.states().len() == 0,
    {
        CopperControlHandle { lifecycle_event_count: 0, lifecycle_decode_errors: 0, extensions: Vec::new() }
    }

    pub fn lifecycle_event_count(&self) -> (n: usize)
        ensures
            n == self.events(),
    {
        self.lifecycle_event_count
    }

    pub fn lifecycle_decode_errors(&self) -> (n: usize)
        ensures
            n == self.decode_errors(),
    {
        self.lifecycle_decode_errors
    }

    /// The last lifecycle state of each extension seen, one entry each.
    pub fn extensions(&self) -> (r: Vec<(String, CopperLifecycleState)>)
        requires
            self.wf(),
        ensures
            ids_unique(r@),
            forall|k: Seq<char>| #[trigger] state_of(r@, k) == state_of(self.states(), k),
    {
        let mut out: Vec<(String, CopperLifecycleState)> = Vec::new();
        let mut i: usize = 0;
        while i < self.extensions.len()
            invariant
                i <= self.extensions@.len(),
                ids_unique(self.extensions@),
                out@.len() == i,
                forall|j: int| 0 <= j < i ==> #[trigger] out@[j].0@ == self.extensions@[j].0@ && out@[j].1
                    == self.extensions@[j].1,
            decreases self.extensions@.len() - i,
        {
            let id = owned(self.extensions[i].0.as_str());
            let s = self.extensions[i].1;
            out.push((id, s));
            i = i + 1;
        }
        proof {
            lemma_same_states(out@, self.extensions@);
        }
        out
    }

    /// Records a decoded lifecycle event: one more event, and the
    /// extension's new state.
    pub fn record_event(&mut self, extension: &str, state: CopperLifecycleState)
        requires
            old(self).wf(),
        ensures
            final(self).wf(),
            final(self).events() == if old(self).events() < usize::MAX {
                old(self).events() + 1
            } else {
                old(self).events()
            },
            final(self).decode_errors() == old(self).decode_errors(),
            forall|k: Seq<char>| #[trigger] state_of(final(self).states(), k) == if k == extension@ {
                Some(state)
            } else {
                state_of(old(self).states(), k)
            },
    {
        self.lifecycle_event_count = self.lifecycle_event_count.saturating_add(1);
        let ghost before = self.extensions@;
        let mut p: usize = 0;
        while p < self.extensions.len()
            invariant
                p <= self.extensions@.len(),
                self.extensions@ == before,
                forall|j: int| 0 <= j < p ==> #[trigger] before[j].0@ != extension@,
            ensures
                p <= before.len(),
                self.extensions@ == before,
                forall|j: int| 0 <= j < p ==> #[trigger] before[j].0@ != extension@,
                p < before.len() ==> before[p as int].0@ == extension@,
            decreases self.extensions@.len() - p,
        {
            if str_eq(self.extensions[p].0.as_str(), extension) {
                break;
            }
            p = p + 1;
        }
        let entry = (owned(extension), state);
        if p < self.extensions.len() {
            assert(before[p as int].0@ == extension@);
            self.extensions.set(p, entry);
            proof {
                assert forall|k: Seq<char>| #[trigger] state_of(self.extensions@, k) == if k == extension@ {
                    Some(state)
                } else {
                    state_of(before, k)
                } by {
                    lemma_state_of_update(before, p as int, entry, k);
                }
                assert forall|i: int, j: int| 0 <= i < j < self.extensions@.len() implies self.extensions@[i].0@
                    != self.extensions@[j].0@ by {
                    assert(self.extensions@[i].0@ == before[i].0@);
                    assert(self.extensions@[j].0@ == before[j].0@);
                }
            }
        } else {
            self.extensions.push(entry);
            proof {
                assert(self.extensions@.drop_last() =~= before);
                assert forall|k: Seq<char>| #[trigger] state_of(self.extensions@, k) == if k == extension@ {
                    Some(state)
                } else {
                    state_of(before, k)
                } by {
                }
                assert forall|i: int, j: int| 0 <= i < j < self.extensions@.len() implies self.extensions@[i].0@
                    != self.extensions@[j].0@ by {
                    if j == before.len() {
                        assert(self.extensions@[i] == before[i]);
                    } else {
                        assert(self.extensions@[i] == before[i]);
                        assert(self.extensions@[j] == before[j]);
                    }
                }
            }
        }
    }

    /// Records a lifecycle payload that could not be decoded.
    pub fn record_decode_error(&mut self)
        ensures
            final(self).decode_errors() == if old(self).decode_errors() < usize::MAX {
                old(self).decode_errors() + 1
            } else {
                old(self).decode_errors()
            },
            final(self).events() == old(self).events(),
            final(self).states() == old(self).states(),
    {
        self.lifecycle_decode_errors = self.lifecycle_decode_errors.saturating_add(1);
    }
}

proof fn lemma_same_states(a: Seq<(String, CopperLifecycleState)>, b: Seq<(String, CopperLifecycleState)>)
    requires
        a.len() == b.len(),
        forall|j: int| 0 <= j < a.len() ==> #[trigger] a[j].0@ == b[j].0@ && a[j].1 == b[j].1,
    ensures
        forall|k: Seq<char>| #[trigger] state_of(a, k) == state_of(b, k),
        ids_unique(b) ==> ids_unique(a),
    decreases a.len(),
{
    if a.len() > 0 {
        assert forall|j: int| 0 <= j < a.drop_last().len() implies #[trigger] a.drop_last()[j].0@ == b.drop_last()[j].0@
            && a.drop_last()[j].1 == b.drop_last()[j].1 by {
            assert(a.drop_last()[j] == a[j]);
            assert(b.drop_last()[j] == b[j]);
        }
        lemma_same_states(a.drop_last(), b.drop_last());
        assert(a.last().0@ == b.last().0@ && a.last().1 == b.last().1);
        assert forall|k: Seq<char>| #[trigger] state_of(a, k) == state_of(b, k) by {
            assert(state_of(a.drop_last(), k) == state_of(b.drop_last(), k));
        }
    }
    if ids_unique(b) {
        assert forall|i: int, j: int| 0 <= i < j < a.len() implies a[i].0@ != a[j].0@ by {
            assert(a[i].0@ == b[i].0@);
            assert(a[j].0@ == b[j].0@);
        }
    }
}

/// The name of the state recorded for `k`, if any.
pub open spec fn state_name_of(entries: Seq<(String, CopperLifecycleState)>, k: Seq<char>) -> Option<Seq<char>> {
    match state_of(entries, k) {
        Some(s) => Some(state_name(s)),
        None => None,
    }
}

/// The lifecycle states as a JSON object from extension id to state name.
pub fn states_json(entries: &Vec<(String, CopperLifecycleState)>) -> (r: JsonValue)
    ensures
        r is Object,
        forall|k: Seq<char>| (#[trigger] get(r, k) is Some) == (state_of(entries@, k) is Some),
        forall|k: Seq<char>| #[trigger] as_str(get(r, k)) == state_name_of(entries@, k),
{
    let mut out: Vec<(String, JsonValue)> = Vec::new();
    let mut i: usize = 0;
    while i < entries.len()
        invariant
            i <= entries@.len(),
            forall|k: Seq<char>| (#[trigger] lookup(out@, k) is Some) == (state_of(entries@.take(i as int), k) is Some),
            forall|k: Seq<char>| #[trigger] as_str(lookup(out@, k)) == state_name_of(entries@.take(i as int), k),
        decreases entries@.len() - i,
    {
        assert(entries@.take(i + 1).drop_last() =~= entries@.take(i as int));
        let id = owned(entries[i].0.as_str());
        let name = owned(entries[i].1.as_str());
        let ghost before = out@;
        out = members_insert(out, id, JsonValue::Str(name));
        proof {
            assert forall|k: Seq<char>| (#[trigger] lookup(out@, k) is Some) == (state_of(entries@.take(i + 1), k) is Some) by {
                assert(lookup(out@, k) == if k == entries@[i as int].0@ { Some(JsonValue::Str(name)) } else { lookup(before, k) });
            }
            assert forall|k: Seq<char>| #[trigger] as_str(lookup(out@, k)) == state_name_of(entries@.take(i + 1), k) by {
                assert(lookup(out@, k) == if k == entries@[i as int].0@ { Some(JsonValue::Str(name)) } else { lookup(before, k) });
            }
        }
        i = i + 1;
    }
    assert(entries@.take(i as int) =~= entries@);
    JsonValue::Object(out)
}

/// The endpoint that keeps the lifecycle record.
pub struct CopperControlModule {
    handle: CopperControlHandle,
}

/// Whether a payload asks the control endpoint for its health.
pub open spec fn is_health_request(payload: Seq<u8>) -> bool {
    payload == seq![104u8, 101u8, 97u8, 108u8, 116u8, 104u8]
}

impl CopperControlModule {
    pub closed spec fn record(&self) -> CopperControlHandle {
        self.handle
    }

    /// A control endpoint that has seen nothing.
    pub fn new() -> (m: Self)
        ensures
            m.record().wf(),
            m.record().events() == 0,
            m.record().decode_errors() == 0,
            m.record().states().len() == 0,
    {
        CopperControlModule { handle: CopperControlHandle::new() }
    }

    /// A control endpoint that goes on from an existing record.
    pub fn from_handle(handle: CopperControlHandle) -> (m: Self)
        ensures
            m.record() == handle,
    {
        CopperControlModule { handle }
    }

    pub fn handle(&self) -> (h: &CopperControlHandle)
        ensures
            *h == self.record(),
    {
        &self.handle
    }

    pub fn name(&self) -> (n: &'static str)
        ensures
            n@ == COPPER_CONTROL_ENDPOINT@,
    {
        COPPER_CONTROL_ENDPOINT
    }

    /// Takes in a message on the lifecycle topic, decoded (`Some`) or not.
    /// Messages on other topics are ignored.
    pub fn handle_message(&mut self, lifecycle_topic: bool, decoded: Option<(String, CopperLifecycleState)>)
        requires
            old(self).record().wf(),
        ensures
            final(self).record().wf(),
            !lifecycle_topic ==> final(self).record() == old(self).record(),
            lifecycle_topic && decoded is None ==> final(self).record().decode_errors() == if old(
                self,
            ).record().decode_errors() < usize::MAX {
                old(self).record().decode_errors() + 1
            } else {
                old(self).record().decode_errors()
            } && final(self).record().events() == old(self).record().events() && final(self).record().states()
                == old(self).record().states(),
            lifecycle_topic && decoded is Some ==> final(self).record().events() == if old(self).record().events()
                < usize::MAX {
                old(self).record().events() + 1
            } else {
                old(self).record().events()
            } && final(self).record().decode_errors() == old(self).record().decode_errors(),
            lifecycle_topic ==> (decoded matches Some((id, st)) ==> forall|k: Seq<char>| #[trigger] state_of(
                final(self).record().states(),
                k,
            ) == if k == id@ {
                Some(st)
            } else {
                state_of(old(self).record().states(), k)
            }),
    {
        if !lifecycle_topic {
            return;
        }
        match decoded {
            Some((id, st)) => self.handle.record_event(id.as_str(), st),
            None => self.handle.record_decode_error(),
        }
    }

    /// Answers `health` with the lifecycle record; anything else gets no
    /// answer.
    pub fn respond(&self, payload: &[u8]) -> (r: Option<JsonValue>)
        requires
            self.record().wf(),
        ensures
            r is Some <==> is_health_request(payload@),
            r matches Some(v) ==> get(v, "ok"@) == Some(JsonValue::Bool(true)) && get(v, "lifecycleEvents"@) == Some(
                JsonValue::Number(JsonNumber::PosInt(self.record().events() as u64)),
            ) && get(v, "lifecycleDecodeErrors"@) == Some(
                JsonValue::Number(JsonNumber::PosInt(self.record().decode_errors() as u64)),
            ),
            r matches Some(v) ==> (get(v, "extensions"@) matches Some(e) && forall|k: Seq<char>| #[trigger] as_str(
                get(e, k),
            ) == state_name_of(self.record().states(), k)),
    {
        let is_health = payload.len() == 6 && payload[0] == 104 && payload[1] == 101 && payload[2] == 97
            && payload[3] == 108 && payload[4] == 116 && payload[5] == 104;
        if !is_health {
            proof {
                if is_health_request(payload@) {
                    assert(payload@[0] == 104u8);
                }
            }
            return None;
        }
        assert(payload@ =~= seq![104u8, 101u8, 97u8, 108u8, 116u8, 104u8]);
        let states = self.handle.extensions();
        let ext = states_json(&states);
        let mut entries: Vec<(String, JsonValue)> = Vec::new();
        entries = members_insert(entries, owned("extensions"), ext);
        entries = members_insert(
            entries,
            owned("lifecycleDecodeErrors"),
            JsonValue::Number(JsonNumber::PosInt(self.handle.lifecycle_decode_errors() as u64)),
        );
        entries = members_insert(
            entries,
            owned("lifecycleEvents"),
            JsonValue::Number(JsonNumber::PosInt(self.handle.lifecycle_event_count() as u64)),
        );
        entries = members_insert(entries, owned("ok"), JsonValue::Bool(true));
        proof {
            reveal_strlit("extensions");
            reveal_strlit("lifecycleDecodeErrors");
            reveal_strlit("lifecycleEvents");
            reveal_strlit("ok");
            assert("extensions"@.len() != "lifecycleDecodeErrors"@.len());
            assert("extensions"@.len() != "lifecycleEvents"@.len());
            assert("extensions"@.len() != "ok"@.len());
            assert("lifecycleDecodeErrors"@.len() != "lifecycleEvents"@.len());
            assert("lifecycleDecodeErrors"@.len() != "ok"@.len());
            assert("lifecycleEvents"@.len() != "ok"@.len());
        }
        Some(JsonValue::Object(entries))
    }
}

/// A health snapshot of the embedded component runtime.
#[derive(Debug, Clone)]
pub struct BonesRuntimeStatus {
    pub headless: bool,
    pub frames: u64,
    pub registry_reloads: u64,
    pub catalog_extensions: usize,
    pub catalog_rebuilds: u64,
    pub lifecycle_events: usize,
    pub lifecycle_decode_errors: usize,
    pub extensions: Vec<(String, CopperLifecycleState)>,
    pub capability_accepted: u64,
    pub capability_rejected: u64,
    pub capability_pending: usize,
    pub capability_completed: u64,
    pub capability_failed: u64,
    pub capability_delivery_failures: u64,
    pub actions_dispatched: u64,
    pub action_dispatch_failures: u64,
    pub shutdown: bool,
}

/// An action handed to one component, and what it answered.
#[derive(Debug)]
pub struct BonesActionDispatch {
    pub extension_id: String,
    pub action_id: String,
    pub request_id: String,
    pub response: Option<CopperEnvelope>,
}

/// What came back from handing an action request to a component.
#[derive(Debug)]
pub enum ActionReply {
    /// The request could not be encoded.
    EncodeFailed(String),
    /// The call itself failed.
    CallFailed(String),
    /// The component answered nothing.
    Empty,
    /// The component's answer is not an envelope.
    Undecodable(String),
    /// The component answered with an envelope.
    Envelope(CopperEnvelope),
}

/// The protocol an envelope names.
pub open spec fn envelope_protocol(e: CopperEnvelope) -> Seq<char> {
    match e {
        CopperEnvelope::ActionRequest { protocol, .. } => protocol@,
        CopperEnvelope::CapabilityRequest { protocol, .. } => protocol@,
        CopperEnvelope::JobAccepted { protocol, .. } => protocol@,
        CopperEnvelope::JobResult { protocol, .. } => protocol@,
        CopperEnvelope::Error { protocol, .. } => protocol@,
    }
}

/// The request an envelope answers, if it names one.
pub open spec fn envelope_request_id(e: CopperEnvelope) -> Option<Seq<char>> {
    match e {
        CopperEnvelope::ActionRequest { request_id, .. } => Some(request_id@),
        CopperEnvelope::CapabilityRequest { request_id, .. } => Some(request_id@),
        CopperEnvelope::JobAccepted { request_id, .. } => Some(request_id@),
        CopperEnvelope::JobResult { request_id, .. } => Some(request_id@),
        CopperEnvelope::Error { request_id, .. } => match request_id {
            Some(r) => Some(r@),
            None => None,
        },
    }
}

/// Why an action's reply is refused, if it is: a failed encoding or call,
/// an undecodable answer, or an envelope of another protocol or request, an
/// error, or one that is neither an accepted job nor a job result.
pub open spec fn reply_error(reply: ActionReply, request_id: Seq<char>) -> Option<Seq<char>> {
    match reply {
        ActionReply::EncodeFailed(e) => Some("failed to encode action request: "@ + e@),
        ActionReply::CallFailed(e) => Some("failed to dispatch action: "@ + e@),
        ActionReply::Empty => None,
        ActionReply::Undecodable(e) => Some("extension returned an invalid response: "@ + e@),
        ActionReply::Envelope(env) => if envelope_protocol(env) != COPPER_BUS_PROTOCOL_V1@ {
            Some("extension returned a mismatched response protocol"@)
        } else if envelope_request_id(env) != Some(request_id) {
            Some("extension returned a mismatched response request ID"@)
        } else if env is Error {
            Some("extension rejected action ["@ + env->Error_code@ + "]: "@ + env->Error_message@)
        } else if !(env is JobAccepted || env is JobResult) {
            Some("extension returned an invalid action response kind"@)
        } else {
            None
        },
    }
}

fn envelope_protocol_of(e: &CopperEnvelope) -> (p: &str)
    ensures
        p@ == envelope_protocol(*e),
{
    match e {
        CopperEnvelope::ActionRequest { protocol, .. } => protocol.as_str(),
        CopperEnvelope::CapabilityRequest { protocol, .. } => protocol.as_str(),
        CopperEnvelope::JobAccepted { protocol, .. } => protocol.as_str(),
        CopperEnvelope::JobResult { protocol, .. } => protocol.as_str(),
        CopperEnvelope::Error { protocol, .. } => protocol.as_str(),
    }
}

fn answers_request(e: &CopperEnvelope, request_id: &str) -> (r: bool)
    ensures
        r == (envelope_request_id(*e) == Some(request_id@)),
{
    match e {
        CopperEnvelope::ActionRequest { request_id: r, .. } => str_eq(r.as_str(), request_id),
        CopperEnvelope::CapabilityRequest { request_id: r, .. } => str_eq(r.as_str(), request_id),
        CopperEnvelope::JobAccepted { request_id: r, .. } => str_eq(r.as_str(), request_id),
        CopperEnvelope::JobResult { request_id: r, .. } => str_eq(r.as_str(), request_id),
        CopperEnvelope::Error { request_id: r, .. } => match r {
            Some(r) => str_eq(r.as_str(), request_id),
            None => false,
        },
    }
}

/// The refusal message for a reply, if the reply is refused.
pub fn check_reply(reply: &ActionReply, request_id: &str) -> (r: Option<String>)
    ensures
        match reply_error(*reply, request_id@) {
            Some(m) => r matches Some(s) && s@ == m,
            None => r is None,
        },
{
    match reply {
        ActionReply::EncodeFailed(e) => Some(concat2("failed to encode action request: ", e.as_str())),
        ActionReply::CallFailed(e) => Some(concat2("failed to dispatch action: ", e.as_str())),
        ActionReply::Empty => None,
        ActionReply::Undecodable(e) => Some(concat2("extension returned an invalid response: ", e.as_str())),
        ActionReply::Envelope(env) => {
            if !str_eq(envelope_protocol_of(env), COPPER_BUS_PROTOCOL_V1) {
                return Some(owned("extension returned a mismatched response protocol"));
            }
            if !answers_request(env, request_id) {
                return Some(owned("extension returned a mismatched response request ID"));
            }
            match env {
                CopperEnvelope::Error { code, message, .. } => {
                    let head = concat3("extension rejected action [", code.as_str(), "]: ");
                    Some(concat2(head.as_str(), message.as_str()))
                },
                CopperEnvelope::JobAccepted { .. } => None,
                CopperEnvelope::JobResult { .. } => None,
                _ => Some(owned("extension returned an invalid action response kind")),
            }
        },
    }
}

/// One more, unless the count is already at its largest.
pub open spec fn bumped(n: u64) -> u64 {
    if n < u64::MAX {
        (n + 1) as u64
    } else {
        n
    }
}

/// The components the runtime was built with: extension id and component
/// file of each extension.
pub open spec fn catalog_of(entries: Seq<Extension>) -> Seq<(Seq<char>, Seq<char>)> {
    entries.map_values(|e: Extension| (e.descriptor.id@, e.wasm_component_path@))
}

/// The step-driven state that the daemon keeps for its component runtime:
/// the catalog it was built from, and its counters.
pub struct BonesDriverState {
    catalog: Vec<(String, String)>,
    frames: u64,
    registry_reloads: u64,
    catalog_rebuilds: u64,
    capability_completed: u64,
    capability_failed: u64,
    capability_delivery_failures: u64,
    next_action_id: u64,
    actions_dispatched: u64,
    action_dispatch_failures: u64,
    shutdown: bool,
}

/// The catalog of a registry, in the registry's order.
pub fn catalog_snapshot(registry: &Registry) -> (c: Vec<(String, String)>)
    ensures
        c@.map_values(|p: (String, String)| (p.0@, p.1@)) == catalog_of(registry.entries()),
{
    let list = registry.list();
    let mut out: Vec<(String, String)> = Vec::new();
    let mut i: usize = 0;
    while i < list.len()
        invariant
            i <= list@.len(),
            list@ == registry.entries(),
            out@.map_values(|p: (String, String)| (p.0@, p.1@)) == catalog_of(list@.take(i as int)),
        decreases list@.len() - i,
    {
        let id = owned(list[i].descriptor.id.as_str());
        let path = owned(list[i].wasm_component_path.as_str());
        let ghost before = out@;
        out.push((id, path));
        proof {
            let a = out@.map_values(|p: (String, String)| (p.0@, p.1@));
            let b = catalog_of(list@.take(i + 1));
            let c = before.map_values(|p: (String, String)| (p.0@, p.1@));
            assert(c == catalog_of(list@.take(i as int)));
            assert forall|j: int| 0 <= j < a.len() implies a[j] == b[j] by {
                if j < i {
                    assert(out@[j] == before[j]);
                    assert(c[j] == catalog_of(list@.take(i as int))[j]);
                    assert(list@.take(i as int)[j] == list@.take(i + 1)[j]);
                }
            }
            assert(a =~= b);
        }
        i = i + 1;
    }
    assert(list@.take(i as int) =~= list@);
    out
}

fn same_catalog(a: &Vec<(String, String)>, b: &Vec<(String, String)>) -> (r: bool)
    ensures
        r == (a@.map_values(|p: (String, String)| (p.0@, p.1@)) == b@.map_values(
            |p: (String, String)| (p.0@, p.1@),
        )),
{
    let ghost va = a@.map_values(|p: (String, String)| (p.0@, p.1@));
    let ghost vb = b@.map_values(|p: (String, String)| (p.0@, p.1@));
    if a.len() != b.len() {
        assert(va.len() != vb.len());
        return false;
    }
    let mut i: usize = 0;
    while i < a.len()
        invariant
            i <= a@.len(),
            a@.len() == b@.len(),
            va == a@.map_values(|p: (String, String)| (p.0@, p.1@)),
            vb == b@.map_values(|p: (String, String)| (p.0@, p.1@)),
            forall|j: int| 0 <= j < i ==> #[trigger] va[j] == vb[j],
        decreases a@.len() - i,
    {
        if !str_eq(a[i].0.as_str(), b[i].0.as_str()) || !str_eq(a[i].1.as_str(), b[i].1.as_str()) {
            assert(va[i as int] != vb[i as int]);
            return false;
        }
        i = i + 1;
    }
    assert(va =~= vb);
    true
}

impl BonesDriverState {
    pub closed spec fn catalog_view(&self) -> Seq<(Seq<char>, Seq<char>)> {
        self.catalog@.map_values(|p: (String, String)| (p.0@, p.1@))
    }

    pub closed spec fn is_shut_down(&self) -> bool {
        self.shutdown
    }

    pub closed spec fn frame_count(&self) -> u64 {
        self.frames
    }

    pub closed spec fn reload_count(&self) -> u64 {
        self.registry_reloads
    }

    pub closed spec fn rebuild_count(&self) -> u64 {
        self.catalog_rebuilds
    }

    pub closed spec fn last_action_number(&self) -> u64 {
        self.next_action_id
    }

    pub closed spec fn dispatched(&self) -> u64 {
        self.actions_dispatched
    }

    pub closed spec fn dispatch_failures(&self) -> u64 {
        self.action_dispatch_failures
    }

    pub closed spec fn completed_jobs(&self) -> u64 {
        self.capability_completed
    }

    pub closed spec fn failed_jobs(&self) -> u64 {
        self.capability_failed
    }

    pub closed spec fn delivery_failures(&self) -> u64 {
        self.capability_delivery_failures
    }

    /// A runtime just built from `catalog`, with all counts at zero.
    pub fn new(catalog: Vec<(String, String)>) -> (s: Self)
        ensures
            s.catalog_view() == catalog@.map_values(|p: (String, String)| (p.0@, p.1@)),
            !s.is_shut_down(),
            s.frame_count() == 0 && s.reload_count() == 0 && s.rebuild_count() == 0,
            s.last_action_number() == 0 && s.dispatched() == 0 && s.dispatch_failures() == 0,
            s.completed_jobs() == 0 && s.failed_jobs() == 0 && s.delivery_failures() == 0,
    {
        BonesDriverState {
            catalog,
            frames: 0,
            registry_reloads: 0,
            catalog_rebuilds: 0,
            capability_completed: 0,
            capability_failed: 0,
            capability_delivery_failures: 0,
            next_action_id: 0,
            actions_dispatched: 0,
            action_dispatch_failures: 0,
            shutdown: false,
        }
    }

    /// Starts replacing the catalog after a registry reload: refused after
    /// shutdown; otherwise the reload is counted and the answer says whether
    /// the component set or a component file changed, so that the runtime
    /// must be rebuilt.
    pub fn begin_catalog_replace(&mut self, catalog: &Vec<(String, String)>) -> (r: Result<bool, String>)
        ensures
            old(self).is_shut_down() ==> (r matches Err(m) && m@ == "cannot replace the catalog after Bones shutdown"@),
            old(self).is_shut_down() ==> *final(self) == *old(self),
            !old(self).is_shut_down() ==> (r matches Ok(changed) && changed == (old(self).catalog_view()
                != catalog@.map_values(|p: (String, String)| (p.0@, p.1@)))),
            !old(self).is_shut_down() ==> final(self).reload_count() == bumped(old(self).reload_count()),
            final(self).catalog_view() == old(self).catalog_view(),
            final(self).rebuild_count() == old(self).rebuild_count(),
            final(self).is_shut_down() == old(self).is_shut_down(),
    {
        if self.shutdown {
            return Err(owned("cannot replace the catalog after Bones shutdown"));
        }
        self.registry_reloads = self.registry_reloads.saturating_add(1);
        Ok(!same_catalog(&self.catalog, catalog))
    }

    /// Records that the runtime was rebuilt from a new catalog.
    pub fn commit_catalog(&mut self, catalog: Vec<(String, String)>)
        ensures
            final(self).catalog_view() == catalog@.map_values(|p: (String, String)| (p.0@, p.1@)),
            final(self).rebuild_count() == bumped(old(self).rebuild_count()),
            final(self).reload_count() == old(self).reload_count(),
            final(self).is_shut_down() == old(self).is_shut_down(),
    {
        self.catalog = catalog;
        self.catalog_rebuilds = self.catalog_rebuilds.saturating_add(1);
    }

    /// What one step does: a running runtime counts a frame; one that was
    /// shut down is left as it was.
    pub open spec fn stepped_to(before: Self, after: Self, stepped: bool) -> bool {
        &&& stepped == !before.is_shut_down()
        &&& after.frame_count() == if stepped {
            bumped(before.frame_count())
        } else {
            before.frame_count()
        }
        &&& after.is_shut_down() == before.is_shut_down()
        &&& before.is_shut_down() ==> after == before
    }

    /// What a shutdown does: the runtime is shut down with its frames kept;
    /// one already shut down is left as it was.
    pub open spec fn shut_down_to(before: Self, after: Self, was_running: bool) -> bool {
        &&& was_running == !before.is_shut_down()
        &&& after.is_shut_down()
        &&& after.frame_count() == before.frame_count()
        &&& before.is_shut_down() ==> after == before
    }

    /// Counts a frame; a runtime that was shut down does not step.
    pub fn step(&mut self) -> (stepped: bool)
        ensures
            Self::stepped_to(*old(self), *final(self), stepped),
    {
        if self.shutdown {
            return false;
        }
        self.frames = self.frames.saturating_add(1);
        true
    }

    /// Shuts the runtime down; the answer says whether it was running (a
    /// second shutdown does nothing).
    pub fn shutdown(&mut self) -> (was_running: bool)
        ensures
            Self::shut_down_to(*old(self), *final(self), was_running),
    {
        if self.shutdown {
            return false;
        }
        self.shutdown = true;
        true
    }

    /// Counts a finished capability job and whether its result reached the
    /// component.
    pub fn record_job_result(&mut self, succeeded: bool, delivered: bool)
        ensures
            final(self).completed_jobs() == if succeeded {
                bumped(old(self).completed_jobs())
            } else {
                old(self).completed_jobs()
            },
            final(self).failed_jobs() == if succeeded {
                old(self).failed_jobs()
            } else {
                bumped(old(self).failed_jobs())
            },
            final(self).delivery_failures() == if delivered {
                old(self).delivery_failures()
            } else {
                bumped(old(self).delivery_failures())
            },
            final(self).is_shut_down() == old(self).is_shut_down(),
    {
        if succeeded {
            self.capability_completed = self.capability_completed.saturating_add(1);
        } else {
            self.capability_failed = self.capability_failed.saturating_add(1);
        }
        if !delivered {
            self.capability_delivery_failures = self.capability_delivery_failures.saturating_add(1);
        }
    }

    /// Whether a component of the catalog has this extension id.
    pub fn in_catalog(&self, extension_id: &str) -> (r: bool)
        ensures
            r == exists|i: int| 0 <= i < self.catalog_view().len() && #[trigger] self.catalog_view()[i].0 == extension_id@,
    {
        let ghost v = self.catalog_view();
        let mut i: usize = 0;
        while i < self.catalog.len()
            invariant
                i <= self.catalog@.len(),
                v == self.catalog@.map_values(|p: (String, String)| (p.0@, p.1@)),
                forall|j: int| 0 <= j < i ==> #[trigger] v[j].0 != extension_id@,
            decreases self.catalog@.len() - i,
        {
            if str_eq(self.catalog[i].0.as_str(), extension_id) {
                assert(self.catalog_view()[i as int].0 == extension_id@);
                return true;
            }
            i = i + 1;
        }
        false
    }

    /// Starts an action for one component: refused after shutdown or for an
    /// extension that is not in the catalog; otherwise the action gets the
    /// next request id, `action-<n>`.
    pub fn begin_action(&mut self, extension_id: &str) -> (r: Result<String, String>)
        ensures
            old(self).is_shut_down() ==> (r matches Err(m) && m@ == "cannot dispatch an action after Bones shutdown"@),
            !old(self).is_shut_down() && !(exists|i: int|
                0 <= i < old(self).catalog_view().len() && #[trigger] old(self).catalog_view()[i].0 == extension_id@)
                ==> (r matches Err(m) && m@ == "extension '"@ + extension_id@ + "' is not an active Copper WASM component"@),
            r is Err ==> *final(self) == *old(self),
            r matches Ok(id) ==> final(self).last_action_number() == bumped(old(self).last_action_number()) && id@
                == "action-"@ + decimal(final(self).last_action_number() as nat),
            r is Ok <==> (!old(self).is_shut_down() && exists|i: int|
                0 <= i < old(self).catalog_view().len() && #[trigger] old(self).catalog_view()[i].0 == extension_id@),
            final(self).dispatched() == old(self).dispatched(),
            final(self).dispatch_failures() == old(self).dispatch_failures(),
            final(self).is_shut_down() == old(self).is_shut_down(),
            final(self).catalog_view() == old(self).catalog_view(),
    {
        if self.shutdown {
            return Err(owned("cannot dispatch an action after Bones shutdown"));
        }
        if !self.in_catalog(extension_id) {
            return Err(concat3("extension '", extension_id, "' is not an active Copper WASM component"));
        }
        self.next_action_id = self.next_action_id.saturating_add(1);
        let n = decimal_string(self.next_action_id);
        Ok(concat2("action-", n.as_str()))
    }

    /// The request handed to the component for an action: the current bus
    /// protocol, the request id from `begin_action`, the action and its input.
    pub fn action_request(request_id: String, action_id: &str, input: JsonValue) -> (env: CopperEnvelope)
        ensures
            env matches CopperEnvelope::ActionRequest { protocol, request_id: q, action_id: a, input: i } && protocol@
                == COPPER_BUS_PROTOCOL_V1@ && q == request_id && a@ == action_id@ && i == input,
    {
        CopperEnvelope::ActionRequest {
            protocol: owned(COPPER_BUS_PROTOCOL_V1),
            request_id,
            action_id: owned(action_id),
            input,
        }
    }

    /// Finishes an action with what the component answered: a refused reply
    /// is counted as a failure and reported; otherwise the action is counted
    /// as dispatched, with the component's envelope if it sent one.
    pub fn finish_action(&mut self, extension_id: &str, action_id: &str, request_id: String, reply: ActionReply) -> (r:
        Result<BonesActionDispatch, String>)
        ensures
            match reply_error(reply, request_id@) {
                Some(m) => r matches Err(e) && e@ == m && final(self).dispatch_failures() == bumped(
                    old(self).dispatch_failures(),
                ) && final(self).dispatched() == old(self).dispatched(),
                None => r matches Ok(d) && d.extension_id@ == extension_id@ && d.action_id@ == action_id@
                    && d.request_id@ == request_id@ && d.response == (match reply {
                    ActionReply::Envelope(env) => Some(env),
                    _ => None,
                }) && final(self).dispatched() == bumped(old(self).dispatched()) && final(self).dispatch_failures()
                    == old(self).dispatch_failures(),
            },
            final(self).is_shut_down() == old(self).is_shut_down(),
            final(self).last_action_number() == old(self).last_action_number(),
            final(self).catalog_view() == old(self).catalog_view(),
    {
        match check_reply(&reply, request_id.as_str()) {
            Some(m) => {
                self.action_dispatch_failures = self.action_dispatch_failures.saturating_add(1);
                Err(m)
            },
            None => {
                self.actions_dispatched = self.actions_dispatched.saturating_add(1);
                let response = match reply {
                    ActionReply::Envelope(env) => Some(env),
                    _ => None,
                };
                Ok(
                    BonesActionDispatch {
                        extension_id: owned(extension_id),
                        action_id: owned(action_id),
                        request_id,
                        response,
                    },
                )
            },
        }
    }

    /// The health snapshot, with the lifecycle record and the capability
    /// broker's counts.
    pub fn status(&self, headless: bool, control: &CopperControlHandle, accepted: u64, rejected: u64, pending: usize) -> (s:
        BonesRuntimeStatus)
        requires
            control.wf(),
        ensures
            s.headless == headless,
            s.frames == self.frame_count(),
            s.registry_reloads == self.reload_count(),
            s.catalog_extensions == self.catalog_view().len(),
            s.catalog_rebuilds == self.rebuild_count(),
            s.lifecycle_events == control.events(),
            s.lifecycle_decode_errors == control.decode_errors(),
            forall|k: Seq<char>| #[trigger] state_of(s.extensions@, k) == state_of(control.states(), k),
            s.capability_accepted == accepted,
            s.capability_rejected == rejected,
            s.capability_pending == pending,
            s.capability_completed == self.completed_jobs(),
            s.capability_failed == self.failed_jobs(),
            s.capability_delivery_failures == self.delivery_failures(),
            s.actions_dispatched == self.dispatched(),
            s.action_dispatch_failures == self.dispatch_failures(),
            s.shutdown == self.is_shut_down(),
    {
        BonesRuntimeStatus {
            headless,
            frames: self.frames,
            registry_reloads: self.registry_reloads,
            catalog_extensions: self.catalog.len(),
            catalog_rebuilds: self.catalog_rebuilds,
            lifecycle_events: control.lifecycle_event_count(),
            lifecycle_decode_errors: control.lifecycle_decode_errors(),
            extensions: control.extensions(),
            capability_accepted: accepted,
            capability_rejected: rejected,
            capability_pending: pending,
            capability_completed: self.capability_completed,
            capability_failed: self.capability_failed,
            capability_delivery_failures: self.capability_delivery_failures,
            actions_dispatched: self.actions_dispatched,
            action_dispatch_failures: self.action_dispatch_failures,
            shutdown: self.shutdown,
        }
    }
}

/// Shutdown is final and idempotent: once the runtime is shut down, a
/// further shutdown or step changes nothing and reports that nothing ran,
/// and actions and catalog replacements are refused (their contracts say
/// so for a runtime that is shut down).
pub proof fn law_shutdown_is_final(
    d: BonesDriverState,
    after_shutdown: BonesDriverState,
    was_running: bool,
    after_step: BonesDriverState,
    stepped: bool,
)
    requires
        d.is_shut_down(),
        BonesDriverState::shut_down_to(d, after_shutdown, was_running),
        BonesDriverState::stepped_to(d, after_step, stepped),
    ensures
        after_shutdown == d,
        !was_running,
        after_step == d,
        !stepped,
        after_step.frame_count() == d.frame_count(),
{
}

} // verus!
