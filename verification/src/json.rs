use vstd::prelude::*;
use crate::text::str_eq;

verus! {

/// A JSON number as the host reads it: integers exactly, anything else by its text.
#[derive(Debug)]
pub enum JsonNumber {
    PosInt(u64),
    NegInt(i64),
    Other(String),
}

/// A JSON document held as plain values. An object is a list of members;
/// the host treats it as a map from member name to value.
#[derive(Debug)]
pub enum JsonValue {
    Null,
    Bool(bool),
    Number(JsonNumber),
    Str(String),
    Array(Vec<JsonValue>),
    Object(Vec<(String, JsonValue)>),
}

/// The value stored under `key` in a member list (the first member with that name).
pub open spec fn lookup(entries: Seq<(String, JsonValue)>, key: Seq<char>) -> Option<JsonValue>
    decreases entries.len(),
{
    if entries.len() == 0 {
        None
    } else if entries[0].0@ == key {
        Some(entries[0].1)
    } else {
        lookup(entries.drop_first(), key)
    }
}

/// `value.get(key)` of a JSON value: members of objects only.
pub open spec fn get(v: JsonValue, key: Seq<char>) -> Option<JsonValue> {
    match v {
        JsonValue::Object(entries) => lookup(entries@, key),
        _ => None,
    }
}

pub open spec fn is_object(v: JsonValue) -> bool {
    v is Object
}

pub open spec fn as_bool(v: Option<JsonValue>) -> Option<bool> {
    match v {
        Some(JsonValue::Bool(b)) => Some(b),
        _ => None,
    }
}

pub open spec fn as_str(v: Option<JsonValue>) -> Option<Seq<char>> {
    match v {
        Some(JsonValue::Str(s)) => Some(s@),
        _ => None,
    }
}

/// The integer a JSON value holds, when it is one.
pub open spec fn as_int(v: Option<JsonValue>) -> Option<int> {
    match v {
        Some(JsonValue::Number(JsonNumber::PosInt(n))) => Some(n as int),
        Some(JsonValue::Number(JsonNumber::NegInt(n))) => Some(n as int),
        _ => None,
    }
}

/// `as_i64`: an integer that fits in `i64`.
pub open spec fn as_i64(v: Option<JsonValue>) -> Option<int> {
    match as_int(v) {
        Some(n) => if i64::MIN <= n <= i64::MAX { Some(n) } else { None },
        None => None,
    }
}

/// `as_u64`: a non-negative integer that fits in `u64`.
pub open spec fn as_u64(v: Option<JsonValue>) -> Option<int> {
    match as_int(v) {
        Some(n) => if 0 <= n <= u64::MAX { Some(n) } else { None },
        None => None,
    }
}

/// `{}`.
pub open spec fn is_empty_object(v: JsonValue) -> bool {
    v matches JsonValue::Object(entries) && entries@.len() == 0
}

/// Member names of a list occur once each.
pub open spec fn keys_unique(entries: Seq<(String, JsonValue)>) -> bool {
    forall|i: int, j: int|
        0 <= i < entries.len() && 0 <= j < entries.len() && i != j ==> entries[i].0@ != entries[j].0@
}

/// Whether a value may be the source of `merge_objects`: an object's member
/// names occur once each; every other value qualifies.
pub fn json_is_wf(v: &JsonValue) -> (r: bool)
    ensures
        r == json_wf(*v),
{
    match v {
        JsonValue::Object(entries) => {
            let mut i: usize = 0;
            while i < entries.len()
                invariant
                    json_wf(*v) == keys_unique(entries@),
                    i <= entries@.len(),
                    forall|a: int, b: int|
                        0 <= a < i && 0 <= b < entries@.len() && a != b ==> entries@[a].0@ != entries@[b].0@,
                decreases entries.len() - i,
            {
                let mut j: usize = 0;
                while j < entries.len()
                    invariant
                        json_wf(*v) == keys_unique(entries@),
                        i < entries@.len(),
                        j <= entries@.len(),
                        forall|a: int, b: int|
                            0 <= a < i && 0 <= b < entries@.len() && a != b ==> entries@[a].0@ != entries@[b].0@,
                        forall|b: int| 0 <= b < j && b != i ==> entries@[i as int].0@ != entries@[b].0@,
                    decreases entries.len() - j,
                {
                    if j != i && str_eq(entries[i].0.as_str(), entries[j].0.as_str()) {
                        assert(entries@[i as int].0@ == entries@[j as int].0@);
                        assert(!keys_unique(entries@));
                        assert(!json_wf(*v));
                        return false;
                    }
                    j = j + 1;
                }
                i = i + 1;
            }
            true
        },
        _ => true,
    }
}

pub proof fn lemma_lookup_push(entries: Seq<(String, JsonValue)>, e: (String, JsonValue), key: Seq<char>)
    ensures
        lookup(entries.push(e), key) == (match lookup(entries, key) {
            Some(v) => Some(v),
            None => if e.0@ == key { Some(e.1) } else { None },
        }),
    decreases entries.len(),
{
    assert(entries.push(e)[0] == if entries.len() == 0 { e } else { entries[0] });
    if entries.len() == 0 {
        assert(entries.push(e).drop_first() =~= Seq::<(String, JsonValue)>::empty());
        assert(lookup(Seq::<(String, JsonValue)>::empty(), key) is None);
    } else {
        assert(entries.push(e).drop_first() =~= entries.drop_first().push(e));
        lemma_lookup_push(entries.drop_first(), e, key);
    }
}

pub proof fn lemma_lookup_skip(entries: Seq<(String, JsonValue)>, i: int, key: Seq<char>)
    requires
        0 <= i <= entries.len(),
        forall|j: int| 0 <= j < i ==> entries[j].0@ != key,
    ensures
        lookup(entries, key) == lookup(entries.skip(i), key),
    decreases i,
{
    if i > 0 {
        assert(entries.drop_first().skip(i - 1) =~= entries.skip(i));
        lemma_lookup_skip(entries.drop_first(), i - 1, key);
    } else {
        assert(entries.skip(0) =~= entries);
    }
}

pub proof fn lemma_lookup_some_has_key(entries: Seq<(String, JsonValue)>, key: Seq<char>)
    ensures
        lookup(entries, key) is Some <==> exists|i: int| 0 <= i < entries.len() && entries[i].0@ == key,
        lookup(entries, key) is Some ==> exists|i: int|
            0 <= i < entries.len() && entries[i].0@ == key && lookup(entries, key) == Some(entries[i].1),
    decreases entries.len(),
{
    if entries.len() > 0 {
        lemma_lookup_some_has_key(entries.drop_first(), key);
        if entries[0].0@ != key {
            if exists|i: int| 0 <= i < entries.len() && entries[i].0@ == key {
                let i = choose|i: int| 0 <= i < entries.len() && entries[i].0@ == key;
                assert(entries.drop_first()[i - 1] == entries[i]);
            }
            if lookup(entries, key) is Some {
                let i = choose|i: int|
                    0 <= i < entries.drop_first().len() && entries.drop_first()[i].0@ == key
                        && lookup(entries.drop_first(), key) == Some(entries.drop_first()[i].1);
                assert(entries[i + 1] == entries.drop_first()[i]);
            }
        }
    }
}

/// The member named `key` of an object (`Value::get`).
pub fn json_get<'a>(v: &'a JsonValue, key: &str) -> (r: Option<&'a JsonValue>)
    ensures
        match r {
            Some(x) => get(*v, key@) == Some(*x),
            None => get(*v, key@) is None,
        },
{
    match v {
        JsonValue::Object(entries) => {
            let mut i: usize = 0;
            while i < entries.len()
                invariant
                    i <= entries.len(),
                    get(*v, key@) == lookup(entries@, key@),
                    forall|j: int| 0 <= j < i ==> entries@[j].0@ != key@,
                decreases entries.len() - i,
            {
                if str_eq(entries[i].0.as_str(), key) {
                    proof {
                        lemma_lookup_skip(entries@, i as int, key@);
                        assert(entries@.skip(i as int)[0] == entries@[i as int]);
                        assert(entries@[i as int].0@ == key@);
                        assert(lookup(entries@.skip(i as int), key@) == Some(entries@[i as int].1));
                    }
                    return Some(&entries[i].1);
                }
                i = i + 1;
            }
            proof {
                lemma_lookup_skip(entries@, i as int, key@);
            }
            None
        },
        _ => None,
    }
}

pub fn json_as_bool(v: Option<&JsonValue>) -> (r: Option<bool>)
    ensures
        r == as_bool(match v { Some(x) => Some(*x), None => None }),
{
    match v {
        Some(JsonValue::Bool(b)) => Some(*b),
        _ => None,
    }
}

pub fn json_as_str<'a>(v: Option<&'a JsonValue>) -> (r: Option<&'a String>)
    ensures
        match r {
            Some(s) => as_str(match v { Some(x) => Some(*x), None => None }) == Some(s@),
            None => as_str(match v { Some(x) => Some(*x), None => None }) is None,
        },
{
    match v {
        Some(JsonValue::Str(s)) => Some(s),
        _ => None,
    }
}

pub fn json_as_i64(v: Option<&JsonValue>) -> (r: Option<i64>)
    ensures
        match r {
            Some(n) => as_i64(match v { Some(x) => Some(*x), None => None }) == Some(n as int),
            None => as_i64(match v { Some(x) => Some(*x), None => None }) is None,
        },
{
    match v {
        Some(JsonValue::Number(JsonNumber::PosInt(n))) => {
            if *n <= 0x7fff_ffff_ffff_ffffu64 {
                Some(*n as i64)
            } else {
                None
            }
        },
        Some(JsonValue::Number(JsonNumber::NegInt(n))) => Some(*n),
        _ => None,
    }
}

pub fn json_as_u64(v: Option<&JsonValue>) -> (r: Option<u64>)
    ensures
        match r {
            Some(n) => as_u64(match v { Some(x) => Some(*x), None => None }) == Some(n as int),
            None => as_u64(match v { Some(x) => Some(*x), None => None }) is None,
        },
{
    match v {
        Some(JsonValue::Number(JsonNumber::PosInt(n))) => Some(*n),
        Some(JsonValue::Number(JsonNumber::NegInt(n))) => {
            if *n >= 0 {
                Some(*n as u64)
            } else {
                None
            }
        },
        _ => None,
    }
}

pub fn json_is_object(v: &JsonValue) -> (r: bool)
    ensures
        r == is_object(*v),
{
    match v {
        JsonValue::Object(_) => true,
        _ => false,
    }
}


/// A JSON value whose top-level members (if it is an object) have distinct names,
/// as every object read from JSON text does.
pub open spec fn json_wf(v: JsonValue) -> bool {
    match v {
        JsonValue::Object(entries) => keys_unique(entries@),
        _ => true,
    }
}

pub open spec fn as_array(v: Option<JsonValue>) -> Option<Seq<JsonValue>> {
    match v {
        Some(JsonValue::Array(items)) => Some(items@),
        _ => None,
    }
}

pub fn json_as_array<'a>(v: Option<&'a JsonValue>) -> (r: Option<&'a Vec<JsonValue>>)
    ensures
        match r {
            Some(items) => as_array(match v { Some(x) => Some(*x), None => None }) == Some(items@),
            None => as_array(match v { Some(x) => Some(*x), None => None }) is None,
        },
{
    match v {
        Some(JsonValue::Array(items)) => Some(items),
        _ => None,
    }
}

proof fn lemma_lookup_none(entries: Seq<(String, JsonValue)>, key: Seq<char>)
    requires
        forall|j: int| 0 <= j < entries.len() ==> entries[j].0@ != key,
    ensures
        lookup(entries, key) is None,
{
    lemma_lookup_some_has_key(entries, key);
}

/// Drops every member named `key` from a member list, keeping the others in order.
pub fn members_without(entries: Vec<(String, JsonValue)>, key: &str) -> (out: Vec<(String, JsonValue)>)
    ensures
        forall|k: Seq<char>| #[trigger] lookup(out@, k) == if k == key@ { None } else { lookup(entries@, k) },
        forall|a: int| 0 <= a < out@.len() ==> out@[a].0@ != key@,
        keys_unique(entries@) ==> keys_unique(out@),
        forall|a: int| #![trigger out@[a]] 0 <= a < out@.len() ==> exists|j: int| #![trigger entries@[j]] 0 <= j < entries@.len() && out@[a] == entries@[j],
{
    let ghost orig = entries@;
    let mut rest = entries;
    let mut out: Vec<(String, JsonValue)> = Vec::new();
    let mut i: usize = 0;
    let n = rest.len();
    while i < n
        invariant
            n == orig.len(),
            i <= n,
            rest@ == orig.skip(i as int),
            forall|k: Seq<char>| #[trigger] lookup(out@, k) == if k == key@ { None } else { lookup(orig.subrange(0, i as int), k) },
            forall|a: int| 0 <= a < out@.len() ==> out@[a].0@ != key@,
            forall|a: int| #![trigger out@[a]] 0 <= a < out@.len() ==> exists|j: int| #![trigger orig[j]] 0 <= j < i && out@[a] == orig[j],
            keys_unique(orig) ==> keys_unique(out@),
        decreases n - i,
    {
        let e = rest.remove(0);
        assert(e == orig[i as int]);
        let ghost prefix = orig.subrange(0, i as int);
        assert(orig.subrange(0, i + 1) =~= prefix.push(e));
        if str_eq(e.0.as_str(), key) {
            proof {
                assert forall|k: Seq<char>| #[trigger] lookup(out@, k) == if k == key@ { None } else { lookup(orig.subrange(0, i + 1), k) } by {
                    lemma_lookup_push(prefix, e, k);
                }
            }
        } else {
            let ghost old_out = out@;
            proof {
                if keys_unique(orig) {
                    assert forall|a: int| 0 <= a < old_out.len() implies old_out[a].0@ != e.0@ by {
                        let j = choose|j: int| 0 <= j < i && old_out[a] == orig[j];
                        assert(orig[j].0@ != orig[i as int].0@);
                    }
                }
            }
            out.push(e);
            proof {
                assert forall|k: Seq<char>| #[trigger] lookup(out@, k) == if k == key@ { None } else { lookup(orig.subrange(0, i + 1), k) } by {
                    lemma_lookup_push(prefix, e, k);
                    lemma_lookup_push(old_out, e, k);
                }
                assert forall|a: int| #![trigger out@[a]] 0 <= a < out@.len() implies exists|j: int| #![trigger orig[j]] 0 <= j < i + 1 && out@[a] == orig[j] by {
                    if a < old_out.len() {
                        let j = choose|j: int| 0 <= j < i && old_out[a] == orig[j];
                        assert(out@[a] == orig[j]);
                    } else {
                        assert(out@[a] == orig[i as int]);
                    }
                }
            }
        }
        i = i + 1;
    }
    assert(orig.subrange(0, n as int) =~= orig);
    out
}

/// Sets member `key` to `value`, replacing any member with that name.
pub fn members_insert(entries: Vec<(String, JsonValue)>, key: String, value: JsonValue) -> (out: Vec<(String, JsonValue)>)
    ensures
        forall|k: Seq<char>| #[trigger] lookup(out@, k) == if k == key@ { Some(value) } else { lookup(entries@, k) },
        keys_unique(entries@) ==> keys_unique(out@),
{
    let mut out = members_without(entries, key.as_str());
    let ghost before = out@;
    let ghost kv = key@;
    out.push((key, value));
    proof {
        assert forall|k: Seq<char>| #[trigger] lookup(out@, k) == if k == kv { Some(value) } else { lookup(entries@, k) } by {
            lemma_lookup_push(before, (key, value), k);
        }
    }
    out
}

/// `v` is the JSON string `k`.
pub open spec fn str_item_is(v: JsonValue, k: Seq<char>) -> bool {
    v matches JsonValue::Str(s) && s@ == k
}

/// Some item of `items` is the JSON string `k`.
pub open spec fn array_has_str(items: Seq<JsonValue>, k: Seq<char>) -> bool {
    exists|i: int| 0 <= i < items.len() && #[trigger] str_item_is(items[i], k)
}

/// Some string in `strings` spells `k`.
pub open spec fn has_string(strings: Seq<String>, k: Seq<char>) -> bool {
    exists|i: int| 0 <= i < strings.len() && #[trigger] strings[i]@ == k
}

/// The names listed in the `__remove` array of a merge payload.
pub open spec fn listed_for_removal(source: JsonValue, k: Seq<char>) -> bool {
    match as_array(get(source, "__remove"@)) {
        Some(items) => array_has_str(items, k),
        None => false,
    }
}

/// What a merge leaves under member `k`: removed names vanish, names the payload
/// carries (other than `__remove`) take the payload's value, the rest keep the stored one.
pub open spec fn merged_member(target: JsonValue, source: JsonValue, k: Seq<char>) -> Option<JsonValue> {
    if listed_for_removal(source, k) {
        None
    } else if k != "__remove"@ && get(source, k) is Some {
        get(source, k)
    } else {
        get(target, k)
    }
}

/// The string items of an array, cloned.
fn string_items(items: &Vec<JsonValue>) -> (out: Vec<String>)
    ensures
        forall|k: Seq<char>| #[trigger] has_string(out@, k) <==> array_has_str(items@, k),
{
    let mut out: Vec<String> = Vec::new();
    let mut i: usize = 0;
    while i < items.len()
        invariant
            i <= items.len(),
            forall|k: Seq<char>| #[trigger] has_string(out@, k) <==> array_has_str(items@.subrange(0, i as int), k),
        decreases items.len() - i,
    {
        let ghost old_out = out@;
        let ghost pre = items@.subrange(0, i as int);
        let ghost post = items@.subrange(0, i + 1);
        assert(post =~= pre.push(items@[i as int]));
        match &items[i] {
            JsonValue::Str(s) => {
                out.push(s.clone());
                proof {
                    assert forall|k: Seq<char>| #[trigger] has_string(out@, k) <==> array_has_str(post, k) by {
                        if has_string(out@, k) {
                            let a = choose|a: int| 0 <= a < out@.len() && #[trigger] out@[a]@ == k;
                            if a < old_out.len() {
                                assert(old_out[a]@ == k);
                                assert(has_string(old_out, k));
                                let j = choose|j: int| 0 <= j < pre.len() && #[trigger] str_item_is(pre[j], k);
                                assert(post[j] == pre[j]);
                            } else {
                                assert(str_item_is(post[i as int], k));
                            }
                        }
                        if array_has_str(post, k) {
                            let j = choose|j: int| 0 <= j < post.len() && #[trigger] str_item_is(post[j], k);
                            if j < i {
                                assert(pre[j] == post[j]);
                                assert(array_has_str(pre, k));
                                assert(has_string(old_out, k));
                                let a = choose|a: int| 0 <= a < old_out.len() && #[trigger] old_out[a]@ == k;
                                assert(out@[a]@ == k);
                            } else {
                                assert(out@[old_out.len() as int]@ == k);
                            }
                        }
                    }
                }
            },
            _ => {
                proof {
                    assert forall|k: Seq<char>| #[trigger] has_string(out@, k) <==> array_has_str(post, k) by {
                        if array_has_str(post, k) {
                            let j = choose|j: int| 0 <= j < post.len() && #[trigger] str_item_is(post[j], k);
                            assert(j < i);
                            assert(pre[j] == post[j]);
                        }
                        if array_has_str(pre, k) {
                            let j = choose|j: int| 0 <= j < pre.len() && #[trigger] str_item_is(pre[j], k);
                            assert(pre[j] == post[j]);
                        }
                    }
                }
            },
        }
        i = i + 1;
    }
    assert(items@.subrange(0, i as int) =~= items@);
    out
}

/// Merges a payload into a stored JSON object: payload members overwrite stored
/// ones, names listed in `__remove` are dropped, and a payload that is not an
/// object (or a stored value that is not one) replaces the whole state with the
/// payload when it is an object and with `{}` otherwise.
pub fn merge_objects(target: JsonValue, source: JsonValue) -> (r: JsonValue)
    requires
        json_wf(source),
    ensures
        is_object(target) && is_object(source) ==> is_object(r) && forall|k: Seq<char>|
            #[trigger] get(r, k) == merged_member(target, source, k),
        !(is_object(target) && is_object(source)) ==> (if is_object(source) { r == source } else { is_empty_object(r) }),
        json_wf(target) ==> json_wf(r),
{
    if !json_is_object(&target) || !json_is_object(&source) {
        return sanitize_object(source);
    }
    let removals: Vec<String> = match json_as_array(json_get(&source, "__remove")) {
        Some(items) => string_items(items),
        None => Vec::new(),
    };
    let ghost src0 = source;
    let ghost tgt0 = target;
    assert(forall|k: Seq<char>| #[trigger] has_string(removals@, k) <==> listed_for_removal(src0, k));
    let mut t = match target {
        JsonValue::Object(e) => e,
        _ => Vec::new(),
    };
    let mut rest = match source {
        JsonValue::Object(e) => e,
        _ => Vec::new(),
    };
    let ghost src = rest@;
    let ghost t0 = t@;
    let n = rest.len();
    let mut i: usize = 0;
    while i < n
        invariant
            n == src.len(),
            i <= n,
            rest@ == src.skip(i as int),
            keys_unique(src),
            keys_unique(t0) ==> keys_unique(t@),
            forall|k: Seq<char>| #[trigger] lookup(t@, k) == match lookup(src.subrange(0, i as int), k) {
                Some(v) => if k != "__remove"@ { Some(v) } else { lookup(t0, k) },
                None => lookup(t0, k),
            },
        decreases n - i,
    {
        let e = rest.remove(0);
        assert(e == src[i as int]);
        let ghost prefix = src.subrange(0, i as int);
        assert(src.subrange(0, i + 1) =~= prefix.push(e));
        proof {
            assert forall|j: int| 0 <= j < prefix.len() implies prefix[j].0@ != e.0@ by {
                assert(src[j].0@ != src[i as int].0@);
            }
            lemma_lookup_none(prefix, e.0@);
        }
        if str_eq(e.0.as_str(), "__remove") {
            proof {
                assert forall|k: Seq<char>| #[trigger] lookup(t@, k) == match lookup(src.subrange(0, i + 1), k) {
                    Some(v) => if k != "__remove"@ { Some(v) } else { lookup(t0, k) },
                    None => lookup(t0, k),
                } by {
                    lemma_lookup_push(prefix, e, k);
                }
            }
        } else {
            let ghost old_t = t@;
            let (ek, ev) = e;
            t = members_insert(t, ek, ev);
            proof {
                assert forall|k: Seq<char>| #[trigger] lookup(t@, k) == match lookup(src.subrange(0, i + 1), k) {
                    Some(v) => if k != "__remove"@ { Some(v) } else { lookup(t0, k) },
                    None => lookup(t0, k),
                } by {
                    lemma_lookup_push(prefix, e, k);
                    assert(lookup(old_t, k) == match lookup(prefix, k) {
                        Some(v) => if k != "__remove"@ { Some(v) } else { lookup(t0, k) },
                        None => lookup(t0, k),
                    });
                }
            }
        }
        i = i + 1;
    }
    assert(src.subrange(0, n as int) =~= src);
    let ghost after_insert = t@;
    let mut j: usize = 0;
    while j < removals.len()
        invariant
            j <= removals.len(),
            keys_unique(t0) ==> keys_unique(t@),
            forall|k: Seq<char>| #[trigger] lookup(t@, k) ==
                if has_string(removals@.subrange(0, j as int), k) { None } else { lookup(after_insert, k) },
        decreases removals.len() - j,
    {
        let ghost old_t = t@;
        t = members_without(t, removals[j].as_str());
        proof {
            let pre = removals@.subrange(0, j as int);
            let post = removals@.subrange(0, j + 1);
            assert forall|k: Seq<char>| #[trigger] lookup(t@, k) ==
                if has_string(post, k) { None } else { lookup(after_insert, k) } by {
                if k == removals@[j as int]@ {
                    assert(post[j as int]@ == k);
                } else {
                    if has_string(post, k) {
                        let a = choose|a: int| 0 <= a < post.len() && #[trigger] post[a]@ == k;
                        assert(pre[a] == post[a]);
                    }
                    if has_string(pre, k) {
                        let a = choose|a: int| 0 <= a < pre.len() && #[trigger] pre[a]@ == k;
                        assert(pre[a] == post[a]);
                    }
                }
            }
        }
        j = j + 1;
    }
    assert(removals@.subrange(0, j as int) =~= removals@);
    let r = JsonValue::Object(t);
    proof {
        assert forall|k: Seq<char>| #[trigger] get(r, k) == merged_member(tgt0, src0, k) by {
        }
    }
    r
}

/// Sets every member of `src` in `entries`, each replacing any member of
/// the same name.
pub fn members_insert_all(entries: Vec<(String, JsonValue)>, src: Vec<(String, JsonValue)>) -> (out: Vec<(String, JsonValue)>)
    requires
        keys_unique(src@),
    ensures
        forall|k: Seq<char>| #[trigger] lookup(out@, k) == match lookup(src@, k) {
            Some(v) => Some(v),
            None => lookup(entries@, k),
        },
        keys_unique(entries@) ==> keys_unique(out@),
{
    let ghost s0 = src@;
    let ghost t0 = entries@;
    let mut t = entries;
    let mut rest = src;
    let n = rest.len();
    let mut i: usize = 0;
    while i < n
        invariant
            n == s0.len(),
            i <= n,
            rest@ == s0.skip(i as int),
            keys_unique(s0),
            keys_unique(t0) ==> keys_unique(t@),
            forall|k: Seq<char>| #[trigger] lookup(t@, k) == match lookup(s0.subrange(0, i as int), k) {
                Some(v) => Some(v),
                None => lookup(t0, k),
            },
        decreases n - i,
    {
        let e = rest.remove(0);
        assert(e == s0[i as int]);
        let ghost prefix = s0.subrange(0, i as int);
        assert(s0.subrange(0, i + 1) =~= prefix.push(e));
        proof {
            assert forall|j: int| 0 <= j < prefix.len() implies prefix[j].0@ != e.0@ by {
                assert(s0[j].0@ != s0[i as int].0@);
            }
            lemma_lookup_none(prefix, e.0@);
        }
        let ghost old_t = t@;
        let (ek, ev) = e;
        t = members_insert(t, ek, ev);
        proof {
            assert forall|k: Seq<char>| #[trigger] lookup(t@, k) == match lookup(s0.subrange(0, i + 1), k) {
                Some(v) => Some(v),
                None => lookup(t0, k),
            } by {
                lemma_lookup_push(prefix, e, k);
                assert(lookup(old_t, k) == match lookup(prefix, k) {
                    Some(v) => Some(v),
                    None => lookup(t0, k),
                });
            }
        }
        i = i + 1;
    }
    assert(s0.subrange(0, n as int) =~= s0);
    t
}

/// A stored value must be an object; anything else reads as `{}`.
pub fn sanitize_object(value: JsonValue) -> (r: JsonValue)
    ensures
        if is_object(value) { r == value } else { is_empty_object(r) },
        json_wf(value) ==> json_wf(r),
{
    if json_is_object(&value) {
        value
    } else {
        JsonValue::Object(Vec::new())
    }
}

/// Removing a member named otherwise leaves the lookup of `key` as it was.
pub proof fn lemma_lookup_remove(entries: Seq<(String, JsonValue)>, i: int, key: Seq<char>)
    requires
        0 <= i < entries.len(),
        entries[i].0@ != key,
    ensures
        lookup(entries.remove(i), key) == lookup(entries, key),
    decreases i,
{
    if i > 0 {
        assert(entries.remove(i)[0] == entries[0]);
        assert(entries.remove(i).drop_first() =~= entries.drop_first().remove(i - 1));
        lemma_lookup_remove(entries.drop_first(), i - 1, key);
    } else {
        assert(entries.remove(0) =~= entries.drop_first());
    }
}

/// The member value under `key` in the part of a value that is not moved out.
pub open spec fn or_null(v: Option<JsonValue>) -> JsonValue {
    match v {
        Some(x) => x,
        None => JsonValue::Null,
    }
}

/// Index of the first member named `key`.
pub fn member_index(entries: &Vec<(String, JsonValue)>, key: &str) -> (r: Option<usize>)
    ensures
        match r {
            Some(i) => i < entries@.len() && entries@[i as int].0@ == key@ && lookup(entries@, key@)
                == Some(entries@[i as int].1),
            None => lookup(entries@, key@) is None,
        },
{
    let mut i: usize = 0;
    while i < entries.len()
        invariant
            i <= entries.len(),
            forall|j: int| 0 <= j < i ==> entries@[j].0@ != key@,
        decreases entries.len() - i,
    {
        if str_eq(entries[i].0.as_str(), key) {
            proof {
                lemma_lookup_skip(entries@, i as int, key@);
                assert(entries@.skip(i as int)[0] == entries@[i as int]);
            }
            return Some(i);
        }
        i = i + 1;
    }
    proof {
        lemma_lookup_skip(entries@, i as int, key@);
    }
    None
}

/// Moves the member named `key` out of `v` (as `v[key]` reads it, `Null`
/// when there is none); the other members stay where they were.
pub fn take_member(v: JsonValue, key: &str) -> (r: (JsonValue, JsonValue))
    ensures
        r.0 == or_null(get(v, key@)),
        forall|k: Seq<char>| k != key@ ==> #[trigger] get(r.1, k) == get(v, k),
{
    match v {
        JsonValue::Object(mut entries) => {
            match member_index(&entries, key) {
                Some(i) => {
                    let ghost e0 = entries@;
                    proof {
                        assert forall|k: Seq<char>| k != key@ implies #[trigger] lookup(
                            e0.remove(i as int),
                            k,
                        ) == lookup(e0, k) by {
                            lemma_lookup_remove(e0, i as int, k);
                        }
                    }
                    let (_, value) = entries.remove(i);
                    (value, JsonValue::Object(entries))
                },
                None => (JsonValue::Null, JsonValue::Object(entries)),
            }
        },
        other => (JsonValue::Null, other),
    }
}

/// The members of `v` when it is an object; nothing otherwise.
pub open spec fn members_or_none(v: JsonValue, k: Seq<char>) -> Option<JsonValue> {
    if v is Object {
        get(v, k)
    } else {
        None
    }
}

/// Makes `v` an object (replacing anything else by `{}`) and sets member
/// `key` to `value` in it.
pub fn set_member(v: JsonValue, key: &str, value: JsonValue) -> (r: JsonValue)
    ensures
        r is Object,
        forall|k: Seq<char>| #[trigger] get(r, k) == if k == key@ {
            Some(value)
        } else {
            members_or_none(v, k)
        },
{
    let entries = match v {
        JsonValue::Object(e) => e,
        _ => Vec::new(),
    };
    let out = members_insert(entries, String::from_str(key), value);
    JsonValue::Object(out)
}

pub open spec fn same_number(a: JsonNumber, b: JsonNumber) -> bool {
    match (a, b) {
        (JsonNumber::PosInt(x), JsonNumber::PosInt(y)) => x == y,
        (JsonNumber::NegInt(x), JsonNumber::NegInt(y)) => x == y,
        (JsonNumber::Other(x), JsonNumber::Other(y)) => x@ == y@,
        _ => false,
    }
}

/// Two JSON values with the same content (member names and strings compared
/// by their text).
pub open spec fn same_json(a: JsonValue, b: JsonValue) -> bool
    decreases a,
{
    match a {
        JsonValue::Null => b is Null,
        JsonValue::Bool(x) => b matches JsonValue::Bool(y) && x == y,
        JsonValue::Number(x) => b matches JsonValue::Number(y) && same_number(x, y),
        JsonValue::Str(x) => b matches JsonValue::Str(y) && x@ == y@,
        JsonValue::Array(xs) => b matches JsonValue::Array(ys) && xs@.len() == ys@.len() && forall|i: int|
            0 <= i < xs@.len() ==> same_json(#[trigger] xs@[i], ys@[i]),
        JsonValue::Object(xs) => b matches JsonValue::Object(ys) && xs@.len() == ys@.len() && forall|i: int|
            0 <= i < xs@.len() ==> #[trigger] xs@[i].0@ == ys@[i].0@ && same_json(xs@[i].1, ys@[i].1),
    }
}

fn clone_number(n: &JsonNumber) -> (r: JsonNumber)
    ensures
        same_number(*n, r),
{
    match n {
        JsonNumber::PosInt(x) => JsonNumber::PosInt(*x),
        JsonNumber::NegInt(x) => JsonNumber::NegInt(*x),
        JsonNumber::Other(s) => JsonNumber::Other(crate::text::owned(s.as_str())),
    }
}

/// A copy of a JSON value.
pub fn clone_json(v: &JsonValue) -> (r: JsonValue)
    ensures
        same_json(*v, r),
    decreases v,
{
    match v {
        JsonValue::Null => JsonValue::Null,
        JsonValue::Bool(b) => JsonValue::Bool(*b),
        JsonValue::Number(n) => JsonValue::Number(clone_number(n)),
        JsonValue::Str(s) => JsonValue::Str(crate::text::owned(s.as_str())),
        JsonValue::Array(xs) => {
            let mut out: Vec<JsonValue> = Vec::new();
            let mut i: usize = 0;
            while i < xs.len()
                invariant
                    i <= xs@.len(),
                    *v == JsonValue::Array(*xs),
                    out@.len() == i,
                    forall|j: int| 0 <= j < i ==> same_json(#[trigger] xs@[j], out@[j]),
                decreases xs.len() - i,
            {
                proof {
                    vstd::std_specs::vec::axiom_vec_index_decreases(*xs, i as int);
                    assert(decreases_to!(*v => v->Array_0));
                }
                let c = clone_json(&xs[i]);
                out.push(c);
                i = i + 1;
            }
            JsonValue::Array(out)
        },
        JsonValue::Object(xs) => {
            let mut out: Vec<(String, JsonValue)> = Vec::new();
            let mut i: usize = 0;
            while i < xs.len()
                invariant
                    i <= xs@.len(),
                    *v == JsonValue::Object(*xs),
                    out@.len() == i,
                    forall|j: int| 0 <= j < i ==> #[trigger] xs@[j].0@ == out@[j].0@ && same_json(xs@[j].1, out@[j].1),
                decreases xs.len() - i,
            {
                proof {
                    vstd::std_specs::vec::axiom_vec_index_decreases(*xs, i as int);
                    assert(decreases_to!(*v => v->Object_0));
                    assert(decreases_to!(xs[i as int] => xs[i as int].1));
                }
                let c = clone_json(&xs[i].1);
                out.push((crate::text::owned(xs[i].0.as_str()), c));
                i = i + 1;
            }
            JsonValue::Object(out)
        },
    }
}

} // verus!
