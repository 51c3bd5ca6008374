use vstd::prelude::*;
use crate::state_store::FileRead;
use crate::json::{array_has_str, as_array, get, has_string, json_as_array, json_get, JsonValue};
use crate::text::{contains_str, owned, strings_view};

verus! {

/// Host-wide settings: the extensions the user switched off.
#[derive(Debug, PartialEq, Eq, Default)]
pub struct CoreConfig {
    pub disabled_extensions: Vec<String>,
}

/// The names listed under `disabledExtensions` in a core settings document.
pub open spec fn disabled_in(doc: JsonValue, id: Seq<char>) -> bool {
    match as_array(get(doc, "disabledExtensions"@)) {
        Some(items) => array_has_str(items, id),
        None => false,
    }
}

proof fn lemma_has_str_push(xs: Seq<JsonValue>, x: JsonValue, k: Seq<char>)
    ensures
        array_has_str(xs.push(x), k) <==> (array_has_str(xs, k) || crate::json::str_item_is(x, k)),
{
    if array_has_str(xs, k) {
        let w = choose|w: int| 0 <= w < xs.len() && #[trigger] crate::json::str_item_is(xs[w], k);
        assert(xs.push(x)[w] == xs[w]);
    }
    if crate::json::str_item_is(x, k) {
        assert(xs.push(x)[xs.len() as int] == x);
    }
    if array_has_str(xs.push(x), k) {
        let w = choose|w: int| 0 <= w < xs.push(x).len() && #[trigger] crate::json::str_item_is(xs.push(x)[w], k);
        if w < xs.len() {
            assert(xs.push(x)[w] == xs[w]);
        }
    }
}

/// Adds `s` to a list of distinct texts unless it is there already.
pub fn push_unique(out: &mut Vec<String>, s: &str)
    requires
        forall|a: int, b: int| 0 <= a < b < old(out)@.len() ==> old(out)@[a]@ != old(out)@[b]@,
    ensures
        forall|k: Seq<char>| #[trigger] strings_view(final(out)@).contains(k) <==> (strings_view(
            old(out)@,
        ).contains(k) || k == s@),
        forall|a: int, b: int| 0 <= a < b < final(out)@.len() ==> final(out)@[a]@ != final(out)@[b]@,
        strings_view(final(out)@) == if strings_view(old(out)@).contains(s@) {
            strings_view(old(out)@)
        } else {
            strings_view(old(out)@).push(s@)
        },
{
    let ghost before = strings_view(out@);
    if !contains_str(out.as_slice(), s) {
        out.push(owned(s));
        proof {
            assert(strings_view(out@) =~= before.push(s@));
            assert forall|k: Seq<char>| #[trigger] strings_view(out@).contains(k) <==> (before.contains(
                k,
            ) || k == s@) by {
                if before.contains(k) {
                    let w = choose|w: int| 0 <= w < before.len() && before[w] == k;
                    assert(strings_view(out@)[w] == k);
                }
                if k == s@ {
                    assert(strings_view(out@)[before.len() as int] == k);
                }
                if strings_view(out@).contains(k) {
                    let w = choose|w: int| 0 <= w < strings_view(out@).len() && strings_view(out@)[w] == k;
                    if w < before.len() {
                        assert(before[w] == k);
                    }
                }
            }
            assert forall|a: int, b: int| 0 <= a < b < out@.len() implies out@[a]@ != out@[b]@ by {
                if b == out@.len() - 1 {
                    assert(before[a] == out@[a]@);
                }
            }
        }
    }
}

impl CoreConfig {
    pub open spec fn disables(&self, id: Seq<char>) -> bool {
        strings_view(self.disabled_extensions@).contains(id)
    }

    pub fn is_extension_enabled(&self, extension_id: &str) -> (r: bool)
        ensures
            r == !self.disables(extension_id@),
    {
        !contains_str(self.disabled_extensions.as_slice(), extension_id)
    }

    /// The settings a core document holds; a missing or unreadable document
    /// disables nothing.
    pub fn from_document(doc: Option<&JsonValue>) -> (c: CoreConfig)
        ensures
            forall|id: Seq<char>| #[trigger] c.disables(id) == match doc {
                Some(d) => disabled_in(*d, id),
                None => false,
            },
            forall|i: int, j: int|
                0 <= i < j < c.disabled_extensions@.len() ==> c.disabled_extensions@[i]@
                    != c.disabled_extensions@[j]@,
    {
        let mut out: Vec<String> = Vec::new();
        let items = match doc {
            Some(d) => json_as_array(json_get(d, "disabledExtensions")),
            None => None,
        };
        match items {
            Some(items) => {
                let mut i: usize = 0;
                while i < items.len()
                    invariant
                        i <= items@.len(),
                        doc matches Some(d) && as_array(get(*d, "disabledExtensions"@)) == Some(items@),
                        forall|k: Seq<char>| #[trigger] strings_view(out@).contains(k) <==> array_has_str(
                            items@.take(i as int),
                            k,
                        ),
                        forall|a: int, b: int|
                            0 <= a < b < out@.len() ==> out@[a]@ != out@[b]@,
                    decreases items.len() - i,
                {
                    proof {
                        assert(items@.take(i + 1) =~= items@.take(i as int).push(items@[i as int]));
                        assert forall|k: Seq<char>| #[trigger] array_has_str(items@.take(i + 1), k) <==> (
                        array_has_str(items@.take(i as int), k) || crate::json::str_item_is(items@[i as int], k)) by {
                            lemma_has_str_push(items@.take(i as int), items@[i as int], k);
                        }
                    }
                    if let JsonValue::Str(s) = &items[i] {
                        push_unique(&mut out, s.as_str());
                    }
                    i = i + 1;
                }
                assert(items@.take(i as int) =~= items@);
            },
            None => {},
        }
        let c = CoreConfig { disabled_extensions: out };
        proof {
            assert forall|id: Seq<char>| #[trigger] c.disables(id) == match doc {
                Some(d) => disabled_in(*d, id),
                None => false,
            } by {
                if c.disables(id) {
                    let w = choose|w: int| 0 <= w < strings_view(c.disabled_extensions@).len() && strings_view(c.disabled_extensions@)[w] == id;
                    assert(strings_view(c.disabled_extensions@)[w] == c.disabled_extensions@[w]@);
                }
            }
        }
        c
    }
}

/// Where the core settings live under the data root:
/// `copper-core/config.json`.
pub fn core_data_path_in(data_root: &str) -> (p: String)
    ensures
        p@ == crate::state_store::join(crate::state_store::join(data_root@, "copper-core"@), "config.json"@),
{
    let dir = crate::state_store::join_path(data_root, "copper-core");
    crate::state_store::join_path(dir.as_str(), "config.json")
}

/// The older place of the core settings, read only when the current file is
/// missing: `copper-core/data.json`.
pub fn core_legacy_path_in(data_root: &str) -> (p: String)
    ensures
        p@ == crate::state_store::join(crate::state_store::join(data_root@, "copper-core"@), "data.json"@),
{
    let dir = crate::state_store::join_path(data_root, "copper-core");
    crate::state_store::join_path(dir.as_str(), "data.json")
}

/// Whether the core settings files disable `id`: the current file decides
/// when it exists (one that is not JSON disables nothing); only when it is
/// missing does the legacy file decide; with neither, nothing is disabled.
pub open spec fn files_disable(primary: FileRead, legacy: FileRead, id: Seq<char>) -> bool {
    match primary {
        FileRead::Parsed(d) => disabled_in(d, id),
        FileRead::Invalid(_) => false,
        FileRead::Missing => match legacy {
            FileRead::Parsed(d) => disabled_in(d, id),
            _ => false,
        },
    }
}

impl CoreConfig {
    /// The core settings from what the current file (`config.json`) and the
    /// legacy file (`data.json`) hold.
    pub fn from_files(primary: &FileRead, legacy: &FileRead) -> (c: CoreConfig)
        ensures
            forall|id: Seq<char>| #[trigger] c.disables(id) == files_disable(*primary, *legacy, id),
            forall|i: int, j: int|
                0 <= i < j < c.disabled_extensions@.len() ==> c.disabled_extensions@[i]@
                    != c.disabled_extensions@[j]@,
    {
        let doc = match primary {
            FileRead::Parsed(d) => Some(d),
            FileRead::Invalid(_) => None,
            FileRead::Missing => match legacy {
                FileRead::Parsed(d) => Some(d),
                _ => None,
            },
        };
        CoreConfig::from_document(doc)
    }
}

} // verus!
