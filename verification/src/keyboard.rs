use vstd::prelude::*;
use crate::chars::{
    chars_eq, is_trimmed, is_ws, join_with, lemma_split_join, lemma_split_pieces_free, lemma_trim_shape,
    lemma_trimmed_fixed, split, split_chars, trim, trim_chars,
};
use crate::text::{chars_of, push_char, string_from_chars};

verus! {

/// A key combination in canonical form, with a readable label.
#[derive(Debug, Clone)]
pub struct KeyCombo {
    /// Modifiers in the order ctrl, alt, shift, cmd, then the key, joined by `+`.
    pub combo: String,
    /// The label of each part joined by ` + `, e.g. "Ctrl + Alt + F12".
    pub label: String,
}

/// `str::to_uppercase` of a text.
pub uninterp spec fn upper_case(s: Seq<char>) -> Seq<char>;

/// Upper-cases a text (`str::to_uppercase`).
#[verifier::external_body]
fn str_to_uppercase(s: &str) -> (r: String)
    ensures
        r@ == upper_case(s@),
{
    s.to_uppercase()
}

pub open spec fn is_modifier(p: Seq<char>) -> bool {
    p == "ctrl"@ || p == "alt"@ || p == "shift"@ || p == "cmd"@
}

/// The labels of the named keys.
pub open spec fn fixed_label(name: Seq<char>) -> Option<Seq<char>> {
    if name == "ctrl"@ { Some("Ctrl"@) }
    else if name == "alt"@ { Some("Alt"@) }
    else if name == "shift"@ { Some("Shift"@) }
    else if name == "cmd"@ { Some("Cmd"@) }
    else if name == "scroll_lock"@ { Some("Scroll Lock"@) }
    else if name == "caps_lock"@ { Some("Caps Lock"@) }
    else if name == "num_lock"@ { Some("Num Lock"@) }
    else if name == "page_up"@ { Some("Page Up"@) }
    else if name == "page_down"@ { Some("Page Down"@) }
    else if name == "arrow_up"@ { Some("Arrow Up"@) }
    else if name == "arrow_down"@ { Some("Arrow Down"@) }
    else if name == "arrow_left"@ { Some("Arrow Left"@) }
    else if name == "arrow_right"@ { Some("Arrow Right"@) }
    else { None }
}

/// An ASCII lower-case letter in upper case; any other character as it is.
pub open spec fn ascii_upper(c: char) -> char {
    if 'a' <= c && c <= 'z' {
        ((c as u32) - 32) as char
    } else {
        c
    }
}

/// A key name written out as words: each underscore becomes a space and
/// each word starts with a capital letter.
pub open spec fn words_title(name: Seq<char>) -> Seq<char> {
    Seq::new(
        name.len(),
        |i: int|
            if name[i] == '_' {
                ' '
            } else if i == 0 || name[i - 1] == '_' {
                ascii_upper(name[i])
            } else {
                name[i]
            },
    )
}

/// A name made of lower-case ASCII letters and underscores.
pub open spec fn is_snake_name(name: Seq<char>) -> bool {
    forall|i: int| 0 <= i < name.len() ==> ('a' <= #[trigger] name[i] && name[i] <= 'z') || name[i] == '_'
}

proof fn lemma_ascii_upper_letter(c: char)
    ensures
        'a' <= c <= 'z' ==> 'A' <= ascii_upper(c) <= 'Z' && ascii_upper(c) as u32 == c as u32 - 32,
{
    if 'a' <= c <= 'z' {
        assert((c as u32 - 32) as char as u32 == c as u32 - 32);
    }
}

/// Writing names of lower-case letters and underscores out as words loses
/// nothing: two such names with the same words are the same name.
pub proof fn lemma_words_title_injective(a: Seq<char>, b: Seq<char>)
    requires
        is_snake_name(a),
        is_snake_name(b),
        words_title(a) == words_title(b),
    ensures
        a == b,
{
    assert(a.len() == words_title(a).len());
    assert(b.len() == words_title(b).len());
    assert forall|i: int| 0 <= i < a.len() implies a[i] == b[i] by {
        let ta = words_title(a);
        let tb = words_title(b);
        assert(ta[i] == tb[i]);
        let sa = i == 0 || a[i - 1] == '_';
        let sb = i == 0 || b[i - 1] == '_';
        if i > 0 {
            assert(ta[i - 1] == tb[i - 1]);
            lemma_ascii_upper_letter(a[i - 1]);
            lemma_ascii_upper_letter(b[i - 1]);
            assert(('a' <= a[i - 1] && a[i - 1] <= 'z') || a[i - 1] == '_');
            assert(('a' <= b[i - 1] && b[i - 1] <= 'z') || b[i - 1] == '_');
            assert((a[i - 1] == '_') == (ta[i - 1] == ' '));
            assert((b[i - 1] == '_') == (tb[i - 1] == ' '));
        }
        assert(sa == sb);
        lemma_ascii_upper_letter(a[i]);
        lemma_ascii_upper_letter(b[i]);
        assert(('a' <= a[i] && a[i] <= 'z') || a[i] == '_');
        assert(('a' <= b[i] && b[i] <= 'z') || b[i] == '_');
        assert((a[i] == '_') == (ta[i] == ' '));
        assert((b[i] == '_') == (tb[i] == ' '));
        if a[i] != '_' {
            if sa {
                assert(ascii_upper(a[i]) == ascii_upper(b[i]));
                assert(a[i] as u32 == b[i] as u32);
            }
        }
    }
    assert(a =~= b);
}

/// The named keys are labelled by their names written out as words
/// (`arrow_up` is "Arrow Up", `scroll_lock` is "Scroll Lock").
pub proof fn law_named_keys_are_labelled_by_their_names(name: Seq<char>)
    ensures
        fixed_label(name) matches Some(l) ==> l == words_title(name),
        fixed_label(name) is Some ==> key_label_of(name) == words_title(name),
        fixed_label(name) is Some ==> is_snake_name(name),
{
    reveal_strlit("ctrl");
    reveal_strlit("Ctrl");
    reveal_strlit("alt");
    reveal_strlit("Alt");
    reveal_strlit("shift");
    reveal_strlit("Shift");
    reveal_strlit("cmd");
    reveal_strlit("Cmd");
    reveal_strlit("scroll_lock");
    reveal_strlit("Scroll Lock");
    reveal_strlit("caps_lock");
    reveal_strlit("Caps Lock");
    reveal_strlit("num_lock");
    reveal_strlit("Num Lock");
    reveal_strlit("page_up");
    reveal_strlit("Page Up");
    reveal_strlit("page_down");
    reveal_strlit("Page Down");
    reveal_strlit("arrow_up");
    reveal_strlit("Arrow Up");
    reveal_strlit("arrow_down");
    reveal_strlit("Arrow Down");
    reveal_strlit("arrow_left");
    reveal_strlit("Arrow Left");
    reveal_strlit("arrow_right");
    reveal_strlit("Arrow Right");
    assert(words_title("ctrl"@) =~= "Ctrl"@);
    assert(words_title("alt"@) =~= "Alt"@);
    assert(words_title("shift"@) =~= "Shift"@);
    assert(words_title("cmd"@) =~= "Cmd"@);
    assert(words_title("scroll_lock"@) =~= "Scroll Lock"@);
    assert(words_title("caps_lock"@) =~= "Caps Lock"@);
    assert(words_title("num_lock"@) =~= "Num Lock"@);
    assert(words_title("page_up"@) =~= "Page Up"@);
    assert(words_title("page_down"@) =~= "Page Down"@);
    assert(words_title("arrow_up"@) =~= "Arrow Up"@);
    assert(words_title("arrow_down"@) =~= "Arrow Down"@);
    assert(words_title("arrow_left"@) =~= "Arrow Left"@);
    assert(words_title("arrow_right"@) =~= "Arrow Right"@);
    assert(is_snake_name("ctrl"@));
    assert(is_snake_name("alt"@));
    assert(is_snake_name("shift"@));
    assert(is_snake_name("cmd"@));
    assert(is_snake_name("scroll_lock"@));
    assert(is_snake_name("caps_lock"@));
    assert(is_snake_name("num_lock"@));
    assert(is_snake_name("page_up"@));
    assert(is_snake_name("page_down"@));
    assert(is_snake_name("arrow_up"@));
    assert(is_snake_name("arrow_down"@));
    assert(is_snake_name("arrow_left"@));
    assert(is_snake_name("arrow_right"@));
}

/// Distinct named keys get distinct labels.
pub proof fn law_named_key_labels_are_distinct(a: Seq<char>, b: Seq<char>)
    ensures
        fixed_label(a) is Some && fixed_label(a) == fixed_label(b) ==> a == b,
{
    law_named_keys_are_labelled_by_their_names(a);
    law_named_keys_are_labelled_by_their_names(b);
    if fixed_label(a) is Some && fixed_label(a) == fixed_label(b) {
        lemma_words_title_injective(a, b);
    }
}

pub open spec fn is_digit(c: char) -> bool {
    '0' <= c && c <= '9'
}

/// The number that a run of decimal digits spells.
pub open spec fn digits_value(d: Seq<char>) -> nat
    decreases d.len(),
{
    if d.len() == 0 {
        0
    } else {
        10 * digits_value(d.drop_last()) + ((d.last() as u32 - '0' as u32) as nat)
    }
}

/// `s.parse::<u8>().is_ok()`: an optional `+`, then at least one decimal digit,
/// spelling a number of at most 255.
pub open spec fn parses_as_u8(s: Seq<char>) -> bool {
    valid_u8_digits(unsigned_digits(s))
}

/// The digits of an unsigned number: the text after an optional leading `+`.
pub open spec fn unsigned_digits(s: Seq<char>) -> Seq<char> {
    if s.len() > 0 && s[0] == '+' { s.drop_first() } else { s }
}

pub open spec fn valid_u8_digits(d: Seq<char>) -> bool {
    &&& d.len() > 0
    &&& forall|i: int| 0 <= i < d.len() ==> is_digit(#[trigger] d[i])
    &&& digits_value(d) <= 255
}

/// The label of one key name: the named keys have fixed labels, `f` followed by
/// a `u8` is upper-cased whole, anything else gets its first character upper-cased.
pub open spec fn key_label_of(name: Seq<char>) -> Seq<char> {
    match fixed_label(name) {
        Some(l) => l,
        None => if name.len() > 0 && name[0] == 'f' && parses_as_u8(name.drop_first()) {
            upper_case(name)
        } else if name.len() == 0 {
            Seq::empty()
        } else {
            upper_case(seq![name[0]]) + name.drop_first()
        },
    }
}

proof fn lemma_digits_value_prefix(d: Seq<char>, i: int)
    requires
        0 <= i <= d.len(),
        forall|j: int| 0 <= j < d.len() ==> is_digit(#[trigger] d[j]),
    ensures
        digits_value(d.take(i)) <= digits_value(d),
    decreases d.len() - i,
{
    if i < d.len() {
        assert(d.drop_last().take(i) =~= d.take(i));
        lemma_digits_value_prefix(d.drop_last(), i);
    } else {
        assert(d.take(i) =~= d);
    }
}

fn parses_u8(s: &[char]) -> (r: bool)
    ensures
        r == parses_as_u8(s@),
{
    let start: usize = if s.len() > 0 && s[0] == '+' { 1 } else { 0 };
    let ghost d = unsigned_digits(s@);
    assert(d =~= s@.skip(start as int));
    if start >= s.len() {
        return false;
    }
    let mut value: u32 = 0;
    let mut i: usize = start;
    while i < s.len()
        invariant
            start <= i <= s.len(),
            d == s@.skip(start as int),
            d == unsigned_digits(s@),
            value as nat == digits_value(d.take(i - start)),
            value <= 255,
            forall|j: int| 0 <= j < i - start ==> is_digit(#[trigger] d[j]),
        decreases s.len() - i,
    {
        let c = s[i];
        assert(d[i - start] == c);
        if !('0' <= c && c <= '9') {
            assert(!is_digit(d[i - start]));
            return false;
        }
        assert(d.take(i - start + 1).drop_last() =~= d.take(i - start));
        assert(d.take(i - start + 1).last() == c);
        value = value * 10 + (c as u32 - '0' as u32);
        assert(value as nat == digits_value(d.take(i - start + 1)));
        i = i + 1;
        if value > 255 {
            proof {
                if forall|j: int| 0 <= j < d.len() ==> is_digit(#[trigger] d[j]) {
                    lemma_digits_value_prefix(d, i - start);
                }
                assert(!parses_as_u8(s@));
            }
            return false;
        }
    }
    assert(d.take(i - start) =~= d);
    true
}

/// A human-readable label for one key name.
pub fn key_label(name: &str) -> (r: String)
    ensures
        r@ == key_label_of(name@),
{
    let cs = chars_of(name);
    let label: Option<&'static str> = fixed_label_of(&cs);
    match label {
        Some(l) => String::from_str(l),
        None => {
            if cs.len() > 0 && cs[0] == 'f' {
                let mut rest: Vec<char> = Vec::new();
                let mut i: usize = 1;
                while i < cs.len()
                    invariant
                        1 <= i <= cs.len(),
                        rest@ == cs@.subrange(1, i as int),
                    decreases cs.len() - i,
                {
                    rest.push(cs[i]);
                    i = i + 1;
                    assert(rest@ =~= cs@.subrange(1, i as int));
                }
                assert(rest@ =~= cs@.drop_first());
                if parses_u8(rest.as_slice()) {
                    return str_to_uppercase(name);
                }
            }
            if cs.len() == 0 {
                return String::new();
            }
            let mut first = String::new();
            push_char(&mut first, cs[0]);
            assert(first@ =~= seq![cs@[0]]);
            let mut out = str_to_uppercase(first.as_str());
            let mut i: usize = 1;
            while i < cs.len()
                invariant
                    1 <= i <= cs.len(),
                    out@ == upper_case(seq![cs@[0]]) + cs@.subrange(1, i as int),
                decreases cs.len() - i,
            {
                push_char(&mut out, cs[i]);
                i = i + 1;
                assert(out@ =~= upper_case(seq![cs@[0]]) + cs@.subrange(1, i as int));
            }
            assert(cs@.subrange(1, i as int) =~= cs@.drop_first());
            out
        },
    }
}

fn lit_eq(cs: &Vec<char>, lit: &str) -> (r: bool)
    ensures
        r == (cs@ == lit@),
{
    let l = chars_of(lit);
    chars_eq(cs.as_slice(), l.as_slice())
}

fn fixed_label_of(cs: &Vec<char>) -> (r: Option<&'static str>)
    ensures
        match r {
            Some(l) => fixed_label(cs@) == Some(l@),
            None => fixed_label(cs@) is None,
        },
{
    if lit_eq(cs, "ctrl") { Some("Ctrl") }
    else if lit_eq(cs, "alt") { Some("Alt") }
    else if lit_eq(cs, "shift") { Some("Shift") }
    else if lit_eq(cs, "cmd") { Some("Cmd") }
    else if lit_eq(cs, "scroll_lock") { Some("Scroll Lock") }
    else if lit_eq(cs, "caps_lock") { Some("Caps Lock") }
    else if lit_eq(cs, "num_lock") { Some("Num Lock") }
    else if lit_eq(cs, "page_up") { Some("Page Up") }
    else if lit_eq(cs, "page_down") { Some("Page Down") }
    else if lit_eq(cs, "arrow_up") { Some("Arrow Up") }
    else if lit_eq(cs, "arrow_down") { Some("Arrow Down") }
    else if lit_eq(cs, "arrow_left") { Some("Arrow Left") }
    else if lit_eq(cs, "arrow_right") { Some("Arrow Right") }
    else { None }
}

/// The trimmed `+`-separated parts of a combo.
pub open spec fn combo_parts(combo: Seq<char>) -> Seq<Seq<char>> {
    split(combo, '+').map_values(|p: Seq<char>| trim(p))
}

/// The parts equal to `m`, in order.
pub open spec fn only(parts: Seq<Seq<char>>, m: Seq<char>) -> Seq<Seq<char>>
    decreases parts.len(),
{
    if parts.len() == 0 {
        Seq::empty()
    } else if parts.last() == m {
        only(parts.drop_last(), m).push(m)
    } else {
        only(parts.drop_last(), m)
    }
}

/// The modifier parts, ordered ctrl, alt, shift, cmd (repeats kept).
pub open spec fn ordered_modifiers(parts: Seq<Seq<char>>) -> Seq<Seq<char>> {
    only(parts, "ctrl"@) + only(parts, "alt"@) + only(parts, "shift"@) + only(parts, "cmd"@)
}

/// The first part that is not a modifier, or the empty text.
pub open spec fn first_key(parts: Seq<Seq<char>>) -> Seq<char>
    decreases parts.len(),
{
    if parts.len() == 0 {
        Seq::empty()
    } else if !is_modifier(parts[0]) {
        parts[0]
    } else {
        first_key(parts.drop_first())
    }
}

/// The canonical parts of a combo: ordered modifiers, then the key when there is one.
pub open spec fn combo_tokens(combo: Seq<char>) -> Seq<Seq<char>> {
    let parts = combo_parts(combo);
    let k = first_key(parts);
    ordered_modifiers(parts) + if k.len() > 0 { seq![k] } else { Seq::empty() }
}

proof fn lemma_first_key_skip(parts: Seq<Seq<char>>, i: int)
    requires
        0 <= i <= parts.len(),
        forall|j: int| 0 <= j < i ==> is_modifier(#[trigger] parts[j]),
    ensures
        first_key(parts) == first_key(parts.skip(i)),
    decreases i,
{
    if i > 0 {
        assert(parts.drop_first().skip(i - 1) =~= parts.skip(i));
        lemma_first_key_skip(parts.drop_first(), i - 1);
    } else {
        assert(parts.skip(0) =~= parts);
    }
}

fn collect_modifier(parts: &Vec<Vec<char>>, m: &str, tokens: &mut Vec<Vec<char>>, Ghost(pv): Ghost<Seq<Seq<char>>>)
    requires
        pv.len() == parts@.len(),
        forall|i: int| 0 <= i < pv.len() ==> #[trigger] parts@[i]@ == pv[i],
    ensures
        final(tokens)@.len() == old(tokens)@.len() + only(pv, m@).len(),
        forall|i: int| 0 <= i < old(tokens)@.len() ==> #[trigger] final(tokens)@[i]@ == old(tokens)@[i]@,
        forall|i: int| old(tokens)@.len() <= i < final(tokens)@.len() ==> #[trigger] final(tokens)@[i]@ == only(pv, m@)[i - old(tokens)@.len()],
{
    let ghost base = old(tokens)@;
    let mc = chars_of(m);
    let mut i: usize = 0;
    while i < parts.len()
        invariant
            pv.len() == parts@.len(),
            forall|j: int| 0 <= j < pv.len() ==> #[trigger] parts@[j]@ == pv[j],
            mc@ == m@,
            i <= parts.len(),
            tokens@.len() == base.len() + only(pv.take(i as int), m@).len(),
            forall|j: int| 0 <= j < base.len() ==> #[trigger] tokens@[j]@ == base[j]@,
            forall|j: int| base.len() <= j < tokens@.len() ==> #[trigger] tokens@[j]@ == only(pv.take(i as int), m@)[j - base.len()],
        decreases parts.len() - i,
    {
        assert(pv.take(i + 1).drop_last() =~= pv.take(i as int));
        assert(pv.take(i + 1).last() == pv[i as int]);
        if chars_eq(parts[i].as_slice(), mc.as_slice()) {
            tokens.push(chars_of(m));
        }
        i = i + 1;
    }
    assert(pv.take(i as int) =~= pv);
}

/// Normalizes a `+`-separated key combination: modifiers first in the order
/// ctrl, alt, shift, cmd, then the first non-modifier key; each part is trimmed.
/// The label spells each part with `key_label`, joined by ` + `.
pub fn normalize_combo(combo: &str) -> (r: KeyCombo)
    ensures
        r.combo@ == join_with(combo_tokens(combo@), "+"@),
        r.label@ == join_with(combo_tokens(combo@).map_values(|t: Seq<char>| key_label_of(t)), " + "@),
{
    let cs = chars_of(combo);
    let raw = split_chars(cs.as_slice(), '+');
    let ghost pv = combo_parts(combo@);
    let mut parts: Vec<Vec<char>> = Vec::new();
    let mut i: usize = 0;
    while i < raw.len()
        invariant
            raw@.len() == split(cs@, '+').len(),
            forall|j: int| 0 <= j < raw@.len() ==> #[trigger] raw@[j]@ == split(cs@, '+')[j],
            cs@ == combo@,
            pv == combo_parts(combo@),
            i <= raw.len(),
            parts@.len() == i,
            forall|j: int| 0 <= j < i ==> #[trigger] parts@[j]@ == pv[j],
        decreases raw.len() - i,
    {
        parts.push(trim_chars(raw[i].as_slice()));
        i = i + 1;
    }
    let mut tokens: Vec<Vec<char>> = Vec::new();
    collect_modifier(&parts, "ctrl", &mut tokens, Ghost(pv));
    let ghost t1 = tokens@;
    collect_modifier(&parts, "alt", &mut tokens, Ghost(pv));
    let ghost t2 = tokens@;
    collect_modifier(&parts, "shift", &mut tokens, Ghost(pv));
    let ghost t3 = tokens@;
    collect_modifier(&parts, "cmd", &mut tokens, Ghost(pv));
    let ghost mods = ordered_modifiers(pv);
    assert(tokens@.len() == mods.len());
    assert forall|j: int| 0 <= j < mods.len() implies #[trigger] tokens@[j]@ == mods[j] by {
        let a = only(pv, "ctrl"@);
        let b = only(pv, "alt"@);
        let c = only(pv, "shift"@);
        if j < a.len() {
            assert(t1[j]@ == a[j]);
            assert(t2[j]@ == t1[j]@);
            assert(t3[j]@ == t2[j]@);
        } else if j < a.len() + b.len() {
            assert(t2[j]@ == b[j - a.len()]);
            assert(t3[j]@ == t2[j]@);
        } else if j < a.len() + b.len() + c.len() {
            assert(t3[j]@ == c[j - a.len() - b.len()]);
        } else {
            assert(tokens@[j]@ == only(pv, "cmd"@)[j - a.len() - b.len() - c.len()]);
        }
    }
    let mut k: usize = 0;
    while k < parts.len() && is_modifier_chars(&parts[k])
        invariant
            k <= parts@.len(),
            parts@.len() == pv.len(),
            forall|j: int| 0 <= j < pv.len() ==> #[trigger] parts@[j]@ == pv[j],
            forall|j: int| 0 <= j < k ==> is_modifier(#[trigger] pv[j]),
        decreases parts.len() - k,
    {
        k = k + 1;
    }
    proof {
        lemma_first_key_skip(pv, k as int);
    }
    let ghost key = first_key(pv);
    if k < parts.len() {
        assert(pv.skip(k as int)[0] == pv[k as int]);
        if parts[k].len() > 0 {
            let chosen = parts[k].clone();
            tokens.push(chosen);
        }
    }
    let ghost toks = combo_tokens(combo@);
    assert(tokens@.len() == toks.len());
    assert forall|j: int| 0 <= j < toks.len() implies #[trigger] tokens@[j]@ == toks[j] by {
        if j < mods.len() {
            assert(toks[j] == mods[j]);
        } else {
            assert(toks[j] == key);
        }
    }
    let ghost tv = tokens@.map_values(|p: Vec<char>| p@);
    assert(tv =~= toks);
    let combo_text = crate::chars::join_chars(&tokens, "+");
    let mut labels: Vec<Vec<char>> = Vec::new();
    let mut t: usize = 0;
    while t < tokens.len()
        invariant
            t <= tokens.len(),
            tokens@.len() == toks.len(),
            forall|j: int| 0 <= j < toks.len() ==> #[trigger] tokens@[j]@ == toks[j],
            labels@.len() == t,
            forall|j: int| 0 <= j < t ==> #[trigger] labels@[j]@ == key_label_of(toks[j]),
        decreases tokens.len() - t,
    {
        let name = string_from_chars(tokens[t].as_slice());
        let label = key_label(name.as_str());
        labels.push(chars_of(label.as_str()));
        t = t + 1;
    }
    let label_text = crate::chars::join_chars(&labels, " + ");
    assert(labels@.map_values(|p: Vec<char>| p@) =~= toks.map_values(|t: Seq<char>| key_label_of(t)));
    KeyCombo { combo: combo_text, label: label_text }
}

proof fn lemma_only_append(a: Seq<Seq<char>>, b: Seq<Seq<char>>, m: Seq<char>)
    ensures
        only(a + b, m) == only(a, m) + only(b, m),
    decreases b.len(),
{
    if b.len() == 0 {
        assert(a + b =~= a);
        assert(only(a, m) + only(b, m) =~= only(a, m));
    } else {
        lemma_only_append(a, b.drop_last(), m);
        assert((a + b).drop_last() =~= a + b.drop_last());
        assert((a + b).last() == b.last());
        if b.last() == m {
            assert((only(a, m) + only(b.drop_last(), m)).push(m) =~= only(a, m) + only(b.drop_last(), m).push(m));
        }
    }
}

proof fn lemma_only_of_only(p: Seq<Seq<char>>, m: Seq<char>, n: Seq<char>)
    ensures
        forall|i: int| 0 <= i < only(p, m).len() ==> #[trigger] only(p, m)[i] == m,
        only(only(p, m), n) == if m == n { only(p, m) } else { Seq::<Seq<char>>::empty() },
    decreases p.len(),
{
    if p.len() > 0 {
        lemma_only_of_only(p.drop_last(), m, n);
        if p.last() == m {
            assert(only(p, m).drop_last() =~= only(p.drop_last(), m));
        }
    }
}

proof fn lemma_only_absent(p: Seq<Seq<char>>, m: Seq<char>)
    requires
        forall|i: int| 0 <= i < p.len() ==> #[trigger] p[i] != m,
    ensures
        only(p, m) == Seq::<Seq<char>>::empty(),
    decreases p.len(),
{
    if p.len() > 0 {
        lemma_only_absent(p.drop_last(), m);
        assert(p[p.len() - 1] != m);
    }
}

proof fn lemma_first_key_found(parts: Seq<Seq<char>>)
    ensures
        first_key(parts).len() > 0 ==> !is_modifier(first_key(parts)) && exists|j: int|
            0 <= j < parts.len() && #[trigger] parts[j] == first_key(parts),
    decreases parts.len(),
{
    if parts.len() > 0 && is_modifier(parts[0]) {
        lemma_first_key_found(parts.drop_first());
        if first_key(parts).len() > 0 {
            let j = choose|j: int| 0 <= j < parts.drop_first().len() && #[trigger] parts.drop_first()[j] == first_key(
                parts.drop_first(),
            );
            assert(parts[j + 1] == first_key(parts));
        }
    } else if parts.len() > 0 {
        assert(parts[0] == first_key(parts));
    }
}

/// Normalizing a normalized combo changes nothing: the canonical parts of a
/// canonical combo are its own, so its text and label come out the same.
pub proof fn law_normalize_combo_is_idempotent(combo: Seq<char>)
    ensures
        combo_tokens(join_with(combo_tokens(combo), "+"@)) == combo_tokens(combo),
{
    reveal_strlit("+");
    reveal_strlit("ctrl");
    reveal_strlit("alt");
    reveal_strlit("shift");
    reveal_strlit("cmd");
    let ctrl = "ctrl"@;
    let alt = "alt"@;
    let shift = "shift"@;
    let cmd = "cmd"@;
    assert(ctrl != alt && ctrl != shift && ctrl != cmd && alt != shift && alt != cmd && shift != cmd) by {
        assert(ctrl.len() != alt.len());
        assert(ctrl.len() != shift.len());
        assert(ctrl.len() != cmd.len());
        assert(alt.len() != shift.len());
        assert(alt[0] != cmd[0]);
        assert(shift.len() != cmd.len());
    }
    let p = combo_parts(combo);
    let raw = split(combo, '+');
    lemma_split_pieces_free(combo, '+');
    assert forall|i: int| 0 <= i < p.len() implies is_trimmed(#[trigger] p[i]) && (forall|j: int|
        0 <= j < p[i].len() ==> p[i][j] != '+') by {
        assert(p[i] == trim(raw[i]));
        assert forall|j: int| 0 <= j < raw[i].len() implies raw[i][j] != '+' by {
            assert(raw[i][j] != '+');
        }
        lemma_trim_shape(raw[i], '+');
    }
    let k = first_key(p);
    lemma_first_key_found(p);
    let kk = if k.len() > 0 { seq![k] } else { Seq::<Seq<char>>::empty() };
    let a = only(p, ctrl);
    let b = only(p, alt);
    let c = only(p, shift);
    let d = only(p, cmd);
    lemma_only_of_only(p, ctrl, ctrl);
    lemma_only_of_only(p, alt, alt);
    lemma_only_of_only(p, shift, shift);
    lemma_only_of_only(p, cmd, cmd);
    let o = a + b + c + d;
    let t = o + kk;
    assert(t == combo_tokens(combo));
    // Every token is a modifier or the key: trimmed and free of `+`.
    assert forall|i: int| 0 <= i < t.len() implies is_trimmed(#[trigger] t[i]) && (forall|j: int|
        0 <= j < t[i].len() ==> t[i][j] != '+') && (i < o.len() ==> is_modifier(t[i])) by {
        if i < a.len() {
            assert(t[i] == a[i]);
        } else if i < a.len() + b.len() {
            assert(t[i] == b[i - a.len()]);
        } else if i < a.len() + b.len() + c.len() {
            assert(t[i] == c[i - a.len() - b.len()]);
        } else if i < o.len() {
            assert(t[i] == d[i - a.len() - b.len() - c.len()]);
        } else {
            assert(t[i] == k);
            let j = choose|j: int| 0 <= j < p.len() && #[trigger] p[j] == k;
            assert(is_trimmed(p[j]));
        }
    }
    let s = join_with(t, "+"@);
    assert("+"@ =~= seq!['+']);
    if t.len() == 0 {
        assert(s == Seq::<char>::empty());
        assert(split(s, '+') =~= seq![Seq::<char>::empty()]);
        assert(trim(Seq::<char>::empty()) == Seq::<char>::empty());
        let q = combo_parts(s);
        assert(q =~= seq![Seq::<char>::empty()]);
        assert(first_key(q) == Seq::<char>::empty());
        lemma_only_absent(q, ctrl);
        lemma_only_absent(q, alt);
        lemma_only_absent(q, shift);
        lemma_only_absent(q, cmd);
        assert(combo_tokens(s) =~= t);
    } else {
        assert forall|i: int, j: int| 0 <= i < t.len() && 0 <= j < t[i].len() implies #[trigger] t[i][j] != '+' by {
            assert(forall|jj: int| 0 <= jj < t[i].len() ==> t[i][jj] != '+');
        }
        lemma_split_join(t, '+');
        let q = combo_parts(s);
        assert forall|i: int| 0 <= i < t.len() implies #[trigger] q[i] == t[i] by {
            lemma_trimmed_fixed(t[i]);
        }
        assert(q =~= t);
        // The modifiers of the canonical parts are the ones already gathered.
        lemma_only_append(o, kk, ctrl);
        lemma_only_append(o, kk, alt);
        lemma_only_append(o, kk, shift);
        lemma_only_append(o, kk, cmd);
        lemma_only_append(a + b + c, d, ctrl);
        lemma_only_append(a + b, c, ctrl);
        lemma_only_append(a, b, ctrl);
        lemma_only_append(a + b + c, d, alt);
        lemma_only_append(a + b, c, alt);
        lemma_only_append(a, b, alt);
        lemma_only_append(a + b + c, d, shift);
        lemma_only_append(a + b, c, shift);
        lemma_only_append(a, b, shift);
        lemma_only_append(a + b + c, d, cmd);
        lemma_only_append(a + b, c, cmd);
        lemma_only_append(a, b, cmd);
        lemma_only_of_only(p, ctrl, alt);
        lemma_only_of_only(p, ctrl, shift);
        lemma_only_of_only(p, ctrl, cmd);
        lemma_only_of_only(p, alt, ctrl);
        lemma_only_of_only(p, alt, shift);
        lemma_only_of_only(p, alt, cmd);
        lemma_only_of_only(p, shift, ctrl);
        lemma_only_of_only(p, shift, alt);
        lemma_only_of_only(p, shift, cmd);
        lemma_only_of_only(p, cmd, ctrl);
        lemma_only_of_only(p, cmd, alt);
        lemma_only_of_only(p, cmd, shift);
        if k.len() > 0 {
            assert(kk[0] == k);
            lemma_only_absent(kk, ctrl);
            lemma_only_absent(kk, alt);
            lemma_only_absent(kk, shift);
            lemma_only_absent(kk, cmd);
        }
        assert(only(kk, ctrl) =~= Seq::<Seq<char>>::empty());
        assert(only(kk, alt) =~= Seq::<Seq<char>>::empty());
        assert(only(kk, shift) =~= Seq::<Seq<char>>::empty());
        assert(only(kk, cmd) =~= Seq::<Seq<char>>::empty());
        assert(only(q, ctrl) =~= a);
        assert(only(q, alt) =~= b);
        assert(only(q, shift) =~= c);
        assert(only(q, cmd) =~= d);
        // The key of the canonical parts is the key itself.
        lemma_first_key_skip(q, o.len() as int);
        assert(q.skip(o.len() as int) =~= kk);
        if k.len() > 0 {
            assert(first_key(kk) == k);
        } else {
            assert(first_key(kk) == Seq::<char>::empty());
        }
        assert(combo_tokens(s) =~= t);
    }
}

fn is_modifier_chars(p: &Vec<char>) -> (r: bool)
    ensures
        r == is_modifier(p@),
{
    lit_eq(p, "ctrl") || lit_eq(p, "alt") || lit_eq(p, "shift") || lit_eq(p, "cmd")
}

/// Types a string of text at the current cursor position (no effect on this host).
pub fn type_text(_text: &str) {
}

/// Sends a single key press and release (no effect on this host).
pub fn send_key(_key: &str) {
}

/// Sends a key combination such as "ctrl+c" (no effect on this host).
pub fn send_combo(_combo: &str) {
}

} // verus!
