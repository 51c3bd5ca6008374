use vstd::prelude::*;
use vstd::utf8::{decode_utf8, encode_utf8, valid_utf8};
use crate::chars::{
    ascii_lower, ascii_lower_chars, contains_chars, contains_seq, find_char, first_index, next_word,
    next_word_at, split, split_chars, trim, trim_chars,
};
use crate::text::{chars_of, str_eq, string_from_chars};

verus! {

/// The outcome of parsing a prefix of a byte stream: a result, a need for more
/// bytes, or a failure.
pub enum Step<T> {
    Done(T),
    More,
    Fail(Fault),
}

/// Why a request or a chunked body could not be read.
#[derive(PartialEq, Eq, Structural)]
pub enum Fault {
    EmptyRequest,
    MissingMethod,
    MissingPath,
    UnsupportedMethod,
    InvalidUtf8,
    ChunkSizeEof,
    InvalidChunkSize,
    InvalidChunkTerminator,
    ShortRead,
}

/// A request or body that could not be read, as the server reports it.
#[derive(Debug, Clone)]
pub enum HttpError {
    EmptyRequest,
    MissingMethod,
    MissingPath,
    UnsupportedMethod(String),
    InvalidUtf8,
    ChunkSizeEof,
    InvalidChunkSize,
    InvalidChunkTerminator,
    ShortRead,
}

impl HttpError {
    pub open spec fn fault(&self) -> Fault {
        match self {
            HttpError::EmptyRequest => Fault::EmptyRequest,
            HttpError::MissingMethod => Fault::MissingMethod,
            HttpError::MissingPath => Fault::MissingPath,
            HttpError::UnsupportedMethod(_) => Fault::UnsupportedMethod,
            HttpError::InvalidUtf8 => Fault::InvalidUtf8,
            HttpError::ChunkSizeEof => Fault::ChunkSizeEof,
            HttpError::InvalidChunkSize => Fault::InvalidChunkSize,
            HttpError::InvalidChunkTerminator => Fault::InvalidChunkTerminator,
            HttpError::ShortRead => Fault::ShortRead,
        }
    }
}

/// The text of a byte sequence that is valid UTF-8 (`std::str::from_utf8`).
#[verifier::external_body]
fn utf8_text(b: &[u8]) -> (r: Option<&str>)
    ensures
        r is Some <==> valid_utf8(b@),
        r matches Some(s) ==> s@ == decode_utf8(b@),
{
    std::str::from_utf8(b).ok()
}

/// Index of the first `\n`, if any.
pub open spec fn newline_at(d: Seq<u8>) -> Option<int>
    decreases d.len(),
{
    if d.len() == 0 {
        None
    } else if d[0] == 10u8 {
        Some(0)
    } else {
        match newline_at(d.drop_first()) {
            Some(i) => Some(i + 1),
            None => None,
        }
    }
}

/// `read_line` on a stream holding `d` (ending there when `eof`): the number
/// of bytes of the line, through its `\n` or the end of the stream.
pub open spec fn line_len(d: Seq<u8>, eof: bool) -> Step<int> {
    match newline_at(d) {
        Some(i) => Step::Done(i + 1),
        None => if eof { Step::Done(d.len() as int) } else { Step::More },
    }
}

proof fn lemma_newline_at(d: Seq<u8>, i: int)
    requires
        0 <= i <= d.len(),
        forall|j: int| 0 <= j < i ==> d[j] != 10u8,
    ensures
        i < d.len() && d[i] == 10u8 ==> newline_at(d) == Some(i),
        i == d.len() ==> newline_at(d) is None,
        newline_at(d) matches Some(k) ==> 0 <= k < d.len() && d[k] == 10u8,
    decreases i,
{
    if i > 0 {
        lemma_newline_at(d.drop_first(), i - 1);
    } else if d.len() > 0 && d[0] != 10u8 {
        lemma_newline_any(d.drop_first());
    }
}

pub proof fn lemma_newline_any(d: Seq<u8>)
    ensures
        newline_at(d) matches Some(k) ==> 0 <= k < d.len() && d[k] == 10u8,
    decreases d.len(),
{
    if d.len() > 0 {
        lemma_newline_any(d.drop_first());
    }
}

/// Finds the end of the line starting at `pos`: `Some(end)` when the line is
/// complete (through `\n`, or the end of input when `eof`), `None` when more
/// input is needed.
fn line_end(data: &[u8], pos: usize, eof: bool) -> (r: Option<usize>)
    requires
        pos <= data.len(),
    ensures
        match line_len(data@.skip(pos as int), eof) {
            Step::Done(n) => r == Some((pos + n) as usize),
            _ => r is None,
        },
        r matches Some(e) ==> pos <= e <= data.len(),
{
    let ghost d = data@.skip(pos as int);
    let mut i: usize = pos;
    while i < data.len()
        invariant
            pos <= i <= data.len(),
            d == data@.skip(pos as int),
            forall|j: int| 0 <= j < i - pos ==> d[j] != 10u8,
        decreases data.len() - i,
    {
        if data[i] == 10u8 {
            proof {
                lemma_newline_at(d, (i - pos) as int);
            }
            return Some(i + 1);
        }
        i = i + 1;
    }
    proof {
        lemma_newline_at(d, (i - pos) as int);
    }
    if eof {
        Some(data.len())
    } else {
        None
    }
}

pub open spec fn is_hex(c: char) -> bool {
    ('0' <= c && c <= '9') || ('a' <= c && c <= 'f') || ('A' <= c && c <= 'F')
}

pub open spec fn hex_value(c: char) -> nat {
    if '0' <= c && c <= '9' {
        (c as u32 - '0' as u32) as nat
    } else if 'a' <= c && c <= 'f' {
        (c as u32 - 'a' as u32 + 10) as nat
    } else {
        (c as u32 - 'A' as u32 + 10) as nat
    }
}

/// The number that a run of digits in `radix` (10 or 16) spells.
pub open spec fn radix_value(d: Seq<char>, radix: nat) -> nat
    decreases d.len(),
{
    if d.len() == 0 {
        0
    } else {
        radix * radix_value(d.drop_last(), radix) + hex_value(d.last())
    }
}

pub open spec fn is_radix_digit(c: char, radix: nat) -> bool {
    if radix == 16 { is_hex(c) } else { '0' <= c && c <= '9' }
}

/// The digits of an unsigned number: the text after an optional leading `+`.
pub open spec fn digits_part(s: Seq<char>) -> Seq<char> {
    if s.len() > 0 && s[0] == '+' { s.drop_first() } else { s }
}

pub open spec fn all_radix_digits(d: Seq<char>, radix: nat) -> bool {
    forall|i: int| 0 <= i < d.len() ==> is_radix_digit(#[trigger] d[i], radix)
}

/// `usize::from_str_radix(s, radix)`: an optional `+`, then at least one digit,
/// with a value that fits in `usize`.
pub open spec fn parse_usize(s: Seq<char>, radix: nat) -> Option<nat> {
    let d = digits_part(s);
    if d.len() > 0 && all_radix_digits(d, radix) && radix_value(d, radix) <= usize::MAX {
        Some(radix_value(d, radix))
    } else {
        None
    }
}

pub proof fn lemma_radix_value_prefix(d: Seq<char>, i: int, radix: nat)
    requires
        0 <= i <= d.len(),
        radix >= 1,
    ensures
        radix_value(d.take(i), radix) <= radix_value(d, radix),
    decreases d.len() - i,
{
    if i < d.len() {
        assert(d.drop_last().take(i) =~= d.take(i));
        lemma_radix_value_prefix(d.drop_last(), i, radix);
        let v = radix_value(d.drop_last(), radix);
        assert(radix * v >= v) by (nonlinear_arith)
            requires radix >= 1;
    } else {
        assert(d.take(i) =~= d);
    }
}

/// Parses an unsigned number in base 10 or 16, as `usize::from_str_radix` does.
pub fn parse_usize_chars(s: &[char], radix: u32) -> (r: Option<usize>)
    requires
        radix == 10 || radix == 16,
    ensures
        match parse_usize(s@, radix as nat) {
            Some(v) => r == Some(v as usize),
            None => r is None,
        },
{
    let start: usize = if s.len() > 0 && s[0] == '+' { 1 } else { 0 };
    let ghost d = digits_part(s@);
    assert(d =~= s@.skip(start as int));
    if start >= s.len() {
        return None;
    }
    let mut value: usize = 0;
    let mut i: usize = start;
    while i < s.len()
        invariant
            start <= i <= s.len(),
            start < s.len(),
            radix == 10 || radix == 16,
            d == s@.skip(start as int),
            d == digits_part(s@),
            value as nat == radix_value(d.take(i - start), radix as nat),
            forall|j: int| 0 <= j < i - start ==> is_radix_digit(#[trigger] d[j], radix as nat),
        decreases s.len() - i,
    {
        let c = s[i];
        assert(d[i - start] == c);
        let digit: usize;
        if '0' <= c && c <= '9' {
            digit = (c as u32 - '0' as u32) as usize;
        } else if radix == 16 && 'a' <= c && c <= 'f' {
            digit = (c as u32 - 'a' as u32 + 10) as usize;
        } else if radix == 16 && 'A' <= c && c <= 'F' {
            digit = (c as u32 - 'A' as u32 + 10) as usize;
        } else {
            assert(!is_radix_digit(d[i - start], radix as nat));
            assert(!all_radix_digits(d, radix as nat));
            return None;
        }
        assert(d.take(i - start + 1).drop_last() =~= d.take(i - start));
        assert(d.take(i - start + 1).last() == c);
        assert(digit as nat == hex_value(c));
        let r = radix as usize;
        if value > (usize::MAX - digit) / r {
            proof {
                let vv = value as int;
                let rr = r as int;
                let dd = digit as int;
                let mx = usize::MAX as int;
                assert(rr * vv + dd > mx) by (nonlinear_arith)
                    requires vv > (mx - dd) / rr, rr >= 1, 0 <= dd <= mx;
                assert(radix_value(d.take(i - start + 1), radix as nat) == rr * vv + dd);
                lemma_radix_value_prefix(d, i - start + 1, radix as nat);
            }
            return None;
        }
        proof {
            let vv = value as int;
            let rr = r as int;
            let dd = digit as int;
            let mx = usize::MAX as int;
            assert(vv * rr + dd <= mx) by (nonlinear_arith)
                requires vv <= (mx - dd) / rr, rr >= 1, 0 <= dd <= mx, vv >= 0;
            assert(vv * rr == rr * vv) by (nonlinear_arith);
            assert(radix_value(d.take(i - start + 1), radix as nat) == vv * rr + dd);
        }
        value = value * r + digit;
        i = i + 1;
    }
    assert(d.take(i - start) =~= d);
    Some(value)
}

/// The size announced by a chunk-size line: the text before any `;`, trimmed,
/// read as hexadecimal.
pub open spec fn chunk_size(line: Seq<u8>) -> Option<nat> {
    parse_usize(split(trim(decode_utf8(line)), ';')[0], 16)
}

/// Reads the trailer section after the last chunk: lines up to an empty
/// line (`\r\n`) or the end of input. Gives the bytes it consumed.
pub open spec fn trailers(d: Seq<u8>, eof: bool) -> Step<int>
    decreases d.len(),
{
    proof {
        lemma_newline_any(d);
    }
    match line_len(d, eof) {
        Step::Done(n) => if n == 0 {
            Step::Done(0)
        } else if !valid_utf8(d.take(n)) {
            Step::Fail(Fault::InvalidUtf8)
        } else if d.take(n) == seq![13u8, 10u8] {
            Step::Done(n)
        } else {
            match trailers(d.skip(n), eof) {
                Step::Done(m) => Step::Done(n + m),
                Step::More => Step::More,
                Step::Fail(f) => Step::Fail(f),
            }
        },
        Step::More => Step::More,
        Step::Fail(f) => Step::Fail(f),
    }
}

/// Decodes a chunked transfer-encoded body from the start of `d`: the body and
/// the bytes consumed.
#[verifier::opaque]
pub open spec fn chunked(d: Seq<u8>, eof: bool) -> Step<(Seq<u8>, int)>
    decreases d.len(),
{
    proof {
        lemma_newline_any(d);
    }
    match line_len(d, eof) {
        Step::Done(n) => if n == 0 {
            Step::Fail(Fault::ChunkSizeEof)
        } else if !valid_utf8(d.take(n)) {
            Step::Fail(Fault::InvalidUtf8)
        } else {
            match chunk_size(d.take(n)) {
                None => Step::Fail(Fault::InvalidChunkSize),
                Some(size) => if size == 0 {
                    match trailers(d.skip(n), eof) {
                        Step::Done(m) => Step::Done((Seq::empty(), n + m)),
                        Step::More => Step::More,
                        Step::Fail(f) => Step::Fail(f),
                    }
                } else {
                    let rest = d.skip(n);
                    if rest.len() < size + 2 {
                        if eof { Step::Fail(Fault::ShortRead) } else { Step::More }
                    } else if rest[size as int] != 13u8 || rest[(size + 1) as int] != 10u8 {
                        Step::Fail(Fault::InvalidChunkTerminator)
                    } else {
                        match chunked(rest.skip((size + 2) as int), eof) {
                            Step::Done((b, m)) => Step::Done((rest.take(size as int) + b, n + size + 2 + m)),
                            Step::More => Step::More,
                            Step::Fail(f) => Step::Fail(f),
                        }
                    }
                }
            }
        },
        Step::More => Step::More,
        Step::Fail(f) => Step::Fail(f),
    }
}

} // verus!

verus! {

/// `chunked` with `acc` already read and `k` bytes already consumed before it.
pub open spec fn after(acc: Seq<u8>, k: int, s: Step<(Seq<u8>, int)>) -> Step<(Seq<u8>, int)> {
    match s {
        Step::Done((b, m)) => Step::Done((acc + b, k + m)),
        Step::More => Step::More,
        Step::Fail(f) => Step::Fail(f),
    }
}

/// `trailers` with `k` bytes already consumed before it.
pub open spec fn shifted(k: int, s: Step<int>) -> Step<int> {
    match s {
        Step::Done(m) => Step::Done(k + m),
        Step::More => Step::More,
        Step::Fail(f) => Step::Fail(f),
    }
}

proof fn lemma_after_after(acc: Seq<u8>, k: int, chunk: Seq<u8>, j: int, s: Step<(Seq<u8>, int)>)
    ensures
        after(acc, k, after(chunk, j, s)) == after(acc + chunk, k + j, s),
{
    if let Step::Done((b, m)) = s {
        assert(acc + (chunk + b) =~= (acc + chunk) + b);
    }
}

proof fn lemma_skip_skip(d: Seq<u8>, a: int, b: int)
    requires
        0 <= a,
        0 <= b,
        a + b <= d.len(),
    ensures
        d.skip(a).skip(b) == d.skip(a + b),
        d.skip(a).take(b) == d.subrange(a, a + b),
{
    assert(d.skip(a).skip(b) =~= d.skip(a + b));
    assert(d.skip(a).take(b) =~= d.subrange(a, a + b));
}

/// The size on a chunk-size line of text.
fn chunk_size_of(text: &str) -> (r: Option<usize>)
    ensures
        match parse_usize(split(trim(text@), ';')[0], 16) {
            Some(v) => r == Some(v as usize),
            None => r is None,
        },
{
    let cs = chars_of(text);
    let t = trim_chars(cs.as_slice());
    let parts = split_chars(t.as_slice(), ';');
    assert(parts@[0]@ == split(trim(text@), ';')[0]);
    parse_usize_chars(parts[0].as_slice(), 16)
}

/// Skips the trailer section that starts at `pos`.
fn skip_trailers(data: &[u8], pos: usize, eof: bool) -> (r: Step<usize>)
    requires
        pos <= data.len(),
    ensures
        match trailers(data@.skip(pos as int), eof) {
            Step::Done(m) => r matches Step::Done(e) && e == pos + m,
            Step::More => r is More,
            Step::Fail(f) => r matches Step::Fail(g) && g == f,
        },
{
    let ghost d0 = data@.skip(pos as int);
    let mut p: usize = pos;
    loop
        invariant
            pos <= p <= data.len(),
            d0 == data@.skip(pos as int),
            trailers(d0, eof) == shifted(p - pos, trailers(data@.skip(p as int), eof)),
        decreases data.len() - p,
    {
        let ghost d = data@.skip(p as int);
        proof {
            lemma_newline_any(d);
        }
        let e = match line_end(data, p, eof) {
            Some(e) => e,
            None => {
                return Step::More;
            },
        };
        if e == p {
            return Step::Done(p);
        }
        proof {
            lemma_skip_skip(data@, p as int, (e - p) as int);
        }
        let line = vstd::slice::slice_subrange(data, p, e);
        if utf8_text(line).is_none() {
            return Step::Fail(Fault::InvalidUtf8);
        }
        if e - p == 2 && data[p] == 13u8 && data[p + 1] == 10u8 {
            assert(d.take(2) =~= seq![13u8, 10u8]);
            return Step::Done(e);
        }
        assert(d.take((e - p) as int) != seq![13u8, 10u8]) by {
            if e - p == 2 {
                assert(d.take(2)[0] == data@[p as int]);
                assert(d.take(2)[1] == data@[p + 1]);
            }
        }
        p = e;
    }
}

} // verus!

verus! {

/// One step of `chunked`, once the chunk-size line of `n` bytes has been read.
proof fn lemma_chunked_step(d: Seq<u8>, eof: bool, n: int, size: nat)
    requires
        line_len(d, eof) == Step::<int>::Done(n),
        0 < n <= d.len(),
        valid_utf8(d.take(n)),
        chunk_size(d.take(n)) == Some(size),
    ensures
        size == 0 ==> chunked(d, eof) == (match trailers(d.skip(n), eof) {
            Step::Done(m) => Step::Done((Seq::<u8>::empty(), n + m)),
            Step::More => Step::More,
            Step::Fail(f) => Step::Fail(f),
        }),
        size > 0 && d.skip(n).len() < size + 2 ==> chunked(d, eof) == (if eof {
            Step::<(Seq<u8>, int)>::Fail(Fault::ShortRead)
        } else {
            Step::More
        }),
        size > 0 && d.skip(n).len() >= size + 2 && (d.skip(n)[size as int] != 13u8 || d.skip(n)[
            size + 1int] != 10u8) ==> chunked(d, eof) == Step::<(Seq<u8>, int)>::Fail(
            Fault::InvalidChunkTerminator,
        ),
        size > 0 && d.skip(n).len() >= size + 2 && d.skip(n)[size as int] == 13u8 && d.skip(n)[size
            + 1int] == 10u8 ==> chunked(d, eof) == after(
            d.skip(n).take(size as int),
            n + size + 2,
            chunked(d.skip(n).skip(size + 2int), eof),
        ),
{
    reveal(chunked);
}

/// Reads the chunk-size line at `pos`: the index past the line and the size.
fn read_chunk_header(data: &[u8], pos: usize, eof: bool) -> (r: Step<(usize, usize)>)
    requires
        pos <= data.len(),
    ensures
        ({
            let d = data@.skip(pos as int);
            match r {
                Step::Done((e, size)) => {
                    &&& pos < e <= data.len()
                    &&& line_len(d, eof) == Step::<int>::Done(e - pos)
                    &&& valid_utf8(d.take(e - pos))
                    &&& chunk_size(d.take(e - pos)) == Some(size as nat)
                },
                Step::More => chunked(d, eof) is More,
                Step::Fail(f) => chunked(d, eof) == Step::<(Seq<u8>, int)>::Fail(f),
            }
        }),
{
    let ghost d = data@.skip(pos as int);
    proof {
        lemma_newline_any(d);
        reveal(chunked);
    }
    let e = match line_end(data, pos, eof) {
        Some(e) => e,
        None => {
            return Step::More;
        },
    };
    if e == pos {
        return Step::Fail(Fault::ChunkSizeEof);
    }
    proof {
        lemma_skip_skip(data@, pos as int, (e - pos) as int);
    }
    let line = vstd::slice::slice_subrange(data, pos, e);
    let text = match utf8_text(line) {
        Some(t) => t,
        None => {
            return Step::Fail(Fault::InvalidUtf8);
        },
    };
    match chunk_size_of(text) {
        Some(size) => Step::Done((e, size)),
        None => Step::Fail(Fault::InvalidChunkSize),
    }
}

/// Appends `data[from..to]` to `body`.
fn append_bytes(body: &mut Vec<u8>, data: &[u8], from: usize, to: usize)
    requires
        from <= to <= data.len(),
    ensures
        final(body)@ == old(body)@ + data@.subrange(from as int, to as int),
{
    let ghost b0 = body@;
    let mut i: usize = from;
    while i < to
        invariant
            from <= i <= to <= data.len(),
            body@ == b0 + data@.subrange(from as int, i as int),
        decreases to - i,
    {
        body.push(data[i]);
        i = i + 1;
        assert(body@ =~= b0 + data@.subrange(from as int, i as int));
    }
}

/// Decodes a chunked body that starts at `pos`: the body and the index just
/// past it, a need for more input, or the reason it cannot be read.
pub fn decode_chunked(data: &[u8], pos: usize, eof: bool) -> (r: Step<(Vec<u8>, usize)>)
    requires
        pos <= data.len(),
    ensures
        match chunked(data@.skip(pos as int), eof) {
            Step::Done((b, m)) => r matches Step::Done((v, e)) && v@ == b && e == pos + m,
            Step::More => r is More,
            Step::Fail(f) => r matches Step::Fail(g) && g == f,
        },
{
    let ghost d0 = data@.skip(pos as int);
    let mut body: Vec<u8> = Vec::new();
    let mut p: usize = pos;
    loop
        invariant
            pos <= p <= data.len(),
            d0 == data@.skip(pos as int),
            chunked(d0, eof) == after(body@, p - pos, chunked(data@.skip(p as int), eof)),
        decreases data.len() - p,
    {
        let ghost d = data@.skip(p as int);
        let (e, size) = match read_chunk_header(data, p, eof) {
            Step::Done(h) => h,
            Step::More => {
                return Step::More;
            },
            Step::Fail(f) => {
                return Step::Fail(f);
            },
        };
        proof {
            lemma_skip_skip(data@, p as int, (e - p) as int);
            lemma_chunked_step(d, eof, (e - p) as int, size as nat);
        }
        if size == 0 {
            match skip_trailers(data, e, eof) {
                Step::Done(end) => {
                    return Step::Done((body, end));
                },
                Step::More => {
                    return Step::More;
                },
                Step::Fail(f) => {
                    return Step::Fail(f);
                },
            }
        }
        let ghost rest = data@.skip(e as int);
        if data.len() - e < 2 || data.len() - e - 2 < size {
            if eof {
                return Step::Fail(Fault::ShortRead);
            } else {
                return Step::More;
            }
        }
        let end = e + size;
        if data[end] != 13u8 || data[end + 1] != 10u8 {
            return Step::Fail(Fault::InvalidChunkTerminator);
        }
        proof {
            lemma_skip_skip(data@, e as int, size as int);
            lemma_skip_skip(data@, e as int, size + 2);
            lemma_after_after(body@, p - pos, rest.take(size as int), (e - p) + size + 2,
                chunked(data@.skip(end + 2), eof));
        }
        append_bytes(&mut body, data, e, end);
        p = end + 2;
    }
}

} // verus!

verus! {

/// At the end of input the trailer section never waits for more bytes.
pub proof fn lemma_trailers_at_eof(d: Seq<u8>)
    ensures
        !(trailers(d, true) is More),
    decreases d.len(),
{
    lemma_newline_any(d);
    if let Step::Done(n) = line_len(d, true) {
        if n > 0 && valid_utf8(d.take(n)) && d.take(n) != seq![13u8, 10u8] {
            lemma_trailers_at_eof(d.skip(n));
        }
    }
}

/// At the end of input a chunked body is either decoded or refused, never
/// left waiting for more bytes.
pub proof fn lemma_chunked_at_eof(d: Seq<u8>)
    ensures
        !(chunked(d, true) is More),
    decreases d.len(),
{
    reveal(chunked);
    lemma_newline_any(d);
    if let Step::Done(n) = line_len(d, true) {
        if n > 0 && valid_utf8(d.take(n)) {
            if let Some(size) = chunk_size(d.take(n)) {
                let rest = d.skip(n);
                if size == 0 {
                    lemma_trailers_at_eof(rest);
                } else if rest.len() >= size + 2 {
                    lemma_chunked_at_eof(rest.skip(size + 2int));
                }
            }
        }
    }
}

impl HttpError {
    pub fn from_fault(f: Fault) -> (e: HttpError)
        ensures
            e.fault() == f,
    {
        match f {
            Fault::EmptyRequest => HttpError::EmptyRequest,
            Fault::MissingMethod => HttpError::MissingMethod,
            Fault::MissingPath => HttpError::MissingPath,
            Fault::UnsupportedMethod => HttpError::UnsupportedMethod(String::new()),
            Fault::InvalidUtf8 => HttpError::InvalidUtf8,
            Fault::ChunkSizeEof => HttpError::ChunkSizeEof,
            Fault::InvalidChunkSize => HttpError::InvalidChunkSize,
            Fault::InvalidChunkTerminator => HttpError::InvalidChunkTerminator,
            Fault::ShortRead => HttpError::ShortRead,
        }
    }

    /// The message the server reports for this error.
    pub open spec fn message(&self) -> Seq<char> {
        match self {
            HttpError::EmptyRequest => "invalid request: empty request"@,
            HttpError::MissingMethod => "invalid request: missing method"@,
            HttpError::MissingPath => "invalid request: missing path"@,
            HttpError::UnsupportedMethod(m) => "invalid request: unsupported method '"@ + m@
                + "'"@,
            HttpError::InvalidUtf8 => "stream did not contain valid UTF-8"@,
            HttpError::ChunkSizeEof => "invalid request: unexpected EOF while reading chunk size"@,
            HttpError::InvalidChunkSize => "invalid request: invalid chunk size"@,
            HttpError::InvalidChunkTerminator => "invalid request: invalid chunk terminator"@,
            HttpError::ShortRead => "failed to fill whole buffer"@,
        }
    }

    pub fn to_string(&self) -> (s: String)
        ensures
            s@ == self.message(),
    {
        match self {
            HttpError::EmptyRequest => String::from_str("invalid request: empty request"),
            HttpError::MissingMethod => String::from_str("invalid request: missing method"),
            HttpError::MissingPath => String::from_str("invalid request: missing path"),
            HttpError::UnsupportedMethod(m) => crate::text::concat3(
                "invalid request: unsupported method '",
                m.as_str(),
                "'",
            ),
            HttpError::InvalidUtf8 => String::from_str("stream did not contain valid UTF-8"),
            HttpError::ChunkSizeEof => String::from_str(
                "invalid request: unexpected EOF while reading chunk size",
            ),
            HttpError::InvalidChunkSize => String::from_str("invalid request: invalid chunk size"),
            HttpError::InvalidChunkTerminator => String::from_str(
                "invalid request: invalid chunk terminator",
            ),
            HttpError::ShortRead => String::from_str("failed to fill whole buffer"),
        }
    }
}

/// Reads a whole chunked body from a stream that ends after `data`.
pub fn read_chunked_body(data: &[u8]) -> (r: Result<Vec<u8>, HttpError>)
    ensures
        match chunked(data@, true) {
            Step::Done((b, _)) => r matches Ok(v) && v@ == b,
            _ => r matches Err(e) && chunked(data@, true) == Step::<(Seq<u8>, int)>::Fail(
                e.fault(),
            ),
        },
{
    proof {
        lemma_chunked_at_eof(data@);
        assert(data@.skip(0) =~= data@);
    }
    match decode_chunked(data, 0, true) {
        Step::Done((body, _)) => Ok(body),
        Step::More => Err(HttpError::ShortRead),
        Step::Fail(f) => Err(HttpError::from_fault(f)),
    }
}

} // verus!

verus! {

/// The request methods the settings server answers.
#[derive(Debug, Clone, Copy, PartialEq, Eq, Structural)]
pub enum HttpMethod {
    Get,
    Post,
}

/// A parsed request. `headers` holds the header lines in arrival order, with
/// lower-cased names; a later line with the same name wins.
#[derive(Debug)]
pub struct HttpRequest {
    pub method: HttpMethod,
    pub path: String,
    pub headers: Vec<(String, String)>,
    pub body: Vec<u8>,
}

pub open spec fn pairs_view(v: Seq<(String, String)>) -> Seq<(Seq<char>, Seq<char>)> {
    v.map_values(|p: (String, String)| (p.0@, p.1@))
}

/// The value of header `name`: the last line that set it.
pub open spec fn header_value(hs: Seq<(Seq<char>, Seq<char>)>, name: Seq<char>) -> Option<Seq<char>>
    decreases hs.len(),
{
    if hs.len() == 0 {
        None
    } else if hs.last().0 == name {
        Some(hs.last().1)
    } else {
        header_value(hs.drop_last(), name)
    }
}

/// A header line split at its first `:`: the trimmed, lower-cased name and
/// the trimmed value. A line without `:` is ignored.
pub open spec fn header_entry(line: Seq<char>) -> Option<(Seq<char>, Seq<char>)> {
    match first_index(line, ':') {
        Some(i) => Some((ascii_lower(trim(line.take(i))), trim(line.skip(i + 1)))),
        None => None,
    }
}

pub open spec fn entry_seq(e: Option<(Seq<char>, Seq<char>)>) -> Seq<(Seq<char>, Seq<char>)> {
    match e {
        Some(p) => seq![p],
        None => Seq::empty(),
    }
}

/// The header section at the start of `d`, through its empty line or the end
/// of input: the entries and the bytes consumed.
pub open spec fn header_lines(d: Seq<u8>, eof: bool) -> Step<(Seq<(Seq<char>, Seq<char>)>, int)>
    decreases d.len(),
{
    proof {
        lemma_newline_any(d);
    }
    match line_len(d, eof) {
        Step::Done(n) => if n == 0 {
            Step::Done((Seq::empty(), 0))
        } else if !valid_utf8(d.take(n)) {
            Step::Fail(Fault::InvalidUtf8)
        } else if d.take(n) == seq![13u8, 10u8] {
            Step::Done((Seq::empty(), n))
        } else {
            match header_lines(d.skip(n), eof) {
                Step::Done((hs, m)) => Step::Done(
                    (entry_seq(header_entry(decode_utf8(d.take(n)))) + hs, n + m),
                ),
                Step::More => Step::More,
                Step::Fail(f) => Step::Fail(f),
            }
        },
        Step::More => Step::More,
        Step::Fail(f) => Step::Fail(f),
    }
}

/// `Content-Length`, when it is present and a number.
pub open spec fn body_length(hs: Seq<(Seq<char>, Seq<char>)>) -> Option<nat> {
    match header_value(hs, "content-length"@) {
        Some(v) => parse_usize(v, 10),
        None => None,
    }
}

/// Whether `Transfer-Encoding` names the chunked coding.
pub open spec fn is_chunked(hs: Seq<(Seq<char>, Seq<char>)>) -> bool {
    match header_value(hs, "transfer-encoding"@) {
        Some(v) => contains_seq(ascii_lower(v), "chunked"@),
        None => false,
    }
}

/// The body that follows the headers `hs` at the start of `d`.
pub open spec fn body_of(hs: Seq<(Seq<char>, Seq<char>)>, d: Seq<u8>, eof: bool) -> Step<(Seq<u8>, int)> {
    match body_length(hs) {
        Some(len) => if len <= d.len() {
            Step::Done((d.take(len as int), len as int))
        } else if eof {
            Step::Fail(Fault::ShortRead)
        } else {
            Step::More
        },
        None => if is_chunked(hs) {
            chunked(d, eof)
        } else {
            Step::Done((Seq::empty(), 0))
        },
    }
}

pub open spec fn method_of(w: Seq<char>) -> Option<HttpMethod> {
    if w == "GET"@ {
        Some(HttpMethod::Get)
    } else if w == "POST"@ {
        Some(HttpMethod::Post)
    } else {
        None
    }
}

/// The method and path of a request line.
pub open spec fn request_line(t: Seq<char>) -> Result<(HttpMethod, Seq<char>), Fault> {
    match next_word(t) {
        None => Err(Fault::MissingMethod),
        Some((w, rest)) => match method_of(w) {
            None => Err(Fault::UnsupportedMethod),
            Some(m) => match next_word(rest) {
                None => Err(Fault::MissingPath),
                Some((p, _)) => Ok((m, p)),
            },
        },
    }
}

pub open spec fn first_word(t: Seq<char>) -> Seq<char> {
    match next_word(t) {
        Some((w, _)) => w,
        None => Seq::empty(),
    }
}

/// The first word of the request line of `d`, the method as sent.
pub open spec fn sent_method(d: Seq<u8>) -> Seq<char> {
    match newline_at(d) {
        Some(i) => first_word(decode_utf8(d.take(i + 1))),
        None => first_word(decode_utf8(d)),
    }
}

/// A whole request at the start of `d`: method, path, headers and body, and
/// the bytes consumed.
pub open spec fn request_spec(d: Seq<u8>, eof: bool) -> Step<
    ((HttpMethod, Seq<char>, Seq<(Seq<char>, Seq<char>)>, Seq<u8>), int),
> {
    match line_len(d, eof) {
        Step::Done(n) => if n == 0 {
            Step::Fail(Fault::EmptyRequest)
        } else if !valid_utf8(d.take(n)) {
            Step::Fail(Fault::InvalidUtf8)
        } else {
            match request_line(decode_utf8(d.take(n))) {
                Err(f) => Step::Fail(f),
                Ok((m, path)) => match header_lines(d.skip(n), eof) {
                    Step::Done((hs, k)) => match body_of(hs, d.skip(n + k), eof) {
                        Step::Done((b, j)) => Step::Done(((m, path, hs, b), n + k + j)),
                        Step::More => Step::More,
                        Step::Fail(f) => Step::Fail(f),
                    },
                    Step::More => Step::More,
                    Step::Fail(f) => Step::Fail(f),
                },
            }
        },
        Step::More => Step::More,
        Step::Fail(f) => Step::Fail(f),
    }
}

} // verus!

verus! {

/// Reads the method and path of a request line.
fn parse_request_line(text: &str) -> (r: Result<(HttpMethod, String), HttpError>)
    ensures
        match request_line(text@) {
            Ok((m, p)) => r matches Ok((m2, p2)) && m2 == m && p2@ == p,
            Err(f) => r matches Err(e) && e.fault() == f && (f == Fault::UnsupportedMethod
                ==> (e matches HttpError::UnsupportedMethod(w) && w@ == first_word(text@))),
        },
{
    let cs = chars_of(text);
    assert(cs@.skip(0) =~= cs@);
    let (a, b) = match next_word_at(cs.as_slice(), 0) {
        Some(w) => w,
        None => {
            return Err(HttpError::MissingMethod);
        },
    };
    let word = string_from_chars(vstd::slice::slice_subrange(cs.as_slice(), a, b));
    let method = if str_eq(word.as_str(), "GET") {
        HttpMethod::Get
    } else if str_eq(word.as_str(), "POST") {
        HttpMethod::Post
    } else {
        return Err(HttpError::UnsupportedMethod(word));
    };
    let (c, e) = match next_word_at(cs.as_slice(), b) {
        Some(w) => w,
        None => {
            return Err(HttpError::MissingPath);
        },
    };
    let path = string_from_chars(vstd::slice::slice_subrange(cs.as_slice(), c, e));
    Ok((method, path))
}

/// Splits a header line into its lower-cased name and its value.
fn header_entry_of(text: &str) -> (r: Option<(String, String)>)
    ensures
        match header_entry(text@) {
            Some((n, v)) => r matches Some((a, b)) && a@ == n && b@ == v,
            None => r is None,
        },
{
    let cs = chars_of(text);
    let i = match find_char(cs.as_slice(), ':') {
        Some(i) => i,
        None => {
            return None;
        },
    };
    let name = trim_chars(vstd::slice::slice_subrange(cs.as_slice(), 0, i));
    let lower = ascii_lower_chars(name.as_slice());
    let value = trim_chars(vstd::slice::slice_subrange(cs.as_slice(), i + 1, cs.len()));
    assert(cs@.subrange(0, i as int) =~= cs@.take(i as int));
    assert(cs@.subrange(i + 1, cs@.len() as int) =~= cs@.skip(i + 1));
    Some((string_from_chars(lower.as_slice()), string_from_chars(value.as_slice())))
}

pub open spec fn headers_after(
    acc: Seq<(Seq<char>, Seq<char>)>,
    k: int,
    s: Step<(Seq<(Seq<char>, Seq<char>)>, int)>,
) -> Step<(Seq<(Seq<char>, Seq<char>)>, int)> {
    match s {
        Step::Done((hs, m)) => Step::Done((acc + hs, k + m)),
        Step::More => Step::More,
        Step::Fail(f) => Step::Fail(f),
    }
}

proof fn lemma_headers_after(
    acc: Seq<(Seq<char>, Seq<char>)>,
    k: int,
    e: Seq<(Seq<char>, Seq<char>)>,
    j: int,
    s: Step<(Seq<(Seq<char>, Seq<char>)>, int)>,
)
    ensures
        headers_after(acc, k, headers_after(e, j, s)) == headers_after(acc + e, k + j, s),
{
    if let Step::Done((hs, m)) = s {
        assert(acc + (e + hs) =~= (acc + e) + hs);
    }
}

/// Reads the header section that starts at `pos`.
fn read_headers(data: &[u8], pos: usize, eof: bool) -> (r: Step<(Vec<(String, String)>, usize)>)
    requires
        pos <= data.len(),
    ensures
        match header_lines(data@.skip(pos as int), eof) {
            Step::Done((hs, m)) => r matches Step::Done((v, e)) && pairs_view(v@) == hs && e == pos
                + m,
            Step::More => r is More,
            Step::Fail(f) => r matches Step::Fail(g) && g == f,
        },
        r matches Step::Done((_, e)) ==> pos <= e <= data.len(),
{
    let ghost d0 = data@.skip(pos as int);
    let mut acc: Vec<(String, String)> = Vec::new();
    let mut p: usize = pos;
    loop
        invariant
            pos <= p <= data.len(),
            d0 == data@.skip(pos as int),
            header_lines(d0, eof) == headers_after(
                pairs_view(acc@),
                p - pos,
                header_lines(data@.skip(p as int), eof),
            ),
        decreases data.len() - p,
    {
        let ghost d = data@.skip(p as int);
        proof {
            lemma_newline_any(d);
        }
        let e = match line_end(data, p, eof) {
            Some(e) => e,
            None => {
                return Step::More;
            },
        };
        if e == p {
            assert(pairs_view(acc@) + Seq::empty() =~= pairs_view(acc@));
            return Step::Done((acc, p));
        }
        proof {
            lemma_skip_skip(data@, p as int, (e - p) as int);
        }
        let line = vstd::slice::slice_subrange(data, p, e);
        let text = match utf8_text(line) {
            Some(t) => t,
            None => {
                return Step::Fail(Fault::InvalidUtf8);
            },
        };
        if e - p == 2 && data[p] == 13u8 && data[p + 1] == 10u8 {
            assert(d.take(2) =~= seq![13u8, 10u8]);
            assert(pairs_view(acc@) + Seq::empty() =~= pairs_view(acc@));
            return Step::Done((acc, e));
        }
        assert(d.take((e - p) as int) != seq![13u8, 10u8]) by {
            if e - p == 2 {
                assert(d.take(2)[0] == data@[p as int]);
                assert(d.take(2)[1] == data@[p + 1]);
            }
        }
        let ghost before = pairs_view(acc@);
        let ghost entry = entry_seq(header_entry(text@));
        proof {
            lemma_headers_after(before, p - pos, entry, (e - p) as int,
                header_lines(data@.skip(e as int), eof));
        }
        match header_entry_of(text) {
            Some(pair) => {
                acc.push(pair);
                assert(pairs_view(acc@) =~= before + entry);
            },
            None => {
                assert(before + entry =~= before);
            },
        }
        p = e;
    }
}

/// Index of the line that gives header `name` its value.
pub fn header_index(hs: &Vec<(String, String)>, name: &str) -> (r: Option<usize>)
    ensures
        match header_value(pairs_view(hs@), name@) {
            Some(v) => r matches Some(i) && i < hs@.len() && hs@[i as int].1@ == v,
            None => r is None,
        },
{
    let mut k: usize = hs.len();
    assert(hs@.take(k as int) =~= hs@);
    while k > 0
        invariant
            k <= hs@.len(),
            header_value(pairs_view(hs@), name@) == header_value(pairs_view(hs@.take(k as int)), name@),
        decreases k,
    {
        assert(pairs_view(hs@.take(k as int)).last() == (hs@[k - 1].0@, hs@[k - 1].1@));
        if str_eq(hs[k - 1].0.as_str(), name) {
            return Some(k - 1);
        }
        assert(pairs_view(hs@.take(k as int)).drop_last() =~= pairs_view(hs@.take(k - 1)));
        k = k - 1;
    }
    None
}

} // verus!

verus! {

/// The header section fails only on text that is not UTF-8.
pub proof fn lemma_header_lines_fault(d: Seq<u8>, eof: bool)
    ensures
        header_lines(d, eof) matches Step::Fail(f) ==> f == Fault::InvalidUtf8,
    decreases d.len(),
{
    lemma_newline_any(d);
    if let Step::Done(n) = line_len(d, eof) {
        if n > 0 {
            lemma_header_lines_fault(d.skip(n), eof);
        }
    }
}

pub proof fn lemma_trailers_fault(d: Seq<u8>, eof: bool)
    ensures
        trailers(d, eof) matches Step::Fail(f) ==> f == Fault::InvalidUtf8,
    decreases d.len(),
{
    lemma_newline_any(d);
    if let Step::Done(n) = line_len(d, eof) {
        if n > 0 {
            lemma_trailers_fault(d.skip(n), eof);
        }
    }
}

/// A chunked body fails only for reasons of the body itself.
pub proof fn lemma_chunked_fault(d: Seq<u8>, eof: bool)
    ensures
        chunked(d, eof) matches Step::Fail(f) ==> f == Fault::InvalidUtf8 || f == Fault::ChunkSizeEof
            || f == Fault::InvalidChunkSize || f == Fault::InvalidChunkTerminator || f
            == Fault::ShortRead,
    decreases d.len(),
{
    reveal(chunked);
    lemma_newline_any(d);
    if let Step::Done(n) = line_len(d, eof) {
        if n > 0 && valid_utf8(d.take(n)) {
            if let Some(size) = chunk_size(d.take(n)) {
                let rest = d.skip(n);
                if size == 0 {
                    lemma_trailers_fault(rest, eof);
                } else if rest.len() >= size + 2 {
                    lemma_chunked_fault(rest.skip(size + 2int), eof);
                }
            }
        }
    }
}

/// Reads the body that follows the headers `hs`, starting at `pos`.
fn read_body(hs: &Vec<(String, String)>, data: &[u8], pos: usize, eof: bool) -> (r: Step<
    (Vec<u8>, usize),
>)
    requires
        pos <= data.len(),
    ensures
        match body_of(pairs_view(hs@), data@.skip(pos as int), eof) {
            Step::Done((b, m)) => r matches Step::Done((v, e)) && v@ == b && e == pos + m,
            Step::More => r is More,
            Step::Fail(f) => r matches Step::Fail(g) && g == f,
        },
{
    let ghost d = data@.skip(pos as int);
    let length = match header_index(hs, "content-length") {
        Some(i) => {
            let cs = chars_of(hs[i].1.as_str());
            parse_usize_chars(cs.as_slice(), 10)
        },
        None => None,
    };
    match length {
        Some(len) => {
            if len <= data.len() - pos {
                let mut body: Vec<u8> = Vec::new();
                append_bytes(&mut body, data, pos, pos + len);
                assert(body@ =~= d.take(len as int));
                Step::Done((body, pos + len))
            } else if eof {
                Step::Fail(Fault::ShortRead)
            } else {
                Step::More
            }
        },
        None => {
            let chunked_coding = match header_index(hs, "transfer-encoding") {
                Some(i) => {
                    let cs = chars_of(hs[i].1.as_str());
                    let lower = ascii_lower_chars(cs.as_slice());
                    let word = chars_of("chunked");
                    contains_chars(lower.as_slice(), word.as_slice())
                },
                None => false,
            };
            if chunked_coding {
                decode_chunked(data, pos, eof)
            } else {
                Step::Done((Vec::new(), pos))
            }
        },
    }
}

/// Parses the request at the start of `data`. `Ok(None)` means the request is
/// not complete yet; with `eof` the stream has ended after `data`. On success
/// also gives the number of bytes the request took.
pub fn parse_request(data: &[u8], eof: bool) -> (r: Result<Option<(HttpRequest, usize)>, HttpError>)
    ensures
        match request_spec(data@, eof) {
            Step::Done(((m, path, hs, b), n)) => r matches Ok(Some((req, k))) && req.method == m
                && req.path@ == path && pairs_view(req.headers@) == hs && req.body@ == b && k == n,
            Step::More => r matches Ok(None),
            Step::Fail(f) => r matches Err(e) && e.fault() == f && (f == Fault::UnsupportedMethod
                ==> (e matches HttpError::UnsupportedMethod(w) && w@ == sent_method(data@))),
        },
{
    let ghost d = data@;
    proof {
        lemma_newline_any(d);
        assert(d.skip(0) =~= d);
    }
    let e = match line_end(data, 0, eof) {
        Some(e) => e,
        None => {
            return Ok(None);
        },
    };
    if e == 0 {
        return Err(HttpError::EmptyRequest);
    }
    proof {
        lemma_skip_skip(d, 0, e as int);
    }
    let line = vstd::slice::slice_subrange(data, 0, e);
    let text = match utf8_text(line) {
        Some(t) => t,
        None => {
            return Err(HttpError::InvalidUtf8);
        },
    };
    proof {
        if newline_at(d) is None {
            assert(d.take(e as int) =~= d);
        }
    }
    let (method, path) = match parse_request_line(text) {
        Ok(p) => p,
        Err(err) => {
            return Err(err);
        },
    };
    proof {
        lemma_header_lines_fault(d.skip(e as int), eof);
    }
    let (headers, k) = match read_headers(data, e, eof) {
        Step::Done(h) => h,
        Step::More => {
            return Ok(None);
        },
        Step::Fail(f) => {
            return Err(HttpError::from_fault(f));
        },
    };
    proof {
        assert(d.skip(e as int).skip(k - e) =~= d.skip(k as int));
    }
    proof {
        lemma_header_lines_fault(d.skip(e as int), eof);
        lemma_chunked_fault(d.skip(k as int), eof);
    }
    let (body, n) = match read_body(&headers, data, k, eof) {
        Step::Done(b) => b,
        Step::More => {
            return Ok(None);
        },
        Step::Fail(f) => {
            return Err(HttpError::from_fault(f));
        },
    };
    Ok(Some((HttpRequest { method, path, headers, body }, n)))
}

} // verus!

verus! {

/// The decimal digits of `n`.
pub open spec fn decimal(n: nat) -> Seq<char>
    decreases n,
{
    if n < 10 {
        seq![digit_char(n)]
    } else {
        decimal(n / 10).push(digit_char(n % 10))
    }
}

pub open spec fn digit_char(d: nat) -> char {
    ((d + 48) as u32) as char
}

/// Writes `n` in decimal.
pub fn decimal_string(n: u64) -> (s: String)
    ensures
        s@ == decimal(n as nat),
    decreases n,
{
    if n < 10 {
        let mut s = String::new();
        crate::text::push_char(&mut s, ((n as u8) + 48u8) as char);
        assert(s@ =~= seq![digit_char(n as nat)]);
        s
    } else {
        let mut s = decimal_string(n / 10);
        crate::text::push_char(&mut s, (((n % 10) as u8) + 48u8) as char);
        s
    }
}

/// A response of the settings server.
#[derive(Debug)]
pub struct HttpResponse {
    pub status: u16,
    pub content_type: &'static str,
    pub body: Vec<u8>,
}

/// A lower-case hexadecimal digit.
pub open spec fn hex_digit(n: u8) -> u8 {
    if n < 10 {
        (48 + n) as u8
    } else {
        (87 + n) as u8
    }
}

/// How a JSON string writes one byte of its UTF-8 text: `"` and `\` behind
/// a backslash, the control bytes with a short escape where there is one and
/// as `\u00xx` otherwise, every other byte as it is.
pub open spec fn json_escape_byte(b: u8) -> Seq<u8> {
    if b == 0x22 {
        seq![0x5cu8, 0x22u8]
    } else if b == 0x5c {
        seq![0x5cu8, 0x5cu8]
    } else if b == 0x08 {
        seq![0x5cu8, 0x62u8]
    } else if b == 0x09 {
        seq![0x5cu8, 0x74u8]
    } else if b == 0x0a {
        seq![0x5cu8, 0x6eu8]
    } else if b == 0x0c {
        seq![0x5cu8, 0x66u8]
    } else if b == 0x0d {
        seq![0x5cu8, 0x72u8]
    } else if b < 0x20 {
        seq![0x5cu8, 0x75u8, 0x30u8, 0x30u8, hex_digit(b / 16), hex_digit(b % 16)]
    } else {
        seq![b]
    }
}

/// The bytes of a string's text inside JSON quotes.
pub open spec fn json_escaped(bytes: Seq<u8>) -> Seq<u8>
    decreases bytes.len(),
{
    if bytes.len() == 0 {
        Seq::empty()
    } else {
        json_escaped(bytes.drop_last()) + json_escape_byte(bytes.last())
    }
}

/// The pretty-printed JSON text of the object `{key: value}`: the entry on
/// a line of its own, indented by two spaces.
pub open spec fn pretty_json_entry(key: Seq<char>, value: Seq<char>) -> Seq<u8> {
    seq![0x7bu8, 0x0au8, 0x20u8, 0x20u8, 0x22u8] + json_escaped(encode_utf8(key)) + seq![
        0x22u8,
        0x3au8,
        0x20u8,
        0x22u8,
    ] + json_escaped(encode_utf8(value)) + seq![0x22u8, 0x0au8, 0x7du8]
}

/// `serde_json::to_vec_pretty` on the one-entry object `{key: value}`:
/// the pretty text above. Writing strings into a vector cannot fail, so
/// the empty default for an error is never taken.
#[verifier::external_body]
fn json_entry_bytes(key: &str, value: &str) -> (r: Vec<u8>)
    ensures
        r@ == pretty_json_entry(key@, value@),
{
    let mut object = serde_json::Map::new();
    object.insert(key.to_string(), serde_json::Value::String(value.to_string()));
    serde_json::to_vec_pretty(&serde_json::Value::Object(object)).unwrap_or_default()
}

pub open spec fn json_content() -> Seq<char> {
    "application/json; charset=utf-8"@
}

/// The body of an error answer: `{"error": message}`, pretty-printed.
pub open spec fn error_body(message: Seq<char>) -> Seq<u8> {
    pretty_json_entry("error"@, message)
}

fn error_response(status: u16, message: &str) -> (r: HttpResponse)
    ensures
        r.status == status,
        r.content_type@ == json_content(),
        r.body@ == error_body(message@),
{
    let body = json_entry_bytes("error", message);
    HttpResponse { status, content_type: "application/json; charset=utf-8", body }
}

impl HttpResponse {
    pub fn ok_html(html: String) -> (r: Self)
        ensures
            r.status == 200,
            r.content_type@ == "text/html; charset=utf-8"@,
            r.body@ == encode_utf8(html@),
    {
        HttpResponse {
            status: 200,
            content_type: "text/html; charset=utf-8",
            body: html.as_str().as_bytes_vec(),
        }
    }

    pub fn no_content() -> (r: Self)
        ensures
            r.status == 204,
            r.content_type@ == "text/plain; charset=utf-8"@,
            r.body@.len() == 0,
    {
        HttpResponse { status: 204, content_type: "text/plain; charset=utf-8", body: Vec::new() }
    }

    pub fn bad_request(message: &str) -> (r: Self)
        ensures
            r.status == 400,
            r.content_type@ == json_content(),
            r.body@ == error_body(message@),
    {
        error_response(400, message)
    }

    pub fn not_found() -> (r: Self)
        ensures
            r.status == 404,
            r.content_type@ == json_content(),
            r.body@ == error_body("not found"@),
    {
        error_response(404, "not found")
    }

    pub fn forbidden(message: &str) -> (r: Self)
        ensures
            r.status == 403,
            r.content_type@ == json_content(),
            r.body@ == error_body(message@),
    {
        error_response(403, message)
    }
}

/// The reason phrase written for a status code.
pub open spec fn reason(status: u16) -> Seq<char> {
    if status == 204 {
        "No Content"@
    } else if status == 400 {
        "Bad Request"@
    } else if status == 403 {
        "Forbidden"@
    } else if status == 404 {
        "Not Found"@
    } else {
        "OK"@
    }
}

pub fn status_text(status: u16) -> (s: &'static str)
    ensures
        s@ == reason(status),
{
    if status == 204 {
        "No Content"
    } else if status == 400 {
        "Bad Request"
    } else if status == 403 {
        "Forbidden"
    } else if status == 404 {
        "Not Found"
    } else {
        "OK"
    }
}

/// The status line and headers written before a response body.
pub open spec fn response_head(status: u16, content_type: Seq<char>, len: nat) -> Seq<char> {
    "HTTP/1.1 "@ + decimal(status as nat) + " "@ + reason(status) + "\r\nContent-Type: "@
        + content_type + "\r\nContent-Length: "@ + decimal(len) + "\r\nConnection: close\r\n\r\n"@
}

/// The bytes written for `response`: its head, then its body.
pub fn response_bytes(response: &HttpResponse) -> (out: Vec<u8>)
    ensures
        out@ == encode_utf8(
            response_head(response.status, response.content_type@, response.body@.len()),
        ) + response.body@,
{
    let mut head = crate::text::concat3("HTTP/1.1 ", decimal_string(response.status as u64).as_str(), " ");
    head = crate::text::concat3(head.as_str(), status_text(response.status), "\r\nContent-Type: ");
    head = crate::text::concat3(head.as_str(), response.content_type, "\r\nContent-Length: ");
    head = crate::text::concat3(
        head.as_str(),
        decimal_string(response.body.len() as u64).as_str(),
        "\r\nConnection: close\r\n\r\n",
    );
    let mut out = head.as_str().as_bytes_vec();
    let ghost h = out@;
    let n = response.body.len();
    let mut i: usize = 0;
    while i < n
        invariant
            n == response.body@.len(),
            i <= n,
            out@ == h + response.body@.take(i as int),
        decreases n - i,
    {
        out.push(response.body[i]);
        i = i + 1;
        assert(out@ =~= h + response.body@.take(i as int));
    }
    assert(response.body@.take(n as int) =~= response.body@);
    out
}

/// Whether a request carries the control-plane token, and, for a `POST`
/// with an `Origin` header, comes from the server's own origin.
pub open spec fn authorized(
    method: HttpMethod,
    hs: Seq<(Seq<char>, Seq<char>)>,
    token: Seq<char>,
    origin: Seq<char>,
) -> bool {
    &&& header_value(hs, crate::control_plane::UI_AUTH_HEADER@) == Some(token)
    &&& (method == HttpMethod::Post ==> match header_value(hs, "origin"@) {
        Some(o) => o == origin,
        None => true,
    })
}

pub fn request_is_authorized(request: &HttpRequest, token: &str, origin: &str) -> (r: bool)
    ensures
        r == authorized(request.method, pairs_view(request.headers@), token@, origin@),
{
    match header_index(&request.headers, crate::control_plane::UI_AUTH_HEADER) {
        Some(i) => {
            if !str_eq(request.headers[i].1.as_str(), token) {
                return false;
            }
        },
        None => {
            return false;
        },
    }
    if request.method == HttpMethod::Post {
        if let Some(i) = header_index(&request.headers, "origin") {
            return str_eq(request.headers[i].1.as_str(), origin);
        }
    }
    true
}

} // verus!
