use vstd::prelude::*;
use crate::chars::{trim, trim_chars};
use crate::state_store::{join, join_path};
use crate::text::{chars_of, push_char};

verus! {

/// Field of an IPC request that carries the control-plane token.
pub const IPC_AUTH_FIELD: &'static str = "token";

/// Header of a settings-UI request that carries the control-plane token.
pub const UI_AUTH_HEADER: &'static str = "x-copper-token";

/// Thirty-two bytes from the operating system's random source
/// (`OsRng::try_fill_bytes`), or `None` when that source fails. Only their
/// number is stated; whether the source fails is not.
#[verifier::external_body]
fn random_token_bytes() -> (bytes: Option<Vec<u8>>)
    ensures
        bytes matches Some(b) ==> b@.len() == 32,
{
    let mut bytes = [0u8; 32];
    rand::RngCore::try_fill_bytes(&mut rand::rngs::OsRng, &mut bytes).ok().map(|_| bytes.to_vec())
}

/// The message when no fresh token can be made.
pub open spec fn no_random_source() -> Seq<char> {
    "the operating system's random source failed"@
}

/// The lowercase hexadecimal digit of a value below sixteen.
pub open spec fn hex_digit(n: int) -> char {
    if n < 10 {
        ((n + 48) as u8) as char
    } else {
        ((n + 87) as u8) as char
    }
}

/// Bytes written as lowercase hexadecimal, two digits a byte.
pub open spec fn hex_text(bytes: Seq<u8>) -> Seq<char>
    decreases bytes.len(),
{
    if bytes.len() == 0 {
        seq![]
    } else {
        hex_text(bytes.drop_last()) + seq![hex_digit(bytes.last() as int / 16), hex_digit(bytes.last() as int % 16)]
    }
}

/// Whether `c` is a lowercase hexadecimal digit.
pub open spec fn is_hex_char(c: char) -> bool {
    ('0' <= c <= '9') || ('a' <= c <= 'f')
}

/// A control-plane token: sixty-four lowercase hexadecimal digits.
pub open spec fn is_token_text(t: Seq<char>) -> bool {
    t.len() == 64 && forall|i: int| 0 <= i < t.len() ==> is_hex_char(#[trigger] t[i])
}

proof fn lemma_hex_text(bytes: Seq<u8>)
    ensures
        hex_text(bytes).len() == 2 * bytes.len(),
        forall|i: int| 0 <= i < hex_text(bytes).len() ==> is_hex_char(#[trigger] hex_text(bytes)[i]),
    decreases bytes.len(),
{
    if bytes.len() > 0 {
        lemma_hex_text(bytes.drop_last());
        let b = bytes.last();
        let hi = b / 16;
        let lo = b % 16;
        assert(is_hex_char(hex_digit(hi as int))) by {
            if hi < 10 {
                assert(((hi + 48) as u8) as char == ((hi + 48) as u8) as char);
            }
        }
        assert(is_hex_char(hex_digit(lo as int)));
        let prev = hex_text(bytes.drop_last());
        assert forall|i: int| 0 <= i < hex_text(bytes).len() implies is_hex_char(#[trigger] hex_text(bytes)[i]) by {
            if i < prev.len() {
                assert(hex_text(bytes)[i] == prev[i]);
            }
        }
    }
}

fn hex_char(n: u8) -> (c: char)
    requires
        n < 16,
    ensures
        c == hex_digit(n as int),
{
    if n < 10 {
        (n + 48) as char
    } else {
        (n + 87) as char
    }
}

/// Writes bytes as lowercase hexadecimal.
pub fn hex_string(bytes: &[u8]) -> (s: String)
    ensures
        s@ == hex_text(bytes@),
{
    let mut s = String::new();
    let mut i: usize = 0;
    while i < bytes.len()
        invariant
            i <= bytes@.len(),
            s@ == hex_text(bytes@.take(i as int)),
        decreases bytes@.len() - i,
    {
        let b = bytes[i];
        assert(bytes@.take(i + 1).drop_last() =~= bytes@.take(i as int));
        push_char(&mut s, hex_char(b / 16));
        push_char(&mut s, hex_char(b % 16));
        i = i + 1;
    }
    assert(bytes@.take(i as int) =~= bytes@);
    s
}

/// A fresh random token, or the refusal when the random source fails.
fn generate_token() -> (t: Result<String, String>)
    ensures
        match t {
            Ok(s) => is_token_text(s@),
            Err(e) => e@ == no_random_source(),
        },
{
    match random_token_bytes() {
        Some(bytes) => {
            proof {
                lemma_hex_text(bytes@);
            }
            Ok(hex_string(bytes.as_slice()))
        },
        None => Err(crate::text::owned("the operating system's random source failed")),
    }
}

/// Whether a text is empty once surrounding whitespace is removed.
pub fn is_blank(s: &str) -> (r: bool)
    ensures
        r == (trim(s@).len() == 0),
{
    let cs = chars_of(s);
    let t = trim_chars(cs.as_slice());
    t.len() == 0
}

/// Where the shared token is kept below a home directory.
pub open spec fn auth_file_in(home: Seq<char>) -> Seq<char> {
    join(join(join(home, ".Copper"@), "control-plane"@), "auth.json"@)
}

pub fn auth_file_path_in(home: &str) -> (p: String)
    ensures
        p@ == auth_file_in(home@),
{
    let a = join_path(home, ".Copper");
    let b = join_path(a.as_str(), "control-plane");
    join_path(b.as_str(), "auth.json")
}

/// The token that authorizes control-plane requests, and whether it is
/// shared with other processes through the auth file.
#[derive(Debug, Clone)]
pub struct ControlPlaneAuth {
    token: String,
    persisted: bool,
}

impl ControlPlaneAuth {
    pub closed spec fn token_spec(&self) -> Seq<char> {
        self.token@
    }

    pub closed spec fn persisted_spec(&self) -> bool {
        self.persisted
    }

    /// A fresh token for this process only, or the refusal when the random
    /// source fails.
    pub fn ephemeral() -> (r: Result<Self, String>)
        ensures
            match r {
                Ok(a) => is_token_text(a.token_spec()) && !a.persisted_spec(),
                Err(e) => e@ == no_random_source(),
            },
    {
        match generate_token() {
            Ok(token) => Ok(ControlPlaneAuth { token, persisted: false }),
            Err(e) => Err(e),
        }
    }

    /// The shared token from the token saved in the auth file: the saved one
    /// when it is not blank, else a fresh one. The flag says whether the
    /// file must be written. Only a fresh token can fail, when the random
    /// source does.
    pub fn from_saved(saved: Option<String>) -> (r: Result<(Self, bool), String>)
        ensures
            match saved {
                Some(t) if trim(t@).len() > 0 => r matches Ok((a, write)) && a.persisted_spec()
                    && a.token_spec() == t@ && !write,
                _ => match r {
                    Ok((a, write)) => a.persisted_spec() && is_token_text(a.token_spec()) && write,
                    Err(e) => e@ == no_random_source(),
                },
            },
    {
        match saved {
            Some(t) => {
                if !is_blank(t.as_str()) {
                    return Ok((ControlPlaneAuth { token: t, persisted: true }, false));
                }
            },
            None => {},
        }
        match generate_token() {
            Ok(token) => Ok((ControlPlaneAuth { token, persisted: true }, true)),
            Err(e) => Err(e),
        }
    }

    pub fn token(&self) -> (t: &str)
        ensures
            t@ == self.token_spec(),
    {
        self.token.as_str()
    }

    /// Whether the token is shared through the auth file.
    pub fn is_persisted(&self) -> (r: bool)
        ensures
            r == self.persisted_spec(),
    {
        self.persisted
    }
}

} // verus!
