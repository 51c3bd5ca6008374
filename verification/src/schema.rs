use vstd::prelude::*;
use crate::descriptor::{Descriptor, SUPPORTED_SCHEMA_URL};
use crate::chars::split;
use crate::text::{concat2, owned, str_eq};

verus! {

/// Why a manifest was refused.
#[derive(Debug)]
pub enum ValidationError {
    InvalidJson(String),
    SchemaCompilation(String),
    SchemaViolation(String),
    UnsupportedSchema(String),
    InvalidVersion(String),
}

impl ValidationError {
    pub open spec fn message(&self) -> Seq<char> {
        match self {
            ValidationError::InvalidJson(m) => "invalid JSON: "@ + m@,
            ValidationError::SchemaCompilation(m) => "schema compilation failed: "@ + m@,
            ValidationError::SchemaViolation(m) => "descriptor schema validation failed:\\n"@ + m@,
            ValidationError::UnsupportedSchema(m) => "unsupported schema url: "@ + m@,
            ValidationError::InvalidVersion(m) => "version field is not valid semver: "@ + m@,
        }
    }

    pub fn to_string(&self) -> (s: String)
        ensures
            s@ == self.message(),
    {
        match self {
            ValidationError::InvalidJson(m) => concat2("invalid JSON: ", m.as_str()),
            ValidationError::SchemaCompilation(m) => concat2("schema compilation failed: ", m.as_str()),
            ValidationError::SchemaViolation(m) => concat2(
                "descriptor schema validation failed:\\n",
                m.as_str(),
            ),
            ValidationError::UnsupportedSchema(m) => concat2("unsupported schema url: ", m.as_str()),
            ValidationError::InvalidVersion(m) => concat2(
                "version field is not valid semver: ",
                m.as_str(),
            ),
        }
    }
}

pub open spec fn is_ascii_digit(c: char) -> bool {
    '0' <= c && c <= '9'
}

/// A character that may stand in a pre-release or build identifier.
pub open spec fn is_identifier_char(c: char) -> bool {
    is_ascii_digit(c) || ('A' <= c && c <= 'Z') || ('a' <= c && c <= 'z') || c == '-'
}

/// The value of a run of decimal digits.
pub open spec fn decimal_value(d: Seq<char>) -> nat
    decreases d.len(),
{
    if d.len() == 0 {
        0
    } else {
        decimal_value(d.drop_last()) * 10 + (d.last() as int - 48) as nat
    }
}

/// A version number: decimal digits without a leading zero, at most
/// `u64::MAX`.
pub open spec fn version_number(d: Seq<char>) -> bool {
    &&& d.len() > 0
    &&& forall|i: int| 0 <= i < d.len() ==> is_ascii_digit(#[trigger] d[i])
    &&& (d.len() == 1 || d[0] != '0')
    &&& decimal_value(d) <= u64::MAX
}

/// Dot-separated identifiers, none empty; in a pre-release an identifier
/// of digits alone has no leading zero.
pub open spec fn dotted_identifiers(s: Seq<char>, pre_release: bool) -> bool {
    forall|i: int|
        0 <= i < split(s, '.').len() ==> {
            let seg = #[trigger] split(s, '.')[i];
            &&& seg.len() > 0
            &&& forall|j: int| 0 <= j < seg.len() ==> is_identifier_char(seg[j])
            &&& (pre_release && seg.len() > 1 && forall|j: int| 0 <= j < seg.len() ==> is_ascii_digit(seg[j]))
                ==> seg[0] != '0'
        }
}

/// The length of the longest prefix of `s` that holds neither `a` nor `b`.
pub open spec fn run_before(s: Seq<char>, a: char, b: char) -> nat
    decreases s.len(),
{
    if s.len() == 0 || s[0] == a || s[0] == b {
        0
    } else {
        1 + run_before(s.drop_first(), a, b)
    }
}

/// SemVer text as `semver::Version::parse` accepts it: three version
/// numbers joined by dots, then optionally `-` and pre-release identifiers,
/// then optionally `+` and build identifiers, and nothing else.
pub open spec fn is_semver(s: Seq<char>) -> bool {
    let n = run_before(s, '-', '+');
    let parts = split(s.take(n as int), '.');
    let rest = s.skip(n as int);
    &&& parts.len() == 3
    &&& version_number(parts[0])
    &&& version_number(parts[1])
    &&& version_number(parts[2])
    &&& if rest.len() == 0 {
        true
    } else if rest[0] == '-' {
        let after = rest.drop_first();
        let m = run_before(after, '+', '+');
        &&& dotted_identifiers(after.take(m as int), true)
        &&& (m < after.len() ==> dotted_identifiers(after.skip(m + 1int), false))
    } else {
        dotted_identifiers(rest.drop_first(), false)
    }
}

/// `semver::Version::parse(s).is_ok()`: whether the text is SemVer as the
/// crate's parser reads it.
#[verifier::external_body]
fn semver_parses(s: &str) -> (r: bool)
    ensures
        r == is_semver(s@),
{
    semver::Version::parse(s).is_ok()
}

/// The checks a manifest must pass after it has been read: a declared
/// `$schema` must be the supported one, and `version` must be SemVer.
pub fn check_descriptor(descriptor: &Descriptor) -> (r: Result<(), ValidationError>)
    ensures
        match descriptor.schema {
            Some(s) if s@ != SUPPORTED_SCHEMA_URL@ => r matches Err(ValidationError::UnsupportedSchema(m))
                && m@ == s@,
            _ => if is_semver(descriptor.version@) {
                r is Ok
            } else {
                r matches Err(ValidationError::InvalidVersion(m)) && m@ == descriptor.version@
            },
        },
{
    if let Some(schema) = &descriptor.schema {
        if !str_eq(schema.as_str(), SUPPORTED_SCHEMA_URL) {
            return Err(ValidationError::UnsupportedSchema(owned(schema.as_str())));
        }
    }
    if !semver_parses(descriptor.version.as_str()) {
        return Err(ValidationError::InvalidVersion(owned(descriptor.version.as_str())));
    }
    Ok(())
}

} // verus!
