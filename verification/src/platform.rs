use vstd::prelude::*;
use crate::state_store::{join, join_path};
use std::time::{Duration, SystemTime};

verus! {

#[verifier::external_type_specification]
#[verifier::external_body]
pub struct ExSystemTime(std::time::SystemTime);

/// `dirs::home_dir`, as text: the user's home directory, if the system
/// names one (it depends on the environment, so nothing is claimed of it).
#[verifier::external_body]
fn home_dir_text() -> Option<String> {
    dirs::home_dir().map(|p| p.to_string_lossy().into_owned())
}

/// `SystemTime::now`.
#[verifier::external_body]
fn system_now() -> SystemTime {
    SystemTime::now()
}

/// `SystemTime::duration_since(UNIX_EPOCH)`, when the time is not before it.
#[verifier::external_body]
fn since_unix_epoch(t: &SystemTime) -> Option<Duration> {
    t.duration_since(std::time::UNIX_EPOCH).ok()
}

/// `Duration::as_secs`.
#[verifier::external_body]
fn duration_secs(d: &Duration) -> u64 {
    d.as_secs()
}

/// The user's home directory, when there is one.
pub fn home_dir() -> Option<String> {
    home_dir_text()
}

/// Seconds since the Unix epoch now (zero for a clock set before it).
pub fn unix_now_secs() -> u64 {
    let now = system_now();
    match since_unix_epoch(&now) {
        Some(d) => duration_secs(&d),
        None => 0,
    }
}

/// Where the user's extensions live below a home directory.
pub open spec fn extensions_dir_in(home: Seq<char>) -> Seq<char> {
    join(join(home, ".Copper"@), "extensions"@)
}

pub fn extensions_dir_from_home(home: Option<&str>) -> (r: String)
    ensures
        match home {
            Some(h) => r@ == extensions_dir_in(h@),
            None => r@ == extensions_dir_in("."@),
        },
{
    let base = match home {
        Some(h) => h,
        None => ".",
    };
    let dir = join_path(base, ".Copper");
    join_path(dir.as_str(), "extensions")
}

/// The user's extension directory: below the home directory, or below the
/// working directory when there is none.
pub fn default_extensions_dir() -> (r: String)
    ensures
        exists|h: Seq<char>| r@ == extensions_dir_in(h),
{
    let home = home_dir();
    match &home {
        Some(h) => extensions_dir_from_home(Some(h.as_str())),
        None => extensions_dir_from_home(None),
    }
}

} // verus!
