use vstd::prelude::*;
use crate::config_ui::UiConfigError;
use crate::text::owned;

verus! {

/// Opens a settings page in a native webview window. This build has no
/// native window support, so the request is always refused.
pub fn open_in_native_window(url: &str) -> (r: Result<(), UiConfigError>)
    ensures
        r matches Err(UiConfigError::Window(m)) && m@ == "native UI support is not available in this build"@,
{
    Err(UiConfigError::Window(owned("native UI support is not available in this build")))
}

} // verus!
