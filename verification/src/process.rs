//! Where the bundled proxy binary lies and how it is started.

use vstd::prelude::*;

verus! {

/// The directory, under the application's resources, that holds the proxy.
pub const BINARIES_DIR: &'static str = "binaries";

/// The argument that the proxy binary is started with.
pub const START_ARGUMENT: &'static str = "start";

/// The file name of the proxy binary: with the `.exe` suffix on Windows.
pub fn binary_name(windows: bool) -> (name: &'static str)
    ensures
        name@ == (if windows {
            "llm-proxy.exe"@
        } else {
            "llm-proxy"@
        }),
{
    if windows {
        "llm-proxy.exe"
    } else {
        "llm-proxy"
    }
}

} // verus!
