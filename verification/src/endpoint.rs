//! Where the listener is reached.

use vstd::prelude::*;

verus! {

/// The name of the listener's socket inside the per-user runtime directory.
pub open spec fn socket_name() -> Seq<char> {
    "maypaper.sock"@
}

/// The listener's socket in the runtime directory `runtime_dir`.
pub fn default_socket_path(runtime_dir: &str) -> (path: String)
    ensures
        path@ == runtime_dir@ + seq!['/'] + socket_name(),
{
    proof {
        reveal_strlit("/");
    }
    runtime_dir.to_owned().concat("/").concat("maypaper.sock")
}

/// The listener's socket: the configured one, or else the default one in
/// the runtime directory `runtime_dir`.
pub fn socket_path(configured: Option<String>, runtime_dir: &str) -> (path: String)
    ensures
        path@ == match configured {
            Some(chosen) => chosen@,
            None => runtime_dir@ + seq!['/'] + socket_name(),
        },
{
    match configured {
        Some(chosen) => chosen,
        None => default_socket_path(runtime_dir),
    }
}

} // verus!
