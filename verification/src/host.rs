//! Probes of live host state that the core consults: filesystem presence
//! and process liveness.

use vstd::prelude::*;

verus! {

/// Relies on `std::path::Path::exists`: whether a path currently exists
/// on the host filesystem. The answer is a property of the machine at
/// the moment of the call, so nothing further can be promised of it.
#[verifier::external_body]
pub fn path_exists(path: &str) -> bool {
    std::path::Path::new(path).exists()
}

/// Whether a process with the given PID is currently alive, judged by
/// its `/proc` entry.
pub fn process_alive(pid: u32) -> bool {
    let p = crate::tenant::proc_path_for(pid);
    path_exists(p.as_str())
}

} // verus!
