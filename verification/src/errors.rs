//! Error taxonomy surfaced by the control-plane core.

use vstd::prelude::*;

verus! {

/// Everything the core can fail with. Callers match on the variant to pick
/// an HTTP status; `message` renders the human-readable body.
#[derive(Debug)]
pub enum CoreError {
    /// A tenant with the requested id already exists.
    Duplicate,
    /// No tenant with the requested id.
    NotFound,
    /// A lifecycle precondition was violated (e.g. pause on a non-running tenant).
    InvalidState,
    /// The allocator already holds a subnet for this tenant.
    AlreadyAllocated,
    /// The subnet allocator ran out of indices.
    PoolExhausted,
    /// The host egress interface could not be determined.
    HostIfaceDetection,
    /// A host command (network or volume tooling) exited non-zero.
    CommandFailed,
    /// The hypervisor API answered with a non-2xx status.
    HypervisorApi { path: String, code: u16, body: String },
    /// The hypervisor control socket never appeared.
    SocketTimeout,
    /// A filesystem operation failed.
    Io,
    /// A persistence operation failed.
    Db,
}

impl CoreError {
    /// Short stable description of the error, used for API error bodies.
    pub fn message(&self) -> (r: String)
        ensures
            r@.len() > 0,
    {
        let s: &str = match self {
            CoreError::Duplicate => "tenant already exists",
            CoreError::NotFound => "tenant not found",
            CoreError::InvalidState => "operation not allowed in current tenant state",
            CoreError::AlreadyAllocated => "subnet already allocated for tenant",
            CoreError::PoolExhausted => "subnet pool exhausted",
            CoreError::HostIfaceDetection => "could not detect host network interface",
            CoreError::CommandFailed => "host command failed",
            CoreError::HypervisorApi { .. } => "hypervisor API request failed",
            CoreError::SocketTimeout => "hypervisor socket did not appear",
            CoreError::Io => "filesystem error",
            CoreError::Db => "database error",
        };
        proof {
            reveal_strlit("tenant already exists");
            reveal_strlit("tenant not found");
            reveal_strlit("operation not allowed in current tenant state");
            reveal_strlit("subnet already allocated for tenant");
            reveal_strlit("subnet pool exhausted");
            reveal_strlit("could not detect host network interface");
            reveal_strlit("host command failed");
            reveal_strlit("hypervisor API request failed");
            reveal_strlit("hypervisor socket did not appear");
            reveal_strlit("filesystem error");
            reveal_strlit("database error");
        }
        String::from_str(s)
    }
}

} // verus!
