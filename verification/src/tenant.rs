//! Tenant data model: tiers, lifecycle states, the tenant record itself,
//! the textual encodings used by the durable store, and the reconciliation
//! decision applied at recovery.

use vstd::prelude::*;

use crate::strutil::dec_str;

verus! {

broadcast use vstd::string::group_string_axioms;

/// Resource tier of a tenant.
#[derive(Debug, Clone, Copy, PartialEq, Eq, Structural)]
pub enum Tier {
    Free,
    Pro,
    Team,
    Enterprise,
}

impl Tier {
    /// Number of virtual CPUs granted to this tier.
    pub fn vcpu(&self) -> (r: u32)
        ensures
            r == spec_vcpu(*self),
    {
        match self {
            Tier::Free => 1,
            Tier::Pro => 1,
            Tier::Team => 2,
            Tier::Enterprise => 4,
        }
    }

    /// Guest memory in MiB granted to this tier.
    pub fn memory_mb(&self) -> (r: u32)
        ensures
            r == spec_memory_mb(*self),
    {
        match self {
            Tier::Free => 128,
            Tier::Pro => 256,
            Tier::Team => 512,
            Tier::Enterprise => 1024,
        }
    }

    /// Data volume size in MiB granted to this tier.
    pub fn disk_mb(&self) -> (r: u32)
        ensures
            r == spec_disk_mb(*self),
    {
        match self {
            Tier::Free => 128,
            Tier::Pro => 512,
            Tier::Team => 2048,
            Tier::Enterprise => 8192,
        }
    }
}

pub open spec fn spec_vcpu(t: Tier) -> u32 {
    match t {
        Tier::Free => 1,
        Tier::Pro => 1,
        Tier::Team => 2,
        Tier::Enterprise => 4,
    }
}

pub open spec fn spec_memory_mb(t: Tier) -> u32 {
    match t {
        Tier::Free => 128,
        Tier::Pro => 256,
        Tier::Team => 512,
        Tier::Enterprise => 1024,
    }
}

pub open spec fn spec_disk_mb(t: Tier) -> u32 {
    match t {
        Tier::Free => 128,
        Tier::Pro => 512,
        Tier::Team => 2048,
        Tier::Enterprise => 8192,
    }
}

/// Lifecycle state of a tenant.
#[derive(Debug, Clone, Copy, PartialEq, Eq, Structural)]
pub enum TenantStatus {
    Creating,
    Running,
    Stopped,
    Paused,
    Failed,
}

// ---------------------------------------------------------------------------
// Textual encodings of the enums (as stored in the catalog)
// ---------------------------------------------------------------------------

pub open spec fn spec_tier_str(t: Tier) -> Seq<char> {
    match t {
        Tier::Free => "Free"@,
        Tier::Pro => "Pro"@,
        Tier::Team => "Team"@,
        Tier::Enterprise => "Enterprise"@,
    }
}

/// Stored name of a tier.
pub fn tier_to_str(tier: &Tier) -> (r: &'static str)
    ensures
        r@ == spec_tier_str(*tier),
{
    match tier {
        Tier::Free => "Free",
        Tier::Pro => "Pro",
        Tier::Team => "Team",
        Tier::Enterprise => "Enterprise",
    }
}

/// Tier denoted by a stored name; unknown names map to `Free` so that a
/// catalog written by a newer version still loads.
pub open spec fn spec_tier_of_str(s: Seq<char>) -> Tier {
    if s == "Free"@ {
        Tier::Free
    } else if s == "Pro"@ {
        Tier::Pro
    } else if s == "Team"@ {
        Tier::Team
    } else if s == "Enterprise"@ {
        Tier::Enterprise
    } else {
        Tier::Free
    }
}

pub fn str_to_tier(s: &str) -> (r: Tier)
    ensures
        r == spec_tier_of_str(s@),
{
    if crate::strutil::str_eq(s, "Free") {
        Tier::Free
    } else if crate::strutil::str_eq(s, "Pro") {
        Tier::Pro
    } else if crate::strutil::str_eq(s, "Team") {
        Tier::Team
    } else if crate::strutil::str_eq(s, "Enterprise") {
        Tier::Enterprise
    } else {
        Tier::Free
    }
}

pub open spec fn spec_status_str(s: TenantStatus) -> Seq<char> {
    match s {
        TenantStatus::Creating => "Creating"@,
        TenantStatus::Running => "Running"@,
        TenantStatus::Stopped => "Stopped"@,
        TenantStatus::Paused => "Paused"@,
        TenantStatus::Failed => "Failed"@,
    }
}

/// Stored name of a status.
pub fn status_to_str(status: &TenantStatus) -> (r: &'static str)
    ensures
        r@ == spec_status_str(*status),
{
    match status {
        TenantStatus::Creating => "Creating",
        TenantStatus::Running => "Running",
        TenantStatus::Stopped => "Stopped",
        TenantStatus::Paused => "Paused",
        TenantStatus::Failed => "Failed",
    }
}

/// Status denoted by a stored name; unknown names map to `Failed` rather
/// than refusing to load the record.
pub open spec fn spec_status_of_str(s: Seq<char>) -> TenantStatus {
    if s == "Creating"@ {
        TenantStatus::Creating
    } else if s == "Running"@ {
        TenantStatus::Running
    } else if s == "Stopped"@ {
        TenantStatus::Stopped
    } else if s == "Paused"@ {
        TenantStatus::Paused
    } else if s == "Failed"@ {
        TenantStatus::Failed
    } else {
        TenantStatus::Failed
    }
}

pub fn str_to_status(s: &str) -> (r: TenantStatus)
    ensures
        r == spec_status_of_str(s@),
{
    if crate::strutil::str_eq(s, "Creating") {
        TenantStatus::Creating
    } else if crate::strutil::str_eq(s, "Running") {
        TenantStatus::Running
    } else if crate::strutil::str_eq(s, "Stopped") {
        TenantStatus::Stopped
    } else if crate::strutil::str_eq(s, "Paused") {
        TenantStatus::Paused
    } else {
        TenantStatus::Failed
    }
}

/// The round trip through the stored names is the identity: every tier and
/// status loads back as itself.
pub proof fn lemma_enum_str_round_trip(t: Tier, s: TenantStatus)
    ensures
        spec_tier_of_str(spec_tier_str(t)) == t,
        spec_status_of_str(spec_status_str(s)) == s,
{
    reveal_strlit("Free");
    reveal_strlit("Pro");
    reveal_strlit("Team");
    reveal_strlit("Enterprise");
    reveal_strlit("Creating");
    reveal_strlit("Running");
    reveal_strlit("Stopped");
    reveal_strlit("Paused");
    reveal_strlit("Failed");
    assert(("Free"@).len() == 4);
    assert(("Pro"@).len() == 3);
    assert(("Team"@).len() == 4);
    assert(("Enterprise"@).len() == 10);
    assert(("Free"@)[0] == 'F');
    assert(("Team"@)[0] == 'T');
    assert("Team"@ != "Free"@);
    assert(("Creating"@).len() == 8);
    assert(("Running"@).len() == 7);
    assert(("Stopped"@).len() == 7);
    assert(("Paused"@).len() == 6);
    assert(("Failed"@).len() == 6);
    assert(("Running"@)[0] == 'R');
    assert(("Stopped"@)[0] == 'S');
    assert(("Paused"@)[0] == 'P');
    assert(("Failed"@)[0] == 'F');
    assert("Stopped"@ != "Running"@);
    assert("Failed"@ != "Paused"@);
}

/// Tier named in an API create request; case-sensitive, unknown names are
/// rejected.
pub open spec fn spec_api_tier(s: Seq<char>) -> Option<Tier> {
    if s == "free"@ {
        Some(Tier::Free)
    } else if s == "pro"@ {
        Some(Tier::Pro)
    } else if s == "team"@ {
        Some(Tier::Team)
    } else if s == "enterprise"@ {
        Some(Tier::Enterprise)
    } else {
        None
    }
}

pub fn parse_api_tier(s: &str) -> (r: Option<Tier>)
    ensures
        r == spec_api_tier(s@),
{
    if crate::strutil::str_eq(s, "free") {
        Some(Tier::Free)
    } else if crate::strutil::str_eq(s, "pro") {
        Some(Tier::Pro)
    } else if crate::strutil::str_eq(s, "team") {
        Some(Tier::Team)
    } else if crate::strutil::str_eq(s, "enterprise") {
        Some(Tier::Enterprise)
    } else {
        None
    }
}

// ---------------------------------------------------------------------------
// The tenant record
// ---------------------------------------------------------------------------

/// Abstract value of a tenant record.
pub struct TenantView {
    pub id: Seq<char>,
    pub tier: Tier,
    pub status: TenantStatus,
    pub vm_ip: Seq<char>,
    pub gateway_ip: Seq<char>,
    pub tap_device: Seq<char>,
    pub socket_path: Seq<char>,
    pub data_dir: Seq<char>,
    pub vm_pid: Option<u32>,
    pub channels: Seq<Seq<char>>,
    pub created_at: i64,
    pub skip_tool_approval: bool,
}

/// A tenant and everything attached to it: its microVM addresses, host
/// artifacts, lifecycle state and policy flags. `created_at` counts UTC
/// seconds since the epoch.
#[derive(Debug)]
pub struct Tenant {
    pub id: String,
    pub tier: Tier,
    pub status: TenantStatus,
    pub vm_ip: String,
    pub gateway_ip: String,
    pub tap_device: String,
    pub socket_path: String,
    pub data_dir: String,
    pub vm_pid: Option<u32>,
    pub channels: Vec<String>,
    pub created_at: i64,
    /// When set, the guest is told to skip the approval loop for high-risk
    /// tools. Only for trusted tenants.
    pub skip_tool_approval: bool,
}

impl View for Tenant {
    type V = TenantView;

    open spec fn view(&self) -> TenantView {
        TenantView {
            id: self.id@,
            tier: self.tier,
            status: self.status,
            vm_ip: self.vm_ip@,
            gateway_ip: self.gateway_ip@,
            tap_device: self.tap_device@,
            socket_path: self.socket_path@,
            data_dir: self.data_dir@,
            vm_pid: self.vm_pid,
            channels: self.channels.deep_view(),
            created_at: self.created_at,
            skip_tool_approval: self.skip_tool_approval,
        }
    }
}

/// Copies a list of strings, preserving its abstract value.
pub fn clone_strings(v: &Vec<String>) -> (r: Vec<String>)
    ensures
        r.deep_view() == v.deep_view(),
{
    let mut r: Vec<String> = Vec::new();
    let mut i: usize = 0;
    while i < v.len()
        invariant
            0 <= i <= v@.len(),
            r@.len() == i,
            forall|k: int| 0 <= k < i ==> #[trigger] r@[k]@ == v@[k]@,
        decreases v@.len() - i,
    {
        r.push(v[i].clone());
        i = i + 1;
    }
    proof {
        assert(r.deep_view() =~= v.deep_view());
    }
    r
}

impl Clone for Tenant {
    /// Copies the record, preserving its abstract value.
    fn clone(&self) -> (r: Self)
        ensures
            r@ == self@,
    {
        Tenant {
            id: self.id.clone(),
            tier: self.tier,
            status: self.status,
            vm_ip: self.vm_ip.clone(),
            gateway_ip: self.gateway_ip.clone(),
            tap_device: self.tap_device.clone(),
            socket_path: self.socket_path.clone(),
            data_dir: self.data_dir.clone(),
            vm_pid: self.vm_pid,
            channels: clone_strings(&self.channels),
            created_at: self.created_at,
            skip_tool_approval: self.skip_tool_approval,
        }
    }
}

/// What a caller asks for when creating a tenant.
pub struct CreateTenantRequest {
    pub tenant_id: String,
    pub tier: Tier,
    pub channels: Vec<String>,
    pub env_vars: Vec<(String, String)>,
    pub skip_tool_approval: bool,
}

/// Health report for a tenant, as served by the control API.
#[derive(Debug)]
pub struct HealthStatus {
    pub vm_status: String,
    pub microclaw_status: String,
    pub uptime_s: Option<u64>,
}

// ---------------------------------------------------------------------------
// Derived per-tenant names
// ---------------------------------------------------------------------------

pub open spec fn spec_tap_device(id: Seq<char>) -> Seq<char> {
    "fc-"@ + id.take(if id.len() < 11 {
        id.len() as int
    } else {
        11
    })
}

/// Host TAP interface name for a tenant: `fc-` plus the first eleven
/// characters of the id (interface names are length-limited).
pub fn tap_device_for(id: &str) -> (r: String)
    ensures
        r@ == spec_tap_device(id@),
{
    let n = id.unicode_len();
    let k = if n < 11 {
        n
    } else {
        11
    };
    let mut r = String::from_str("fc-");
    r.append(id.substring_char(0, k));
    proof {
        assert(id@.subrange(0, k as int) =~= id@.take(k as int));
    }
    r
}

pub open spec fn spec_socket_path(id: Seq<char>) -> Seq<char> {
    "/tmp/fc-"@ + id + ".sock"@
}

/// Hypervisor control socket path for a tenant.
pub fn socket_path_for(id: &str) -> (r: String)
    ensures
        r@ == spec_socket_path(id@),
{
    let mut r = String::from_str("/tmp/fc-");
    r.append(id);
    r.append(".sock");
    r
}

pub open spec fn spec_data_dir(root: Seq<char>, id: Seq<char>) -> Seq<char> {
    root + "/"@ + id
}

/// Per-tenant data directory under the configured data root.
pub fn data_dir_for(root: &str, id: &str) -> (r: String)
    ensures
        r@ == spec_data_dir(root@, id@),
{
    let mut r = String::from_str(root);
    r.append("/");
    r.append(id);
    r
}

/// `/proc` entry for a process id.
pub open spec fn spec_proc_path(pid: u32) -> Seq<char> {
    "/proc/"@ + dec_str(pid as nat)
}

pub fn proc_path_for(pid: u32) -> (r: String)
    ensures
        r@ == spec_proc_path(pid),
{
    let mut r = String::from_str("/proc/");
    let digits = crate::strutil::u64_to_string(pid as u64);
    r.append(digits.as_str());
    r
}

// ---------------------------------------------------------------------------
// Recovery reconciliation
// ---------------------------------------------------------------------------

/// Outcome of reconciling one stored tenant against live process state:
/// the status and PID the tenant should carry, and whether the change must
/// be persisted.
pub open spec fn spec_reconcile(status: TenantStatus, vm_pid: Option<u32>, alive: bool) -> (
    TenantStatus,
    Option<u32>,
    bool,
) {
    match status {
        TenantStatus::Running | TenantStatus::Paused => {
            match vm_pid {
                None => (TenantStatus::Stopped, None::<u32>, true),
                Some(p) => {
                    if alive {
                        (status, Some(p), false)
                    } else {
                        (TenantStatus::Stopped, None::<u32>, true)
                    }
                },
            }
        },
        TenantStatus::Creating => (TenantStatus::Failed, None::<u32>, true),
        _ => (status, vm_pid, false),
    }
}

/// Decides what a stored tenant's status and PID become at recovery.
/// `alive` reports whether the recorded VM process still exists; it is
/// only consulted when a PID is recorded.
pub fn reconcile_status(status: TenantStatus, vm_pid: Option<u32>, alive: bool) -> (r: (
    TenantStatus,
    Option<u32>,
    bool,
))
    ensures
        r == spec_reconcile(status, vm_pid, alive),
{
    match status {
        TenantStatus::Running | TenantStatus::Paused => {
            match vm_pid {
                None => (TenantStatus::Stopped, None, true),
                Some(p) => {
                    if alive {
                        (status, Some(p), false)
                    } else {
                        (TenantStatus::Stopped, None, true)
                    }
                },
            }
        },
        TenantStatus::Creating => (TenantStatus::Failed, None, true),
        _ => (status, vm_pid, false),
    }
}

/// A tenant stored as Running or Paused whose process is gone — or was
/// never recorded — comes back Stopped with no PID, and the change is
/// persisted.
pub proof fn lemma_dead_process_reconciles_to_stopped(
    status: TenantStatus,
    vm_pid: Option<u32>,
    alive: bool,
)
    requires
        status == TenantStatus::Running || status == TenantStatus::Paused,
        vm_pid is None || !alive,
    ensures
        spec_reconcile(status, vm_pid, alive) == (TenantStatus::Stopped, None::<u32>, true),
{
}

/// A tenant stored as Creating (interrupted provisioning) always
/// reconciles to Failed with no PID, and the change is persisted.
pub proof fn lemma_creating_reconciles_to_failed(vm_pid: Option<u32>, alive: bool)
    ensures
        spec_reconcile(TenantStatus::Creating, vm_pid, alive) == (
            TenantStatus::Failed,
            None::<u32>,
            true,
        ),
{
}

} // verus!

