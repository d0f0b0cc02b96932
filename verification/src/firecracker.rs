//! The hypervisor API plan: the exact sequence of requests that boots,
//! pauses, resumes and snapshots a microVM, and the status handling of
//! the answers.
//!
//! The hypervisor listens for HTTP on a Unix-domain socket. The library
//! builds the requests as typed values and judges the numeric status of
//! each answer; spawning the process and carrying the HTTP live outside.

use vstd::prelude::*;

use crate::errors::CoreError;
use crate::strutil::{dec_val, all_digits, hex2, split_spec};

verus! {

broadcast use vstd::string::group_string_axioms;

/// How many times the control socket is polled after spawning the
/// hypervisor before giving up with `SocketTimeout`.
pub const SOCKET_WAIT_TRIES: u32 = 20;

/// Pause between two socket polls, in milliseconds.
pub const SOCKET_WAIT_INTERVAL_MS: u64 = 100;

/// HTTP method of a hypervisor API request.
#[derive(Debug, Clone, Copy, PartialEq, Eq, Structural)]
pub enum HttpMethod {
    Put,
    Patch,
}

/// Body of a hypervisor API request, one variant per endpoint shape.
/// Field names match the JSON keys the hypervisor expects.
#[derive(Debug)]
pub enum ApiBody {
    BootSource { kernel_image_path: String, boot_args: String },
    Drive { drive_id: String, path_on_host: String, is_root_device: bool, is_read_only: bool },
    MachineConfig { vcpu_count: u32, mem_size_mib: u32 },
    NetworkInterface { iface_id: String, guest_mac: String, host_dev_name: String },
    Action { action_type: String },
    VmState { state: String },
    SnapshotCreate { snapshot_type: String, snapshot_path: String, mem_file_path: String },
    SnapshotLoad {
        snapshot_path: String,
        mem_backend_path: String,
        mem_backend_type: String,
        enable_diff_snapshots: bool,
        resume_vm: bool,
    },
}

/// Abstract value of a request body.
pub enum ApiBodyView {
    BootSource { kernel_image_path: Seq<char>, boot_args: Seq<char> },
    Drive {
        drive_id: Seq<char>,
        path_on_host: Seq<char>,
        is_root_device: bool,
        is_read_only: bool,
    },
    MachineConfig { vcpu_count: u32, mem_size_mib: u32 },
    NetworkInterface { iface_id: Seq<char>, guest_mac: Seq<char>, host_dev_name: Seq<char> },
    Action { action_type: Seq<char> },
    VmState { state: Seq<char> },
    SnapshotCreate {
        snapshot_type: Seq<char>,
        snapshot_path: Seq<char>,
        mem_file_path: Seq<char>,
    },
    SnapshotLoad {
        snapshot_path: Seq<char>,
        mem_backend_path: Seq<char>,
        mem_backend_type: Seq<char>,
        enable_diff_snapshots: bool,
        resume_vm: bool,
    },
}

impl View for ApiBody {
    type V = ApiBodyView;

    open spec fn view(&self) -> ApiBodyView {
        match self {
            ApiBody::BootSource { kernel_image_path, boot_args } => ApiBodyView::BootSource {
                kernel_image_path: kernel_image_path@,
                boot_args: boot_args@,
            },
            ApiBody::Drive { drive_id, path_on_host, is_root_device, is_read_only } => {
                ApiBodyView::Drive {
                    drive_id: drive_id@,
                    path_on_host: path_on_host@,
                    is_root_device: *is_root_device,
                    is_read_only: *is_read_only,
                }
            },
            ApiBody::MachineConfig { vcpu_count, mem_size_mib } => ApiBodyView::MachineConfig {
                vcpu_count: *vcpu_count,
                mem_size_mib: *mem_size_mib,
            },
            ApiBody::NetworkInterface { iface_id, guest_mac, host_dev_name } => {
                ApiBodyView::NetworkInterface {
                    iface_id: iface_id@,
                    guest_mac: guest_mac@,
                    host_dev_name: host_dev_name@,
                }
            },
            ApiBody::Action { action_type } => ApiBodyView::Action { action_type: action_type@ },
            ApiBody::VmState { state } => ApiBodyView::VmState { state: state@ },
            ApiBody::SnapshotCreate { snapshot_type, snapshot_path, mem_file_path } => {
                ApiBodyView::SnapshotCreate {
                    snapshot_type: snapshot_type@,
                    snapshot_path: snapshot_path@,
                    mem_file_path: mem_file_path@,
                }
            },
            ApiBody::SnapshotLoad {
                snapshot_path,
                mem_backend_path,
                mem_backend_type,
                enable_diff_snapshots,
                resume_vm,
            } => ApiBodyView::SnapshotLoad {
                snapshot_path: snapshot_path@,
                mem_backend_path: mem_backend_path@,
                mem_backend_type: mem_backend_type@,
                enable_diff_snapshots: *enable_diff_snapshots,
                resume_vm: *resume_vm,
            },
        }
    }
}

/// One hypervisor API request.
#[derive(Debug)]
pub struct ApiRequest {
    pub method: HttpMethod,
    pub path: String,
    pub body: ApiBody,
}

/// Abstract value of a request.
pub struct ApiRequestView {
    pub method: HttpMethod,
    pub path: Seq<char>,
    pub body: ApiBodyView,
}

impl View for ApiRequest {
    type V = ApiRequestView;

    open spec fn view(&self) -> ApiRequestView {
        ApiRequestView { method: self.method, path: self.path@, body: self.body@ }
    }
}

// ---------------------------------------------------------------------------
// MAC derivation
// ---------------------------------------------------------------------------

/// An address field that parses as one byte.
pub open spec fn spec_octet(s: Seq<char>) -> Option<u8> {
    if s.len() > 0 && all_digits(s) && dec_val(s) <= u8::MAX {
        Some(dec_val(s) as u8)
    } else {
        None
    }
}

/// The fields of `parts` that parse as bytes, in order.
pub open spec fn spec_octets(parts: Seq<Seq<char>>) -> Seq<u8>
    decreases parts.len(),
{
    if parts.len() == 0 {
        Seq::empty()
    } else {
        spec_octets(parts.drop_last()) + (match spec_octet(parts.last()) {
            Some(v) => seq![v],
            None => Seq::empty(),
        })
    }
}

/// The guest MAC derived from an address `a.b.c.d`:
/// `06:00:` followed by the four octets in hex. A malformed address
/// yields the fixed fallback MAC.
pub open spec fn spec_generate_mac(vm_ip: Seq<char>) -> Seq<char> {
    let o = spec_octets(split_spec(vm_ip, '.'));
    if o.len() == 4 {
        "06:00:"@ + hex2(o[0]) + ":"@ + hex2(o[1]) + ":"@ + hex2(o[2]) + ":"@ + hex2(o[3])
    } else {
        "06:00:AC:10:00:02"@
    }
}

/// Derives the guest MAC address from the guest IP.
pub fn generate_mac(vm_ip: &str) -> (r: String)
    ensures
        r@ == spec_generate_mac(vm_ip@),
{
    let parts = crate::strutil::split_char(vm_ip, '.');
    let ghost pv = split_spec(vm_ip@, '.');
    let mut octets: Vec<u8> = Vec::new();
    let mut i: usize = 0;
    while i < parts.len()
        invariant
            0 <= i <= parts@.len(),
            parts@.len() == pv.len(),
            forall|k: int| 0 <= k < pv.len() ==> #[trigger] parts@[k]@ == pv[k],
            octets@ == spec_octets(pv.take(i as int)),
        decreases parts@.len() - i,
    {
        let ghost before = pv.take(i as int);
        if let Some(v) = crate::strutil::parse_u8(parts[i].as_str()) {
            octets.push(v);
        }
        i = i + 1;
        proof {
            assert(pv.take(i as int).drop_last() =~= before);
            assert(pv.take(i as int).last() == pv[i - 1]);
        }
    }
    proof {
        assert(pv.take(i as int) =~= pv);
    }
    if octets.len() == 4 {
        let mut r = String::from_str("06:00:");
        r.append(crate::strutil::byte_to_hex(octets[0]).as_str());
        r.append(":");
        r.append(crate::strutil::byte_to_hex(octets[1]).as_str());
        r.append(":");
        r.append(crate::strutil::byte_to_hex(octets[2]).as_str());
        r.append(":");
        r.append(crate::strutil::byte_to_hex(octets[3]).as_str());
        r
    } else {
        String::from_str("06:00:AC:10:00:02")
    }
}

// ---------------------------------------------------------------------------
// Boot arguments
// ---------------------------------------------------------------------------

/// Kernel command line handed to the guest: init and console settings
/// followed by the guest's network identity.
pub open spec fn spec_boot_args(vm_ip: Seq<char>, gateway_ip: Seq<char>, tenant_id: Seq<char>) -> Seq<
    char,
> {
    "init=/init console=ttyS0 reboot=k panic=1 pci=off FC_VM_IP="@ + vm_ip + " FC_VM_GATEWAY="@
        + gateway_ip + " FC_VM_NETMASK=30 FC_TENANT_ID="@ + tenant_id
        + " FC_DNS=8.8.8.8 FC_PORT=8080"@
}

/// Builds the guest kernel command line.
pub fn boot_args_for(vm_ip: &str, gateway_ip: &str, tenant_id: &str) -> (r: String)
    ensures
        r@ == spec_boot_args(vm_ip@, gateway_ip@, tenant_id@),
{
    let mut r = String::from_str("init=/init console=ttyS0 reboot=k panic=1 pci=off FC_VM_IP=");
    r.append(vm_ip);
    r.append(" FC_VM_GATEWAY=");
    r.append(gateway_ip);
    r.append(" FC_VM_NETMASK=30 FC_TENANT_ID=");
    r.append(tenant_id);
    r.append(" FC_DNS=8.8.8.8 FC_PORT=8080");
    r
}

// ---------------------------------------------------------------------------
// The client and its request plans
// ---------------------------------------------------------------------------

/// Client for one hypervisor instance: the binary to spawn and the
/// control socket to reach it on.
pub struct FirecrackerClient {
    pub fc_bin: String,
    pub socket_path: String,
}

impl FirecrackerClient {
    pub fn new(fc_bin: &str, socket_path: &str) -> (r: Self)
        ensures
            r.fc_bin@ == fc_bin@,
            r.socket_path@ == socket_path@,
    {
        FirecrackerClient {
            fc_bin: String::from_str(fc_bin),
            socket_path: String::from_str(socket_path),
        }
    }

    /// The six configuration requests that boot a fresh microVM, in the
    /// order they must be issued: boot source, root drive, data drive,
    /// machine size, network interface, and the start action.
    pub fn start_vm_requests(
        &self,
        vmlinux: &str,
        rootfs: &str,
        data_vol: &str,
        vcpu: u32,
        memory_mb: u32,
        vm_ip: &str,
        gateway_ip: &str,
        tap_device: &str,
        tenant_id: &str,
    ) -> (r: Vec<ApiRequest>)
        ensures
            r@.len() == 6,
            forall|i: int| 0 <= i < 6 ==> (#[trigger] r@[i]@).method == HttpMethod::Put,
            r@[0]@.path == "/boot-source"@,
            r@[0]@.body == (ApiBodyView::BootSource {
                kernel_image_path: vmlinux@,
                boot_args: spec_boot_args(vm_ip@, gateway_ip@, tenant_id@),
            }),
            r@[1]@.path == "/drives/rootfs"@,
            r@[1]@.body == (ApiBodyView::Drive {
                drive_id: "rootfs"@,
                path_on_host: rootfs@,
                is_root_device: true,
                is_read_only: false,
            }),
            r@[2]@.path == "/drives/data"@,
            r@[2]@.body == (ApiBodyView::Drive {
                drive_id: "data"@,
                path_on_host: data_vol@,
                is_root_device: false,
                is_read_only: false,
            }),
            r@[3]@.path == "/machine-config"@,
            r@[3]@.body == (ApiBodyView::MachineConfig { vcpu_count: vcpu, mem_size_mib: memory_mb }),
            r@[4]@.path == "/network-interfaces/eth0"@,
            r@[4]@.body == (ApiBodyView::NetworkInterface {
                iface_id: "eth0"@,
                guest_mac: spec_generate_mac(vm_ip@),
                host_dev_name: tap_device@,
            }),
            r@[5]@.path == "/actions"@,
            r@[5]@.body == (ApiBodyView::Action { action_type: "InstanceStart"@ }),
    {
        let mut r: Vec<ApiRequest> = Vec::new();
        r.push(ApiRequest {
            method: HttpMethod::Put,
            path: String::from_str("/boot-source"),
            body: ApiBody::BootSource {
                kernel_image_path: String::from_str(vmlinux),
                boot_args: boot_args_for(vm_ip, gateway_ip, tenant_id),
            },
        });
        r.push(ApiRequest {
            method: HttpMethod::Put,
            path: String::from_str("/drives/rootfs"),
            body: ApiBody::Drive {
                drive_id: String::from_str("rootfs"),
                path_on_host: String::from_str(rootfs),
                is_root_device: true,
                is_read_only: false,
            },
        });
        r.push(ApiRequest {
            method: HttpMethod::Put,
            path: String::from_str("/drives/data"),
            body: ApiBody::Drive {
                drive_id: String::from_str("data"),
                path_on_host: String::from_str(data_vol),
                is_root_device: false,
                is_read_only: false,
            },
        });
        r.push(ApiRequest {
            method: HttpMethod::Put,
            path: String::from_str("/machine-config"),
            body: ApiBody::MachineConfig { vcpu_count: vcpu, mem_size_mib: memory_mb },
        });
        r.push(ApiRequest {
            method: HttpMethod::Put,
            path: String::from_str("/network-interfaces/eth0"),
            body: ApiBody::NetworkInterface {
                iface_id: String::from_str("eth0"),
                guest_mac: generate_mac(vm_ip),
                host_dev_name: String::from_str(tap_device),
            },
        });
        r.push(ApiRequest {
            method: HttpMethod::Put,
            path: String::from_str("/actions"),
            body: ApiBody::Action { action_type: String::from_str("InstanceStart") },
        });
        r
    }

    /// The request that pauses a running microVM.
    pub fn pause_request(&self) -> (r: ApiRequest)
        ensures
            r@.method == HttpMethod::Patch,
            r@.path == "/vm"@,
            r@.body == (ApiBodyView::VmState { state: "Paused"@ }),
    {
        ApiRequest {
            method: HttpMethod::Patch,
            path: String::from_str("/vm"),
            body: ApiBody::VmState { state: String::from_str("Paused") },
        }
    }

    /// The request that resumes a paused microVM.
    pub fn resume_request(&self) -> (r: ApiRequest)
        ensures
            r@.method == HttpMethod::Patch,
            r@.path == "/vm"@,
            r@.body == (ApiBodyView::VmState { state: "Resumed"@ }),
    {
        ApiRequest {
            method: HttpMethod::Patch,
            path: String::from_str("/vm"),
            body: ApiBody::VmState { state: String::from_str("Resumed") },
        }
    }

    /// The request that writes a full snapshot to the given paths.
    pub fn snapshot_create_request(&self, snapshot_path: &str, mem_path: &str) -> (r: ApiRequest)
        ensures
            r@.method == HttpMethod::Put,
            r@.path == "/snapshot/create"@,
            r@.body == (ApiBodyView::SnapshotCreate {
                snapshot_type: "Full"@,
                snapshot_path: snapshot_path@,
                mem_file_path: mem_path@,
            }),
    {
        ApiRequest {
            method: HttpMethod::Put,
            path: String::from_str("/snapshot/create"),
            body: ApiBody::SnapshotCreate {
                snapshot_type: String::from_str("Full"),
                snapshot_path: String::from_str(snapshot_path),
                mem_file_path: String::from_str(mem_path),
            },
        }
    }
}

/// The request that restores a microVM from a snapshot pair and resumes
/// it immediately.
pub fn snapshot_load_request(snapshot_path: &str, mem_path: &str) -> (r: ApiRequest)
    ensures
        r@.method == HttpMethod::Put,
        r@.path == "/snapshot/load"@,
        r@.body == (ApiBodyView::SnapshotLoad {
            snapshot_path: snapshot_path@,
            mem_backend_path: mem_path@,
            mem_backend_type: "File"@,
            enable_diff_snapshots: false,
            resume_vm: true,
        }),
{
    ApiRequest {
        method: HttpMethod::Put,
        path: String::from_str("/snapshot/load"),
        body: ApiBody::SnapshotLoad {
            snapshot_path: String::from_str(snapshot_path),
            mem_backend_path: String::from_str(mem_path),
            mem_backend_type: String::from_str("File"),
            enable_diff_snapshots: false,
            resume_vm: true,
        },
    }
}

// ---------------------------------------------------------------------------
// Answer handling
// ---------------------------------------------------------------------------

/// Judges a hypervisor answer: any status outside 2xx fails with
/// `HypervisorApi` carrying the path, the status and the answer body.
pub fn api_result(path: &str, code: u16, body: String) -> (r: Result<(), CoreError>)
    ensures
        200 <= code < 300 ==> r matches Ok(()),
        !(200 <= code < 300) ==> (r matches Err(CoreError::HypervisorApi { path: p, code: c, body: b })
            && p@ == path@ && c == code && b@ == body@),
{
    if 200 <= code && code < 300 {
        Ok(())
    } else {
        Err(CoreError::HypervisorApi { path: String::from_str(path), code, body })
    }
}

} // verus!
