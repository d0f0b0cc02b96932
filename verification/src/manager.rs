//! The tenant manager: the in-memory tenant table, the lifecycle state
//! machine, provisioning and rollback bookkeeping, recovery from the
//! durable catalog, and the tenant counts served as metrics.
//!
//! Work that touches the host — shelling out, spawning the hypervisor,
//! carrying HTTP — happens outside: the manager hands out plans made of
//! plain values, and takes the outcome back as an argument.

use vstd::prelude::*;

use crate::clock::ts_in_range;
use crate::db::Database;
use crate::errors::CoreError;
use crate::network::{spec_gateway_ip, spec_vm_ip, SubnetAllocator, MAX_SUBNET_INDEX};
use crate::snapshot::{spec_golden_mem, spec_golden_snap, SnapshotManager};
use crate::table::{
    lemma_pairs_no_key, lemma_pairs_unique_push, lemma_pairs_unique_remove, lemma_pairs_remove_at,
    lemma_pairs_value_at, map_of_pairs, pairs_unique,
};
use crate::tenant::{
    spec_data_dir, spec_socket_path, spec_tap_device, CreateTenantRequest, HealthStatus, Tenant,
    TenantStatus, TenantView,
};

verus! {

broadcast use vstd::string::group_string_axioms;

// ---------------------------------------------------------------------------
// The tenant table
// ---------------------------------------------------------------------------

/// The id-keyed pairs a tenant list denotes.
pub open spec fn vec_pairs(ts: Seq<Tenant>) -> Seq<(Seq<char>, TenantView)> {
    ts.map_values(|t: Tenant| (t@.id, t@))
}

fn table_find(tenants: &Vec<Tenant>, id: &str) -> (r: Option<usize>)
    ensures
        match r {
            Some(i) => i < tenants@.len() && vec_pairs(tenants@)[i as int].0 == id@,
            None => forall|k: int|
                0 <= k < tenants@.len() ==> (#[trigger] vec_pairs(tenants@)[k]).0 != id@,
        },
{
    let mut i: usize = 0;
    while i < tenants.len()
        invariant
            0 <= i <= tenants@.len(),
            forall|k: int| 0 <= k < i ==> (#[trigger] vec_pairs(tenants@)[k]).0 != id@,
        decreases tenants@.len() - i,
    {
        if crate::strutil::str_eq(tenants[i].id.as_str(), id) {
            proof {
                assert(vec_pairs(tenants@)[i as int].0 == id@);
            }
            return Some(i);
        }
        proof {
            assert(vec_pairs(tenants@)[i as int].0 == tenants@[i as int]@.id);
        }
        i = i + 1;
    }
    None
}

/// Takes the tenant with the given id out of the table, if present.
fn table_remove(tenants: &mut Vec<Tenant>, id: &str) -> (r: Option<Tenant>)
    requires
        pairs_unique(vec_pairs(old(tenants)@)),
    ensures
        pairs_unique(vec_pairs(final(tenants)@)),
        forall|k: int|
            0 <= k < final(tenants)@.len() ==> (#[trigger] vec_pairs(final(tenants)@)[k]).0 != id@,
        match r {
            Some(t) => {
                &&& map_of_pairs(vec_pairs(old(tenants)@)).contains_key(id@)
                &&& t@ == map_of_pairs(vec_pairs(old(tenants)@))[id@]
                &&& t@.id == id@
                &&& map_of_pairs(vec_pairs(final(tenants)@)) =~= map_of_pairs(
                    vec_pairs(old(tenants)@),
                ).remove(id@)
            },
            None => {
                &&& !map_of_pairs(vec_pairs(old(tenants)@)).contains_key(id@)
                &&& final(tenants)@ == old(tenants)@
            },
        },
{
    match table_find(tenants, id) {
        Some(i) => {
            proof {
                lemma_pairs_value_at(vec_pairs(tenants@), i as int);
                lemma_pairs_remove_at(vec_pairs(tenants@), i as int);
                lemma_pairs_unique_remove(vec_pairs(tenants@), i as int);
            }
            let ghost before = vec_pairs(tenants@);
            let t = tenants.remove(i);
            proof {
                assert(vec_pairs(tenants@) =~= before.remove(i as int));
                assert forall|k: int| 0 <= k < vec_pairs(tenants@).len() implies (
                #[trigger] vec_pairs(tenants@)[k]).0 != id@ by {
                    let k0 = if k < i as int {
                        k
                    } else {
                        k + 1
                    };
                    assert(before.remove(i as int)[k] == before[k0]);
                    if k0 != i as int {
                        assert(before[k0].0 != before[i as int].0);
                    }
                }
            }
            Some(t)
        },
        None => {
            proof {
                lemma_pairs_no_key(vec_pairs(tenants@), id@);
            }
            None
        },
    }
}

/// Puts a tenant into the table, replacing any tenant with the same id.
fn table_upsert(tenants: &mut Vec<Tenant>, t: Tenant)
    requires
        pairs_unique(vec_pairs(old(tenants)@)),
    ensures
        pairs_unique(vec_pairs(final(tenants)@)),
        map_of_pairs(vec_pairs(final(tenants)@)) =~= map_of_pairs(vec_pairs(old(tenants)@)).insert(
            t@.id,
            t@,
        ),
{
    let ghost tv = t@;
    let id_copy = t.id.clone();
    let removed = table_remove(tenants, id_copy.as_str());
    let ghost mid = vec_pairs(tenants@);
    proof {
        lemma_pairs_unique_push(mid, tv.id, tv);
    }
    tenants.push(t);
    proof {
        assert(vec_pairs(tenants@) =~= mid.push((tv.id, tv)));
        assert(vec_pairs(tenants@).drop_last() =~= mid);
        assert(vec_pairs(tenants@).last() == (tv.id, tv));
        assert(map_of_pairs(vec_pairs(tenants@)) =~= map_of_pairs(mid).insert(tv.id, tv));
        if removed is Some {
            assert(map_of_pairs(vec_pairs(tenants@)) =~= map_of_pairs(
                vec_pairs(old(tenants)@),
            ).insert(tv.id, tv));
        }
    }
}

/// Rewrites the status and PID of the tenant with the given id; reports
/// whether it was present.
fn table_update_status(
    tenants: &mut Vec<Tenant>,
    id: &str,
    status: TenantStatus,
    vm_pid: Option<u32>,
) -> (r: bool)
    requires
        pairs_unique(vec_pairs(old(tenants)@)),
    ensures
        pairs_unique(vec_pairs(final(tenants)@)),
        r == map_of_pairs(vec_pairs(old(tenants)@)).contains_key(id@),
        r ==> map_of_pairs(vec_pairs(final(tenants)@)) =~= map_of_pairs(
            vec_pairs(old(tenants)@),
        ).insert(
            id@,
            TenantView {
                status,
                vm_pid,
                ..map_of_pairs(vec_pairs(old(tenants)@))[id@]
            },
        ),
        !r ==> final(tenants)@ == old(tenants)@,
{
    match table_remove(tenants, id) {
        Some(t) => {
            let mut t = t;
            t.status = status;
            t.vm_pid = vm_pid;
            let ghost mid = vec_pairs(tenants@);
            proof {
                lemma_pairs_unique_push(mid, t@.id, t@);
            }
            tenants.push(t);
            proof {
                assert(vec_pairs(tenants@) =~= mid.push((t@.id, t@)));
                assert(vec_pairs(tenants@).drop_last() =~= mid);
                assert(map_of_pairs(vec_pairs(tenants@)) =~= map_of_pairs(mid).insert(t@.id, t@));
            }
            true
        },
        None => false,
    }
}

/// A table update that rewrites only the status and the PID of one
/// live tenant preserves the invariants: the addresses and the
/// allocator are untouched, and the PID rule carries whenever the new
/// status/PID pair respects it.
proof fn lemma_status_update_preserves_invariants(
    pre: TenantManager,
    post: TenantManager,
    id: Seq<char>,
    status: TenantStatus,
    vm_pid: Option<u32>,
)
    requires
        pre.tenant_map().contains_key(id),
        post.subnet_allocator == pre.subnet_allocator,
        post.tenant_map() == pre.tenant_map().insert(
            id,
            TenantView { status, vm_pid, ..pre.tenant_map()[id] },
        ),
    ensures
        pre.addresses_wf() ==> post.addresses_wf(),
        pre.pids_wf() && ((status == TenantStatus::Running || status == TenantStatus::Paused)
            ==> vm_pid is Some) ==> post.pids_wf(),
{
    if pre.addresses_wf() {
        assert forall|t: Seq<char>| #[trigger] post.tenant_map().contains_key(t) implies {
            &&& post.subnet_allocator.alloc_map().contains_key(t)
            &&& post.subnet_allocator.alloc_map()[t] < post.subnet_allocator.next_index
            &&& post.tenant_map()[t].vm_ip == spec_vm_ip(
                post.subnet_allocator.base_network@,
                post.subnet_allocator.alloc_map()[t],
            )
            &&& post.tenant_map()[t].gateway_ip == spec_gateway_ip(
                post.subnet_allocator.base_network@,
                post.subnet_allocator.alloc_map()[t],
            )
        } by {
            assert(pre.tenant_map().contains_key(t));
            if t == id {
                assert(post.tenant_map()[t].vm_ip == pre.tenant_map()[t].vm_ip);
                assert(post.tenant_map()[t].gateway_ip == pre.tenant_map()[t].gateway_ip);
            } else {
                assert(post.tenant_map()[t] == pre.tenant_map()[t]);
            }
        }
        assert forall|a: Seq<char>, b: Seq<char>|
            #[trigger] post.tenant_map().contains_key(a) && #[trigger] post.tenant_map().contains_key(
                b,
            ) && a != b implies post.subnet_allocator.alloc_map()[a]
            != post.subnet_allocator.alloc_map()[b] by {
            assert(pre.tenant_map().contains_key(a));
            assert(pre.tenant_map().contains_key(b));
        }
        assert(post.addresses_wf());
    }
    if pre.pids_wf() && ((status == TenantStatus::Running || status == TenantStatus::Paused)
        ==> vm_pid is Some) {
        assert forall|t: Seq<char>| #[trigger] post.tenant_map().contains_key(t) implies ((
        post.tenant_map()[t].status == TenantStatus::Running || post.tenant_map()[t].status
            == TenantStatus::Paused) ==> post.tenant_map()[t].vm_pid is Some) by {
            assert(pre.tenant_map().contains_key(t));
            if t != id {
                assert(post.tenant_map()[t] == pre.tenant_map()[t]);
            }
        }
        assert(post.pids_wf());
    }
}

// ---------------------------------------------------------------------------
// Plans handed to the caller
// ---------------------------------------------------------------------------

/// Names derived for a tenant about to be provisioned. The caller runs
/// the host-side provisioning with these and reports the outcome to
/// `create_tenant_finish`.
pub struct ProvisionPlan {
    pub gateway_ip: String,
    pub vm_ip: String,
    pub tap_device: String,
    pub socket_path: String,
    pub tenant_data_dir: String,
}

/// How a tenant is to be started: restored from the golden snapshot or
/// booted fresh from its disks.
pub enum StartPlan {
    Restore { socket_path: String, snapshot_path: String, mem_path: String },
    Boot {
        socket_path: String,
        rootfs: String,
        data_vol: String,
        vcpu: u32,
        memory_mb: u32,
        vm_ip: String,
        gateway_ip: String,
        tap_device: String,
        tenant_id: String,
    },
}

/// What the caller needs to finish a stop: the process to signal and
/// the socket file to remove.
pub struct StopPlan {
    pub vm_pid: Option<u32>,
    pub socket_path: String,
}

/// Where a snapshot is to be written and whether the microVM must be
/// paused around it.
pub struct SnapshotPlan {
    pub snapshot_dir: String,
    pub snapshot_path: String,
    pub mem_path: String,
    pub socket_path: String,
    pub pause_first: bool,
    pub stamp_ts: i64,
}

// ---------------------------------------------------------------------------
// The manager
// ---------------------------------------------------------------------------

/// Owns the tenant table and mediates every state change. All mutation
/// goes through one writer at a time; callers serialize.
pub struct TenantManager {
    pub tenants: Vec<Tenant>,
    pub subnet_allocator: SubnetAllocator,
    pub snapshot_manager: SnapshotManager,
    pub db: Database,
    pub fc_bin: String,
    pub vmlinux: String,
    pub rootfs: String,
    pub data_dir: String,
}

impl TenantManager {
    /// The tenants currently live, keyed by id.
    pub open spec fn tenant_map(&self) -> Map<Seq<char>, TenantView> {
        map_of_pairs(vec_pairs(self.tenants@))
    }

    /// Well-formedness: no two live tenants share an id.
    pub open spec fn wf(&self) -> bool {
        pairs_unique(vec_pairs(self.tenants@))
    }

    /// The data-model invariants over addresses: every live tenant
    /// holds a subnet in the allocator, pinned below the cursor; no two
    /// live tenants hold the same index; and each tenant carries
    /// exactly the guest and gateway addresses its index derives.
    /// Creation establishes it and the lifecycle operations preserve
    /// it; `register_tenant` and `recover` take the caller's and the
    /// catalog's word for the addresses and promise nothing of it.
    pub open spec fn addresses_wf(&self) -> bool {
        &&& forall|id: Seq<char>| #[trigger] self.tenant_map().contains_key(id) ==> {
            &&& self.subnet_allocator.alloc_map().contains_key(id)
            &&& self.subnet_allocator.alloc_map()[id] < self.subnet_allocator.next_index
            &&& self.tenant_map()[id].vm_ip == spec_vm_ip(
                self.subnet_allocator.base_network@,
                self.subnet_allocator.alloc_map()[id],
            )
            &&& self.tenant_map()[id].gateway_ip == spec_gateway_ip(
                self.subnet_allocator.base_network@,
                self.subnet_allocator.alloc_map()[id],
            )
        }
        &&& forall|id1: Seq<char>, id2: Seq<char>|
            #[trigger] self.tenant_map().contains_key(id1) && #[trigger] self.tenant_map().contains_key(
                id2,
            ) && id1 != id2 ==> self.subnet_allocator.alloc_map()[id1]
                != self.subnet_allocator.alloc_map()[id2]
    }

    /// What `create_tenant_begin` leaves for `create_tenant_finish`:
    /// the id is not yet live, holds a subnet below the cursor, and
    /// shares its index with no live tenant.
    pub open spec fn fresh_allocation(&self, id: Seq<char>) -> bool {
        &&& !self.tenant_map().contains_key(id)
        &&& self.subnet_allocator.alloc_map().contains_key(id)
        &&& self.subnet_allocator.alloc_map()[id] < self.subnet_allocator.next_index
        &&& forall|other: Seq<char>| #[trigger] self.tenant_map().contains_key(other)
            ==> self.subnet_allocator.alloc_map()[other] != self.subnet_allocator.alloc_map()[id]
    }

    /// The data-model invariant over PIDs: every live Running or Paused
    /// tenant carries a VM process id. Creation establishes it and the
    /// lifecycle operations preserve it; `register_tenant` preserves it
    /// exactly when the registered record respects it, and `recover`
    /// re-establishes it for every entry it installs.
    pub open spec fn pids_wf(&self) -> bool {
        forall|id: Seq<char>| #[trigger] self.tenant_map().contains_key(id) ==> ((
        self.tenant_map()[id].status == TenantStatus::Running || self.tenant_map()[id].status
            == TenantStatus::Paused) ==> self.tenant_map()[id].vm_pid is Some)
    }

    pub fn new(
        fc_bin: String,
        vmlinux: String,
        rootfs: String,
        data_dir: String,
        snapshot_dir: String,
        subnet_allocator: SubnetAllocator,
        db: Database,
    ) -> (r: Self)
        ensures
            r.wf(),
            r.addresses_wf(),
            r.pids_wf(),
            r.tenant_map() =~= Map::<Seq<char>, TenantView>::empty(),
            r.subnet_allocator == subnet_allocator,
            r.fc_bin@ == fc_bin@,
            r.vmlinux@ == vmlinux@,
            r.rootfs@ == rootfs@,
            r.data_dir@ == data_dir@,
            r.snapshot_manager.snapshot_dir@ == snapshot_dir@,
    {
        let snapshot_manager = SnapshotManager::new(fc_bin.clone(), snapshot_dir);
        let r = TenantManager {
            tenants: Vec::new(),
            subnet_allocator,
            snapshot_manager,
            db,
            fc_bin,
            vmlinux,
            rootfs,
            data_dir,
        };
        proof {
            assert(vec_pairs(r.tenants@) =~= Seq::<(Seq<char>, TenantView)>::empty());
            assert(r.tenant_map() =~= Map::<Seq<char>, TenantView>::empty());
            assert(r.addresses_wf());
            assert(r.pids_wf());
        }
        r
    }

    /// Registers a pre-existing tenant: persists it, then puts it in the
    /// table, replacing any in-memory tenant with the same id. When the
    /// catalog refuses the row (duplicate id or database failure) the
    /// table is unchanged.
    pub fn register_tenant(&mut self, tenant: Tenant) -> (r: Result<(), CoreError>)
        requires
            old(self).wf(),
            ts_in_range(tenant.created_at),
        ensures
            final(self).wf(),
            old(self).pids_wf() && ((tenant@.status == TenantStatus::Running || tenant@.status
                == TenantStatus::Paused) ==> tenant@.vm_pid is Some) ==> final(self).pids_wf(),
            match r {
                Ok(_) => final(self).tenant_map() =~= old(self).tenant_map().insert(
                    tenant@.id,
                    tenant@,
                ),
                Err(e) => e matches CoreError::Db && final(self).tenant_map() == old(self).tenant_map(),
            },
            final(self).subnet_allocator == old(self).subnet_allocator,
    {
        match self.db.insert_tenant(&tenant) {
            Ok(_) => {},
            Err(_) => {
                return Err(CoreError::Db);
            },
        }
        let ghost tv = tenant@;
        table_upsert(&mut self.tenants, tenant);
        proof {
            if old(self).pids_wf() && ((tv.status == TenantStatus::Running || tv.status
                == TenantStatus::Paused) ==> tv.vm_pid is Some) {
                assert forall|t: Seq<char>| #[trigger] self.tenant_map().contains_key(
                    t,
                ) implies ((self.tenant_map()[t].status == TenantStatus::Running
                    || self.tenant_map()[t].status == TenantStatus::Paused)
                    ==> self.tenant_map()[t].vm_pid is Some) by {
                    if t == tv.id {
                        assert(self.tenant_map()[t] == tv);
                    } else {
                        assert(old(self).tenant_map().contains_key(t));
                        assert(self.tenant_map()[t] == old(self).tenant_map()[t]);
                    }
                }
                assert(self.pids_wf());
            }
        }
        Ok(())
    }

    /// All live tenants, in table order.
    pub fn list_tenants(&self) -> (r: Vec<Tenant>)
        ensures
            r@.len() == self.tenants@.len(),
            forall|i: int| 0 <= i < r@.len() ==> (#[trigger] r@[i])@ == self.tenants@[i]@,
    {
        let mut r: Vec<Tenant> = Vec::new();
        let mut i: usize = 0;
        while i < self.tenants.len()
            invariant
                0 <= i <= self.tenants@.len(),
                r@.len() == i,
                forall|k: int| 0 <= k < i ==> (#[trigger] r@[k])@ == self.tenants@[k]@,
            decreases self.tenants@.len() - i,
        {
            r.push(self.tenants[i].clone());
            i = i + 1;
        }
        r
    }

    /// Begins creating a tenant: rejects a duplicate id, assigns a /30,
    /// and derives the names of every host artifact. The caller
    /// provisions with the plan and reports back to
    /// `create_tenant_finish`.
    pub fn create_tenant_begin(&mut self, req: &CreateTenantRequest) -> (r: Result<
        ProvisionPlan,
        CoreError,
    >)
        requires
            old(self).wf(),
        ensures
            final(self).wf(),
            final(self).tenants@ == old(self).tenants@,
            final(self).tenant_map() == old(self).tenant_map(),
            final(self).data_dir@ == old(self).data_dir@,
            final(self).snapshot_manager == old(self).snapshot_manager,
            old(self).addresses_wf() && (r matches Ok(_)) ==> final(self).addresses_wf()
                && final(self).fresh_allocation(req.tenant_id@),
            old(self).tenant_map().contains_key(req.tenant_id@) ==> (r matches Err(
                CoreError::Duplicate,
            )) && final(self).subnet_allocator == old(self).subnet_allocator,
            !old(self).tenant_map().contains_key(req.tenant_id@) ==> {
                let alloc = old(self).subnet_allocator;
                &&& alloc.alloc_map().contains_key(req.tenant_id@) ==> (r matches Err(
                    CoreError::AlreadyAllocated,
                )) && final(self).subnet_allocator == alloc
                &&& !alloc.alloc_map().contains_key(req.tenant_id@) && alloc.next_index
                    > MAX_SUBNET_INDEX ==> (r matches Err(CoreError::PoolExhausted))
                    && final(self).subnet_allocator == alloc
                &&& !alloc.alloc_map().contains_key(req.tenant_id@) && alloc.next_index
                    <= MAX_SUBNET_INDEX ==> {
                    &&& r matches Ok(plan)
                    &&& plan.gateway_ip@ == spec_gateway_ip(alloc.base_network@, alloc.next_index)
                    &&& plan.vm_ip@ == spec_vm_ip(alloc.base_network@, alloc.next_index)
                    &&& plan.tap_device@ == spec_tap_device(req.tenant_id@)
                    &&& plan.socket_path@ == spec_socket_path(req.tenant_id@)
                    &&& plan.tenant_data_dir@ == spec_data_dir(old(self).data_dir@, req.tenant_id@)
                    &&& final(self).subnet_allocator.alloc_map() =~= alloc.alloc_map().insert(
                        req.tenant_id@,
                        alloc.next_index,
                    )
                    &&& final(self).subnet_allocator.next_index == alloc.next_index + 1
                    &&& final(self).subnet_allocator.base_network@ == alloc.base_network@
                }
            },
    {
        match table_find(&self.tenants, req.tenant_id.as_str()) {
            Some(i) => {
                proof {
                    crate::table::lemma_pairs_key_at(vec_pairs(self.tenants@), i as int);
                }
                return Err(CoreError::Duplicate);
            },
            None => {
                proof {
                    lemma_pairs_no_key(vec_pairs(self.tenants@), req.tenant_id@);
                }
            },
        }
        let ips = match self.subnet_allocator.allocate(req.tenant_id.as_str()) {
            Ok(ips) => ips,
            Err(e) => {
                return Err(e);
            },
        };
        let (gateway_ip, vm_ip) = ips;
        let tap_device = crate::tenant::tap_device_for(req.tenant_id.as_str());
        let socket_path = crate::tenant::socket_path_for(req.tenant_id.as_str());
        let tenant_data_dir = crate::tenant::data_dir_for(
            self.data_dir.as_str(),
            req.tenant_id.as_str(),
        );
        proof {
            if old(self).addresses_wf() {
                let oa = old(self).subnet_allocator;
                let na = self.subnet_allocator;
                let tid = req.tenant_id@;
                assert forall|id: Seq<char>| #[trigger] self.tenant_map().contains_key(
                    id,
                ) implies {
                    &&& na.alloc_map().contains_key(id)
                    &&& na.alloc_map()[id] < na.next_index
                    &&& self.tenant_map()[id].vm_ip == spec_vm_ip(
                        na.base_network@,
                        na.alloc_map()[id],
                    )
                    &&& self.tenant_map()[id].gateway_ip == spec_gateway_ip(
                        na.base_network@,
                        na.alloc_map()[id],
                    )
                } by {
                    assert(id != tid);
                    assert(na.alloc_map()[id] == oa.alloc_map()[id]);
                }
                assert(self.addresses_wf());
                assert(self.fresh_allocation(tid));
            }
        }
        Ok(ProvisionPlan { gateway_ip, vm_ip, tap_device, socket_path, tenant_data_dir })
    }

    /// Finishes a creation. On a provisioning success the tenant is
    /// persisted as Running with its PID, the allocator cursor is
    /// persisted, and the tenant enters the table; a catalog failure
    /// surfaces as `Db` and keeps the table (and the allocation)
    /// unchanged. On a provisioning failure the subnet is released and
    /// the original error is returned; the caller tears the host
    /// artifacts down.
    pub fn create_tenant_finish(
        &mut self,
        req: CreateTenantRequest,
        plan: ProvisionPlan,
        outcome: Result<u32, CoreError>,
    ) -> (r: Result<Tenant, CoreError>)
        requires
            old(self).wf(),
        ensures
            final(self).wf(),
            old(self).addresses_wf() && old(self).fresh_allocation(req.tenant_id@) && plan.vm_ip@
                == spec_vm_ip(
                old(self).subnet_allocator.base_network@,
                old(self).subnet_allocator.alloc_map()[req.tenant_id@],
            ) && plan.gateway_ip@ == spec_gateway_ip(
                old(self).subnet_allocator.base_network@,
                old(self).subnet_allocator.alloc_map()[req.tenant_id@],
            ) ==> final(self).addresses_wf(),
            outcome matches Err(e) ==> {
                &&& (r matches Err(e2) && e2 == e)
                &&& final(self).tenants@ == old(self).tenants@
                &&& final(self).subnet_allocator.alloc_map() =~= old(self).subnet_allocator.alloc_map().remove(req.tenant_id@)
                &&& final(self).subnet_allocator.next_index == old(self).subnet_allocator.next_index
            },
            outcome matches Ok(vm_pid) ==> {
                &&& final(self).subnet_allocator == old(self).subnet_allocator
                &&& (r matches Err(e) ==> e matches CoreError::Db && final(self).tenants@ == old(self).tenants@)
                &&& (r matches Ok(t) ==> {
                    &&& t@.id == req.tenant_id@
                    &&& t@.tier == req.tier
                    &&& t@.status == TenantStatus::Running
                    &&& t@.vm_ip == plan.vm_ip@
                    &&& t@.gateway_ip == plan.gateway_ip@
                    &&& t@.tap_device == plan.tap_device@
                    &&& t@.socket_path == plan.socket_path@
                    &&& t@.data_dir == plan.tenant_data_dir@
                    &&& t@.vm_pid == Some(vm_pid)
                    &&& t@.channels == req.channels.deep_view()
                    &&& t@.skip_tool_approval == req.skip_tool_approval
                    &&& ts_in_range(t@.created_at)
                    &&& final(self).tenant_map() =~= old(self).tenant_map().insert(
                        req.tenant_id@,
                        t@,
                    )
                })
            },
            old(self).pids_wf() ==> final(self).pids_wf(),
    {
        let ghost tid = req.tenant_id@;
        let ghost oldm = old(self).tenant_map();
        let ghost oa = old(self).subnet_allocator;
        let ghost inv_pre = old(self).addresses_wf() && old(self).fresh_allocation(tid)
            && plan.vm_ip@ == spec_vm_ip(oa.base_network@, oa.alloc_map()[tid]) && plan.gateway_ip@
            == spec_gateway_ip(oa.base_network@, oa.alloc_map()[tid]);
        match outcome {
            Ok(vm_pid) => {
                let created_at = crate::clock::clamp_ts(crate::clock::now_ts());
                let tenant = Tenant {
                    id: req.tenant_id,
                    tier: req.tier,
                    status: TenantStatus::Running,
                    vm_ip: plan.vm_ip,
                    gateway_ip: plan.gateway_ip,
                    tap_device: plan.tap_device,
                    socket_path: plan.socket_path,
                    data_dir: plan.tenant_data_dir,
                    vm_pid: Some(vm_pid),
                    channels: req.channels,
                    created_at,
                    skip_tool_approval: req.skip_tool_approval,
                };
                match self.db.insert_tenant(&tenant) {
                    Ok(_) => {},
                    Err(_) => {
                        return Err(CoreError::Db);
                    },
                }
                let idx = self.subnet_allocator.next_index();
                let _persisted = self.db.set_subnet_next_index(idx);
                let out = tenant.clone();
                let ghost tv = tenant@;
                table_upsert(&mut self.tenants, tenant);
                proof {
                    if inv_pre {
                        assert forall|id: Seq<char>| #[trigger] self.tenant_map().contains_key(
                            id,
                        ) implies {
                            &&& oa.alloc_map().contains_key(id)
                            &&& oa.alloc_map()[id] < oa.next_index
                            &&& self.tenant_map()[id].vm_ip == spec_vm_ip(
                                oa.base_network@,
                                oa.alloc_map()[id],
                            )
                            &&& self.tenant_map()[id].gateway_ip == spec_gateway_ip(
                                oa.base_network@,
                                oa.alloc_map()[id],
                            )
                        } by {
                            if id == tid {
                                assert(self.tenant_map()[tid] == tv);
                            } else {
                                assert(self.tenant_map()[id] == oldm[id]);
                            }
                        }
                        assert forall|id1: Seq<char>, id2: Seq<char>|
                            #[trigger] self.tenant_map().contains_key(id1)
                                && #[trigger] self.tenant_map().contains_key(id2) && id1
                                != id2 implies oa.alloc_map()[id1] != oa.alloc_map()[
                            id2] by {
                            if id1 == tid {
                                assert(oldm.contains_key(id2));
                            } else if id2 == tid {
                                assert(oldm.contains_key(id1));
                            } else {
                                assert(oldm.contains_key(id1) && oldm.contains_key(id2));
                            }
                        }
                        assert(self.addresses_wf());
                    }
                    if old(self).pids_wf() {
                        assert forall|t2: Seq<char>| #[trigger] self.tenant_map().contains_key(
                            t2,
                        ) implies ((self.tenant_map()[t2].status == TenantStatus::Running
                            || self.tenant_map()[t2].status == TenantStatus::Paused)
                            ==> self.tenant_map()[t2].vm_pid is Some) by {
                            if t2 == tid {
                                assert(self.tenant_map()[t2] == tv);
                            } else {
                                assert(oldm.contains_key(t2));
                                assert(self.tenant_map()[t2] == oldm[t2]);
                            }
                        }
                        assert(self.pids_wf());
                    }
                }
                Ok(out)
            },
            Err(e) => {
                self.subnet_allocator.release(req.tenant_id.as_str());
                proof {
                    if inv_pre {
                        assert forall|id: Seq<char>| #[trigger] self.tenant_map().contains_key(
                            id,
                        ) implies {
                            &&& self.subnet_allocator.alloc_map().contains_key(id)
                            &&& self.subnet_allocator.alloc_map()[id]
                                < self.subnet_allocator.next_index
                            &&& self.tenant_map()[id].vm_ip == spec_vm_ip(
                                self.subnet_allocator.base_network@,
                                self.subnet_allocator.alloc_map()[id],
                            )
                            &&& self.tenant_map()[id].gateway_ip == spec_gateway_ip(
                                self.subnet_allocator.base_network@,
                                self.subnet_allocator.alloc_map()[id],
                            )
                        } by {
                            assert(id != tid);
                            assert(self.subnet_allocator.alloc_map()[id] == oa.alloc_map()[id]);
                        }
                        assert(self.addresses_wf());
                    }
                }
                Err(e)
            },
        }
    }

    /// The tenant with the given id, if live.
    pub fn get_tenant(&self, id: &str) -> (r: Option<Tenant>)
        requires
            self.wf(),
        ensures
            match r {
                Some(t) => self.tenant_map().contains_key(id@) && t@ == self.tenant_map()[id@],
                None => !self.tenant_map().contains_key(id@),
            },
    {
        match table_find(&self.tenants, id) {
            Some(i) => {
                proof {
                    lemma_pairs_value_at(vec_pairs(self.tenants@), i as int);
                }
                Some(self.tenants[i].clone())
            },
            None => {
                proof {
                    lemma_pairs_no_key(vec_pairs(self.tenants@), id@);
                }
                None
            },
        }
    }
}

// ---------------------------------------------------------------------------
// Lifecycle operations
// ---------------------------------------------------------------------------

impl TenantManager {
    /// Plans a start. `golden` reports whether the golden snapshot pair
    /// exists (the caller probes the filesystem): with it the tenant is
    /// restored, without it it boots from its disks. Rejected with
    /// `NotFound` for an unknown id and `InvalidState` when already
    /// Running.
    pub fn start_tenant_check(&self, id: &str, golden: bool) -> (r: Result<StartPlan, CoreError>)
        requires
            self.wf(),
        ensures
            !self.tenant_map().contains_key(id@) ==> r matches Err(CoreError::NotFound),
            self.tenant_map().contains_key(id@) && self.tenant_map()[id@].status
                == TenantStatus::Running ==> r matches Err(CoreError::InvalidState),
            self.tenant_map().contains_key(id@) && self.tenant_map()[id@].status
                != TenantStatus::Running ==> {
                let t = self.tenant_map()[id@];
                &&& r matches Ok(plan)
                &&& golden ==> (plan matches StartPlan::Restore {
                    socket_path,
                    snapshot_path,
                    mem_path,
                } && socket_path@ == t.socket_path && snapshot_path@ == spec_golden_snap(
                    self.snapshot_manager.snapshot_dir@,
                ) && mem_path@ == spec_golden_mem(self.snapshot_manager.snapshot_dir@))
                &&& !golden ==> (plan matches StartPlan::Boot {
                    socket_path,
                    rootfs,
                    data_vol,
                    vcpu,
                    memory_mb,
                    vm_ip,
                    gateway_ip,
                    tap_device,
                    tenant_id,
                } && socket_path@ == t.socket_path && rootfs@ == t.data_dir + "/rootfs.ext4"@
                    && data_vol@ == t.data_dir + "/data.ext4"@ && vcpu == crate::tenant::spec_vcpu(
                    t.tier,
                ) && memory_mb == crate::tenant::spec_memory_mb(t.tier) && vm_ip@ == t.vm_ip
                    && gateway_ip@ == t.gateway_ip && tap_device@ == t.tap_device && tenant_id@
                    == t.id)
            },
    {
        let i = match table_find(&self.tenants, id) {
            Some(i) => i,
            None => {
                proof {
                    lemma_pairs_no_key(vec_pairs(self.tenants@), id@);
                }
                return Err(CoreError::NotFound);
            },
        };
        proof {
            lemma_pairs_value_at(vec_pairs(self.tenants@), i as int);
        }
        let t = &self.tenants[i];
        if matches!(t.status, TenantStatus::Running) {
            return Err(CoreError::InvalidState);
        }
        if golden {
            let (snapshot_path, mem_path) = self.snapshot_manager.golden_snapshot_path();
            Ok(StartPlan::Restore { socket_path: t.socket_path.clone(), snapshot_path, mem_path })
        } else {
            let mut rootfs = t.data_dir.clone();
            rootfs.append("/rootfs.ext4");
            let mut data_vol = t.data_dir.clone();
            data_vol.append("/data.ext4");
            Ok(StartPlan::Boot {
                socket_path: t.socket_path.clone(),
                rootfs,
                data_vol,
                vcpu: t.tier.vcpu(),
                memory_mb: t.tier.memory_mb(),
                vm_ip: t.vm_ip.clone(),
                gateway_ip: t.gateway_ip.clone(),
                tap_device: t.tap_device.clone(),
                tenant_id: t.id.clone(),
            })
        }
    }

    /// Commits a successful start: persists Running with the new PID,
    /// then updates the table. A catalog failure surfaces as `Db` and
    /// leaves the table unchanged.
    pub fn start_tenant_commit(&mut self, id: &str, vm_pid: u32) -> (r: Result<(), CoreError>)
        requires
            old(self).wf(),
        ensures
            final(self).wf(),
            old(self).addresses_wf() ==> final(self).addresses_wf(),
            old(self).pids_wf() ==> final(self).pids_wf(),
            final(self).subnet_allocator == old(self).subnet_allocator,
            !old(self).tenant_map().contains_key(id@) ==> (r matches Err(CoreError::NotFound))
                && final(self).tenants@ == old(self).tenants@,
            old(self).tenant_map().contains_key(id@) ==> {
                &&& (r matches Ok(_) ==> final(self).tenant_map() =~= old(self).tenant_map().insert(
                    id@,
                    TenantView {
                        status: TenantStatus::Running,
                        vm_pid: Some(vm_pid),
                        ..old(self).tenant_map()[id@]
                    },
                ))
                &&& (r matches Err(e) ==> e matches CoreError::Db && final(self).tenants@ == old(self).tenants@)
            },
    {
        match table_find(&self.tenants, id) {
            Some(i) => {
                proof {
                    crate::table::lemma_pairs_key_at(vec_pairs(self.tenants@), i as int);
                }
            },
            None => {
                proof {
                    lemma_pairs_no_key(vec_pairs(self.tenants@), id@);
                }
                return Err(CoreError::NotFound);
            },
        }
        match self.db.update_tenant_status(id, TenantStatus::Running, Some(vm_pid)) {
            Ok(_) => {},
            Err(_) => {
                return Err(CoreError::Db);
            },
        }
        let _present = table_update_status(
            &mut self.tenants,
            id,
            TenantStatus::Running,
            Some(vm_pid),
        );
        proof {
            lemma_status_update_preserves_invariants(
                *old(self),
                *self,
                id@,
                TenantStatus::Running,
                Some(vm_pid),
            );
        }
        Ok(())
    }

    /// Stops a tenant: persists Stopped with no PID, updates the table,
    /// and returns the PID to signal and the socket file to remove.
    /// Signals and file removal are best-effort and happen outside.
    pub fn stop_tenant(&mut self, id: &str) -> (r: Result<StopPlan, CoreError>)
        requires
            old(self).wf(),
        ensures
            final(self).wf(),
            old(self).addresses_wf() ==> final(self).addresses_wf(),
            old(self).pids_wf() ==> final(self).pids_wf(),
            final(self).subnet_allocator == old(self).subnet_allocator,
            !old(self).tenant_map().contains_key(id@) ==> (r matches Err(CoreError::NotFound))
                && final(self).tenants@ == old(self).tenants@,
            old(self).tenant_map().contains_key(id@) ==> {
                let t = old(self).tenant_map()[id@];
                &&& (r matches Ok(plan) ==> plan.vm_pid == t.vm_pid && plan.socket_path@
                    == t.socket_path && final(self).tenant_map() =~= old(self).tenant_map().insert(
                    id@,
                    TenantView { status: TenantStatus::Stopped, vm_pid: None, ..t },
                ))
                &&& (r matches Err(e) ==> e matches CoreError::Db && final(self).tenants@ == old(self).tenants@)
            },
    {
        let i = match table_find(&self.tenants, id) {
            Some(i) => i,
            None => {
                proof {
                    lemma_pairs_no_key(vec_pairs(self.tenants@), id@);
                }
                return Err(CoreError::NotFound);
            },
        };
        proof {
            lemma_pairs_value_at(vec_pairs(self.tenants@), i as int);
        }
        let vm_pid = self.tenants[i].vm_pid;
        let socket_path = self.tenants[i].socket_path.clone();
        match self.db.update_tenant_status(id, TenantStatus::Stopped, None) {
            Ok(_) => {},
            Err(_) => {
                return Err(CoreError::Db);
            },
        }
        let _present = table_update_status(&mut self.tenants, id, TenantStatus::Stopped, None);
        proof {
            lemma_status_update_preserves_invariants(
                *old(self),
                *self,
                id@,
                TenantStatus::Stopped,
                None,
            );
        }
        Ok(StopPlan { vm_pid, socket_path })
    }

    /// Plans a pause: the tenant must exist and be Running. Returns the
    /// socket to talk to and the request to issue; the state changes
    /// only in `pause_tenant_commit`, after the hypervisor obeyed.
    pub fn pause_tenant_check(&self, id: &str) -> (r: Result<
        (String, crate::firecracker::ApiRequest),
        CoreError,
    >)
        requires
            self.wf(),
        ensures
            !self.tenant_map().contains_key(id@) ==> r matches Err(CoreError::NotFound),
            self.tenant_map().contains_key(id@) && self.tenant_map()[id@].status
                != TenantStatus::Running ==> r matches Err(CoreError::InvalidState),
            self.tenant_map().contains_key(id@) && self.tenant_map()[id@].status
                == TenantStatus::Running ==> (r matches Ok(p) && p.0@
                == self.tenant_map()[id@].socket_path && p.1@.method
                == crate::firecracker::HttpMethod::Patch && p.1@.path == "/vm"@ && p.1@.body == (
            crate::firecracker::ApiBodyView::VmState { state: "Paused"@ })),
    {
        let i = match table_find(&self.tenants, id) {
            Some(i) => i,
            None => {
                proof {
                    lemma_pairs_no_key(vec_pairs(self.tenants@), id@);
                }
                return Err(CoreError::NotFound);
            },
        };
        proof {
            lemma_pairs_value_at(vec_pairs(self.tenants@), i as int);
        }
        if !matches!(self.tenants[i].status, TenantStatus::Running) {
            return Err(CoreError::InvalidState);
        }
        let client = crate::firecracker::FirecrackerClient::new(
            self.fc_bin.as_str(),
            self.tenants[i].socket_path.as_str(),
        );
        Ok((self.tenants[i].socket_path.clone(), client.pause_request()))
    }

    /// Commits a pause after the hypervisor obeyed: persists Paused with
    /// the unchanged PID and updates the table. Re-checks the guards, so
    /// a tenant that is no longer Running is refused.
    pub fn pause_tenant_commit(&mut self, id: &str) -> (r: Result<(), CoreError>)
        requires
            old(self).wf(),
        ensures
            final(self).wf(),
            old(self).addresses_wf() ==> final(self).addresses_wf(),
            old(self).pids_wf() ==> final(self).pids_wf(),
            final(self).subnet_allocator == old(self).subnet_allocator,
            !old(self).tenant_map().contains_key(id@) ==> (r matches Err(CoreError::NotFound))
                && final(self).tenants@ == old(self).tenants@,
            old(self).tenant_map().contains_key(id@) && old(self).tenant_map()[id@].status
                != TenantStatus::Running ==> (r matches Err(CoreError::InvalidState)) && final(self).tenants@ == old(self).tenants@,
            old(self).tenant_map().contains_key(id@) && old(self).tenant_map()[id@].status
                == TenantStatus::Running ==> {
                let t = old(self).tenant_map()[id@];
                &&& (r matches Ok(_) ==> final(self).tenant_map() =~= old(self).tenant_map().insert(
                    id@,
                    TenantView { status: TenantStatus::Paused, vm_pid: t.vm_pid, ..t },
                ))
                &&& (r matches Err(e) ==> e matches CoreError::Db && final(self).tenants@ == old(self).tenants@)
            },
    {
        let i = match table_find(&self.tenants, id) {
            Some(i) => i,
            None => {
                proof {
                    lemma_pairs_no_key(vec_pairs(self.tenants@), id@);
                }
                return Err(CoreError::NotFound);
            },
        };
        proof {
            lemma_pairs_value_at(vec_pairs(self.tenants@), i as int);
        }
        if !matches!(self.tenants[i].status, TenantStatus::Running) {
            return Err(CoreError::InvalidState);
        }
        let vm_pid = self.tenants[i].vm_pid;
        match self.db.update_tenant_status(id, TenantStatus::Paused, vm_pid) {
            Ok(_) => {},
            Err(_) => {
                return Err(CoreError::Db);
            },
        }
        let _present = table_update_status(&mut self.tenants, id, TenantStatus::Paused, vm_pid);
        proof {
            if old(self).pids_wf() {
                assert(vm_pid is Some);
            }
            lemma_status_update_preserves_invariants(
                *old(self),
                *self,
                id@,
                TenantStatus::Paused,
                vm_pid,
            );
        }
        Ok(())
    }

    /// Plans a resume: the tenant must exist and be Paused.
    pub fn resume_tenant_check(&self, id: &str) -> (r: Result<
        (String, crate::firecracker::ApiRequest),
        CoreError,
    >)
        requires
            self.wf(),
        ensures
            !self.tenant_map().contains_key(id@) ==> r matches Err(CoreError::NotFound),
            self.tenant_map().contains_key(id@) && self.tenant_map()[id@].status
                != TenantStatus::Paused ==> r matches Err(CoreError::InvalidState),
            self.tenant_map().contains_key(id@) && self.tenant_map()[id@].status
                == TenantStatus::Paused ==> (r matches Ok(p) && p.0@
                == self.tenant_map()[id@].socket_path && p.1@.method
                == crate::firecracker::HttpMethod::Patch && p.1@.path == "/vm"@ && p.1@.body == (
            crate::firecracker::ApiBodyView::VmState { state: "Resumed"@ })),
    {
        let i = match table_find(&self.tenants, id) {
            Some(i) => i,
            None => {
                proof {
                    lemma_pairs_no_key(vec_pairs(self.tenants@), id@);
                }
                return Err(CoreError::NotFound);
            },
        };
        proof {
            lemma_pairs_value_at(vec_pairs(self.tenants@), i as int);
        }
        if !matches!(self.tenants[i].status, TenantStatus::Paused) {
            return Err(CoreError::InvalidState);
        }
        let client = crate::firecracker::FirecrackerClient::new(
            self.fc_bin.as_str(),
            self.tenants[i].socket_path.as_str(),
        );
        Ok((self.tenants[i].socket_path.clone(), client.resume_request()))
    }

    /// Commits a resume after the hypervisor obeyed: persists Running
    /// with the unchanged PID and updates the table.
    pub fn resume_tenant_commit(&mut self, id: &str) -> (r: Result<(), CoreError>)
        requires
            old(self).wf(),
        ensures
            final(self).wf(),
            old(self).addresses_wf() ==> final(self).addresses_wf(),
            old(self).pids_wf() ==> final(self).pids_wf(),
            final(self).subnet_allocator == old(self).subnet_allocator,
            !old(self).tenant_map().contains_key(id@) ==> (r matches Err(CoreError::NotFound))
                && final(self).tenants@ == old(self).tenants@,
            old(self).tenant_map().contains_key(id@) && old(self).tenant_map()[id@].status
                != TenantStatus::Paused ==> (r matches Err(CoreError::InvalidState)) && final(self).tenants@ == old(self).tenants@,
            old(self).tenant_map().contains_key(id@) && old(self).tenant_map()[id@].status
                == TenantStatus::Paused ==> {
                let t = old(self).tenant_map()[id@];
                &&& (r matches Ok(_) ==> final(self).tenant_map() =~= old(self).tenant_map().insert(
                    id@,
                    TenantView { status: TenantStatus::Running, vm_pid: t.vm_pid, ..t },
                ))
                &&& (r matches Err(e) ==> e matches CoreError::Db && final(self).tenants@ == old(self).tenants@)
            },
    {
        let i = match table_find(&self.tenants, id) {
            Some(i) => i,
            None => {
                proof {
                    lemma_pairs_no_key(vec_pairs(self.tenants@), id@);
                }
                return Err(CoreError::NotFound);
            },
        };
        proof {
            lemma_pairs_value_at(vec_pairs(self.tenants@), i as int);
        }
        if !matches!(self.tenants[i].status, TenantStatus::Paused) {
            return Err(CoreError::InvalidState);
        }
        let vm_pid = self.tenants[i].vm_pid;
        match self.db.update_tenant_status(id, TenantStatus::Running, vm_pid) {
            Ok(_) => {},
            Err(_) => {
                return Err(CoreError::Db);
            },
        }
        let _present = table_update_status(&mut self.tenants, id, TenantStatus::Running, vm_pid);
        proof {
            if old(self).pids_wf() {
                assert(vm_pid is Some);
            }
            lemma_status_update_preserves_invariants(
                *old(self),
                *self,
                id@,
                TenantStatus::Running,
                vm_pid,
            );
        }
        Ok(())
    }
}

// ---------------------------------------------------------------------------
// Snapshots, environment, health, deletion
// ---------------------------------------------------------------------------

/// The text of a tenant environment file: one `KEY="VALUE"` line per
/// variable, in order.
pub open spec fn spec_env_file(vars: Seq<(Seq<char>, Seq<char>)>) -> Seq<char>
    decreases vars.len(),
{
    if vars.len() == 0 {
        Seq::empty()
    } else {
        spec_env_file(vars.drop_last()) + vars.last().0 + "=\""@ + vars.last().1 + "\"\n"@
    }
}

/// The pair views of an environment list.
pub open spec fn env_pairs(vars: Seq<(String, String)>) -> Seq<(Seq<char>, Seq<char>)> {
    vars.map_values(|p: (String, String)| (p.0@, p.1@))
}

/// Renders the environment file written into a tenant's data volume.
pub fn env_file_content(env_vars: &Vec<(String, String)>) -> (r: String)
    ensures
        r@ == spec_env_file(env_pairs(env_vars@)),
{
    let mut r = String::new();
    let mut i: usize = 0;
    while i < env_vars.len()
        invariant
            0 <= i <= env_vars@.len(),
            r@ == spec_env_file(env_pairs(env_vars@).take(i as int)),
        decreases env_vars@.len() - i,
    {
        let ghost before = env_pairs(env_vars@).take(i as int);
        r.append(env_vars[i].0.as_str());
        r.append("=\"");
        r.append(env_vars[i].1.as_str());
        r.append("\"\n");
        i = i + 1;
        proof {
            let now = env_pairs(env_vars@).take(i as int);
            assert(now.drop_last() =~= before);
            assert(now.last() == (env_vars@[i - 1].0@, env_vars@[i - 1].1@));
        }
    }
    proof {
        assert(env_pairs(env_vars@).take(env_vars@.len() as int) =~= env_pairs(env_vars@));
    }
    r
}

/// The environment a tenant is provisioned with: the requested
/// variables, plus the approval-skip flag when the request sets it.
pub fn provision_env_vars(req: &CreateTenantRequest) -> (r: Vec<(String, String)>)
    ensures
        !req.skip_tool_approval ==> env_pairs(r@) == env_pairs(req.env_vars@),
        req.skip_tool_approval ==> env_pairs(r@) =~= env_pairs(req.env_vars@).push(
            ("MICROCLAW_SKIP_TOOL_APPROVAL"@, "true"@),
        ),
{
    let mut r: Vec<(String, String)> = Vec::new();
    let mut i: usize = 0;
    while i < req.env_vars.len()
        invariant
            0 <= i <= req.env_vars@.len(),
            r@.len() == i,
            forall|k: int|
                0 <= k < i ==> #[trigger] env_pairs(r@)[k] == env_pairs(req.env_vars@)[k],
        decreases req.env_vars@.len() - i,
    {
        let ghost before_r = env_pairs(r@);
        let pair = (req.env_vars[i].0.clone(), req.env_vars[i].1.clone());
        r.push(pair);
        i = i + 1;
        proof {
            assert(env_pairs(r@) =~= before_r.push(
                (req.env_vars@[i - 1].0@, req.env_vars@[i - 1].1@),
            ));
            assert(env_pairs(r@)[i - 1] == env_pairs(req.env_vars@)[i - 1]);
        }
    }
    proof {
        assert(env_pairs(r@) =~= env_pairs(req.env_vars@));
    }
    if req.skip_tool_approval {
        let ghost base = env_pairs(r@);
        r.push(
            (String::from_str("MICROCLAW_SKIP_TOOL_APPROVAL"), String::from_str("true")),
        );
        proof {
            assert(env_pairs(r@) =~= base.push(("MICROCLAW_SKIP_TOOL_APPROVAL"@, "true"@)));
        }
    }
    r
}

/// The textual VM state reported for a status.
pub open spec fn spec_vm_status_str(s: TenantStatus) -> Seq<char> {
    match s {
        TenantStatus::Running => "running"@,
        TenantStatus::Stopped => "stopped"@,
        TenantStatus::Paused => "paused"@,
        TenantStatus::Creating => "creating"@,
        TenantStatus::Failed => "failed"@,
    }
}

impl TenantManager {
    /// Plans a snapshot: the tenant must exist and be Running or Paused.
    /// The snapshot directory is stamped with the current clock; a
    /// Running tenant must be paused around the write (`pause_first`).
    pub fn snapshot_tenant_plan(&self, id: &str) -> (r: Result<SnapshotPlan, CoreError>)
        requires
            self.wf(),
        ensures
            !self.tenant_map().contains_key(id@) ==> r matches Err(CoreError::NotFound),
            self.tenant_map().contains_key(id@) && !(self.tenant_map()[id@].status
                == TenantStatus::Running || self.tenant_map()[id@].status
                == TenantStatus::Paused) ==> r matches Err(CoreError::InvalidState),
            self.tenant_map().contains_key(id@) && (self.tenant_map()[id@].status
                == TenantStatus::Running || self.tenant_map()[id@].status
                == TenantStatus::Paused) ==> {
                let t = self.tenant_map()[id@];
                &&& r matches Ok(plan)
                &&& plan.snapshot_dir@ == t.data_dir + "/snapshots/"@
                    + crate::clock::compact_stamp_of(plan.stamp_ts)
                &&& plan.snapshot_path@ == plan.snapshot_dir@ + "/vm.snap"@
                &&& plan.mem_path@ == plan.snapshot_dir@ + "/vm.mem"@
                &&& plan.socket_path@ == t.socket_path
                &&& plan.pause_first == (t.status == TenantStatus::Running)
                &&& ts_in_range(plan.stamp_ts)
            },
    {
        let i = match table_find(&self.tenants, id) {
            Some(i) => i,
            None => {
                proof {
                    lemma_pairs_no_key(vec_pairs(self.tenants@), id@);
                }
                return Err(CoreError::NotFound);
            },
        };
        proof {
            lemma_pairs_value_at(vec_pairs(self.tenants@), i as int);
        }
        let running = matches!(self.tenants[i].status, TenantStatus::Running);
        let paused = matches!(self.tenants[i].status, TenantStatus::Paused);
        if !running && !paused {
            return Err(CoreError::InvalidState);
        }
        let stamp_ts = crate::clock::clamp_ts(crate::clock::now_ts());
        let stamp = crate::clock::format_compact_ts(stamp_ts);
        let mut snapshot_dir = self.tenants[i].data_dir.clone();
        snapshot_dir.append("/snapshots/");
        snapshot_dir.append(stamp.as_str());
        let mut snapshot_path = snapshot_dir.clone();
        snapshot_path.append("/vm.snap");
        let mut mem_path = snapshot_dir.clone();
        mem_path.append("/vm.mem");
        Ok(SnapshotPlan {
            snapshot_dir,
            snapshot_path,
            mem_path,
            socket_path: self.tenants[i].socket_path.clone(),
            pause_first: running,
            stamp_ts,
        })
    }

    /// Checks an environment update: the data volume is in guest use
    /// while the tenant is Running or Paused, so only other states are
    /// allowed. Returns the tenant's data directory.
    pub fn update_env_check(&self, id: &str) -> (r: Result<String, CoreError>)
        requires
            self.wf(),
        ensures
            !self.tenant_map().contains_key(id@) ==> r matches Err(CoreError::NotFound),
            self.tenant_map().contains_key(id@) && (self.tenant_map()[id@].status
                == TenantStatus::Running || self.tenant_map()[id@].status
                == TenantStatus::Paused) ==> r matches Err(CoreError::InvalidState),
            self.tenant_map().contains_key(id@) && !(self.tenant_map()[id@].status
                == TenantStatus::Running || self.tenant_map()[id@].status
                == TenantStatus::Paused) ==> (r matches Ok(d) && d@
                == self.tenant_map()[id@].data_dir),
    {
        let i = match table_find(&self.tenants, id) {
            Some(i) => i,
            None => {
                proof {
                    lemma_pairs_no_key(vec_pairs(self.tenants@), id@);
                }
                return Err(CoreError::NotFound);
            },
        };
        proof {
            lemma_pairs_value_at(vec_pairs(self.tenants@), i as int);
        }
        let running = matches!(self.tenants[i].status, TenantStatus::Running);
        let paused = matches!(self.tenants[i].status, TenantStatus::Paused);
        if running || paused {
            return Err(CoreError::InvalidState);
        }
        Ok(self.tenants[i].data_dir.clone())
    }

    /// The health probe for a tenant: `Some(url)` exactly when it is
    /// Running, with the guest health endpoint to query.
    pub fn health_probe_url(&self, id: &str) -> (r: Result<Option<String>, CoreError>)
        requires
            self.wf(),
        ensures
            !self.tenant_map().contains_key(id@) ==> r matches Err(CoreError::NotFound),
            self.tenant_map().contains_key(id@) ==> {
                let t = self.tenant_map()[id@];
                &&& t.status == TenantStatus::Running ==> (r matches Ok(u) && u matches Some(url)
                    && url@ == "http://"@ + t.vm_ip + ":8080/health"@)
                &&& t.status != TenantStatus::Running ==> r matches Ok(None)
            },
    {
        let i = match table_find(&self.tenants, id) {
            Some(i) => i,
            None => {
                proof {
                    lemma_pairs_no_key(vec_pairs(self.tenants@), id@);
                }
                return Err(CoreError::NotFound);
            },
        };
        proof {
            lemma_pairs_value_at(vec_pairs(self.tenants@), i as int);
        }
        if matches!(self.tenants[i].status, TenantStatus::Running) {
            let mut url = String::from_str("http://");
            url.append(self.tenants[i].vm_ip.as_str());
            url.append(":8080/health");
            Ok(Some(url))
        } else {
            Ok(None)
        }
    }

    /// The health report for a tenant. `probe_healthy` is the outcome of
    /// querying the guest health endpoint; it is only consulted for a
    /// Running tenant, whose guest reports `healthy` or `unreachable` —
    /// any other state reports `n/a`.
    pub fn health_report(&self, id: &str, probe_healthy: bool) -> (r: Result<
        HealthStatus,
        CoreError,
    >)
        requires
            self.wf(),
        ensures
            !self.tenant_map().contains_key(id@) ==> r matches Err(CoreError::NotFound),
            self.tenant_map().contains_key(id@) ==> {
                let t = self.tenant_map()[id@];
                &&& r matches Ok(h)
                &&& h.vm_status@ == spec_vm_status_str(t.status)
                &&& h.microclaw_status@ == (if t.status == TenantStatus::Running {
                    if probe_healthy {
                        "healthy"@
                    } else {
                        "unreachable"@
                    }
                } else {
                    "n/a"@
                })
                &&& h.uptime_s is None
            },
    {
        let i = match table_find(&self.tenants, id) {
            Some(i) => i,
            None => {
                proof {
                    lemma_pairs_no_key(vec_pairs(self.tenants@), id@);
                }
                return Err(CoreError::NotFound);
            },
        };
        proof {
            lemma_pairs_value_at(vec_pairs(self.tenants@), i as int);
        }
        let vm_status = match self.tenants[i].status {
            TenantStatus::Running => "running",
            TenantStatus::Stopped => "stopped",
            TenantStatus::Paused => "paused",
            TenantStatus::Creating => "creating",
            TenantStatus::Failed => "failed",
        };
        let microclaw_status = if matches!(self.tenants[i].status, TenantStatus::Running) {
            if probe_healthy {
                "healthy"
            } else {
                "unreachable"
            }
        } else {
            "n/a"
        };
        Ok(HealthStatus {
            vm_status: String::from_str(vm_status),
            microclaw_status: String::from_str(microclaw_status),
            uptime_s: None,
        })
    }

    /// Deletes a tenant: frees its subnet, removes the stored row and
    /// drops it from the table, returning the record so the caller can
    /// tear down the host artifacts (process, TAP device, data
    /// directory, socket). A catalog failure surfaces as `Db` after the
    /// subnet is already released, mirroring the write order.
    pub fn delete_tenant(&mut self, id: &str) -> (r: Result<Tenant, CoreError>)
        requires
            old(self).wf(),
        ensures
            final(self).wf(),
            old(self).addresses_wf() && (r matches Ok(_)) ==> final(self).addresses_wf(),
            old(self).pids_wf() ==> final(self).pids_wf(),
            !old(self).tenant_map().contains_key(id@) ==> (r matches Err(CoreError::NotFound))
                && final(self).tenants@ == old(self).tenants@ && final(self).subnet_allocator
                == old(self).subnet_allocator,
            old(self).tenant_map().contains_key(id@) ==> {
                &&& final(self).subnet_allocator.alloc_map() =~= old(self).subnet_allocator.alloc_map().remove(id@)
                &&& final(self).subnet_allocator.next_index == old(self).subnet_allocator.next_index
                &&& (r matches Ok(t) ==> t@ == old(self).tenant_map()[id@] && final(self).tenant_map() =~= old(self).tenant_map().remove(id@))
                &&& (r matches Err(e) ==> e matches CoreError::Db && final(self).tenants@ == old(self).tenants@)
            },
    {
        match table_find(&self.tenants, id) {
            Some(i) => {
                proof {
                    crate::table::lemma_pairs_key_at(vec_pairs(self.tenants@), i as int);
                }
            },
            None => {
                proof {
                    lemma_pairs_no_key(vec_pairs(self.tenants@), id@);
                }
                return Err(CoreError::NotFound);
            },
        }
        self.subnet_allocator.release(id);
        match self.db.delete_tenant(id) {
            Ok(_) => {},
            Err(_) => {
                return Err(CoreError::Db);
            },
        }
        match table_remove(&mut self.tenants, id) {
            Some(t) => {
            proof {
                if old(self).addresses_wf() {
                    assert forall|t2: Seq<char>| #[trigger] self.tenant_map().contains_key(
                        t2,
                    ) implies {
                        &&& self.subnet_allocator.alloc_map().contains_key(t2)
                        &&& self.subnet_allocator.alloc_map()[t2]
                            < self.subnet_allocator.next_index
                        &&& self.tenant_map()[t2].vm_ip == spec_vm_ip(
                            self.subnet_allocator.base_network@,
                            self.subnet_allocator.alloc_map()[t2],
                        )
                        &&& self.tenant_map()[t2].gateway_ip == spec_gateway_ip(
                            self.subnet_allocator.base_network@,
                            self.subnet_allocator.alloc_map()[t2],
                        )
                    } by {
                        assert(t2 != id@);
                        assert(old(self).tenant_map().contains_key(t2));
                        assert(self.tenant_map()[t2] == old(self).tenant_map()[t2]);
                        assert(self.subnet_allocator.alloc_map()[t2] == old(
                            self,
                        ).subnet_allocator.alloc_map()[t2]);
                    }
                    assert(self.addresses_wf());
                }
            }
                Ok(t)
            },
            None => Err(CoreError::NotFound),
        }
    }

    /// Rebuilds state from the durable catalog at startup: restores the
    /// allocator cursor and the per-tenant subnet mappings from the
    /// stored guest addresses, reconciles each stored status against
    /// live process state (see `spec_reconcile`), persists the changed
    /// ones, and fills the table. Individual failures are swallowed —
    /// startup proceeds regardless. Whatever the catalog held, every
    /// tenant recovery installs has been reconciled: never Creating,
    /// and Running or Paused only with a live-checked PID; the base
    /// network and the configuration are untouched.
    pub fn recover(&mut self)
        requires
            old(self).wf(),
        ensures
            final(self).wf(),
            final(self).subnet_allocator.base_network@ == old(
                self,
            ).subnet_allocator.base_network@,
            final(self).fc_bin == old(self).fc_bin,
            final(self).vmlinux == old(self).vmlinux,
            final(self).rootfs == old(self).rootfs,
            final(self).data_dir == old(self).data_dir,
            final(self).snapshot_manager == old(self).snapshot_manager,
            forall|id: Seq<char>|
                #[trigger] final(self).tenant_map().contains_key(id) ==> (old(
                    self,
                ).tenant_map().contains_key(id) && final(self).tenant_map()[id] == old(
                    self,
                ).tenant_map()[id]) || spec_recovered_entry(final(self).tenant_map()[id]),
            forall|id: Seq<char>|
                #[trigger] final(self).tenant_map().contains_key(id) && !old(
                    self,
                ).tenant_map().contains_key(id) ==> spec_recovered_entry(
                    final(self).tenant_map()[id],
                ),
            old(self).pids_wf() ==> final(self).pids_wf(),
    {
        let loaded = match self.db.load_all_tenants() {
            Ok(t) => t,
            Err(_) => {
                return;
            },
        };
        match self.db.get_subnet_next_index() {
            Ok(idx) => self.subnet_allocator.set_next_index(idx),
            Err(_) => {},
        }
        let mut i: usize = 0;
        while i < loaded.len()
            invariant
                0 <= i <= loaded@.len(),
                self.wf(),
                self.subnet_allocator.base_network@ == old(
                    self,
                ).subnet_allocator.base_network@,
                self.fc_bin == old(self).fc_bin,
                self.vmlinux == old(self).vmlinux,
                self.rootfs == old(self).rootfs,
                self.data_dir == old(self).data_dir,
                self.snapshot_manager == old(self).snapshot_manager,
                forall|id: Seq<char>|
                    #[trigger] self.tenant_map().contains_key(id) ==> (old(
                        self,
                    ).tenant_map().contains_key(id) && self.tenant_map()[id] == old(
                        self,
                    ).tenant_map()[id]) || spec_recovered_entry(self.tenant_map()[id]),
            decreases loaded@.len() - i,
        {
            let ghost map_before = self.tenant_map();
            let mut tenant = loaded[i].clone();
            match crate::network::parse_subnet_index(tenant.vm_ip.as_str()) {
                Some(index) => {
                    self.subnet_allocator.restore_allocation(tenant.id.as_str(), index);
                },
                None => {},
            }
            let alive = match tenant.vm_pid {
                Some(pid) => crate::host::process_alive(pid),
                None => false,
            };
            let decision = crate::tenant::reconcile_status(tenant.status, tenant.vm_pid, alive);
            let (new_status, new_pid, persist) = decision;
            if persist {
                let _persisted = self.db.update_tenant_status(
                    tenant.id.as_str(),
                    new_status,
                    new_pid,
                );
            }
            tenant.status = new_status;
            tenant.vm_pid = new_pid;
            proof {
                assert(spec_recovered_entry(tenant@));
            }
            let ghost tv = tenant@;
            table_upsert(&mut self.tenants, tenant);
            i = i + 1;
            proof {
                assert forall|id: Seq<char>| #[trigger] self.tenant_map().contains_key(
                    id,
                ) implies (old(self).tenant_map().contains_key(id) && self.tenant_map()[id] == old(
                    self,
                ).tenant_map()[id]) || spec_recovered_entry(self.tenant_map()[id]) by {
                    if id == tv.id {
                        assert(self.tenant_map()[id] == tv);
                    } else {
                        assert(map_before.contains_key(id));
                        assert(self.tenant_map()[id] == map_before[id]);
                    }
                }
            }
        }
        proof {
            if old(self).pids_wf() {
                assert forall|id: Seq<char>| #[trigger] self.tenant_map().contains_key(
                    id,
                ) implies ((self.tenant_map()[id].status == TenantStatus::Running
                    || self.tenant_map()[id].status == TenantStatus::Paused)
                    ==> self.tenant_map()[id].vm_pid is Some) by {
                    if !(old(self).tenant_map().contains_key(id) && self.tenant_map()[id] == old(
                        self,
                    ).tenant_map()[id]) {
                        assert(spec_recovered_entry(self.tenant_map()[id]));
                    }
                }
                assert(self.pids_wf());
            }
        }
    }
}

/// Data-model invariant made observable: under `addresses_wf` no two
/// live tenants share a /30 — distinct tenants carry distinct guest
/// addresses and distinct gateway addresses.
pub proof fn lemma_live_addresses_distinct(m: &TenantManager, id1: Seq<char>, id2: Seq<char>)
    requires
        m.addresses_wf(),
        m.tenant_map().contains_key(id1),
        m.tenant_map().contains_key(id2),
        id1 != id2,
    ensures
        m.tenant_map()[id1].vm_ip != m.tenant_map()[id2].vm_ip,
        m.tenant_map()[id1].gateway_ip != m.tenant_map()[id2].gateway_ip,
{
    crate::network::lemma_derived_ips_injective(
        m.subnet_allocator.base_network@,
        m.subnet_allocator.alloc_map()[id1],
        m.subnet_allocator.alloc_map()[id2],
    );
}

/// What recovery promises of every tenant it installs, whatever the
/// catalog held: the status has been reconciled — never Creating — and
/// a Running or Paused tenant carries a PID that was checked against a
/// live process.
pub open spec fn spec_recovered_entry(t: TenantView) -> bool {
    &&& t.status != TenantStatus::Creating
    &&& (t.status == TenantStatus::Running || t.status == TenantStatus::Paused) ==> t.vm_pid
        is Some
}

// ---------------------------------------------------------------------------
// Metrics
// ---------------------------------------------------------------------------

/// Gauge values served by the metrics endpoint.
pub struct StatusCounts {
    pub total: usize,
    pub creating: usize,
    pub running: usize,
    pub stopped: usize,
    pub paused: usize,
    pub failed: usize,
}

/// How many tenants in the list carry the given status.
pub open spec fn spec_count_status(ts: Seq<Tenant>, s: TenantStatus) -> int
    decreases ts.len(),
{
    if ts.len() == 0 {
        0
    } else {
        spec_count_status(ts.drop_last(), s) + if ts.last()@.status == s {
            1int
        } else {
            0int
        }
    }
}

/// Every tenant carries exactly one status, so the five per-status
/// counts partition the population: they always sum to the total.
pub proof fn lemma_status_counts_partition(ts: Seq<Tenant>)
    ensures
        spec_count_status(ts, TenantStatus::Creating) + spec_count_status(
            ts,
            TenantStatus::Running,
        ) + spec_count_status(ts, TenantStatus::Stopped) + spec_count_status(
            ts,
            TenantStatus::Paused,
        ) + spec_count_status(ts, TenantStatus::Failed) == ts.len(),
    decreases ts.len(),
{
    if ts.len() > 0 {
        lemma_status_counts_partition(ts.drop_last());
    }
}

impl TenantManager {
    /// Counts the tenants by status. The five gauges sum to the total.
    pub fn metrics_counts(&self) -> (r: StatusCounts)
        ensures
            r.total == self.tenants@.len(),
            r.creating == spec_count_status(self.tenants@, TenantStatus::Creating),
            r.running == spec_count_status(self.tenants@, TenantStatus::Running),
            r.stopped == spec_count_status(self.tenants@, TenantStatus::Stopped),
            r.paused == spec_count_status(self.tenants@, TenantStatus::Paused),
            r.failed == spec_count_status(self.tenants@, TenantStatus::Failed),
            r.creating + r.running + r.stopped + r.paused + r.failed == r.total,
    {
        let mut creating: usize = 0;
        let mut running: usize = 0;
        let mut stopped: usize = 0;
        let mut paused: usize = 0;
        let mut failed: usize = 0;
        let mut i: usize = 0;
        while i < self.tenants.len()
            invariant
                0 <= i <= self.tenants@.len(),
                creating == spec_count_status(self.tenants@.take(i as int), TenantStatus::Creating),
                running == spec_count_status(self.tenants@.take(i as int), TenantStatus::Running),
                stopped == spec_count_status(self.tenants@.take(i as int), TenantStatus::Stopped),
                paused == spec_count_status(self.tenants@.take(i as int), TenantStatus::Paused),
                failed == spec_count_status(self.tenants@.take(i as int), TenantStatus::Failed),
                creating + running + stopped + paused + failed == i,
            decreases self.tenants@.len() - i,
        {
            let ghost before = self.tenants@.take(i as int);
            match self.tenants[i].status {
                TenantStatus::Creating => {
                    creating = creating + 1;
                },
                TenantStatus::Running => {
                    running = running + 1;
                },
                TenantStatus::Stopped => {
                    stopped = stopped + 1;
                },
                TenantStatus::Paused => {
                    paused = paused + 1;
                },
                TenantStatus::Failed => {
                    failed = failed + 1;
                },
            }
            i = i + 1;
            proof {
                let now = self.tenants@.take(i as int);
                assert(now.drop_last() =~= before);
                assert(now.last() == self.tenants@[i - 1]);
            }
        }
        proof {
            assert(self.tenants@.take(self.tenants@.len() as int) =~= self.tenants@);
            lemma_status_counts_partition(self.tenants@);
        }
        StatusCounts {
            total: self.tenants.len(),
            creating,
            running,
            stopped,
            paused,
            failed,
        }
    }
}

} // verus!
