//! The /30 subnet allocator and the parsing that rebuilds it at recovery.
//!
//! Each tenant gets one /30 out of a /16 base: index `i` yields
//! `base.i.1` for the host gateway and `base.i.2` for the guest. Indices
//! are handed out strictly in cursor order and never reused within a
//! process lifetime; releases only forget the mapping.

use vstd::prelude::*;

use crate::errors::CoreError;
use crate::strutil::{all_digits, dec_str, dec_val, split_spec};

verus! {

broadcast use vstd::string::group_string_axioms;

/// Highest subnet index the allocator will hand out.
pub const MAX_SUBNET_INDEX: u16 = 65000;

// ---------------------------------------------------------------------------
// Derived IP strings
// ---------------------------------------------------------------------------

/// Gateway address of subnet `index`: `base.index.1`.
pub open spec fn spec_gateway_ip(base: Seq<char>, index: u16) -> Seq<char> {
    base + "."@ + dec_str(index as nat) + ".1"@
}

/// Guest address of subnet `index`: `base.index.2`.
pub open spec fn spec_vm_ip(base: Seq<char>, index: u16) -> Seq<char> {
    base + "."@ + dec_str(index as nat) + ".2"@
}

fn render_ip(base: &str, index: u16, last: &str) -> (r: String)
    ensures
        r@ == base@ + "."@ + dec_str(index as nat) + last@,
{
    let mut r = String::from_str(base);
    r.append(".");
    let digits = crate::strutil::u64_to_string(index as u64);
    r.append(digits.as_str());
    r.append(last);
    r
}

proof fn lemma_ip_middle_injective(base: Seq<char>, d1: Seq<char>, d2: Seq<char>, suf: Seq<char>)
    requires
        base + "."@ + d1 + suf == base + "."@ + d2 + suf,
    ensures
        d1 == d2,
{
    let s1 = base + "."@ + d1 + suf;
    let s2 = base + "."@ + d2 + suf;
    reveal_strlit(".");
    assert(s1.len() == base.len() + 1 + d1.len() + suf.len());
    assert(s2.len() == base.len() + 1 + d2.len() + suf.len());
    assert(d1.len() == d2.len());
    assert forall|k: int| 0 <= k < d1.len() implies d1[k] == d2[k] by {
        let left1 = base + "."@ + d1;
        let left2 = base + "."@ + d2;
        assert(s1[base.len() + 1 + k] == left1[base.len() + 1 + k]);
        assert(left1[base.len() + 1 + k] == d1[k]);
        assert(s2[base.len() + 1 + k] == left2[base.len() + 1 + k]);
        assert(left2[base.len() + 1 + k] == d2[k]);
    }
    assert(d1 =~= d2);
}

/// Distinct subnet indices derive distinct guest addresses and distinct
/// gateway addresses: no two subnets of one base share an address.
pub proof fn lemma_derived_ips_injective(base: Seq<char>, i: u16, j: u16)
    requires
        i != j,
    ensures
        spec_vm_ip(base, i) != spec_vm_ip(base, j),
        spec_gateway_ip(base, i) != spec_gateway_ip(base, j),
{
    if spec_vm_ip(base, i) == spec_vm_ip(base, j) {
        lemma_ip_middle_injective(base, dec_str(i as nat), dec_str(j as nat), ".2"@);
        crate::strutil::lemma_dec_str_injective(i as nat, j as nat);
    }
    if spec_gateway_ip(base, i) == spec_gateway_ip(base, j) {
        lemma_ip_middle_injective(base, dec_str(i as nat), dec_str(j as nat), ".1"@);
        crate::strutil::lemma_dec_str_injective(i as nat, j as nat);
    }
}

/// The first two dot-separated fields of a /16 CIDR, e.g. `172.16`.
pub open spec fn spec_base_of_cidr(cidr: Seq<char>) -> Seq<char> {
    let parts = split_spec(cidr, '.');
    if parts.len() >= 2 {
        parts[0] + "."@ + parts[1]
    } else {
        parts[0]
    }
}

// ---------------------------------------------------------------------------
// The allocator
// ---------------------------------------------------------------------------

/// Assigns each tenant a /30 subnet out of a /16 base network.
///
/// Only the cursor is persisted; the id-to-index mapping is rebuilt from
/// the stored guest addresses at recovery.
pub struct SubnetAllocator {
    pub base_network: String,
    pub next_index: u16,
    pub allocated: Vec<(String, u16)>,
}

impl SubnetAllocator {
    /// The id-to-index mapping currently held.
    pub open spec fn alloc_map(&self) -> Map<Seq<char>, u16> {
        crate::table::map_of_pairs(self.entries())
    }

    pub open spec fn entries(&self) -> Seq<(Seq<char>, u16)> {
        self.allocated@.map_values(|e: (String, u16)| (e.0@, e.1))
    }

    /// Builds an allocator over the first two octets of `cidr` with the
    /// cursor at 1 and nothing allocated. Only /16 bases are supported.
    pub fn new(cidr: &str) -> (r: Self)
        ensures
            r.base_network@ == spec_base_of_cidr(cidr@),
            r.next_index == 1,
            r.alloc_map() =~= Map::<Seq<char>, u16>::empty(),
    {
        let parts = crate::strutil::split_char(cidr, '.');
        proof {
            crate::strutil::lemma_split_len(cidr@, '.');
        }
        let base = if parts.len() >= 2 {
            let mut b = parts[0].clone();
            b.append(".");
            b.append(parts[1].as_str());
            b
        } else {
            parts[0].clone()
        };
        let r = SubnetAllocator { base_network: base, next_index: 1, allocated: Vec::new() };
        proof {
            assert(r.entries() =~= Seq::<(Seq<char>, u16)>::empty());
        }
        r
    }

    /// Whether a subnet is currently held for `tenant_id`.
    fn contains_id(&self, tenant_id: &str) -> (r: bool)
        ensures
            r == self.alloc_map().contains_key(tenant_id@),
    {
        let mut i: usize = 0;
        while i < self.allocated.len()
            invariant
                0 <= i <= self.allocated@.len(),
                forall|k: int| 0 <= k < i ==> (#[trigger] self.allocated@[k]).0@ != tenant_id@,
            decreases self.allocated@.len() - i,
        {
            if crate::strutil::str_eq(self.allocated[i].0.as_str(), tenant_id) {
                proof {
                    assert(self.entries()[i as int].0 == tenant_id@);
                    crate::table::lemma_pairs_key_at(self.entries(), i as int);
                }
                return true;
            }
            i = i + 1;
        }
        proof {
            assert(forall|k: int|
                0 <= k < self.entries().len() ==> (#[trigger] self.entries()[k]).0 != tenant_id@);
            crate::table::lemma_pairs_no_key(self.entries(), tenant_id@);
        }
        false
    }

    /// Assigns the next /30 to `tenant_id` and returns
    /// `(gateway_ip, vm_ip)`.
    ///
    /// Fails with `AlreadyAllocated` when the tenant already holds a
    /// subnet and with `PoolExhausted` when the cursor has passed
    /// `MAX_SUBNET_INDEX`; in both cases the allocator is unchanged.
    /// On success the returned index is exactly the old cursor, the
    /// cursor advances by one, and no other tenant's mapping changes.
    pub fn allocate(&mut self, tenant_id: &str) -> (r: Result<(String, String), CoreError>)
        ensures
            old(self).alloc_map().contains_key(tenant_id@) ==> (r matches Err(
                CoreError::AlreadyAllocated,
            )) && *final(self) == *old(self),
            !old(self).alloc_map().contains_key(tenant_id@) && old(self).next_index
                > MAX_SUBNET_INDEX ==> (r matches Err(CoreError::PoolExhausted)) && *final(self)
                == *old(self),
            !old(self).alloc_map().contains_key(tenant_id@) && old(self).next_index
                <= MAX_SUBNET_INDEX ==> {
                &&& r matches Ok(ips)
                &&& ips.0@ == spec_gateway_ip(old(self).base_network@, old(self).next_index)
                &&& ips.1@ == spec_vm_ip(old(self).base_network@, old(self).next_index)
                &&& final(self).next_index == old(self).next_index + 1
                &&& final(self).base_network@ == old(self).base_network@
                &&& final(self).alloc_map() =~= old(self).alloc_map().insert(
                    tenant_id@,
                    old(self).next_index,
                )
            },
    {
        if self.contains_id(tenant_id) {
            return Err(CoreError::AlreadyAllocated);
        }
        if self.next_index > MAX_SUBNET_INDEX {
            return Err(CoreError::PoolExhausted);
        }
        let index = self.next_index;
        self.next_index = self.next_index + 1;
        let ghost entries_before = self.entries();
        self.allocated.push((String::from_str(tenant_id), index));
        proof {
            assert(self.entries() =~= entries_before.push((tenant_id@, index)));
            assert(self.entries().drop_last() =~= entries_before);
            assert(self.entries().last() == (tenant_id@, index));
            assert(crate::table::map_of_pairs(self.entries()) =~= crate::table::map_of_pairs(entries_before).insert(
                tenant_id@,
                index,
            ));
        }
        let gateway_ip = render_ip(self.base_network.as_str(), index, ".1");
        let vm_ip = render_ip(self.base_network.as_str(), index, ".2");
        Ok((gateway_ip, vm_ip))
    }

    /// Forgets the mapping for `tenant_id`. The cursor is not moved:
    /// released indices are never handed out again.
    pub fn release(&mut self, tenant_id: &str)
        ensures
            final(self).alloc_map() =~= old(self).alloc_map().remove(tenant_id@),
            final(self).next_index == old(self).next_index,
            final(self).base_network@ == old(self).base_network@,
    {
        let ghost entries_before = self.entries();
        let mut kept: Vec<(String, u16)> = Vec::new();
        let mut i: usize = 0;
        while i < self.allocated.len()
            invariant
                0 <= i <= self.allocated@.len(),
                crate::table::map_of_pairs(kept@.map_values(|e: (String, u16)| (e.0@, e.1))) == crate::table::map_of_pairs(
                    self.allocated@.take(i as int).map_values(|e: (String, u16)| (e.0@, e.1)),
                ).remove(tenant_id@),
            decreases self.allocated@.len() - i,
        {
            let ghost kept_before = kept@.map_values(|e: (String, u16)| (e.0@, e.1));
            let ghost taken_before = self.allocated@.take(i as int).map_values(
                |e: (String, u16)| (e.0@, e.1),
            );
            let keep = !crate::strutil::str_eq(self.allocated[i].0.as_str(), tenant_id);
            if keep {
                let entry = (self.allocated[i].0.clone(), self.allocated[i].1);
                kept.push(entry);
            }
            i = i + 1;
            proof {
                let e = (self.allocated@[i - 1].0@, self.allocated@[i - 1].1);
                let taken_now = self.allocated@.take(i as int).map_values(
                    |x: (String, u16)| (x.0@, x.1),
                );
                assert(taken_now =~= taken_before.push(e));
                assert(taken_now.drop_last() =~= taken_before);
                if keep {
                    let kept_now = kept@.map_values(|x: (String, u16)| (x.0@, x.1));
                    assert(kept_now =~= kept_before.push(e));
                    assert(kept_now.drop_last() =~= kept_before);
                    assert(crate::table::map_of_pairs(kept_now) =~= crate::table::map_of_pairs(taken_now).remove(
                        tenant_id@,
                    ));
                } else {
                    assert(crate::table::map_of_pairs(
                        kept@.map_values(|x: (String, u16)| (x.0@, x.1)),
                    ) =~= crate::table::map_of_pairs(taken_now).remove(tenant_id@));
                }
            }
        }
        proof {
            assert(self.allocated@.take(i as int) =~= self.allocated@);
        }
        self.allocated = kept;
    }

    /// Restores the cursor from its persisted value (recovery path).
    pub fn set_next_index(&mut self, index: u16)
        ensures
            final(self).next_index == index,
            final(self).base_network@ == old(self).base_network@,
            final(self).alloc_map() == old(self).alloc_map(),
    {
        self.next_index = index;
    }

    /// Records a mapping rebuilt from a stored guest address without
    /// advancing the cursor (recovery path).
    pub fn restore_allocation(&mut self, tenant_id: &str, index: u16)
        ensures
            final(self).alloc_map() =~= old(self).alloc_map().insert(tenant_id@, index),
            final(self).next_index == old(self).next_index,
            final(self).base_network@ == old(self).base_network@,
    {
        let ghost entries_before = self.entries();
        self.allocated.push((String::from_str(tenant_id), index));
        proof {
            assert(self.entries() =~= entries_before.push((tenant_id@, index)));
            assert(self.entries().drop_last() =~= entries_before);
            assert(self.entries().last() == (tenant_id@, index));
            assert(crate::table::map_of_pairs(self.entries()) =~= crate::table::map_of_pairs(entries_before).insert(
                tenant_id@,
                index,
            ));
        }
    }

    /// The cursor value to persist.
    pub fn next_index(&self) -> (r: u16)
        ensures
            r == self.next_index,
    {
        self.next_index
    }
}

// ---------------------------------------------------------------------------
// Allocator laws over whole call sequences
// ---------------------------------------------------------------------------

/// One successful `allocate` call, exactly as its contract describes
/// it: `pre` and `post` are the allocator before and after the call,
/// `id` the tenant, and the returned pair derives from `pre`'s cursor.
pub open spec fn spec_allocate_ok(
    pre: SubnetAllocator,
    post: SubnetAllocator,
    id: Seq<char>,
    gateway_ip: Seq<char>,
    vm_ip: Seq<char>,
) -> bool {
    &&& !pre.alloc_map().contains_key(id)
    &&& pre.next_index <= MAX_SUBNET_INDEX
    &&& gateway_ip == spec_gateway_ip(pre.base_network@, pre.next_index)
    &&& vm_ip == spec_vm_ip(pre.base_network@, pre.next_index)
    &&& post.next_index == pre.next_index + 1
    &&& post.base_network@ == pre.base_network@
    &&& post.alloc_map() == pre.alloc_map().insert(id, pre.next_index)
}

/// One `restore_allocation` call as its contract describes it: the
/// mapping is recorded, the cursor and the base do not move.
pub open spec fn spec_restore_step(
    pre: SubnetAllocator,
    post: SubnetAllocator,
    id: Seq<char>,
    index: u16,
) -> bool {
    &&& post.next_index == pre.next_index
    &&& post.base_network@ == pre.base_network@
    &&& post.alloc_map() == pre.alloc_map().insert(id, index)
}

/// Allocator monotonicity: along any run of successful allocations
/// without releases, starting from a fresh allocator (cursor 1), the
/// k-th call returns exactly `base.(k+1).1` and `base.(k+1).2` — the
/// indices handed out are 1, 2, 3, ... in order.
pub proof fn lemma_allocation_run_monotonic(
    states: Seq<SubnetAllocator>,
    ids: Seq<Seq<char>>,
    gateways: Seq<Seq<char>>,
    vm_ips: Seq<Seq<char>>,
    k: int,
)
    requires
        states.len() == ids.len() + 1,
        gateways.len() == ids.len(),
        vm_ips.len() == ids.len(),
        states[0].next_index == 1,
        forall|i: int|
            0 <= i < ids.len() ==> spec_allocate_ok(
                states[i],
                #[trigger] states[i + 1],
                ids[i],
                gateways[i],
                vm_ips[i],
            ),
        0 <= k < ids.len(),
    ensures
        states[k].next_index == k + 1,
        states[k].base_network@ == states[0].base_network@,
        gateways[k] == spec_gateway_ip(states[0].base_network@, (k + 1) as u16),
        vm_ips[k] == spec_vm_ip(states[0].base_network@, (k + 1) as u16),
    decreases k,
{
    if k > 0 {
        lemma_allocation_run_monotonic(states, ids, gateways, vm_ips, k - 1);
        let i = k - 1;
        assert(spec_allocate_ok(states[i], states[i + 1], ids[i], gateways[i], vm_ips[i]));
    }
    assert(spec_allocate_ok(states[k], states[k + 1], ids[k], gateways[k], vm_ips[k]));
    assert(states[k].next_index == (k + 1) as u16);
}

/// Allocator recovery round trip: from any starting allocator, restore
/// any sequence of persisted mappings — `restore_allocation` never
/// moves the cursor or the base — then set the cursor to the persisted
/// value `n`; the next successful `allocate` returns exactly `base.n.1`
/// and `base.n.2`. When `n` exceeds every restored index, as the
/// persistence discipline guarantees, the index handed out is at least
/// one past every index in use.
pub proof fn lemma_recovery_round_trip(
    states: Seq<SubnetAllocator>,
    entries: Seq<(Seq<char>, u16)>,
    cursor_set: SubnetAllocator,
    after: SubnetAllocator,
    n: u16,
    id: Seq<char>,
    gateway_ip: Seq<char>,
    vm_ip: Seq<char>,
)
    requires
        states.len() == entries.len() + 1,
        forall|i: int|
            0 <= i < entries.len() ==> spec_restore_step(
                states[i],
                #[trigger] states[i + 1],
                entries[i].0,
                entries[i].1,
            ),
        cursor_set.next_index == n,
        cursor_set.base_network@ == states[entries.len() as int].base_network@,
        spec_allocate_ok(cursor_set, after, id, gateway_ip, vm_ip),
    ensures
        gateway_ip == spec_gateway_ip(states[0].base_network@, n),
        vm_ip == spec_vm_ip(states[0].base_network@, n),
        forall|i: int|
            0 <= i < entries.len() && (#[trigger] entries[i]).1 < n ==> n >= entries[i].1 + 1,
{
    lemma_restore_run_constant(states, entries, entries.len() as int);
}

proof fn lemma_restore_run_constant(
    states: Seq<SubnetAllocator>,
    entries: Seq<(Seq<char>, u16)>,
    k: int,
)
    requires
        states.len() == entries.len() + 1,
        forall|i: int|
            0 <= i < entries.len() ==> spec_restore_step(
                states[i],
                #[trigger] states[i + 1],
                entries[i].0,
                entries[i].1,
            ),
        0 <= k <= entries.len(),
    ensures
        states[k].base_network@ == states[0].base_network@,
        states[k].next_index == states[0].next_index,
    decreases k,
{
    if k > 0 {
        lemma_restore_run_constant(states, entries, k - 1);
        let i = k - 1;
        assert(spec_restore_step(states[i], states[i + 1], entries[i].0, entries[i].1));
    }
}

// ---------------------------------------------------------------------------
// Host commands
// ---------------------------------------------------------------------------

/// One host command of a network or volume plan. `allow_failure` marks
/// best-effort steps (pre-deletes and rule cleanup) whose failure the
/// runner ignores.
#[derive(Debug)]
pub struct HostCmd {
    pub program: String,
    pub args: Vec<String>,
    pub allow_failure: bool,
}

impl Clone for HostCmd {
    /// Copies the command, preserving its abstract value.
    fn clone(&self) -> (r: Self)
        ensures
            r@ == self@,
    {
        HostCmd {
            program: self.program.clone(),
            args: crate::tenant::clone_strings(&self.args),
            allow_failure: self.allow_failure,
        }
    }
}

/// Abstract value of a host command.
pub struct CmdView {
    pub program: Seq<char>,
    pub args: Seq<Seq<char>>,
    pub allow_failure: bool,
}

impl View for HostCmd {
    type V = CmdView;

    open spec fn view(&self) -> CmdView {
        CmdView {
            program: self.program@,
            args: self.args.deep_view(),
            allow_failure: self.allow_failure,
        }
    }
}

impl HostCmd {
    fn new(program: &str, allow_failure: bool) -> (r: HostCmd)
        ensures
            r@.program == program@,
            r@.args =~= Seq::<Seq<char>>::empty(),
            r@.allow_failure == allow_failure,
    {
        let r = HostCmd { program: String::from_str(program), args: Vec::new(), allow_failure };
        proof {
            assert(r.args.deep_view() =~= Seq::<Seq<char>>::empty());
        }
        r
    }

    fn arg(&mut self, a: &str)
        ensures
            final(self)@.program == old(self)@.program,
            final(self)@.allow_failure == old(self)@.allow_failure,
            final(self)@.args =~= old(self)@.args.push(a@),
    {
        self.args.push(String::from_str(a));
        proof {
            assert(self.args.deep_view() =~= old(self).args.deep_view().push(a@));
        }
    }
}

// ---------------------------------------------------------------------------
// TAP creation plan
// ---------------------------------------------------------------------------

/// Position of the last dot of `s`.
pub open spec fn is_last_dot(s: Seq<char>, i: int) -> bool {
    0 <= i < s.len() && s[i] == '.' && forall|k: int| i < k < s.len() ==> s[k] != '.'
}

pub open spec fn has_dot(s: Seq<char>) -> bool {
    exists|i: int| 0 <= i < s.len() && s[i] == '.'
}

pub open spec fn spec_last_dot(s: Seq<char>) -> int {
    choose|i: int| is_last_dot(s, i)
}

/// The /30 network of a gateway address: everything before the last
/// dot, then `.0/30`.
pub open spec fn spec_subnet30(gw: Seq<char>) -> Seq<char> {
    gw.take(spec_last_dot(gw)) + ".0/30"@
}

/// Finds the last dot of `s`.
fn rfind_dot(s: &str) -> (r: Option<usize>)
    ensures
        match r {
            Some(i) => is_last_dot(s@, i as int) && spec_last_dot(s@) == i as int && has_dot(s@),
            None => !has_dot(s@),
        },
{
    let n = s.unicode_len();
    let mut i: usize = n;
    while i > 0
        invariant
            0 <= i <= n,
            n == s@.len(),
            forall|k: int| i <= k < n ==> s@[k] != '.',
        decreases i,
    {
        i = i - 1;
        if s.get_char(i) == '.' {
            proof {
                assert(is_last_dot(s@, i as int));
                let w = spec_last_dot(s@);
                assert(is_last_dot(s@, w));
                if w < i as int {
                    assert(s@[i as int] != '.');
                }
                if (i as int) < w {
                    assert(s@[w] != '.');
                }
            }
            return Some(i);
        }
    }
    None
}

/// The /30 network a gateway address lies in, used to install and to
/// clean up the NAT rule. `None` when the address has no dot.
pub fn subnet_for_gateway(gw: &str) -> (r: Option<String>)
    ensures
        match r {
            Some(s) => has_dot(gw@) && s@ == spec_subnet30(gw@),
            None => !has_dot(gw@),
        },
{
    match rfind_dot(gw) {
        Some(i) => {
            let mut s = String::from_str(gw.substring_char(0, i));
            s.append(".0/30");
            proof {
                assert(gw@.subrange(0, i as int) =~= gw@.take(i as int));
            }
            Some(s)
        },
        None => None,
    }
}

/// The commands that create a tenant's TAP device and plumb it to the
/// egress interface, in order: pre-delete any device of the same name
/// (failure tolerated), create the TAP, address and raise it, enable
/// forwarding, then install the masquerade and the two forward-accept
/// rules.
pub fn create_tap_device(tap_name: &str, gateway_ip: &str, host_iface: &str) -> (r: Vec<HostCmd>)
    requires
        has_dot(gateway_ip@),
    ensures
        r@.len() == 8,
        r@[0]@.program == "ip"@ && r@[0]@.allow_failure && r@[0]@.args =~= seq![
            "link"@,
            "del"@,
            tap_name@,
        ],
        r@[1]@.program == "ip"@ && !r@[1]@.allow_failure && r@[1]@.args =~= seq![
            "tuntap"@,
            "add"@,
            "dev"@,
            tap_name@,
            "mode"@,
            "tap"@,
        ],
        r@[2]@.program == "ip"@ && !r@[2]@.allow_failure && r@[2]@.args =~= seq![
            "addr"@,
            "add"@,
            gateway_ip@ + "/30"@,
            "dev"@,
            tap_name@,
        ],
        r@[3]@.program == "ip"@ && !r@[3]@.allow_failure && r@[3]@.args =~= seq![
            "link"@,
            "set"@,
            tap_name@,
            "up"@,
        ],
        r@[4]@.program == "sysctl"@ && !r@[4]@.allow_failure && r@[4]@.args =~= seq![
            "-w"@,
            "net.ipv4.ip_forward=1"@,
        ],
        r@[5]@.program == "iptables"@ && !r@[5]@.allow_failure && r@[5]@.args =~= seq![
            "-t"@,
            "nat"@,
            "-A"@,
            "POSTROUTING"@,
            "-s"@,
            spec_subnet30(gateway_ip@),
            "-o"@,
            host_iface@,
            "-j"@,
            "MASQUERADE"@,
        ],
        r@[6]@.program == "iptables"@ && !r@[6]@.allow_failure && r@[6]@.args =~= seq![
            "-A"@,
            "FORWARD"@,
            "-i"@,
            tap_name@,
            "-o"@,
            host_iface@,
            "-j"@,
            "ACCEPT"@,
        ],
        r@[7]@.program == "iptables"@ && !r@[7]@.allow_failure && r@[7]@.args =~= seq![
            "-A"@,
            "FORWARD"@,
            "-i"@,
            host_iface@,
            "-o"@,
            tap_name@,
            "-m"@,
            "state"@,
            "--state"@,
            "RELATED,ESTABLISHED"@,
            "-j"@,
            "ACCEPT"@,
        ],
{
    let subnet = match subnet_for_gateway(gateway_ip) {
        Some(s) => s,
        None => {
            proof {
                assert(false);
            }
            String::new()
        },
    };
    let mut gw30 = String::from_str(gateway_ip);
    gw30.append("/30");

    let mut r: Vec<HostCmd> = Vec::new();

    let mut c = HostCmd::new("ip", true);
    c.arg("link");
    c.arg("del");
    c.arg(tap_name);
    r.push(c);

    let mut c = HostCmd::new("ip", false);
    c.arg("tuntap");
    c.arg("add");
    c.arg("dev");
    c.arg(tap_name);
    c.arg("mode");
    c.arg("tap");
    r.push(c);

    let mut c = HostCmd::new("ip", false);
    c.arg("addr");
    c.arg("add");
    c.arg(gw30.as_str());
    c.arg("dev");
    c.arg(tap_name);
    r.push(c);

    let mut c = HostCmd::new("ip", false);
    c.arg("link");
    c.arg("set");
    c.arg(tap_name);
    c.arg("up");
    r.push(c);

    let mut c = HostCmd::new("sysctl", false);
    c.arg("-w");
    c.arg("net.ipv4.ip_forward=1");
    r.push(c);

    let mut c = HostCmd::new("iptables", false);
    c.arg("-t");
    c.arg("nat");
    c.arg("-A");
    c.arg("POSTROUTING");
    c.arg("-s");
    c.arg(subnet.as_str());
    c.arg("-o");
    c.arg(host_iface);
    c.arg("-j");
    c.arg("MASQUERADE");
    r.push(c);

    let mut c = HostCmd::new("iptables", false);
    c.arg("-A");
    c.arg("FORWARD");
    c.arg("-i");
    c.arg(tap_name);
    c.arg("-o");
    c.arg(host_iface);
    c.arg("-j");
    c.arg("ACCEPT");
    r.push(c);

    let mut c = HostCmd::new("iptables", false);
    c.arg("-A");
    c.arg("FORWARD");
    c.arg("-i");
    c.arg(host_iface);
    c.arg("-o");
    c.arg(tap_name);
    c.arg("-m");
    c.arg("state");
    c.arg("--state");
    c.arg("RELATED,ESTABLISHED");
    c.arg("-j");
    c.arg("ACCEPT");
    r.push(c);

    r
}

/// The commands that allocate and format a tenant data volume: a zeroed
/// file of `size_mb` MiB, made an ext4 filesystem with the fixed label.
pub fn create_data_volume(path: &str, size_mb: u32) -> (r: Vec<HostCmd>)
    ensures
        r@.len() == 2,
        r@[0]@.program == "dd"@ && !r@[0]@.allow_failure && r@[0]@.args =~= seq![
            "if=/dev/zero"@,
            "of="@ + path@,
            "bs=1M"@,
            "count="@ + dec_str(size_mb as nat),
        ],
        r@[1]@.program == "mkfs.ext4"@ && !r@[1]@.allow_failure && r@[1]@.args =~= seq![
            "-F"@,
            "-L"@,
            "tenant-data"@,
            path@,
        ],
{
    let mut of_arg = String::from_str("of=");
    of_arg.append(path);
    let mut count_arg = String::from_str("count=");
    let digits = crate::strutil::u64_to_string(size_mb as u64);
    count_arg.append(digits.as_str());

    let mut r: Vec<HostCmd> = Vec::new();

    let mut c = HostCmd::new("dd", false);
    c.arg("if=/dev/zero");
    c.arg(of_arg.as_str());
    c.arg("bs=1M");
    c.arg(count_arg.as_str());
    r.push(c);

    let mut c = HostCmd::new("mkfs.ext4", false);
    c.arg("-F");
    c.arg("-L");
    c.arg("tenant-data");
    c.arg(path);
    r.push(c);

    r
}

// ---------------------------------------------------------------------------
// Egress interface detection
// ---------------------------------------------------------------------------

/// A token that looks like a common NIC name.
pub open spec fn has_nic_prefix(t: Seq<char>) -> bool {
    "eth"@.is_prefix_of(t) || "ens"@.is_prefix_of(t) || "enp"@.is_prefix_of(t)
}

/// The first NIC-named token is at position `i`.
pub open spec fn nic_first_at(toks: Seq<Seq<char>>, i: int) -> bool {
    0 <= i < toks.len() && has_nic_prefix(toks[i]) && forall|k: int|
        0 <= k < i ==> !has_nic_prefix(#[trigger] toks[k])
}

/// A `dev <name>` pair at token position `i`.
pub open spec fn dev_pair_at(toks: Seq<Seq<char>>, i: int) -> bool {
    0 <= i && i + 1 < toks.len() && toks[i] == "dev"@
}

/// The first `dev` pair is at position `i`.
pub open spec fn dev_first_at(toks: Seq<Seq<char>>, i: int) -> bool {
    dev_pair_at(toks, i) && forall|k: int| 0 <= k < i ==> !dev_pair_at(toks, k)
}

/// The egress interface a route description denotes: the first
/// NIC-named token, else the token after the first `dev`, else none.
pub open spec fn spec_host_interface(toks: Seq<Seq<char>>) -> Option<Seq<char>> {
    if exists|i: int| #[trigger] nic_first_at(toks, i) {
        Some(toks[choose|i: int| #[trigger] nic_first_at(toks, i)])
    } else if exists|i: int| #[trigger] dev_first_at(toks, i) {
        Some(toks[(choose|i: int| #[trigger] dev_first_at(toks, i)) + 1])
    } else {
        None
    }
}

proof fn lemma_host_iface_nic(toks: Seq<Seq<char>>, i: int)
    requires
        nic_first_at(toks, i),
    ensures
        spec_host_interface(toks) == Some(toks[i]),
{
    let w = choose|i: int| #[trigger] nic_first_at(toks, i);
    assert(nic_first_at(toks, w));
    if w < i {
        assert(!has_nic_prefix(toks[w]));
    }
    if i < w {
        assert(!has_nic_prefix(toks[i]));
    }
}

proof fn lemma_host_iface_dev(toks: Seq<Seq<char>>, i: int)
    requires
        forall|k: int| 0 <= k < toks.len() ==> !has_nic_prefix(#[trigger] toks[k]),
        dev_first_at(toks, i),
    ensures
        spec_host_interface(toks) == Some(toks[i + 1]),
{
    assert forall|k: int| !(#[trigger] nic_first_at(toks, k)) by {
        if 0 <= k < toks.len() {
            assert(!has_nic_prefix(toks[k]));
        }
    }
    let w = choose|i: int| #[trigger] dev_first_at(toks, i);
    assert(dev_first_at(toks, w));
    if w < i {
        assert(!dev_pair_at(toks, w));
    }
    if i < w {
        assert(!dev_pair_at(toks, i));
    }
}

proof fn lemma_host_iface_none(toks: Seq<Seq<char>>)
    requires
        forall|k: int| 0 <= k < toks.len() ==> !has_nic_prefix(#[trigger] toks[k]),
        forall|k: int| !(#[trigger] dev_pair_at(toks, k)),
    ensures
        spec_host_interface(toks) is None,
{
    assert forall|k: int| !(#[trigger] nic_first_at(toks, k)) by {
        if 0 <= k < toks.len() {
            assert(!has_nic_prefix(toks[k]));
        }
    }
    assert forall|k: int| !(#[trigger] dev_first_at(toks, k)) by {
        assert(!dev_pair_at(toks, k));
    }
}

/// Picks the egress interface out of the kernel's route description:
/// the first token with a common NIC prefix, else the token after the
/// first `dev`, else `HostIfaceDetection`.
pub fn detect_host_interface(route_output: &str) -> (r: Result<String, CoreError>)
    ensures
        match r {
            Ok(s) => spec_host_interface(crate::strutil::tokens_spec(route_output@)) == Some(s@),
            Err(e) => e matches CoreError::HostIfaceDetection && spec_host_interface(
                crate::strutil::tokens_spec(route_output@),
            ) is None,
        },
{
    let toks = crate::strutil::tokenize(route_output);
    let ghost tv = crate::strutil::tokens_spec(route_output@);
    let n = toks.len();
    let mut i: usize = 0;
    while i < n
        invariant
            0 <= i <= n,
            n == toks@.len(),
            toks@.len() == tv.len(),
            tv == crate::strutil::tokens_spec(route_output@),
            forall|k: int| 0 <= k < tv.len() ==> #[trigger] toks@[k]@ == tv[k],
            forall|k: int| 0 <= k < i ==> !has_nic_prefix(#[trigger] tv[k]),
        decreases n - i,
    {
        let t = toks[i].as_str();
        if crate::strutil::starts_with(t, "eth") || crate::strutil::starts_with(t, "ens")
            || crate::strutil::starts_with(t, "enp") {
            proof {
                assert(nic_first_at(tv, i as int));
                lemma_host_iface_nic(tv, i as int);
            }
            return Ok(toks[i].clone());
        }
        proof {
            assert(!has_nic_prefix(tv[i as int]));
        }
        i = i + 1;
    }
    let mut j: usize = 0;
    while j < n
        invariant
            0 <= j <= n,
            n == toks@.len(),
            toks@.len() == tv.len(),
            tv == crate::strutil::tokens_spec(route_output@),
            forall|k: int| 0 <= k < tv.len() ==> #[trigger] toks@[k]@ == tv[k],
            forall|k: int| 0 <= k < j ==> !dev_pair_at(tv, k),
            forall|k: int| 0 <= k < tv.len() ==> !has_nic_prefix(#[trigger] tv[k]),
        decreases n - j,
    {
        if j + 1 < n && crate::strutil::str_eq(toks[j].as_str(), "dev") {
            proof {
                assert(dev_first_at(tv, j as int));
                lemma_host_iface_dev(tv, j as int);
            }
            return Ok(toks[j + 1].clone());
        }
        proof {
            assert(!dev_pair_at(tv, j as int));
        }
        j = j + 1;
    }
    proof {
        assert forall|k: int| !(#[trigger] dev_pair_at(tv, k)) by {
            if 0 <= k < tv.len() {
                assert(!dev_pair_at(tv, k));
            }
        }
        lemma_host_iface_none(tv);
    }
    Err(CoreError::HostIfaceDetection)
}

// ---------------------------------------------------------------------------
// TAP deletion plan
// ---------------------------------------------------------------------------

/// An `inet <addr>` pair at token position `i`.
pub open spec fn inet_pair_at(toks: Seq<Seq<char>>, i: int) -> bool {
    0 <= i && i + 1 < toks.len() && toks[i] == "inet"@
}

/// The first `inet` pair is at position `i`.
pub open spec fn inet_first_at(toks: Seq<Seq<char>>, i: int) -> bool {
    inet_pair_at(toks, i) && forall|k: int| 0 <= k < i ==> !inet_pair_at(toks, k)
}

/// The gateway address an interface description reports: the field
/// before the `/` of the address after the first `inet` token.
pub open spec fn spec_tap_gateway(addr_output: Seq<char>) -> Option<Seq<char>> {
    let toks = crate::strutil::tokens_spec(addr_output);
    if exists|i: int| #[trigger] inet_first_at(toks, i) {
        Some(split_spec(toks[(choose|i: int| #[trigger] inet_first_at(toks, i)) + 1], '/')[0])
    } else {
        None
    }
}

proof fn lemma_tap_gateway_at(addr_output: Seq<char>, i: int)
    requires
        inet_first_at(crate::strutil::tokens_spec(addr_output), i),
    ensures
        spec_tap_gateway(addr_output) == Some(
            split_spec(crate::strutil::tokens_spec(addr_output)[i + 1], '/')[0],
        ),
{
    let toks = crate::strutil::tokens_spec(addr_output);
    let w = choose|i: int| #[trigger] inet_first_at(toks, i);
    assert(inet_first_at(toks, w));
    if w < i {
        assert(!inet_pair_at(toks, w));
    }
    if i < w {
        assert(!inet_pair_at(toks, i));
    }
}

proof fn lemma_tap_gateway_none(addr_output: Seq<char>)
    requires
        forall|k: int| !(#[trigger] inet_pair_at(crate::strutil::tokens_spec(addr_output), k)),
    ensures
        spec_tap_gateway(addr_output) is None,
{
    let toks = crate::strutil::tokens_spec(addr_output);
    assert forall|k: int| !(#[trigger] inet_first_at(toks, k)) by {
        assert(!inet_pair_at(toks, k));
    }
}

/// Reads the /30 gateway address out of `ip -4 addr show` output.
pub fn get_tap_gateway_ip(addr_output: &str) -> (r: Option<String>)
    ensures
        match r {
            Some(s) => spec_tap_gateway(addr_output@) == Some(s@),
            None => spec_tap_gateway(addr_output@) is None,
        },
{
    let toks = crate::strutil::tokenize(addr_output);
    let ghost tv = crate::strutil::tokens_spec(addr_output@);
    let n = toks.len();
    let mut i: usize = 0;
    while i < n
        invariant
            0 <= i <= n,
            n == toks@.len(),
            toks@.len() == tv.len(),
            tv == crate::strutil::tokens_spec(addr_output@),
            forall|k: int| 0 <= k < tv.len() ==> #[trigger] toks@[k]@ == tv[k],
            forall|k: int| 0 <= k < i ==> !inet_pair_at(tv, k),
        decreases n - i,
    {
        if i + 1 < n && crate::strutil::str_eq(toks[i].as_str(), "inet") {
            let fields = crate::strutil::split_char(toks[i + 1].as_str(), '/');
            proof {
                crate::strutil::lemma_split_len(tv[i as int + 1], '/');
                assert(inet_first_at(tv, i as int));
                lemma_tap_gateway_at(addr_output@, i as int);
                assert(fields@[0]@ == split_spec(tv[i as int + 1], '/')[0]);
            }
            return Some(fields[0].clone());
        }
        proof {
            assert(!inet_pair_at(tv, i as int));
        }
        i = i + 1;
    }
    proof {
        assert forall|k: int| !(#[trigger] inet_pair_at(tv, k)) by {
            if 0 <= k < tv.len() {
                assert(!inet_pair_at(tv, k));
            }
        }
        lemma_tap_gateway_none(addr_output@);
    }
    None
}

/// A rule line with its leading `-A ` turned into `-D `, ready to be
/// replayed as a deletion.
pub open spec fn spec_rule_delete(line: Seq<char>) -> Seq<char> {
    match crate::strutil::first_match(line, "-A "@) {
        Some(at) => line.take(at) + "-D "@ + line.skip(at + 3),
        None => line,
    }
}

/// Whether a rule line mentions the needle anywhere.
pub open spec fn line_mentions(line: Seq<char>, needle: Seq<char>) -> bool {
    exists|j: int| crate::strutil::matches_at(line, needle, j)
}

/// The deletion command for one rule line.
pub open spec fn spec_rule_cmd(line: Seq<char>, nat_table: bool) -> CmdView {
    CmdView {
        program: "iptables"@,
        args: (if nat_table {
            seq!["-t"@, "nat"@]
        } else {
            Seq::empty()
        }) + crate::strutil::tokens_spec(spec_rule_delete(line)),
        allow_failure: true,
    }
}

/// The deletion commands for every listed rule that mentions the
/// needle, in listing order.
pub open spec fn spec_rule_cmds(lines: Seq<Seq<char>>, needle: Seq<char>, nat_table: bool) -> Seq<
    CmdView,
> {
    lines.filter(|l: Seq<char>| line_mentions(l, needle)).map_values(
        |l: Seq<char>| spec_rule_cmd(l, nat_table),
    )
}

proof fn lemma_rule_cmds_push(lines: Seq<Seq<char>>, l: Seq<char>, needle: Seq<char>, nat_table: bool)
    ensures
        line_mentions(l, needle) ==> spec_rule_cmds(lines.push(l), needle, nat_table) =~= spec_rule_cmds(lines, needle, nat_table).push(spec_rule_cmd(l, nat_table)),
        !line_mentions(l, needle) ==> spec_rule_cmds(lines.push(l), needle, nat_table) =~= spec_rule_cmds(lines, needle, nat_table),
{
    reveal(Seq::filter);
    let pred = |x: Seq<char>| line_mentions(x, needle);
    assert(lines.push(l).drop_last() =~= lines);
    assert(lines.push(l).last() == l);
    assert(lines.push(l).filter(pred) == if pred(l) {
        lines.filter(pred).push(l)
    } else {
        lines.filter(pred)
    });
    if pred(l) {
        assert(lines.filter(pred).push(l).map_values(|x: Seq<char>| spec_rule_cmd(x, nat_table))
            =~= lines.filter(pred).map_values(|x: Seq<char>| spec_rule_cmd(x, nat_table)).push(
            spec_rule_cmd(l, nat_table),
        ));
    }
}

/// The deletion commands for every rule in `listing` that mentions
/// `needle`: each matching line is replayed with `-A` turned into `-D`,
/// under `-t nat` when `nat_table` is set. All are best-effort.
#[verifier::rlimit(60)]
pub fn rule_delete_cmds(listing: &str, needle: &str, nat_table: bool) -> (r: Vec<HostCmd>)
    ensures
        r@.len() == spec_rule_cmds(split_spec(listing@, '\n'), needle@, nat_table).len(),
        forall|i: int|
            0 <= i < r@.len() ==> {
                let c = spec_rule_cmds(split_spec(listing@, '\n'), needle@, nat_table)[i];
                (#[trigger] r@[i]@).program == c.program && r@[i]@.args == c.args && r@[i]@.allow_failure
                    == c.allow_failure
            },
{
    let lines = crate::strutil::split_char(listing, '\n');
    let ghost lv = split_spec(listing@, '\n');
    let mut r: Vec<HostCmd> = Vec::new();
    let mut i: usize = 0;
    proof {
        assert(lv.take(0) =~= Seq::<Seq<char>>::empty());
        reveal(Seq::filter);
        assert(spec_rule_cmds(lv.take(0), needle@, nat_table) =~= Seq::<CmdView>::empty());
    }
    while i < lines.len()
        invariant
            0 <= i <= lines@.len(),
            lines@.len() == lv.len(),
            forall|k: int| 0 <= k < lv.len() ==> #[trigger] lines@[k]@ == lv[k],
            r@.len() == spec_rule_cmds(lv.take(i as int), needle@, nat_table).len(),
            forall|k: int|
                0 <= k < r@.len() ==> {
                    let c = spec_rule_cmds(lv.take(i as int), needle@, nat_table)[k];
                    (#[trigger] r@[k]@).program == c.program && r@[k]@.args == c.args
                        && r@[k]@.allow_failure == c.allow_failure
                },
        decreases lines@.len() - i,
    {
        let ghost before = lv.take(i as int);
        let line = lines[i].as_str();
        if crate::strutil::contains_sub(line, needle) {
            let rewritten = crate::strutil::replace_first(line, "-A ", "-D ");
            let toks = crate::strutil::tokenize(rewritten.as_str());
            let mut c = HostCmd::new("iptables", true);
            if nat_table {
                c.arg("-t");
                c.arg("nat");
            }
            let mut k: usize = 0;
            while k < toks.len()
                invariant
                    0 <= k <= toks@.len(),
                    c@.program == "iptables"@,
                    c@.allow_failure,
                    forall|m: int|
                        0 <= m < toks@.len() ==> #[trigger] toks@[m]@ == crate::strutil::tokens_spec(
                            rewritten@,
                        )[m],
                    toks@.len() == crate::strutil::tokens_spec(rewritten@).len(),
                    c@.args =~= (if nat_table {
                        seq!["-t"@, "nat"@]
                    } else {
                        Seq::<Seq<char>>::empty()
                    }) + crate::strutil::tokens_spec(rewritten@).take(k as int),
                decreases toks@.len() - k,
            {
                let ghost args_before = c@.args;
                c.arg(toks[k].as_str());
                k = k + 1;
                proof {
                    let full = crate::strutil::tokens_spec(rewritten@);
                    assert(full.take(k as int) =~= full.take(k - 1).push(full[k - 1]));
                    assert(c@.args =~= args_before.push(full[k - 1]));
                }
            }
            proof {
                let full = crate::strutil::tokens_spec(rewritten@);
                assert(full.take(full.len() as int) =~= full);
                reveal_strlit("-A ");
                reveal_strlit("-D ");
                assert(rewritten@ == spec_rule_delete(lv[i as int]));
                assert(c@.args =~= spec_rule_cmd(lv[i as int], nat_table).args);
            }
            r.push(c);
        }
        i = i + 1;
        proof {
            assert(lv.take(i as int) =~= before.push(lv[i - 1]));
            lemma_rule_cmds_push(before, lv[i - 1], needle@, nat_table);
            if line_mentions(lv[i as int - 1], needle@) {
                assert(r@[r@.len() - 1]@.args == spec_rule_cmd(lv[i as int - 1], nat_table).args);
            }
        }
    }
    proof {
        assert(lv.take(lv.len() as int) =~= lv);
    }
    r
}

/// The commands that tear a tenant's TAP device down, given the current
/// interface description (`ip -4 addr show <tap>`), the FORWARD rule
/// listing and the NAT POSTROUTING rule listing: delete every FORWARD
/// rule naming the TAP, then — when a gateway address was recovered and
/// carries a dot — every NAT rule naming its /30, then the device
/// itself. Only the final device deletion may fail the plan.
pub fn delete_tap_device(
    tap_name: &str,
    addr_output: &str,
    forward_rules: &str,
    nat_rules: &str,
) -> (r: Vec<HostCmd>)
    ensures
        ({
            let fwd = spec_rule_cmds(split_spec(forward_rules@, '\n'), tap_name@, false);
            let natc = match spec_tap_gateway(addr_output@) {
                Some(gw) => {
                    if has_dot(gw) {
                        spec_rule_cmds(split_spec(nat_rules@, '\n'), spec_subnet30(gw), true)
                    } else {
                        Seq::<CmdView>::empty()
                    }
                },
                None => Seq::<CmdView>::empty(),
            };
            &&& r@.len() == fwd.len() + natc.len() + 1
            &&& (forall|i: int|
                0 <= i < fwd.len() ==> {
                    (#[trigger] r@[i]@).program == fwd[i].program && r@[i]@.args == fwd[i].args
                        && r@[i]@.allow_failure == fwd[i].allow_failure
                })
            &&& (forall|i: int|
                0 <= i < natc.len() ==> {
                    (#[trigger] r@[fwd.len() + i]@).program == natc[i].program && r@[fwd.len()
                        + i]@.args == natc[i].args && r@[fwd.len() + i]@.allow_failure == natc[i].allow_failure
                })
            &&& r@[r@.len() - 1]@.program == "ip"@
            &&& r@[r@.len() - 1]@.args =~= seq!["link"@, "del"@, tap_name@]
            &&& !r@[r@.len() - 1]@.allow_failure
        }),
{
    let mut r = rule_delete_cmds(forward_rules, tap_name, false);
    let ghost base = r@;
    match get_tap_gateway_ip(addr_output) {
        Some(gw) => {
            match subnet_for_gateway(gw.as_str()) {
                Some(subnet) => {
                    let natc = rule_delete_cmds(nat_rules, subnet.as_str(), true);
                    let mut k: usize = 0;
                    while k < natc.len()
                        invariant
                            0 <= k <= natc@.len(),
                            r@.len() == base.len() + k,
                            forall|m: int| 0 <= m < base.len() ==> #[trigger] r@[m] == base[m],
                            forall|m: int|
                                0 <= m < k ==> (#[trigger] r@[base.len() + m])@ == natc@[m]@,
                        decreases natc@.len() - k,
                    {
                        r.push(natc[k].clone());
                        k = k + 1;
                    }
                },
                None => {},
            }
        },
        None => {},
    }
    let mut c = HostCmd::new("ip", false);
    c.arg("link");
    c.arg("del");
    c.arg(tap_name);
    r.push(c);
    r
}

// ---------------------------------------------------------------------------
// Guest address parsing (recovery)
// ---------------------------------------------------------------------------

/// The subnet index encoded in a guest address `a.b.index.d`: present
/// exactly when the address has four dot-separated fields and the third
/// is a decimal number fitting a `u16`.
pub open spec fn spec_subnet_index(vm_ip: Seq<char>) -> Option<u16> {
    let parts = split_spec(vm_ip, '.');
    if parts.len() == 4 && parts[2].len() > 0 && all_digits(parts[2]) && dec_val(parts[2])
        <= u16::MAX {
        Some(dec_val(parts[2]) as u16)
    } else {
        None
    }
}

/// Extracts the subnet index from a guest address like `172.16.7.2`.
pub fn parse_subnet_index(vm_ip: &str) -> (r: Option<u16>)
    ensures
        r == spec_subnet_index(vm_ip@),
{
    let parts = crate::strutil::split_char(vm_ip, '.');
    if parts.len() == 4 {
        crate::strutil::parse_u16(parts[2].as_str())
    } else {
        None
    }
}

} // verus!
