use vstd::prelude::*;
use vstd::string::*;

use crate::error::VmError;
use crate::text::{contains_text, decimal, decimal_text, holds_text};

verus! {

/// Lowest console port handed out.
pub const CONSOLE_PORT_BASE: u16 = 12001;

/// Distance between two console ports handed out.
pub const CONSOLE_PORT_STRIDE: u16 = 2;

/// Highest console port accepted.
pub const CONSOLE_PORT_LIMIT: u16 = 13000;

/// Number of guest addresses in the enumeration.
pub const GUEST_ADDR_COUNT: u16 = 2804;

/// A port that the allocator may hand out.
pub open spec fn is_console_port(p: int) -> bool {
    CONSOLE_PORT_BASE <= p <= CONSOLE_PORT_LIMIT && (p - CONSOLE_PORT_BASE) % 2 == 0
}

/// The first console port at or above `p` (on the stride) that `used` does not hold.
pub open spec fn first_free_port_from(used: Set<u16>, p: int) -> Option<u16>
    decreases CONSOLE_PORT_LIMIT + 2 - p,
{
    if p > CONSOLE_PORT_LIMIT || p < 0 {
        None
    } else if !used.contains(p as u16) {
        Some(p as u16)
    } else {
        first_free_port_from(used, p + CONSOLE_PORT_STRIDE)
    }
}

/// The console port that the allocator picks when `used` are taken.
pub open spec fn first_free_port(used: Set<u16>) -> Option<u16> {
    first_free_port_from(used, CONSOLE_PORT_BASE as int)
}

fn contains_port(v: &Vec<u16>, x: u16) -> (r: bool)
    ensures
        r == v@.contains(x),
{
    let mut i: usize = 0;
    while i < v.len()
        invariant
            i <= v@.len(),
            forall|j: int| 0 <= j < i ==> v@[j] != x,
        decreases v@.len() - i,
    {
        if v[i] == x {
            return true;
        }
        i += 1;
    }
    false
}

/// Picks the lowest free console port: 12001, 12003, ... up to 13000, skipping those in `used`.
pub fn next_vnc_port(used: &Vec<u16>) -> (r: Result<u16, VmError>)
    ensures
        match first_free_port(used@.to_set()) {
            Some(p) => r == Ok::<u16, VmError>(p),
            None => r matches Err(VmError::ResourceExhausted),
        },
{
    let ghost s = used@.to_set();
    let mut port: u16 = CONSOLE_PORT_BASE;
    while port <= CONSOLE_PORT_LIMIT
        invariant
            CONSOLE_PORT_BASE <= port <= CONSOLE_PORT_LIMIT + CONSOLE_PORT_STRIDE,
            s == used@.to_set(),
            first_free_port(s) == first_free_port_from(s, port as int),
        decreases CONSOLE_PORT_LIMIT + CONSOLE_PORT_STRIDE - port,
    {
        if !contains_port(used, port) {
            assert(!s.contains(port));
            return Ok(port);
        }
        assert(s.contains(port));
        port = port + CONSOLE_PORT_STRIDE;
    }
    Err(VmError::ResourceExhausted)
}

/// What `first_free_port` picks: a free console port below which every console port is taken;
/// or nothing, when every console port is taken.
pub proof fn lemma_first_free_port(used: Set<u16>)
    ensures
        match first_free_port(used) {
            Some(p) => is_console_port(p as int) && !used.contains(p) && forall|q: int|
                is_console_port(q) && q < p ==> used.contains(q as u16),
            None => forall|q: int| is_console_port(q) ==> used.contains(q as u16),
        },
{
    lemma_first_free_port_from(used, CONSOLE_PORT_BASE as int);
}

proof fn lemma_first_free_port_from(used: Set<u16>, p: int)
    requires
        p >= CONSOLE_PORT_BASE,
        (p - CONSOLE_PORT_BASE) % 2 == 0,
    ensures
        match first_free_port_from(used, p) {
            Some(r) => is_console_port(r as int) && !used.contains(r) && r >= p && forall|q: int|
                is_console_port(q) && p <= q < r ==> used.contains(q as u16),
            None => forall|q: int| is_console_port(q) && q >= p ==> used.contains(q as u16),
        },
    decreases CONSOLE_PORT_LIMIT + 2 - p,
{
    if p <= CONSOLE_PORT_LIMIT && used.contains(p as u16) {
        lemma_first_free_port_from(used, p + CONSOLE_PORT_STRIDE);
        assert forall|q: int| is_console_port(q) && p <= q < p + 2 implies used.contains(
            q as u16,
        ) by {
            assert(q == p);
        }
    }
}

/// The allocator is a function of the set of taken ports: two snapshots that hold the same
/// ports, in any order and with any repetition, get the same answer.
pub proof fn lemma_port_allocation_deterministic(a: Seq<u16>, b: Seq<u16>)
    requires
        a.to_set() == b.to_set(),
    ensures
        first_free_port(a.to_set()) == first_free_port(b.to_set()),
{
}

/// The two varying octets of the `k`-th guest address: `10.0.1.10` up to `10.0.254.10`,
/// then `10.m.0.10` up to `10.m.254.10` for `m` from 1 to 10.
pub open spec fn guest_addr_octets(k: int) -> (int, int) {
    if k < 254 {
        (0, k + 1)
    } else {
        ((k - 254) / 255 + 1, (k - 254) % 255)
    }
}

/// The text of the `k`-th guest address.
pub open spec fn guest_addr_text(k: int) -> Seq<char> {
    let (major, minor) = guest_addr_octets(k);
    "10."@ + decimal_text(major as nat) + "."@ + decimal_text(minor as nat) + ".10"@
}

/// The index of the first guest address at or after `k` that `used` does not hold.
pub open spec fn first_free_addr_from(used: Seq<String>, k: int) -> Option<int>
    decreases GUEST_ADDR_COUNT - k,
{
    if k >= GUEST_ADDR_COUNT || k < 0 {
        None
    } else if !holds_text(used, guest_addr_text(k)) {
        Some(k)
    } else {
        first_free_addr_from(used, k + 1)
    }
}

pub open spec fn first_free_addr(used: Seq<String>) -> Option<int> {
    first_free_addr_from(used, 0)
}

/// Builds the text of the `k`-th guest address.
pub fn guest_addr(k: u16) -> (r: String)
    requires
        k < GUEST_ADDR_COUNT,
    ensures
        r@ == guest_addr_text(k as int),
{
    let (major, minor): (u16, u16) = if k < 254 {
        (0, k + 1)
    } else {
        ((k - 254) / 255 + 1, (k - 254) % 255)
    };
    let mut out = String::from_str("10.");
    out.append(decimal(major as u64).as_str());
    out.append(".");
    out.append(decimal(minor as u64).as_str());
    out.append(".10");
    out
}

/// Picks the first guest address of the enumeration `10.0.1.10`, `10.0.2.10`, ...,
/// `10.10.254.10` that `used` does not hold.
pub fn next_ipv4(used: &Vec<String>) -> (r: Result<String, VmError>)
    ensures
        match first_free_addr(used@) {
            Some(k) => r matches Ok(a) && a@ == guest_addr_text(k),
            None => r matches Err(VmError::ResourceExhausted),
        },
{
    let mut k: u16 = 0;
    while k < GUEST_ADDR_COUNT
        invariant
            k <= GUEST_ADDR_COUNT,
            first_free_addr(used@) == first_free_addr_from(used@, k as int),
        decreases GUEST_ADDR_COUNT - k,
    {
        let candidate = guest_addr(k);
        if !contains_text(used, &candidate) {
            return Ok(candidate);
        }
        k += 1;
    }
    Err(VmError::ResourceExhausted)
}

/// What `first_free_addr` picks: a free address all of whose predecessors are taken; or
/// nothing, when the whole enumeration is taken.
pub proof fn lemma_first_free_addr(used: Seq<String>)
    ensures
        match first_free_addr(used) {
            Some(k) => 0 <= k < GUEST_ADDR_COUNT && !holds_text(used, guest_addr_text(k)) && forall|
                j: int,
            | 0 <= j < k ==> holds_text(used, #[trigger] guest_addr_text(j)),
            None => forall|j: int|
                0 <= j < GUEST_ADDR_COUNT ==> holds_text(used, #[trigger] guest_addr_text(j)),
        },
{
    lemma_first_free_addr_from(used, 0);
}

proof fn lemma_first_free_addr_from(used: Seq<String>, k: int)
    requires
        k >= 0,
    ensures
        match first_free_addr_from(used, k) {
            Some(r) => k <= r < GUEST_ADDR_COUNT && !holds_text(used, guest_addr_text(r)) && forall|
                j: int,
            | k <= j < r ==> holds_text(used, #[trigger] guest_addr_text(j)),
            None => forall|j: int|
                k <= j < GUEST_ADDR_COUNT ==> holds_text(used, #[trigger] guest_addr_text(j)),
        },
    decreases GUEST_ADDR_COUNT - k,
{
    if k < GUEST_ADDR_COUNT && holds_text(used, guest_addr_text(k)) {
        lemma_first_free_addr_from(used, k + 1);
    }
}

/// The allocations that one stored VM configuration holds, as far as they are set.
pub struct StoredAllocation {
    pub vnc_port: Option<u16>,
    pub local_ipv4: Option<String>,
}

/// Whether the port and the address that were just picked from an earlier snapshot (`None`
/// for one that was not picked) are still free in a fresh one, as is checked just before a
/// new configuration is written.
pub fn still_free(port: Option<u16>, ip: Option<&String>, used_ports: &Vec<u16>, used_ips: &Vec<String>) -> (r:
    bool)
    ensures
        r == ((port matches Some(p) ==> !used_ports@.contains(p)) && (ip matches Some(a)
            ==> !holds_text(used_ips@, a@))),
{
    let port_ok = match port {
        Some(p) => !contains_port(used_ports, p),
        None => true,
    };
    let ip_ok = match ip {
        Some(a) => !contains_text(used_ips, a),
        None => true,
    };
    port_ok && ip_ok
}

/// How many times an allocation is tried before a lost race is given up.
pub const ALLOCATION_ATTEMPTS: u32 = 3;

/// What to do after an allocation attempt has been checked against a fresh snapshot.
#[derive(Debug, Clone, Copy, PartialEq, Eq, Structural)]
pub enum AllocationStep {
    /// The picks are still free: write the configuration.
    Accept,
    /// Another request took a pick meanwhile: allocate again from a new snapshot.
    Retry,
    /// The race was lost on every attempt.
    GiveUp,
}

/// Decides after attempt number `attempt` (counting from 0) whose picks are `free` or not:
/// accept free picks, retry while attempts remain, and give up (as resource exhaustion)
/// after the last one.
pub fn allocation_step(attempt: u32, free: bool) -> (r: AllocationStep)
    ensures
        free ==> r == AllocationStep::Accept,
        !free && attempt + 1 < ALLOCATION_ATTEMPTS ==> r == AllocationStep::Retry,
        !free && attempt + 1 >= ALLOCATION_ATTEMPTS ==> r == AllocationStep::GiveUp,
{
    if free {
        AllocationStep::Accept
    } else if attempt < ALLOCATION_ATTEMPTS - 1 {
        AllocationStep::Retry
    } else {
        AllocationStep::GiveUp
    }
}

/// The error that giving up an allocation reports.
pub fn give_up_error() -> (r: VmError)
    ensures
        r matches VmError::ResourceExhausted,
{
    VmError::ResourceExhausted
}

/// The console ports that the stored configurations hold, in order.
pub fn used_vnc_ports(stored: &Vec<StoredAllocation>) -> (r: Vec<u16>)
    ensures
        forall|p: u16| r@.contains(p) <==> exists|i: int|
            0 <= i < stored@.len() && (#[trigger] stored@[i]).vnc_port == Some(p),
{
    let mut ports: Vec<u16> = Vec::new();
    let mut i: usize = 0;
    while i < stored.len()
        invariant
            i <= stored@.len(),
            forall|p: u16| ports@.contains(p) <==> exists|j: int|
                0 <= j < i && (#[trigger] stored@[j]).vnc_port == Some(p),
        decreases stored@.len() - i,
    {
        let ghost before = ports@;
        match stored[i].vnc_port {
            Some(p) => {
                ports.push(p);
                assert(ports@.last() == p);
            },
            None => {},
        }
        assert forall|p: u16| (exists|j: int|
            0 <= j < i + 1 && (#[trigger] stored@[j]).vnc_port == Some(p)) implies ports@.contains(p) by {
            {
                let j = choose|j: int| 0 <= j < i + 1 && (#[trigger] stored@[j]).vnc_port == Some(p);
                if j < i {
                    assert(before.contains(p));
                    let k = choose|k: int| 0 <= k < before.len() && before[k] == p;
                    assert(ports@[k] == p);
                } else {
                    assert(ports@[ports@.len() - 1] == p);
                }
            }
        }
        assert forall|p: u16| ports@.contains(p) implies exists|j: int|
            0 <= j < i + 1 && (#[trigger] stored@[j]).vnc_port == Some(p) by {
            let k = choose|k: int| 0 <= k < ports@.len() && ports@[k] == p;
            if k < before.len() {
                assert(before[k] == p);
                assert(before.contains(p));
            } else {
                assert(stored@[i as int].vnc_port == Some(p));
            }
        }
        i += 1;
    }
    ports
}

pub open spec fn stored_addr_is(st: StoredAllocation, a: Seq<char>) -> bool {
    match st.local_ipv4 {
        Some(s) => s@ == a,
        None => false,
    }
}

/// The guest addresses that the stored configurations hold, in order.
pub fn used_ipv4s(stored: &Vec<StoredAllocation>) -> (r: Vec<String>)
    ensures
        forall|a: Seq<char>| holds_text(r@, a) <==> exists|i: int|
            0 <= i < stored@.len() && stored_addr_is(#[trigger] stored@[i], a),
{
    let mut ips: Vec<String> = Vec::new();
    let mut i: usize = 0;
    while i < stored.len()
        invariant
            i <= stored@.len(),
            forall|a: Seq<char>| holds_text(ips@, a) <==> exists|j: int|
                0 <= j < i && stored_addr_is(#[trigger] stored@[j], a),
        decreases stored@.len() - i,
    {
        let ghost before = ips@;
        match &stored[i].local_ipv4 {
            Some(s) => {
                ips.push(s.clone());
            },
            None => {},
        }
        assert forall|a: Seq<char>| (exists|j: int|
            0 <= j < i + 1 && stored_addr_is(#[trigger] stored@[j], a)) implies holds_text(ips@, a) by {
            {
                let j = choose|j: int| 0 <= j < i + 1 && stored_addr_is(#[trigger] stored@[j], a);
                if j < i {
                    assert(holds_text(before, a));
                    let k = choose|k: int| 0 <= k < before.len() && (#[trigger] before[k])@ == a;
                    assert(ips@[k] == before[k]);
                } else {
                    assert(ips@[ips@.len() - 1]@ == a);
                }
            }
        }
        assert forall|a: Seq<char>| holds_text(ips@, a) implies exists|j: int|
            0 <= j < i + 1 && stored_addr_is(#[trigger] stored@[j], a) by {
            let k = choose|k: int| 0 <= k < ips@.len() && (#[trigger] ips@[k])@ == a;
            if k < before.len() {
                assert(before[k] == ips@[k]);
                assert(holds_text(before, a));
            } else {
                assert(stored_addr_is(stored@[i as int], a));
            }
        }
        i += 1;
    }
    ips
}

/// A guest address must be picked when none is set, when it is empty, or when it is the
/// placeholder `10.0.0.1`.
pub open spec fn needs_guest_address(ip: Option<String>) -> bool {
    match ip {
        None => true,
        Some(s) => s@.len() == 0 || s@ == "10.0.0.1"@,
    }
}

/// Whether a configuration with guest address `ip` needs one picked for it.
pub fn guest_address_needed(ip: &Option<String>) -> (r: bool)
    ensures
        r == needs_guest_address(*ip),
{
    match ip {
        None => true,
        Some(s) => s.as_str().unicode_len() == 0 || crate::text::same_text(s.as_str(), "10.0.0.1"),
    }
}

/// Fills in the console port and guest address of a new configuration: a port or address
/// already set is kept, a missing one is the lowest free one given the taken ones.
pub fn assign_resources(
    port: Option<u16>,
    ip: Option<String>,
    used_ports: &Vec<u16>,
    used_ips: &Vec<String>,
) -> (r: Result<(u16, String), VmError>)
    ensures
        match r {
            Ok((p, a)) => {
                &&& match port {
                    Some(q) => p == q,
                    None => first_free_port(used_ports@.to_set()) == Some(p),
                }
                &&& if needs_guest_address(ip) {
                    first_free_addr(used_ips@) matches Some(k) && a@ == guest_addr_text(k)
                } else {
                    ip matches Some(s) && a@ == s@
                }
            },
            Err(e) => e matches VmError::ResourceExhausted && ((port is None && first_free_port(
                used_ports@.to_set(),
            ) is None) || (needs_guest_address(ip) && first_free_addr(used_ips@) is None)),
        },
{
    let p = match port {
        Some(q) => q,
        None => match next_vnc_port(used_ports) {
            Ok(q) => q,
            Err(e) => {
                return Err(e);
            },
        },
    };
    let needs = guest_address_needed(&ip);
    let a = if needs {
        match next_ipv4(used_ips) {
            Ok(a) => a,
            Err(e) => {
                return Err(e);
            },
        }
    } else {
        match ip {
            Some(s) => s,
            None => String::new(),
        }
    };
    Ok((p, a))
}

/// The set of ports taken once `extra` are taken as well.
pub open spec fn taken_with(used: Seq<u16>, extra: Seq<u16>) -> Set<u16> {
    used.to_set().union(extra.to_set())
}

/// Console ports for `missing` stored VMs that have none, handed out one after the other:
/// each is the lowest port free of `used` and of those handed out before it.
pub fn backfill_vnc_ports(used: &Vec<u16>, missing: usize) -> (r: Result<Vec<u16>, VmError>)
    ensures
        match r {
            Ok(ports) => ports@.len() == missing && forall|i: int|
                0 <= i < missing ==> first_free_port(taken_with(used@, ports@.take(i)))
                    == Some(#[trigger] ports@[i]),
            Err(e) => e matches VmError::ResourceExhausted,
        },
        r is Err <==> missing > free_port_count(used@.to_set()),
{
    let mut taken: Vec<u16> = used.clone();
    let mut ports: Vec<u16> = Vec::new();
    let mut i: usize = 0;
    while i < missing
        invariant
            i <= missing,
            ports@.len() == i,
            taken@ == used@ + ports@,
            forall|q: int|
                0 <= q < i ==> first_free_port(taken_with(used@, ports@.take(q)))
                    == Some(#[trigger] ports@[q]),
            free_port_count(taken@.to_set()) + i == free_port_count(used@.to_set()),
        decreases missing - i,
    {
        let ghost t0 = taken@;
        let p = match next_vnc_port(&taken) {
            Ok(p) => p,
            Err(e) => {
                proof {
                    lemma_no_free_port_means_none_left(taken@.to_set(), CONSOLE_PORT_BASE as int);
                }
                return Err(e);
            },
        };
        proof {
            lemma_taking_first_free_port(t0.to_set(), CONSOLE_PORT_BASE as int);
            assert(t0.push(p).to_set() =~= t0.to_set().insert(p)) by {
                assert forall|x: u16| t0.push(p).to_set().contains(x) <==> t0.to_set().insert(
                    p,
                ).contains(x) by {
                    if t0.push(p).contains(x) {
                        let k = choose|k: int| 0 <= k < t0.push(p).len() && t0.push(p)[k] == x;
                        if k < t0.len() {
                            assert(t0[k] == x);
                        }
                    }
                    if t0.contains(x) {
                        let k = choose|k: int| 0 <= k < t0.len() && t0[k] == x;
                        assert(t0.push(p)[k] == x);
                    }
                    if x == p {
                        assert(t0.push(p)[t0.len() as int] == x);
                    }
                }
            }
        }
        assert((used@ + ports@).to_set() =~= taken_with(used@, ports@.take(i as int))) by {
            assert(ports@.take(i as int) =~= ports@);
            assert forall|x: u16| (used@ + ports@).to_set().contains(x) <==> taken_with(
                used@,
                ports@,
            ).contains(x) by {
                if (used@ + ports@).contains(x) {
                    let k = choose|k: int| 0 <= k < (used@ + ports@).len() && (used@ + ports@)[k] == x;
                    if k < used@.len() {
                        assert(used@[k] == x);
                    } else {
                        assert(ports@[k - used@.len()] == x);
                    }
                }
                if used@.contains(x) {
                    let k = choose|k: int| 0 <= k < used@.len() && used@[k] == x;
                    assert((used@ + ports@)[k] == x);
                }
                if ports@.contains(x) {
                    let k = choose|k: int| 0 <= k < ports@.len() && ports@[k] == x;
                    assert((used@ + ports@)[used@.len() + k] == x);
                }
            }
        }
        let ghost before = ports@;
        ports.push(p);
        taken.push(p);
        assert forall|q: int| 0 <= q < i + 1 implies first_free_port(
            taken_with(used@, ports@.take(q)),
        ) == Some(#[trigger] ports@[q]) by {
            assert(ports@.take(q) =~= before.take(q));
        }
        assert(taken@ =~= used@ + ports@);
        assert(taken@ == t0.push(p));
        i += 1;
    }
    Ok(ports)
}

/// How many console ports at or above `p` (on the stride) `used` leaves free.
pub open spec fn free_ports_from(used: Set<u16>, p: int) -> nat
    decreases CONSOLE_PORT_LIMIT + 2 - p,
{
    if p > CONSOLE_PORT_LIMIT || p < 0 {
        0
    } else {
        (if used.contains(p as u16) {
            0nat
        } else {
            1nat
        }) + free_ports_from(used, p + CONSOLE_PORT_STRIDE)
    }
}

/// How many console ports `used` leaves free.
pub open spec fn free_port_count(used: Set<u16>) -> nat {
    free_ports_from(used, CONSOLE_PORT_BASE as int)
}

proof fn lemma_no_free_port_means_none_left(used: Set<u16>, p: int)
    requires
        first_free_port_from(used, p) is None,
    ensures
        free_ports_from(used, p) == 0,
    decreases CONSOLE_PORT_LIMIT + 2 - p,
{
    if p <= CONSOLE_PORT_LIMIT && p >= 0 {
        lemma_no_free_port_means_none_left(used, p + CONSOLE_PORT_STRIDE);
    }
}

proof fn lemma_insert_below(used: Set<u16>, x: u16, p: int)
    requires
        (x as int) < p,
    ensures
        free_ports_from(used.insert(x), p) == free_ports_from(used, p),
    decreases CONSOLE_PORT_LIMIT + 2 - p,
{
    if p <= CONSOLE_PORT_LIMIT && p >= 0 {
        lemma_insert_below(used, x, p + CONSOLE_PORT_STRIDE);
        assert(used.insert(x).contains(p as u16) == used.contains(p as u16));
    }
}

/// Taking the port that the allocator picks leaves one free port fewer.
proof fn lemma_taking_first_free_port(used: Set<u16>, p: int)
    requires
        first_free_port_from(used, p) is Some,
    ensures
        free_ports_from(used.insert(first_free_port_from(used, p)->Some_0), p) + 1 == free_ports_from(
            used,
            p,
        ),
    decreases CONSOLE_PORT_LIMIT + 2 - p,
{
    let q = first_free_port_from(used, p)->Some_0;
    if p <= CONSOLE_PORT_LIMIT && p >= 0 {
        if !used.contains(p as u16) {
            assert(q == p as u16);
            lemma_insert_below(used, q, p + CONSOLE_PORT_STRIDE);
        } else {
            lemma_taking_first_free_port(used, p + CONSOLE_PORT_STRIDE);
            assert(used.insert(q).contains(p as u16));
        }
    }
}

} // verus!
