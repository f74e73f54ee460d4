//! The device connection registry: a map from device address to the handle
//! of an owned outbound connection. At most one entry exists per address; a
//! later `connect` for the same address replaces the earlier entry in
//! place. Entries are never removed.
use vstd::prelude::*;

use crate::addr::DeviceAddress;

verus! {

/// One registry entry: an address and its connection handle.
#[derive(PartialEq, Eq, Structural, Clone, Copy, Debug)]
pub struct RegEntry {
    pub addr: DeviceAddress,
    pub conn: u64,
}

/// Addresses of the entries, in registry order.
pub open spec fn reg_addrs(s: Seq<RegEntry>) -> Seq<DeviceAddress> {
    s.map_values(|e: RegEntry| e.addr)
}

/// Connection handles of the entries, in registry order.
pub open spec fn reg_conns(s: Seq<RegEntry>) -> Seq<u64> {
    s.map_values(|e: RegEntry| e.conn)
}

/// No two entries share an address.
pub open spec fn reg_wf(s: Seq<RegEntry>) -> bool {
    forall|i: int, j: int| 0 <= i < j < s.len() ==> (#[trigger] s[i]).addr != (#[trigger] s[j]).addr
}

/// Some entry has address `a`.
pub open spec fn reg_contains(s: Seq<RegEntry>, a: DeviceAddress) -> bool {
    exists|i: int| 0 <= i < s.len() && (#[trigger] s[i]).addr == a
}

/// Index of the first entry with address `a`, or -1 when absent.
pub open spec fn reg_find(s: Seq<RegEntry>, a: DeviceAddress) -> int
    decreases s.len(),
{
    if s.len() == 0 {
        -1
    } else if s[0].addr == a {
        0
    } else if reg_find(s.drop_first(), a) < 0 {
        -1
    } else {
        reg_find(s.drop_first(), a) + 1
    }
}

/// Connection handle stored for address `a`.
pub open spec fn reg_conn_of(s: Seq<RegEntry>, a: DeviceAddress) -> u64 {
    s[reg_find(s, a)].conn
}

/// The registry after storing `conn` under `a`: the entry for `a` is
/// replaced in place when one exists, else a new entry is appended.
pub open spec fn reg_insert(s: Seq<RegEntry>, a: DeviceAddress, c: u64) -> Seq<RegEntry> {
    if reg_contains(s, a) {
        s.update(reg_find(s, a), RegEntry { addr: a, conn: c })
    } else {
        s.push(RegEntry { addr: a, conn: c })
    }
}

/// What `reg_find` finds: the first entry with the sought address, or a
/// certificate that none exists.
pub proof fn lemma_reg_find(s: Seq<RegEntry>, a: DeviceAddress)
    ensures
        -1 <= reg_find(s, a) < s.len(),
        reg_find(s, a) >= 0 ==> s[reg_find(s, a)].addr == a,
        reg_find(s, a) >= 0 ==> forall|j: int| 0 <= j < reg_find(s, a) ==> (#[trigger] s[j]).addr
            != a,
        reg_find(s, a) >= 0 <==> reg_contains(s, a),
    decreases s.len(),
{
    if s.len() > 0 && s[0].addr != a {
        lemma_reg_find(s.drop_first(), a);
        let r = reg_find(s.drop_first(), a);
        if r >= 0 {
            assert(s[r + 1] == s.drop_first()[r]);
            assert forall|j: int| 0 <= j < r + 1 implies (#[trigger] s[j]).addr != a by {
                if j > 0 {
                    assert(s[j] == s.drop_first()[j - 1]);
                }
            }
        } else {
            assert forall|i: int| 0 <= i < s.len() implies (#[trigger] s[i]).addr != a by {
                if i > 0 {
                    assert(s[i] == s.drop_first()[i - 1]);
                }
            }
        }
        if reg_contains(s, a) {
            let i = choose|i: int| 0 <= i < s.len() && (#[trigger] s[i]).addr == a;
            assert(s.drop_first()[i - 1] == s[i]);
        }
    }
}

/// Insertion keeps the registry well formed, stores the new handle under
/// the address, and leaves every other entry as it was.
pub proof fn lemma_reg_insert(s: Seq<RegEntry>, a: DeviceAddress, c: u64)
    requires
        reg_wf(s),
    ensures
        reg_wf(reg_insert(s, a, c)),
        reg_contains(reg_insert(s, a, c), a),
        reg_conn_of(reg_insert(s, a, c), a) == c,
        reg_insert(s, a, c).len() == if reg_contains(s, a) {
            s.len()
        } else {
            s.len() + 1
        },
        forall|b: DeviceAddress| b != a ==> (reg_contains(reg_insert(s, a, c), b) <==> reg_contains(
            s,
            b,
        )),
{
    lemma_reg_find(s, a);
    let t = reg_insert(s, a, c);
    lemma_reg_find(t, a);
    if reg_contains(s, a) {
        let i = reg_find(s, a);
        assert(t[i].addr == a);
        assert(reg_contains(t, a));
        lemma_reg_find(t, a);
        let r = reg_find(t, a);
        assert(t[r].addr == a);
        assert(r == i) by {
            if r < i {
                assert(s[r].addr == t[r].addr);
            }
        }
        assert forall|b: DeviceAddress| b != a implies (reg_contains(t, b) <==> reg_contains(
            s,
            b,
        )) by {
            if reg_contains(t, b) {
                let k = choose|k: int| 0 <= k < t.len() && (#[trigger] t[k]).addr == b;
                assert(s[k].addr == b);
            }
            if reg_contains(s, b) {
                let k = choose|k: int| 0 <= k < s.len() && (#[trigger] s[k]).addr == b;
                assert(t[k].addr == b);
            }
        }
    } else {
        assert(t[s.len() as int].addr == a);
        assert forall|i: int, j: int| 0 <= i < j < t.len() implies (#[trigger] t[i]).addr
            != (#[trigger] t[j]).addr by {
            if j < s.len() {
                assert(s[i].addr != s[j].addr);
            } else {
                assert(t[i].addr == s[i].addr);
            }
        }
        lemma_reg_find(t, a);
        let r = reg_find(t, a);
        assert(r == s.len()) by {
            if r < s.len() {
                assert(s[r].addr == t[r].addr);
            }
        }
        assert forall|b: DeviceAddress| b != a implies (reg_contains(t, b) <==> reg_contains(
            s,
            b,
        )) by {
            if reg_contains(t, b) {
                let k = choose|k: int| 0 <= k < t.len() && (#[trigger] t[k]).addr == b;
                assert(k < s.len() && s[k].addr == b);
            }
            if reg_contains(s, b) {
                let k = choose|k: int| 0 <= k < s.len() && (#[trigger] s[k]).addr == b;
                assert(t[k].addr == b);
            }
        }
    }
}

/// Occurrences of an address in a listing.
pub open spec fn count_addr(s: Seq<DeviceAddress>, a: DeviceAddress) -> nat
    decreases s.len(),
{
    if s.len() == 0 {
        0
    } else {
        count_addr(s.drop_last(), a) + (if s.last() == a {
            1nat
        } else {
            0nat
        })
    }
}

/// A well-formed registry lists an address exactly once when it holds one
/// and never otherwise.
pub proof fn lemma_count_addr(s: Seq<RegEntry>, a: DeviceAddress)
    requires
        reg_wf(s),
    ensures
        count_addr(reg_addrs(s), a) == if reg_contains(s, a) {
            1nat
        } else {
            0nat
        },
    decreases s.len(),
{
    if s.len() == 0 {
        assert(reg_addrs(s).len() == 0);
        assert(!reg_contains(s, a));
    } else {
        let t = s.drop_last();
        assert(reg_wf(t)) by {
            assert(forall|i: int, j: int|
                0 <= i < j < t.len() ==> (#[trigger] t[i]).addr != (#[trigger] t[j]).addr);
        }
        lemma_count_addr(t, a);
        assert(reg_addrs(s).drop_last() =~= reg_addrs(t));
        assert(reg_addrs(s).last() == s.last().addr);
        if s.last().addr == a {
            assert(!reg_contains(t, a)) by {
                if reg_contains(t, a) {
                    let k = choose|k: int| 0 <= k < t.len() && (#[trigger] t[k]).addr == a;
                    assert(s[k].addr != s[s.len() - 1].addr);
                }
            }
            assert(s[s.len() - 1].addr == a);
            assert(reg_contains(s, a));
        } else {
            if reg_contains(s, a) {
                let k = choose|k: int| 0 <= k < s.len() && (#[trigger] s[k]).addr == a;
                assert(k < s.len() - 1);
                assert(t[k].addr == a);
                assert(reg_contains(t, a));
            }
            if reg_contains(t, a) {
                let k = choose|k: int| 0 <= k < t.len() && (#[trigger] t[k]).addr == a;
                assert(s[k].addr == a);
                assert(reg_contains(s, a));
            }
        }
    }
}

/// The registry shared by every client session.
pub struct DeviceRegistry {
    pub entries: Vec<RegEntry>,
}

impl View for DeviceRegistry {
    type V = Seq<RegEntry>;

    open spec fn view(&self) -> Seq<RegEntry> {
        self.entries@
    }
}

/// Outcome of resolving the implicit default device.
#[derive(PartialEq, Eq, Structural, Clone, Copy, Debug)]
pub enum Resolution {
    /// The registry is empty: nothing to command.
    NoDevice,
    /// More than one device is registered: the caller must name one.
    Ambiguous,
    /// The sole registered device's connection handle.
    Resolved(u64),
}

impl DeviceRegistry {
    /// One entry per address.
    pub open spec fn wf(&self) -> bool {
        reg_wf(self@)
    }

    /// An empty registry.
    pub fn new() -> (r: DeviceRegistry)
        ensures
            r@ == Seq::<RegEntry>::empty(),
            r.wf(),
    {
        DeviceRegistry { entries: Vec::new() }
    }

    /// Number of registered devices.
    pub fn len(&self) -> (n: usize)
        ensures
            n == self@.len(),
    {
        self.entries.len()
    }

    /// The connection handle registered for `addr`, if any.
    pub fn lookup(&self, addr: &DeviceAddress) -> (r: Option<u64>)
        ensures
            r is Some <==> reg_contains(self@, *addr),
            r matches Some(c) ==> c == reg_conn_of(self@, *addr),
    {
        proof {
            lemma_reg_find(self@, *addr);
        }
        let n = self.entries.len();
        let mut i: usize = 0;
        while i < n
            invariant
                0 <= i <= n,
                n == self@.len(),
                forall|j: int| 0 <= j < i ==> (#[trigger] self@[j]).addr != *addr,
            decreases n - i,
        {
            if self.entries[i].addr == *addr {
                proof {
                    lemma_reg_find(self@, *addr);
                    let r = reg_find(self@, *addr);
                    assert(r == i) by {
                        if r < i {
                            assert(self@[r].addr != *addr);
                        }
                    }
                }
                return Some(self.entries[i].conn);
            }
            i = i + 1;
        }
        None
    }

    /// Stores or replaces the entry for `addr`.
    pub fn insert(&mut self, addr: DeviceAddress, conn: u64)
        requires
            old(self).wf(),
        ensures
            final(self)@ == reg_insert(old(self)@, addr, conn),
            final(self).wf(),
    {
        let n = self.entries.len();
        let mut i: usize = 0;
        while i < n
            invariant
                0 <= i <= n,
                self@ == old(self)@,
                old(self).wf(),
                n == self@.len(),
                forall|j: int| 0 <= j < i ==> (#[trigger] self@[j]).addr != addr,
            decreases n - i,
        {
            if self.entries[i].addr == addr {
                proof {
                    let s = self@;
                    lemma_reg_find(s, addr);
                    assert(s[i as int].addr == addr);
                    assert(reg_contains(s, addr));
                    let r = reg_find(s, addr);
                    assert(r == i) by {
                        if r < i {
                            assert(s[r].addr != addr);
                        }
                    }
                }
                self.entries.set(i, RegEntry { addr, conn });
                proof {
                    assert(self@ == reg_insert(old(self)@, addr, conn));
                    lemma_reg_insert(old(self)@, addr, conn);
                }
                return;
            }
            i = i + 1;
        }
        proof {
            assert(!reg_contains(self@, addr)) by {
                if reg_contains(self@, addr) {
                    let k = choose|k: int|
                        0 <= k < self@.len() && (#[trigger] self@[k]).addr == addr;
                    assert(self@[k].addr != addr);
                }
            }
            lemma_reg_insert(self@, addr, conn);
        }
        self.entries.push(RegEntry { addr, conn });
    }

    /// All registered addresses, in registry order.
    pub fn list(&self) -> (v: Vec<DeviceAddress>)
        ensures
            v@ == reg_addrs(self@),
    {
        let n = self.entries.len();
        let mut v: Vec<DeviceAddress> = Vec::new();
        let mut i: usize = 0;
        while i < n
            invariant
                0 <= i <= n,
                n == self@.len(),
                v@ == reg_addrs(self@).take(i as int),
            decreases n - i,
        {
            v.push(self.entries[i].addr);
            proof {
                assert(reg_addrs(self@).take(i + 1) =~= reg_addrs(self@).take(i as int).push(
                    self@[i as int].addr,
                ));
            }
            i = i + 1;
        }
        proof {
            assert(reg_addrs(self@).take(n as int) =~= reg_addrs(self@));
        }
        v
    }

    /// All connection handles, in registry order.
    pub fn connections(&self) -> (v: Vec<u64>)
        ensures
            v@ == reg_conns(self@),
    {
        let n = self.entries.len();
        let mut v: Vec<u64> = Vec::new();
        let mut i: usize = 0;
        while i < n
            invariant
                0 <= i <= n,
                n == self@.len(),
                v@ == reg_conns(self@).take(i as int),
            decreases n - i,
        {
            v.push(self.entries[i].conn);
            proof {
                assert(reg_conns(self@).take(i + 1) =~= reg_conns(self@).take(i as int).push(
                    self@[i as int].conn,
                ));
            }
            i = i + 1;
        }
        proof {
            assert(reg_conns(self@).take(n as int) =~= reg_conns(self@));
        }
        v
    }

    /// The implicit default device: the sole entry when exactly one exists.
    pub fn resolve_default(&self) -> (r: Resolution)
        ensures
            self@.len() == 0 ==> r == Resolution::NoDevice,
            self@.len() == 1 ==> r == Resolution::Resolved(self@[0].conn),
            self@.len() > 1 ==> r == Resolution::Ambiguous,
    {
        let n = self.entries.len();
        if n == 0 {
            Resolution::NoDevice
        } else if n == 1 {
            Resolution::Resolved(self.entries[0].conn)
        } else {
            Resolution::Ambiguous
        }
    }
}

} // verus!
