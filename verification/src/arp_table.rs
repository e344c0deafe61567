//! The ARP resolver state: the IP-to-MAC table and the per-IP waiter lists,
//! with the ingress transition that a reply drives and the query that
//! registers a waiter when the answer is not yet known.
//!
//! The state is a plain record; a host program serializes access to it (one
//! mutex over the whole record) and turns waiter handles into its own
//! notification channels.

use vstd::prelude::*;
use crate::addr::{Ipv4Addr, MacAddr};
use crate::arp_packet::{spec_parse_arp, ArpPacket};
use crate::versioned::VersionedTx;
use crate::RxError;

verus! {

/// One resolved binding in the ARP table.
#[derive(Clone, Copy, PartialEq, Eq, Structural, Debug)]
pub struct ArpEntry {
    pub ip: Ipv4Addr,
    pub mac: MacAddr,
}

/// The waiters parked on one unresolved IP, in registration order.
#[derive(Debug)]
pub struct WaiterGroup {
    pub ip: Ipv4Addr,
    pub waiters: Vec<u64>,
}

/// No two entries bind the same IP.
pub open spec fn entries_unique(s: Seq<ArpEntry>) -> bool {
    forall|i: int, j: int| 0 <= i < j < s.len() ==> s[i].ip != s[j].ip
}

/// No two groups park waiters under the same IP.
pub open spec fn groups_unique(s: Seq<WaiterGroup>) -> bool {
    forall|i: int, j: int| 0 <= i < j < s.len() ==> s[i].ip != s[j].ip
}

/// The binding map that a sequence of entries holds.
pub open spec fn entries_map(s: Seq<ArpEntry>) -> Map<Ipv4Addr, MacAddr>
    decreases s.len(),
{
    if s.len() == 0 {
        Map::empty()
    } else {
        entries_map(s.drop_last()).insert(s.last().ip, s.last().mac)
    }
}

/// The waiter map that a sequence of groups holds.
pub open spec fn groups_map(s: Seq<WaiterGroup>) -> Map<Ipv4Addr, Seq<u64>>
    decreases s.len(),
{
    if s.len() == 0 {
        Map::empty()
    } else {
        groups_map(s.drop_last()).insert(s.last().ip, s.last().waiters@)
    }
}

proof fn lemma_entries_map_domain(s: Seq<ArpEntry>, ip: Ipv4Addr)
    ensures
        entries_map(s).contains_key(ip) <==> exists|i: int| 0 <= i < s.len() && s[i].ip == ip,
    decreases s.len(),
{
    if s.len() > 0 {
        lemma_entries_map_domain(s.drop_last(), ip);
        if s.last().ip == ip {
            assert(s[s.len() - 1].ip == ip);
        } else if entries_map(s.drop_last()).contains_key(ip) {
            let i = choose|i: int| 0 <= i < s.drop_last().len() && s.drop_last()[i].ip == ip;
            assert(s[i].ip == ip);
        } else {
            assert forall|i: int| 0 <= i < s.len() implies s[i].ip != ip by {
                if i < s.len() - 1 {
                    assert(s.drop_last()[i] == s[i]);
                }
            }
        }
    }
}

proof fn lemma_entries_map_at(s: Seq<ArpEntry>, i: int)
    requires
        entries_unique(s),
        0 <= i < s.len(),
    ensures
        entries_map(s).contains_key(s[i].ip),
        entries_map(s)[s[i].ip] == s[i].mac,
    decreases s.len(),
{
    if i < s.len() - 1 {
        lemma_entries_map_at(s.drop_last(), i);
        assert(s.drop_last()[i] == s[i]);
    }
}

proof fn lemma_entries_map_update(s: Seq<ArpEntry>, i: int, e: ArpEntry)
    requires
        entries_unique(s),
        0 <= i < s.len(),
        e.ip == s[i].ip,
    ensures
        entries_map(s.update(i, e)) =~= entries_map(s).insert(e.ip, e.mac),
        entries_unique(s.update(i, e)),
    decreases s.len(),
{
    if i == s.len() - 1 {
        assert(s.update(i, e).drop_last() =~= s.drop_last());
    } else {
        lemma_entries_map_update(s.drop_last(), i, e);
        assert(s.update(i, e).drop_last() =~= s.drop_last().update(i, e));
        assert(s.update(i, e).last() == s.last());
    }
}

proof fn lemma_entries_map_push(s: Seq<ArpEntry>, e: ArpEntry)
    requires
        entries_unique(s),
        forall|i: int| 0 <= i < s.len() ==> s[i].ip != e.ip,
    ensures
        entries_map(s.push(e)) =~= entries_map(s).insert(e.ip, e.mac),
        entries_unique(s.push(e)),
{
    assert(s.push(e).drop_last() =~= s);
}

proof fn lemma_groups_map_domain(s: Seq<WaiterGroup>, ip: Ipv4Addr)
    ensures
        groups_map(s).contains_key(ip) <==> exists|i: int| 0 <= i < s.len() && s[i].ip == ip,
    decreases s.len(),
{
    if s.len() > 0 {
        lemma_groups_map_domain(s.drop_last(), ip);
        if s.last().ip == ip {
            assert(s[s.len() - 1].ip == ip);
        } else if groups_map(s.drop_last()).contains_key(ip) {
            let i = choose|i: int| 0 <= i < s.drop_last().len() && s.drop_last()[i].ip == ip;
            assert(s[i].ip == ip);
        } else {
            assert forall|i: int| 0 <= i < s.len() implies s[i].ip != ip by {
                if i < s.len() - 1 {
                    assert(s.drop_last()[i] == s[i]);
                }
            }
        }
    }
}

proof fn lemma_groups_map_at(s: Seq<WaiterGroup>, i: int)
    requires
        groups_unique(s),
        0 <= i < s.len(),
    ensures
        groups_map(s).contains_key(s[i].ip),
        groups_map(s)[s[i].ip] == s[i].waiters@,
    decreases s.len(),
{
    if i < s.len() - 1 {
        lemma_groups_map_at(s.drop_last(), i);
        assert(s.drop_last()[i] == s[i]);
    }
}

proof fn lemma_groups_map_update(s: Seq<WaiterGroup>, i: int, g: WaiterGroup)
    requires
        groups_unique(s),
        0 <= i < s.len(),
        g.ip == s[i].ip,
    ensures
        groups_map(s.update(i, g)) =~= groups_map(s).insert(g.ip, g.waiters@),
        groups_unique(s.update(i, g)),
    decreases s.len(),
{
    if i == s.len() - 1 {
        assert(s.update(i, g).drop_last() =~= s.drop_last());
    } else {
        lemma_groups_map_update(s.drop_last(), i, g);
        assert(s.update(i, g).drop_last() =~= s.drop_last().update(i, g));
        assert(s.update(i, g).last() == s.last());
    }
}

proof fn lemma_groups_map_push(s: Seq<WaiterGroup>, g: WaiterGroup)
    requires
        groups_unique(s),
        forall|i: int| 0 <= i < s.len() ==> s[i].ip != g.ip,
    ensures
        groups_map(s.push(g)) =~= groups_map(s).insert(g.ip, g.waiters@),
        groups_unique(s.push(g)),
{
    assert(s.push(g).drop_last() =~= s);
}

proof fn lemma_groups_map_remove(s: Seq<WaiterGroup>, i: int)
    requires
        groups_unique(s),
        0 <= i < s.len(),
    ensures
        groups_map(s.remove(i)) =~= groups_map(s).remove(s[i].ip),
        groups_unique(s.remove(i)),
    decreases s.len(),
{
    lemma_groups_map_domain(s.drop_last(), s[i].ip);
    if i == s.len() - 1 {
        assert(s.remove(i) =~= s.drop_last());
        assert forall|j: int| 0 <= j < s.drop_last().len() implies s.drop_last()[j].ip
            != s[i].ip by {
            assert(s.drop_last()[j] == s[j]);
        }
        assert(!groups_map(s.drop_last()).contains_key(s[i].ip));
    } else {
        lemma_groups_map_remove(s.drop_last(), i);
        assert(s.remove(i).drop_last() =~= s.drop_last().remove(i));
        assert(s.remove(i).last() == s.last());
    }
}

/// The mathematical state of the resolver: the binding map, the waiter map,
/// and the next fresh waiter handle.
#[verifier::ext_equal]
pub struct ArpView {
    pub table: Map<Ipv4Addr, MacAddr>,
    pub waiters: Map<Ipv4Addr, Seq<u64>>,
    pub next_waiter: u64,
}

impl ArpView {
    /// The binding of `ip`, when resolved.
    pub open spec fn resolved(self, ip: Ipv4Addr) -> Option<MacAddr> {
        if self.table.contains_key(ip) {
            Some(self.table[ip])
        } else {
            None
        }
    }

    /// The waiters parked on `ip`, oldest first; empty when none are.
    pub open spec fn waiters_of(self, ip: Ipv4Addr) -> Seq<u64> {
        if self.waiters.contains_key(ip) {
            self.waiters[ip]
        } else {
            Seq::empty()
        }
    }

    /// Every parked handle was handed out before the next fresh one.
    pub open spec fn ids_bounded(self) -> bool {
        forall|ip: Ipv4Addr, k: int|
            self.waiters.contains_key(ip) && 0 <= k < self.waiters[ip].len()
                ==> #[trigger] self.waiters[ip][k] < self.next_waiter
    }
}

/// Parking one more waiter on `ip`: the fresh handle is appended to the
/// queue of `ip` and the next handle moves past it.
pub open spec fn spec_register(v: ArpView, ip: Ipv4Addr) -> ArpView {
    ArpView {
        table: v.table,
        waiters: v.waiters.insert(ip, v.waiters_of(ip).push(v.next_waiter)),
        next_waiter: (v.next_waiter + 1) as u64,
    }
}

/// What an ARP reply (or a manual insert) does to the state: the binding is
/// installed and the waiters of that IP leave the state.
pub open spec fn spec_apply_reply(v: ArpView, ip: Ipv4Addr, mac: MacAddr) -> ArpView {
    ArpView { table: v.table.insert(ip, mac), waiters: v.waiters.remove(ip), ..v }
}

/// Whether a reply changes the table: the IP was unbound, or bound to a
/// different MAC.
pub open spec fn spec_reply_changes(v: ArpView, ip: Ipv4Addr, mac: MacAddr) -> bool {
    v.resolved(ip) != Some(mac)
}

/// The raw resolver record: the table and the waiter lists, as shared between
/// ingress (writer) and egress (reader) under one lock.
pub struct TableData {
    pub entries: Vec<ArpEntry>,
    pub groups: Vec<WaiterGroup>,
    pub next_waiter: u64,
}

impl View for TableData {
    type V = ArpView;

    open spec fn view(&self) -> ArpView {
        ArpView {
            table: entries_map(self.entries@),
            waiters: groups_map(self.groups@),
            next_waiter: self.next_waiter,
        }
    }
}

impl TableData {
    /// Well-formedness: one entry per IP, one group per IP, parked handles
    /// older than the next fresh one.
    pub open spec fn wf(self) -> bool {
        &&& entries_unique(self.entries@)
        &&& groups_unique(self.groups@)
        &&& self@.ids_bounded()
    }

    /// An empty resolver state.
    pub fn new() -> (r: TableData)
        ensures
            r.wf(),
            r@ == (ArpView {
                table: Map::<Ipv4Addr, MacAddr>::empty(),
                waiters: Map::<Ipv4Addr, Seq<u64>>::empty(),
                next_waiter: 0u64,
            }),
    {
        TableData { entries: Vec::new(), groups: Vec::new(), next_waiter: 0 }
    }

    /// Looks the binding of `ip` up, without registering anything.
    pub fn lookup(&self, ip: Ipv4Addr) -> (r: Option<MacAddr>)
        requires
            self.wf(),
        ensures
            r == self@.resolved(ip),
    {
        let n = self.entries.len();
        let mut i: usize = 0;
        while i < n
            invariant
                n == self.entries@.len(),
                0 <= i <= n,
                entries_unique(self.entries@),
                forall|j: int| 0 <= j < i ==> self.entries@[j].ip != ip,
            decreases n - i,
        {
            if self.entries[i].ip == ip {
                proof {
                    lemma_entries_map_at(self.entries@, i as int);
                }
                return Some(self.entries[i].mac);
            }
            i = i + 1;
        }
        proof {
            lemma_entries_map_domain(self.entries@, ip);
        }
        None
    }

    /// Installs the binding `ip -> mac`, leaving waiters and the handle
    /// counter alone.
    fn set_binding(&mut self, ip: Ipv4Addr, mac: MacAddr)
        requires
            old(self).wf(),
        ensures
            final(self).wf(),
            final(self)@ == (ArpView { table: old(self)@.table.insert(ip, mac), ..old(self)@ }),
    {
        let n = self.entries.len();
        let mut i: usize = 0;
        while i < n
            invariant
                n == self.entries@.len(),
                0 <= i <= n,
                self == old(self),
                old(self).wf(),
                entries_unique(self.entries@),
                forall|j: int| 0 <= j < i ==> self.entries@[j].ip != ip,
            decreases n - i,
        {
            if self.entries[i].ip == ip {
                proof {
                    lemma_entries_map_update(
                        self.entries@,
                        i as int,
                        ArpEntry { ip, mac },
                    );
                }
                self.entries[i] = ArpEntry { ip, mac };
                proof {
                    assert(self@ =~= (ArpView {
                        table: old(self)@.table.insert(ip, mac),
                        ..old(self)@
                    }));
                }
                return ;
            }
            i = i + 1;
        }
        proof {
            lemma_entries_map_push(self.entries@, ArpEntry { ip, mac });
        }
        self.entries.push(ArpEntry { ip, mac });
        proof {
            assert(self@ =~= (ArpView { table: old(self)@.table.insert(ip, mac), ..old(self)@ }));
        }
    }

    /// Parks a fresh waiter on `ip` and returns its handle.
    pub fn register_waiter(&mut self, ip: Ipv4Addr) -> (w: u64)
        requires
            old(self).wf(),
            old(self).next_waiter < u64::MAX,
        ensures
            final(self).wf(),
            w == old(self)@.next_waiter,
            final(self)@ == spec_register(old(self)@, ip),
    {
        let w = self.next_waiter;
        let n = self.groups.len();
        let mut i: usize = 0;
        while i < n
            invariant
                n == self.groups@.len(),
                0 <= i <= n,
                self == old(self),
                old(self).wf(),
                groups_unique(self.groups@),
                self@.ids_bounded(),
                w == self.next_waiter,
                self.next_waiter < u64::MAX,
                forall|j: int| 0 <= j < i ==> self.groups@[j].ip != ip,
            decreases n - i,
        {
            if self.groups[i].ip == ip {
                proof {
                    lemma_groups_map_at(self.groups@, i as int);
                }
                let ghost old_groups = self.groups@;
                self.groups[i].waiters.push(w);
                self.next_waiter = self.next_waiter + 1;
                proof {
                    lemma_groups_map_update(old_groups, i as int, self.groups@[i as int]);
                    assert(self@ =~= spec_register(old(self)@, ip));
                }
                return w;
            }
            i = i + 1;
        }
        proof {
            lemma_groups_map_domain(self.groups@, ip);
        }
        let mut fresh: Vec<u64> = Vec::new();
        fresh.push(w);
        let group = WaiterGroup { ip, waiters: fresh };
        proof {
            lemma_groups_map_push(self.groups@, group);
        }
        self.groups.push(group);
        self.next_waiter = self.next_waiter + 1;
        proof {
            assert(old(self)@.waiters_of(ip).push(w) =~= group.waiters@);
            assert(self@ =~= spec_register(old(self)@, ip));
        }
        w
    }

    /// Unparks all waiters of `ip`, oldest first, and forgets them.
    fn drain_waiters(&mut self, ip: Ipv4Addr) -> (r: Vec<u64>)
        requires
            old(self).wf(),
        ensures
            final(self).wf(),
            r@ == old(self)@.waiters_of(ip),
            final(self)@ == (ArpView { waiters: old(self)@.waiters.remove(ip), ..old(self)@ }),
    {
        let n = self.groups.len();
        let mut i: usize = 0;
        while i < n
            invariant
                n == self.groups@.len(),
                0 <= i <= n,
                self == old(self),
                old(self).wf(),
                entries_unique(self.entries@),
                groups_unique(self.groups@),
                self@.ids_bounded(),
                forall|j: int| 0 <= j < i ==> self.groups@[j].ip != ip,
            decreases n - i,
        {
            if self.groups[i].ip == ip {
                proof {
                    lemma_groups_map_at(self.groups@, i as int);
                    lemma_groups_map_remove(self.groups@, i as int);
                }
                let group = self.groups.remove(i);
                proof {
                    assert(self@ =~= (ArpView {
                        waiters: old(self)@.waiters.remove(ip),
                        ..old(self)@
                    }));
                }
                return group.waiters;
            }
            i = i + 1;
        }
        proof {
            lemma_groups_map_domain(self.groups@, ip);
            assert(old(self)@.waiters.remove(ip) =~= old(self)@.waiters);
            assert(self@ =~= (ArpView { waiters: old(self)@.waiters.remove(ip), ..old(self)@ }));
        }
        Vec::new()
    }

    /// The ingress transition of a reply `ip -> mac`: install the binding,
    /// bump the revision exactly when the binding changed, and hand back the
    /// waiters to notify, oldest first.
    pub fn process_reply(&mut self, vtx: &mut VersionedTx, ip: Ipv4Addr, mac: MacAddr) -> (drained:
        Vec<u64>)
        requires
            old(self).wf(),
            old(vtx).revision < u64::MAX,
        ensures
            final(self).wf(),
            final(self)@ == spec_apply_reply(old(self)@, ip, mac),
            drained@ == old(self)@.waiters_of(ip),
            spec_reply_changes(old(self)@, ip, mac) ==> final(vtx).revision == old(
                vtx,
            ).revision + 1,
            !spec_reply_changes(old(self)@, ip, mac) ==> *final(vtx) == *old(vtx),
    {
        let prev = self.lookup(ip);
        let changed = match prev {
            Some(m) => !(m == mac),
            None => true,
        };
        if changed {
            vtx.inc();
        }
        self.set_binding(ip, mac);
        let drained = self.drain_waiters(ip);
        proof {
            assert(self@ =~= spec_apply_reply(old(self)@, ip, mac));
        }
        drained
    }
}

/// The resolver handle: the table and waiter state behind a single record.
/// The host program wraps it in its one mutex and shares it between the
/// ingress listener and the egress senders.
pub struct ArpTable {
    pub data: TableData,
}

impl ArpTable {
    /// A new table with no entries in it.
    pub fn new() -> (r: ArpTable)
        ensures
            r.data.wf(),
            r.data@ == (ArpView {
                table: Map::<Ipv4Addr, MacAddr>::empty(),
                waiters: Map::<Ipv4Addr, Seq<u64>>::empty(),
                next_waiter: 0u64,
            }),
    {
        ArpTable { data: TableData::new() }
    }

    /// Queries the table for a MAC. A present binding comes back resolved;
    /// otherwise exactly one fresh waiter is parked on `target_ip` and its
    /// handle comes back for the caller to block on.
    pub fn get(&mut self, target_ip: Ipv4Addr) -> (r: Result<MacAddr, u64>)
        requires
            old(self).data.wf(),
            old(self).data.next_waiter < u64::MAX,
        ensures
            final(self).data.wf(),
            match r {
                Ok(mac) => old(self).data@.resolved(target_ip) == Some(mac) && *final(self)
                    == *old(self),
                Err(w) => {
                    &&& old(self).data@.resolved(target_ip) is None
                    &&& w == old(self).data@.next_waiter
                    &&& final(self).data@ == spec_register(old(self).data@, target_ip)
                },
            },
    {
        match self.data.lookup(target_ip) {
            Some(mac) => Ok(mac),
            None => Err(self.data.register_waiter(target_ip)),
        }
    }

    /// Manually inserts an `ip -> mac` binding, unparking any waiters of that
    /// IP; the revision counter is left alone.
    pub fn insert(&mut self, ip: Ipv4Addr, mac: MacAddr) -> (drained: Vec<u64>)
        requires
            old(self).data.wf(),
        ensures
            final(self).data.wf(),
            final(self).data@ == spec_apply_reply(old(self).data@, ip, mac),
            drained@ == old(self).data@.waiters_of(ip),
    {
        self.data.set_binding(ip, mac);
        let drained = self.data.drain_waiters(ip);
        proof {
            assert(self.data@ =~= spec_apply_reply(old(self).data@, ip, mac));
        }
        drained
    }
}

/// The outcome of one ARP ingress frame: the parsed packet and the waiters
/// to notify with its sender's MAC.
pub struct ArpIngress {
    pub packet: ArpPacket,
    pub waiters: Vec<u64>,
}

/// The ARP ingress step on a raw Ethernet payload: parse the packet, learn
/// the sender's binding, bump the revision exactly when the binding changed,
/// and unpark the waiters of the sender's IP.
pub fn process_arp_frame(table: &mut ArpTable, vtx: &mut VersionedTx, payload: &Vec<u8>) -> (r:
    Result<ArpIngress, RxError>)
    requires
        old(table).data.wf(),
        old(vtx).revision < u64::MAX,
    ensures
        final(table).data.wf(),
        match r {
            Ok(ing) => {
                &&& spec_parse_arp(payload@) == Some(ing.packet)
                &&& final(table).data@ == spec_apply_reply(
                    old(table).data@,
                    ing.packet.sender_proto,
                    ing.packet.sender_hw,
                )
                &&& ing.waiters@ == old(table).data@.waiters_of(ing.packet.sender_proto)
                &&& spec_reply_changes(
                    old(table).data@,
                    ing.packet.sender_proto,
                    ing.packet.sender_hw,
                ) ==> final(vtx).revision == old(vtx).revision + 1
                &&& !spec_reply_changes(
                    old(table).data@,
                    ing.packet.sender_proto,
                    ing.packet.sender_hw,
                ) ==> *final(vtx) == *old(vtx)
            },
            Err(e) => {
                &&& e == RxError::Parse
                &&& payload@.len() < 28
                &&& *final(table) == *old(table)
                &&& *final(vtx) == *old(vtx)
            },
        },
        r is Ok <==> payload@.len() >= 28,
{
    let packet = match ArpPacket::parse(payload) {
        Some(p) => p,
        None => {
            return Err(RxError::Parse);
        },
    };
    let waiters = table.data.process_reply(vtx, packet.sender_proto, packet.sender_hw);
    Ok(ArpIngress { packet, waiters })
}

/// Law: after a reply `ip -> mac` is processed, the table resolves `ip` to
/// `mac` and no waiter remains parked on `ip`; the waiters to notify are
/// exactly those parked before, in registration order.
pub proof fn lemma_reply_resolves_and_drains(v: ArpView, ip: Ipv4Addr, mac: MacAddr)
    ensures
        spec_apply_reply(v, ip, mac).resolved(ip) == Some(mac),
        spec_apply_reply(v, ip, mac).waiters_of(ip) == Seq::<u64>::empty(),
        spec_apply_reply(v, ip, mac).waiters_of(ip).len() == 0,
{
}

/// Law: querying an unresolved IP parks exactly one waiter on it, a fresh
/// one, and leaves the queue of every other IP alone.
pub proof fn lemma_register_parks_one_fresh(v: ArpView, ip: Ipv4Addr)
    requires
        v.ids_bounded(),
    ensures
        spec_register(v, ip).waiters_of(ip) == v.waiters_of(ip).push(v.next_waiter),
        spec_register(v, ip).waiters_of(ip).len() == v.waiters_of(ip).len() + 1,
        forall|k: int|
            0 <= k < v.waiters_of(ip).len() ==> #[trigger] v.waiters_of(ip)[k] != v.next_waiter,
        forall|other: Ipv4Addr|
            other != ip ==> #[trigger] spec_register(v, ip).waiters_of(other) == v.waiters_of(
                other,
            ),
{
}

/// Law: two queries for the same unresolved IP park two distinct waiters,
/// and a single reply unparks both of them at once.
pub proof fn lemma_two_waiters_one_reply(v: ArpView, ip: Ipv4Addr, mac: MacAddr)
    ensures
        ({
            let w1 = v.next_waiter;
            let v1 = spec_register(v, ip);
            let w2 = v1.next_waiter;
            let v2 = spec_register(v1, ip);
            &&& v.next_waiter < u64::MAX - 1 ==> w1 != w2
            &&& v2.waiters_of(ip) == v.waiters_of(ip).push(w1).push(w2)
            &&& v2.waiters_of(ip).contains(w1)
            &&& v2.waiters_of(ip).contains(w2)
            &&& spec_apply_reply(v2, ip, mac).waiters_of(ip).len() == 0
        }),
{
    let w1 = v.next_waiter;
    let v1 = spec_register(v, ip);
    let w2 = v1.next_waiter;
    let v2 = spec_register(v1, ip);
    let q = v.waiters_of(ip).push(w1).push(w2);
    assert(v1.waiters_of(ip) == v.waiters_of(ip).push(w1));
    assert(v2.waiters_of(ip) == q);
    assert(q[q.len() - 2] == w1);
    assert(q[q.len() - 1] == w2);
}

} // verus!
