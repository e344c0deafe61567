//! EtherType demultiplexing of received frames. Listeners are grouped by
//! their declared EtherType when the receiver is built and cannot change
//! afterwards; a frame is delivered, in registration order, to exactly the
//! listeners that declared its EtherType.

use vstd::prelude::*;
use crate::addr::MacAddr;
use crate::ethernet::{parse_frame, spec_frame_bytes, spec_parse_frame};
use crate::ethernet::EthernetFrame;
use crate::{RxError, RxResult};

verus! {

/// A consumer of Ethernet frames of one EtherType.
///
/// The declared EtherType is part of the contract: the receiver only ever
/// hands a listener frames whose EtherType equals the declared one, and a
/// listener must not change its declaration while receiving.
pub trait EthernetListener {
    /// The EtherType this listener listens to.
    spec fn ethertype_spec(&self) -> u16;

    /// Reports the declared EtherType, so that a receiver can group a list
    /// of listeners into its demux table.
    fn get_ethertype(&self) -> (r: u16)
        ensures
            r == self.ethertype_spec(),
    ;

    /// Delivers one received frame together with its receive timestamp (in
    /// milliseconds). Only called with frames of the declared EtherType.
    fn recv(&mut self, time: u64, frame: &EthernetFrame) -> (r: RxResult)
        requires
            frame.ethertype == old(self).ethertype_spec(),
        ensures
            final(self).ethertype_spec() == old(self).ethertype_spec(),
    ;
}

/// The listeners that declared one EtherType, in registration order.
pub struct ListenerGroup<L> {
    pub ethertype: u16,
    pub members: Vec<L>,
}

/// The listeners of `s` that declared `et`, in order.
pub open spec fn spec_listeners_of<L: EthernetListener>(s: Seq<L>, et: u16) -> Seq<L>
    decreases s.len(),
{
    if s.len() == 0 {
        Seq::empty()
    } else if s.last().ethertype_spec() == et {
        spec_listeners_of(s.drop_last(), et).push(s.last())
    } else {
        spec_listeners_of(s.drop_last(), et)
    }
}

/// The members of the group of `et`, or empty when no group declared `et`.
pub open spec fn spec_group_members<L>(s: Seq<ListenerGroup<L>>, et: u16) -> Seq<L>
    decreases s.len(),
{
    if s.len() == 0 {
        Seq::empty()
    } else if s.last().ethertype == et {
        s.last().members@
    } else {
        spec_group_members(s.drop_last(), et)
    }
}

/// No two groups share an EtherType.
pub open spec fn groups_keys_unique<L>(s: Seq<ListenerGroup<L>>) -> bool {
    forall|i: int, j: int| 0 <= i < j < s.len() ==> s[i].ethertype != s[j].ethertype
}

proof fn lemma_group_members_at<L>(s: Seq<ListenerGroup<L>>, i: int)
    requires
        groups_keys_unique(s),
        0 <= i < s.len(),
    ensures
        spec_group_members(s, s[i].ethertype) == s[i].members@,
    decreases s.len(),
{
    if i < s.len() - 1 {
        lemma_group_members_at(s.drop_last(), i);
        assert(s.drop_last()[i] == s[i]);
    }
}

proof fn lemma_group_members_absent<L>(s: Seq<ListenerGroup<L>>, et: u16)
    requires
        forall|i: int| 0 <= i < s.len() ==> s[i].ethertype != et,
    ensures
        spec_group_members(s, et) == Seq::<L>::empty(),
    decreases s.len(),
{
    if s.len() > 0 {
        assert forall|i: int| 0 <= i < s.drop_last().len() implies s.drop_last()[i].ethertype
            != et by {
            assert(s.drop_last()[i] == s[i]);
        }
        lemma_group_members_absent(s.drop_last(), et);
    }
}

proof fn lemma_group_members_update<L>(s: Seq<ListenerGroup<L>>, i: int, g: ListenerGroup<L>)
    requires
        groups_keys_unique(s),
        0 <= i < s.len(),
        g.ethertype == s[i].ethertype,
    ensures
        spec_group_members(s.update(i, g), g.ethertype) == g.members@,
        forall|et: u16|
            et != g.ethertype ==> #[trigger] spec_group_members(s.update(i, g), et)
                == spec_group_members(s, et),
        groups_keys_unique(s.update(i, g)),
    decreases s.len(),
{
    if i == s.len() - 1 {
        assert(s.update(i, g).drop_last() =~= s.drop_last());
        assert(s.update(i, g).last() == g);
        assert forall|et: u16| et != g.ethertype implies #[trigger] spec_group_members(
            s.update(i, g),
            et,
        ) == spec_group_members(s, et) by {
            assert(spec_group_members(s.update(i, g), et) == spec_group_members(
                s.drop_last(),
                et,
            ));
            assert(spec_group_members(s, et) == spec_group_members(s.drop_last(), et));
        }
    } else {
        lemma_group_members_update(s.drop_last(), i, g);
        assert(s.update(i, g).drop_last() =~= s.drop_last().update(i, g));
        assert(s.update(i, g).last() == s.last());
        assert forall|et: u16| et != g.ethertype implies #[trigger] spec_group_members(
            s.update(i, g),
            et,
        ) == spec_group_members(s, et) by {
            if s.last().ethertype != et {
                assert(spec_group_members(s.update(i, g), et) == spec_group_members(
                    s.drop_last().update(i, g),
                    et,
                ));
                assert(spec_group_members(s, et) == spec_group_members(s.drop_last(), et));
            }
        }
    }
}

proof fn lemma_group_members_push<L>(s: Seq<ListenerGroup<L>>, g: ListenerGroup<L>)
    requires
        groups_keys_unique(s),
        forall|i: int| 0 <= i < s.len() ==> s[i].ethertype != g.ethertype,
    ensures
        spec_group_members(s.push(g), g.ethertype) == g.members@,
        forall|et: u16|
            et != g.ethertype ==> #[trigger] spec_group_members(s.push(g), et)
                == spec_group_members(s, et),
        groups_keys_unique(s.push(g)),
{
    assert(s.push(g).drop_last() =~= s);
}

proof fn lemma_group_members_len<L>(s1: Seq<ListenerGroup<L>>, s2: Seq<ListenerGroup<L>>, et: u16)
    requires
        s1.len() == s2.len(),
        forall|j: int|
            0 <= j < s1.len() ==> (#[trigger] s1[j]).ethertype == s2[j].ethertype
                && s1[j].members@.len() == s2[j].members@.len(),
    ensures
        spec_group_members(s1, et).len() == spec_group_members(s2, et).len(),
    decreases s1.len(),
{
    if s1.len() > 0 {
        assert(s1[s1.len() - 1].ethertype == s2[s2.len() - 1].ethertype);
        assert forall|j: int| 0 <= j < s1.drop_last().len() implies (#[trigger] s1.drop_last()[
            j
        ]).ethertype == s2.drop_last()[j].ethertype && s1.drop_last()[j].members@.len()
            == s2.drop_last()[j].members@.len() by {
            assert(s1.drop_last()[j] == s1[j]);
            assert(s2.drop_last()[j] == s2[j]);
        }
        lemma_group_members_len(s1.drop_last(), s2.drop_last(), et);
    }
}

proof fn lemma_group_members_declare<L: EthernetListener>(s: Seq<ListenerGroup<L>>, et: u16, k: int)
    requires
        forall|i: int, m: int|
            0 <= i < s.len() && 0 <= m < s[i].members@.len() ==> (#[trigger] s[i].members@[
                m
            ]).ethertype_spec() == s[i].ethertype,
        0 <= k < spec_group_members(s, et).len(),
    ensures
        spec_group_members(s, et)[k].ethertype_spec() == et,
    decreases s.len(),
{
    if s.len() > 0 {
        if s.last().ethertype == et {
            assert(s[s.len() - 1] == s.last());
        } else {
            assert forall|i: int, m: int|
                0 <= i < s.drop_last().len() && 0 <= m < s.drop_last()[i].members@.len() implies (
            #[trigger] s.drop_last()[i].members@[m]).ethertype_spec() == s.drop_last()[
                i
            ].ethertype by {
                assert(s.drop_last()[i] == s[i]);
            }
            lemma_group_members_declare(s.drop_last(), et, k);
        }
    }
}

/// Receiver and demultiplexer of Ethernet frames: parses each received
/// frame and hands it to the listeners registered for its EtherType.
pub struct EthernetRx<L: EthernetListener> {
    pub groups: Vec<ListenerGroup<L>>,
}

/// The index of the group that declared `et`, when one exists.
fn find_group<L: EthernetListener>(groups: &Vec<ListenerGroup<L>>, et: u16) -> (r: Option<usize>)
    ensures
        match r {
            Some(i) => i < groups@.len() && groups@[i as int].ethertype == et,
            None => forall|j: int| 0 <= j < groups@.len() ==> groups@[j].ethertype != et,
        },
{
    let n = groups.len();
    let mut i: usize = 0;
    while i < n
        invariant
            n == groups@.len(),
            0 <= i <= n,
            forall|j: int| 0 <= j < i ==> groups@[j].ethertype != et,
        decreases n - i,
    {
        if groups[i].ethertype == et {
            return Some(i);
        }
        i = i + 1;
    }
    None
}

impl<L: EthernetListener> EthernetRx<L> {
    /// Well-formedness: group keys are unique and every member declared its
    /// group's EtherType.
    pub open spec fn wf(self) -> bool {
        &&& groups_keys_unique(self.groups@)
        &&& forall|i: int, k: int|
            0 <= i < self.groups@.len() && 0 <= k < self.groups@[i].members@.len()
                ==> (#[trigger] self.groups@[i].members@[k]).ethertype_spec()
                == self.groups@[i].ethertype
    }

    /// The listeners a frame of EtherType `et` would be delivered to, in
    /// registration order.
    pub open spec fn listeners_for(self, et: u16) -> Seq<L> {
        spec_group_members(self.groups@, et)
    }

    /// Builds a receiver from the listeners, grouping them by their declared
    /// EtherType and keeping registration order within each group.
    pub fn new(listeners: Vec<L>) -> (r: EthernetRx<L>)
        ensures
            r.wf(),
            forall|et: u16| #[trigger] r.listeners_for(et) == spec_listeners_of(listeners@, et),
    {
        let ghost all = listeners@;
        let mut rest = listeners;
        let total = rest.len();
        let mut rx = EthernetRx { groups: Vec::new() };
        let mut done: usize = 0;
        proof {
            assert forall|et: u16| #[trigger]
                spec_group_members(rx.groups@, et) == spec_listeners_of(
                    all.subrange(0, 0),
                    et,
                ) by {
                assert(spec_listeners_of(all.subrange(0, 0), et) =~= Seq::<L>::empty());
            }
        }
        while rest.len() > 0
            invariant
                all.len() == total,
                done + rest@.len() == all.len(),
                rest@ =~= all.subrange(done as int, all.len() as int),
                rx.wf(),
                forall|et: u16| #[trigger]
                    spec_group_members(rx.groups@, et) == spec_listeners_of(
                        all.subrange(0, done as int),
                        et,
                    ),
            decreases rest@.len(),
        {
            let l = rest.remove(0);
            let et = l.get_ethertype();
            let ghost prefix = all.subrange(0, done as int);
            let ghost prefix1 = all.subrange(0, done as int + 1);
            proof {
                assert(l == all[done as int]);
                assert(rest@ =~= all.subrange(done as int + 1, all.len() as int));
                assert(prefix1.drop_last() =~= prefix);
                assert(prefix1.last() == l);
            }
            let ghost groups0 = rx.groups@;
            match find_group(&rx.groups, et) {
                Some(i) => {
                    proof {
                        lemma_group_members_at(groups0, i as int);
                    }
                    rx.groups[i].members.push(l);
                    proof {
                        lemma_group_members_update(groups0, i as int, rx.groups@[i as int]);
                    }
                },
                None => {
                    proof {
                        lemma_group_members_absent(groups0, et);
                    }
                    let mut members: Vec<L> = Vec::new();
                    members.push(l);
                    let group = ListenerGroup { ethertype: et, members };
                    proof {
                        lemma_group_members_push(groups0, group);
                    }
                    rx.groups.push(group);
                },
            }
            done = done + 1;
            proof {
                assert forall|et2: u16| #[trigger]
                    spec_group_members(rx.groups@, et2) == spec_listeners_of(prefix1, et2) by {
                    if et2 == et {
                        assert(spec_listeners_of(prefix1, et2) == spec_listeners_of(
                            prefix,
                            et2,
                        ).push(l));
                    } else {
                        assert(spec_listeners_of(prefix1, et2) == spec_listeners_of(prefix, et2));
                    }
                }
            }
        }
        proof {
            assert(all.subrange(0, done as int) =~= all);
        }
        rx
    }

    /// Receives one raw frame: parses it and delivers it, in registration
    /// order, to every listener of its EtherType. A malformed frame or one
    /// without listeners is dropped and reported as such; listener errors do
    /// not stop delivery to the remaining listeners.
    pub fn recv(&mut self, time: u64, bytes: &Vec<u8>) -> (r: RxResult)
        requires
            old(self).wf(),
        ensures
            final(self).wf(),
            forall|et: u16| #[trigger]
                final(self).listeners_for(et).len() == old(self).listeners_for(et).len(),
            match r {
                Ok(_) => {
                    &&& spec_parse_frame(bytes@) is Some
                    &&& old(self).listeners_for(spec_parse_frame(bytes@)->Some_0.2).len() > 0
                },
                Err(RxError::Parse) => spec_parse_frame(bytes@) is None && *final(self) == *old(
                    self,
                ),
                Err(RxError::NoListener) => {
                    &&& spec_parse_frame(bytes@) is Some
                    &&& old(self).listeners_for(spec_parse_frame(bytes@)->Some_0.2).len() == 0
                    &&& *final(self) == *old(self)
                },
            },
    {
        let frame = match parse_frame(bytes) {
            Some(f) => f,
            None => {
                return Err(RxError::Parse);
            },
        };
        let ghost groups0 = self.groups@;
        match find_group(&self.groups, frame.ethertype) {
            Some(i) => {
                proof {
                    lemma_group_members_at(groups0, i as int);
                }
                let m = self.groups[i].members.len();
                let mut k: usize = 0;
                while k < m
                    invariant
                        0 <= k <= m,
                        k == 0 ==> self == old(self),
                        0 <= i < self.groups@.len(),
                        self.wf(),
                        self.groups@.len() == groups0.len(),
                        m == self.groups@[i as int].members@.len(),
                        self.groups@[i as int].ethertype == frame.ethertype,
                        forall|j: int|
                            0 <= j < groups0.len() ==> (#[trigger] self.groups@[j]).ethertype
                                == groups0[j].ethertype && self.groups@[j].members@.len()
                                == groups0[j].members@.len(),
                    decreases m - k,
                {
                    let _ = self.groups[i].members[k].recv(time, &frame);
                    k = k + 1;
                }
                proof {
                    assert forall|et: u16| #[trigger]
                        spec_group_members(self.groups@, et).len() == spec_group_members(
                            groups0,
                            et,
                        ).len() by {
                        lemma_group_members_len(self.groups@, groups0, et);
                    }
                }
                if m > 0 {
                    Ok(())
                } else {
                    Err(RxError::NoListener)
                }
            },
            None => {
                proof {
                    lemma_group_members_absent(groups0, frame.ethertype);
                }
                Err(RxError::NoListener)
            },
        }
    }
}

/// Law: every listener that a frame of EtherType `et` would be delivered to
/// had declared exactly `et`.
pub proof fn lemma_delivery_matches_declaration<L: EthernetListener>(
    rx: EthernetRx<L>,
    et: u16,
    k: int,
)
    requires
        rx.wf(),
        0 <= k < rx.listeners_for(et).len(),
    ensures
        rx.listeners_for(et)[k].ethertype_spec() == et,
{
    lemma_group_members_declare(rx.groups@, et, k);
}

/// Law: a frame serialized from (dst, src, ethertype, payload) and taken
/// back in through ingress parses to exactly those fields, and every
/// listener the receiver would hand it to declared its EtherType. Since
/// `EthernetRx::recv` hands its listeners precisely the result of
/// `parse_frame` on the wire bytes, each such listener observes identical
/// fields.
pub proof fn lemma_ingress_observes_fields<L: EthernetListener>(
    rx: EthernetRx<L>,
    dst: MacAddr,
    src: MacAddr,
    ethertype: u16,
    payload: Seq<u8>,
    k: int,
)
    requires
        rx.wf(),
        0 <= k < rx.listeners_for(ethertype).len(),
    ensures
        spec_parse_frame(spec_frame_bytes(dst, src, ethertype, payload)) == Some(
            (dst, src, ethertype, payload),
        ),
        rx.listeners_for(ethertype)[k].ethertype_spec() == ethertype,
{
    crate::ethernet::lemma_frame_round_trip(dst, src, ethertype, payload);
    lemma_group_members_declare(rx.groups@, ethertype, k);
}

} // verus!
