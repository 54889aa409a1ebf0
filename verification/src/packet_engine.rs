//! The packet engine: it routes the packets of the cell model and of the
//! ports by the routing table, keeps a buffer of waiting packets per port and
//! sends one packet at a time on a port until the other side answers. What it
//! sends, and to whom, is decided here; the channels and threads belong to the
//! program around it.
use vstd::prelude::*;

use crate::config::PortNo;
use crate::ec_message::MsgType;
use crate::ec_message_formats::{CmToPePacket, PeToCmPacket, PortToPePacket};
use crate::name::CellID;
use crate::packet::{Packet, PacketV};
use crate::port::PortStatus;
use crate::routing_table::{distinct_uuids, has_entry, RoutingTable};
use crate::routing_table_entry::RoutingTableEntry;
use crate::utility::{port_bit, ports_selected, Mask};
use crate::uuid_ec::{AitState, Uuid, NORMAL};
use crate::config::MAX_PORTS;

verus! {

/// How many packets of a message were sent and how many were seen.
#[derive(Debug, Copy, Clone)]
pub struct NumberOfPackets {
    sent: usize,
    recd: usize,
}

impl NumberOfPackets {
    pub closed spec fn spec_sent(&self) -> usize {
        self.sent
    }

    pub closed spec fn spec_recd(&self) -> usize {
        self.recd
    }

    pub fn new() -> (n: NumberOfPackets)
        ensures
            n.spec_sent() == 0,
            n.spec_recd() == 0,
    {
        NumberOfPackets { sent: 0, recd: 0 }
    }

    pub fn _get_number_sent(&self) -> (n: usize)
        ensures
            n == self.spec_sent(),
    {
        self.sent
    }

    pub fn get_number_seen(&self) -> (n: usize)
        ensures
            n == self.spec_recd(),
    {
        self.recd
    }
}

#[derive(Debug)]
pub enum PacketEngineError {
    Ait { func_name: &'static str, ait_state: AitState },
    Chain { func_name: &'static str, comment: String },
    Sender { func_name: &'static str, cell_id: CellID, port_no: u8 },
    Uuid { func_name: &'static str, cell_id: CellID, msg_type: MsgType, table_uuid: Uuid, packet_uuid: Uuid },
}

/// One slot per port number, port 0 (the cell itself) included.
pub const MAX_SLOTS: usize = 10;

/// What the packet engine hands on: to the cell model, or a packet to a port.
#[derive(Debug)]
pub enum PeAction {
    ToCm(PeToCmPacket),
    ToPort((PortNo, Packet)),
}

/// An action as plain values.
pub enum PeActV {
    Cm(PortNo, PacketV),
    Status(PortNo, bool, NumberOfPackets, PortStatus),
    Port(PortNo, PacketV),
}

pub open spec fn act_view(a: PeAction) -> PeActV {
    match a {
        PeAction::ToCm(PeToCmPacket::Packet((n, p))) => PeActV::Cm(n, p@),
        PeAction::ToCm(PeToCmPacket::Status((n, b, c, st))) => PeActV::Status(n, b, c, st),
        PeAction::ToPort((n, p)) => PeActV::Port(n, p@),
    }
}

pub open spec fn acts_view(s: Seq<PeAction>) -> Seq<PeActV> {
    s.map_values(|a: PeAction| act_view(a))
}

/// The packets of each port's buffer, as plain values.
pub open spec fn bufs_view(b: Seq<Vec<Packet>>) -> Seq<Seq<PacketV>> {
    b.map_values(|v: Vec<Packet>| v@.map_values(|p: Packet| p@))
}

/// The packet engine's state as plain values, one slot per port number:
/// whether the port may send, the number of packets received since the port
/// last sent one, the number sent since it last received one, the packets
/// sent, the packets waiting to be sent, the port that takes over a broken
/// port's traffic (port 0 for none), and the routing table's entries.
pub struct PeView {
    pub may_send: Seq<bool>,
    pub seen: Seq<usize>,
    pub sent_count: Seq<usize>,
    pub sent: Seq<Seq<PacketV>>,
    pub out: Seq<Seq<PacketV>>,
    pub reroute: Seq<PortNo>,
    pub entries: Seq<RoutingTableEntry>,
}

/// The slots are there for every port number, the ports they name are in
/// range, and the routing table has one entry per tree, each with a parent
/// port in range.
pub open spec fn view_wf(s: PeView) -> bool {
    &&& s.may_send.len() == MAX_SLOTS
    &&& s.seen.len() == MAX_SLOTS
    &&& s.sent_count.len() == MAX_SLOTS
    &&& s.sent.len() == MAX_SLOTS
    &&& s.out.len() == MAX_SLOTS
    &&& s.reroute.len() == MAX_SLOTS
    &&& forall|p: int| 0 <= p < MAX_SLOTS ==> (#[trigger] s.reroute[p]).0 < MAX_SLOTS
    &&& distinct_uuids(s.entries)
    &&& forall|i: int| 0 <= i < s.entries.len() ==> (#[trigger] s.entries[i]).spec_parent().0 < MAX_SLOTS
}

/// Room in every port's counts for the sends and receives of one step.
pub open spec fn counts_room(s: PeView) -> bool {
    &&& forall|p: int| 0 <= p < MAX_SLOTS ==> #[trigger] s.sent_count[p] < usize::MAX - 16
    &&& forall|p: int| 0 <= p < MAX_SLOTS ==> #[trigger] s.seen[p] < usize::MAX
}

/// The port that a packet for the port goes to: the port itself, or the
/// port that takes over its traffic.
pub open spec fn send_target(s: PeView, port: int) -> int {
    if s.reroute[port].0 == 0 {
        port
    } else {
        s.reroute[port].0 as int
    }
}

/// A rerouted port's waiting packets are copied to the end of the new
/// port's buffer when a packet is sent on it.
pub open spec fn merged(s: PeView, port: int) -> PeView {
    if s.reroute[port].0 != 0 && s.out[port].len() > 0 {
        let t = send_target(s, port);
        PeView { out: s.out.update(t, s.out[t] + s.out[port]), ..s }
    } else {
        s
    }
}

/// Sending a packet on a port: it goes to the port's target, where there is
/// a channel for it. Gives the new state, the actions, and whether it went.
pub open spec fn send_spec(s: PeView, n: usize, port: int, pv: PacketV) -> (PeView, Seq<PeActV>, bool) {
    let t = send_target(s, port);
    if t < n {
        (merged(s, port), seq![PeActV::Port(PortNo(t as u8), pv)], true)
    } else {
        (merged(s, port), Seq::empty(), false)
    }
}

/// Flow control on a port: where the port may send and has a waiting
/// packet, the first one is taken out and sent, the port may not send until
/// the other side answers, the packet is kept among those sent and counted,
/// and the count of packets received since the port last sent one starts
/// again.
pub open spec fn flow_spec(s: PeView, n: usize, port: int) -> (PeView, Seq<PeActV>, bool) {
    if s.may_send[port] && s.out[port].len() > 0 {
        let pv = s.out[port][0];
        let s1 = PeView { out: s.out.update(port, s.out[port].drop_first()), may_send: s.may_send.update(port, false), ..s };
        let (s2, a, ok) = send_spec(s1, n, port, pv);
        if ok {
            (
                PeView {
                    sent: s2.sent.update(port, s2.sent[port].push(pv)),
                    sent_count: s2.sent_count.update(port, (s2.sent_count[port] + 1) as usize),
                    seen: s2.seen.update(port, 0usize),
                    ..s2
                },
                a,
                true,
            )
        } else {
            (s2, a, false)
        }
    } else {
        (s, Seq::empty(), true)
    }
}

/// A packet added at the end of a port's buffer.
pub open spec fn enqueue(s: PeView, port: int, pv: PacketV) -> PeView {
    PeView { out: s.out.update(port, s.out[port].push(pv)), ..s }
}

proof fn lemma_bufs_update(b: Seq<Vec<Packet>>, i: int, v: Vec<Packet>)
    requires
        0 <= i < b.len(),
    ensures
        bufs_view(b.update(i, v)) == bufs_view(b).update(i, v@.map_values(|p: Packet| p@)),
{
    assert(bufs_view(b.update(i, v)) =~= bufs_view(b).update(i, v@.map_values(|p: Packet| p@)));
}

/// Adds a packet at the end of a buffer.
fn push_back(bufs: &mut Vec<Vec<Packet>>, i: usize, p: Packet)
    requires
        i < old(bufs)@.len(),
    ensures
        final(bufs)@.len() == old(bufs)@.len(),
        bufs_view(final(bufs)@) == bufs_view(old(bufs)@).update(i as int, bufs_view(old(bufs)@)[i as int].push(p@)),
{
    let ghost b0 = bufs@;
    let mut b = bufs.remove(i);
    let ghost v0 = b;
    b.push(p);
    bufs.insert(i, b);
    proof {
        assert(bufs@ =~= b0.update(i as int, b));
        lemma_bufs_update(b0, i as int, b);
        assert(b@.map_values(|q: Packet| q@) =~= v0@.map_values(|q: Packet| q@).push(p@));
    }
}

/// Takes the first packet out of a buffer, if there is one.
fn pop_front(bufs: &mut Vec<Vec<Packet>>, i: usize) -> (r: Option<Packet>)
    requires
        i < old(bufs)@.len(),
    ensures
        final(bufs)@.len() == old(bufs)@.len(),
        bufs_view(old(bufs)@)[i as int].len() == 0 ==> r is None && bufs_view(final(bufs)@) == bufs_view(old(bufs)@),
        bufs_view(old(bufs)@)[i as int].len() > 0 ==> (r matches Some(p) && p@ == bufs_view(old(bufs)@)[i as int][0]
            && bufs_view(final(bufs)@) == bufs_view(old(bufs)@).update(i as int, bufs_view(old(bufs)@)[i as int].drop_first())),
{
    if bufs[i].len() == 0 {
        return None;
    }
    let ghost b0 = bufs@;
    let mut b = bufs.remove(i);
    let ghost v0 = b;
    let p = b.remove(0);
    bufs.insert(i, b);
    proof {
        assert(bufs@ =~= b0.update(i as int, b));
        lemma_bufs_update(b0, i as int, b);
        assert(b@.map_values(|q: Packet| q@) =~= v0@.map_values(|q: Packet| q@).drop_first());
    }
    Some(p)
}

/// Copies the packets of one buffer to the end of another.
fn append_copy(bufs: &mut Vec<Vec<Packet>>, from: usize, to: usize)
    requires
        from < old(bufs)@.len(),
        to < old(bufs)@.len(),
    ensures
        final(bufs)@.len() == old(bufs)@.len(),
        bufs_view(final(bufs)@) == bufs_view(old(bufs)@).update(
            to as int,
            bufs_view(old(bufs)@)[to as int] + bufs_view(old(bufs)@)[from as int],
        ),
{
    let ghost b0 = bufs@;
    let mut copies: Vec<Packet> = Vec::new();
    let mut k: usize = 0;
    while k < bufs[from].len()
        invariant
            bufs@ == b0,
            from < b0.len(),
            k <= b0[from as int]@.len(),
            copies@.map_values(|q: Packet| q@) == b0[from as int]@.map_values(|q: Packet| q@).take(k as int),
        decreases b0[from as int]@.len() - k,
    {
        let c = bufs[from][k].clone();
        let ghost before = copies@;
        copies.push(c);
        proof {
            assert(copies@.map_values(|q: Packet| q@) =~= before.map_values(|q: Packet| q@).push(c@));
            assert(b0[from as int]@.map_values(|q: Packet| q@).take(k + 1) =~= b0[from as int]@.map_values(|q: Packet| q@).take(
                k as int,
            ).push(b0[from as int]@[k as int]@));
        }
        k = k + 1;
    }
    proof {
        assert(b0[from as int]@.map_values(|q: Packet| q@).take(k as int) =~= b0[from as int]@.map_values(|q: Packet| q@));
    }
    let mut b = bufs.remove(to);
    let ghost v0 = b;
    b.append(&mut copies);
    bufs.insert(to, b);
    proof {
        assert(bufs@ =~= b0.update(to as int, b));
        lemma_bufs_update(b0, to as int, b);
        assert(b@.map_values(|q: Packet| q@) =~= v0@.map_values(|q: Packet| q@) + bufs_view(b0)[from as int]);
    }
}


/// The entry for the tree in the table, if there is one.
pub open spec fn table_entry(entries: Seq<RoutingTableEntry>, uuid: Uuid) -> Option<RoutingTableEntry> {
    if has_entry(entries, uuid) {
        Some(entries[choose|i: int| 0 <= i < entries.len() && (#[trigger] entries[i]).spec_uuid() == uuid])
    } else {
        None
    }
}

/// The UUID a packet's tree is looked up by: its AIT state and port byte
/// are dropped.
pub open spec fn lookup_uuid(u: Uuid) -> Uuid {
    Uuid::spec_from_parts(NORMAL, 0, u.spec_rest())
}

/// Sending a packet directly on each of the ports in turn, until one of
/// them has no channel.
pub open spec fn direct_spec(s: PeView, n: usize, ps: Seq<PortNo>, pv: PacketV) -> (PeView, Seq<PeActV>, bool)
    decreases ps.len(),
{
    if ps.len() == 0 {
        (s, Seq::empty(), true)
    } else {
        let (s1, a1, ok1) = direct_spec(s, n, ps.drop_last(), pv);
        if !ok1 {
            (s1, a1, false)
        } else {
            let (s2, a2, ok2) = send_spec(s1, n, ps.last().0 as int, pv);
            (s2, a1 + a2, ok2)
        }
    }
}

/// Sending a packet leafward on each of the ports in turn: port 0 hands it
/// to the cell model with the arrival port; another port adds it to its
/// buffer and sends what flow control lets it send; until a port has no
/// channel.
pub open spec fn leafward_spec(s: PeView, n: usize, recv: PortNo, ps: Seq<PortNo>, pv: PacketV) -> (
    PeView,
    Seq<PeActV>,
    bool,
)
    decreases ps.len(),
{
    if ps.len() == 0 {
        (s, Seq::empty(), true)
    } else {
        let (s1, a1, ok1) = leafward_spec(s, n, recv, ps.drop_last(), pv);
        let port = ps.last().0 as int;
        if !ok1 {
            (s1, a1, false)
        } else if port == 0 {
            (s1, a1.push(PeActV::Cm(recv, pv)), true)
        } else {
            let (s2, a2, ok2) = flow_spec(enqueue(s1, port, pv), n, port);
            (s2, a1 + a2, ok2)
        }
    }
}

/// Forwarding a packet that came in on `recv` by its tree's entry: a packet
/// of the connected tree goes straight to the ports of the user mask and
/// the entry's mask; a packet that did not come from the parent goes
/// rootward, to the cell model where the parent is port 0 and else to the
/// parent's buffer; a packet from the parent goes leafward to the ports of
/// the user mask and the entry's mask.
pub open spec fn forward_spec(s: PeView, n: usize, connected: Uuid, recv: PortNo, e: RoutingTableEntry, user_mask: u16,
    pv: PacketV) -> (PeView, Seq<PeActV>, bool) {
    let ps = ports_selected(user_mask & e.spec_mask(), MAX_PORTS as nat);
    let parent = e.spec_parent().0 as int;
    if lookup_uuid(pv.0) == connected {
        direct_spec(s, n, ps, pv)
    } else if recv != e.spec_parent() {
        if parent == 0 {
            (s, seq![PeActV::Cm(recv, pv)], true)
        } else {
            flow_spec(enqueue(s, parent, pv), n, parent)
        }
    } else {
        leafward_spec(s, n, recv, ps, pv)
    }
}

/// How a step of the packet engine ends.
pub enum PeOutcome {
    Done,
    NoSender,
    Refused(AitState),
    NoEntry,
}

/// The result that goes with an outcome.
pub open spec fn outcome_of(o: PeOutcome, func_name: &'static str, r: Result<(), PacketEngineError>) -> bool {
    match o {
        PeOutcome::Done => r is Ok,
        PeOutcome::NoSender => r matches Err(PacketEngineError::Sender { func_name: f, .. }) && f == "send_packet",
        PeOutcome::Refused(st) => r matches Err(PacketEngineError::Ait { func_name: f, ait_state }) && f == func_name
            && ait_state == st,
        PeOutcome::NoEntry => r matches Err(PacketEngineError::Chain { func_name: f, .. }) && f == func_name,
    }
}

/// A packet that came in on a port: the port may send again, the packet is
/// counted as received and the count of packets sent since the port last
/// received one starts again; an AIT packet goes to the cell model; a normal
/// packet of a tree with no entry goes to the cell model, one of a tree in
/// use is forwarded and then the port sends what flow control lets it send;
/// a packet in another AIT state lets the port send and is refused.
pub open spec fn process_spec(s: PeView, n: usize, connected: Uuid, port: PortNo, pv: PacketV) -> (
    PeView,
    Seq<PeActV>,
    PeOutcome,
) {
    let p = port.0 as int;
    let s0 = PeView {
        may_send: s.may_send.update(p, true),
        seen: s.seen.update(p, (s.seen[p] + 1) as usize),
        sent_count: s.sent_count.update(p, 0usize),
        ..s
    };
    let st = pv.0.spec_ait_state();
    if st == AitState::Ait {
        (s0, seq![PeActV::Cm(port, pv)], PeOutcome::Done)
    } else if st == AitState::Normal {
        match table_entry(s.entries, lookup_uuid(pv.0)) {
            None => (s0, seq![PeActV::Cm(port, pv)], PeOutcome::Done),
            Some(e) => if !e.spec_inuse() {
                (s0, Seq::empty(), PeOutcome::Done)
            } else {
                let (s1, a1, ok1) = forward_spec(s0, n, connected, port, e, e.spec_mask(), pv);
                if !ok1 {
                    (s1, a1, PeOutcome::NoSender)
                } else {
                    let (s2, a2, ok2) = flow_spec(s1, n, p);
                    (s2, a1 + a2, if ok2 { PeOutcome::Done } else { PeOutcome::NoSender })
                }
            },
        }
    } else {
        let (s1, a, ok) = flow_spec(s0, n, p);
        (s1, a, if ok { PeOutcome::Refused(st) } else { PeOutcome::NoSender })
    }
}

/// A packet from the cell model, by its tree's entry: a normal or AIT
/// packet is forwarded as come from port 0 with the user mask; a packet of a
/// tree with no entry, or in another AIT state, is refused.
pub open spec fn route_cm_spec(s: PeView, n: usize, connected: Uuid, user_mask: u16, pv: PacketV) -> (
    PeView,
    Seq<PeActV>,
    PeOutcome,
) {
    match table_entry(s.entries, lookup_uuid(pv.0)) {
        None => (s, Seq::empty(), PeOutcome::NoEntry),
        Some(e) => {
            let st = pv.0.spec_ait_state();
            if st == AitState::Normal || st == AitState::Ait {
                let (s1, a, ok) = forward_spec(s, n, connected, PortNo(0), e, user_mask, pv);
                (s1, a, if ok { PeOutcome::Done } else { PeOutcome::NoSender })
            } else {
                (s, Seq::empty(), PeOutcome::Refused(st))
            }
        },
    }
}

/// Rerouting a broken port to a new parent: the broken port's traffic goes
/// to the new parent from now on; the packets it sent that the other side
/// has not seen, and those waiting on it, are added to the new parent's
/// buffer, and the packets sent on it keep only those the other side saw.
pub open spec fn reroute_spec(s: PeView, broken: int, new_parent: PortNo, seen: usize) -> PeView {
    let k = s.sent_count[broken] - seen;
    let remaining = s.sent[broken].subrange(k, s.sent[broken].len() as int);
    PeView {
        reroute: s.reroute.update(broken, new_parent),
        sent: s.sent.update(broken, s.sent[broken].subrange(0, k)),
        out: s.out.update(new_parent.0 as int, s.out[new_parent.0 as int] + remaining + s.out[broken]),
        ..s
    }
}

/// Whether a reroute can be carried out: both ports are in range and the
/// counts fit the packets kept as sent.
pub open spec fn reroute_ok(s: PeView, broken: PortNo, new_parent: PortNo, counts: NumberOfPackets) -> bool {
    &&& broken.0 < MAX_SLOTS
    &&& new_parent.0 < MAX_SLOTS
    &&& counts.spec_recd() <= s.sent_count[broken.0 as int]
    &&& s.sent_count[broken.0 as int] - counts.spec_recd() <= s.sent[broken.0 as int].len()
}

/// The table after an entry is set: the entry of its tree is replaced, or it
/// is added at the end.
pub open spec fn entry_set(before: Seq<RoutingTableEntry>, after: Seq<RoutingTableEntry>, e: RoutingTableEntry) -> bool {
    &&& has_entry(before, e.spec_uuid()) ==> exists|i: int|
        0 <= i < before.len() && before[i].spec_uuid() == e.spec_uuid() && after == before.update(i, e)
    &&& !has_entry(before, e.spec_uuid()) ==> after == before.push(e)
}

/// Setting a routing entry and then looking its tree up gives that entry;
/// every other tree's entry is as it was, and the table still holds one
/// entry per tree.
pub proof fn law_entry_read_after_set(before: Seq<RoutingTableEntry>, after: Seq<RoutingTableEntry>, e: RoutingTableEntry)
    requires
        distinct_uuids(before),
        entry_set(before, after, e),
    ensures
        distinct_uuids(after),
        table_entry(after, e.spec_uuid()) == Some(e),
        forall|u: Uuid| u != e.spec_uuid() ==> #[trigger] table_entry(after, u) == table_entry(before, u),
{
    let u0 = e.spec_uuid();
    let i0 = if has_entry(before, u0) {
        choose|i: int| 0 <= i < before.len() && before[i].spec_uuid() == u0 && after == before.update(i, e)
    } else {
        before.len() as int
    };
    assert(0 <= i0 < after.len() && after[i0] == e);
    assert forall|i: int| 0 <= i < after.len() && i != i0 implies (#[trigger] after[i]) == before[i] by {}
    assert forall|i: int, j: int| 0 <= i < j < after.len() implies after[i].spec_uuid() != after[j].spec_uuid() by {
        if i != i0 && j != i0 {
            assert(after[i] == before[i] && after[j] == before[j]);
        } else if i == i0 {
            assert(after[j] == before[j]);
            if !has_entry(before, u0) {
                assert(j < i0);
            } else {
                assert(before[i0].spec_uuid() == u0);
            }
        } else {
            assert(after[i] == before[i]);
            if has_entry(before, u0) {
                assert(before[i0].spec_uuid() == u0);
            } else {
                assert(before[i].spec_uuid() != u0);
            }
        }
    }
    lemma_table_entry(after, u0, e);
    assert forall|u: Uuid| u != u0 implies #[trigger] table_entry(after, u) == table_entry(before, u) by {
        if has_entry(before, u) {
            let k = choose|k: int| 0 <= k < before.len() && (#[trigger] before[k]).spec_uuid() == u;
            assert(k != i0);
            assert(after[k] == before[k]);
            lemma_table_entry(before, u, before[k]);
            lemma_table_entry(after, u, before[k]);
        } else {
            if has_entry(after, u) {
                let k = choose|k: int| 0 <= k < after.len() && (#[trigger] after[k]).spec_uuid() == u;
                assert(k != i0);
                assert(after[k] == before[k]);
                assert(false);
            }
        }
    }
}

/// The ports a mask selects are below the bound and at most that many.
proof fn lemma_ports_selected(m: u16, n: nat)
    ensures
        ports_selected(m, n).len() <= n,
        forall|i: int| 0 <= i < ports_selected(m, n).len() ==> (#[trigger] ports_selected(m, n)[i]).0 < n,
    decreases n,
{
    if n > 0 {
        lemma_ports_selected(m, (n - 1) as nat);
    }
}

/// The entry that the table lookup found is the one `table_entry` names.
proof fn lemma_table_entry(entries: Seq<RoutingTableEntry>, uuid: Uuid, e: RoutingTableEntry)
    requires
        distinct_uuids(entries),
        exists|i: int| 0 <= i < entries.len() && entries[i] == e && e.spec_uuid() == uuid,
    ensures
        table_entry(entries, uuid) == Some(e),
{
    let i = choose|i: int| 0 <= i < entries.len() && entries[i] == e && e.spec_uuid() == uuid;
    assert(has_entry(entries, uuid));
    let j = choose|j: int| 0 <= j < entries.len() && (#[trigger] entries[j]).spec_uuid() == uuid;
    assert(i == j);
}

/// Flow control: once a port has sent a packet, flow control sends no other
/// on it; a packet that comes in on the port lets it send again (an AIT
/// packet, which goes to the cell model, leaves it so).
pub proof fn law_one_packet_in_flight(s: PeView, n: usize, connected: Uuid, port: PortNo, pv: PacketV)
    requires
        view_wf(s),
        port.0 < MAX_SLOTS,
        flow_spec(s, n, port.0 as int).1.len() > 0,
    ensures
        flow_spec(flow_spec(s, n, port.0 as int).0, n, port.0 as int).1.len() == 0,
        pv.0.spec_ait_state() == AitState::Ait ==> process_spec(
            flow_spec(s, n, port.0 as int).0,
            n,
            connected,
            port,
            pv,
        ).0.may_send[port.0 as int],
{
    let p = port.0 as int;
    let s1 = PeView { out: s.out.update(p, s.out[p].drop_first()), may_send: s.may_send.update(p, false), ..s };
    assert(merged(s1, p).may_send == s1.may_send);
}

/// A mask that selects port 0 lists port 0 first among its ports.
proof fn lemma_port0_selected_first(m: u16, n: nat)
    requires
        port_bit(m, 0),
        n >= 1,
    ensures
        ports_selected(m, n).len() >= 1,
        ports_selected(m, n)[0] == PortNo(0),
    decreases n,
{
    let prev = ports_selected(m, (n - 1) as nat);
    if n > 1 {
        lemma_port0_selected_first(m, (n - 1) as nat);
        assert(prev.push(PortNo((n - 1) as u8))[0] == prev[0]);
    } else {
        assert(prev == Seq::<PortNo>::empty());
        assert(prev.push(PortNo(0))[0] == PortNo(0));
    }
}

/// Sending leafward on ports that start with port 0 hands the packet to
/// the cell model, with its arrival port, before anything else.
proof fn lemma_leafward_port0_first(s: PeView, n: usize, recv: PortNo, ps: Seq<PortNo>, pv: PacketV)
    requires
        ps.len() >= 1,
        ps[0].0 == 0,
    ensures
        leafward_spec(s, n, recv, ps, pv).1.len() >= 1,
        leafward_spec(s, n, recv, ps, pv).1[0] == PeActV::Cm(recv, pv),
    decreases ps.len(),
{
    let (s1, a1, ok1) = leafward_spec(s, n, recv, ps.drop_last(), pv);
    let port = ps.last().0 as int;
    if ps.len() > 1 {
        lemma_leafward_port0_first(s, n, recv, ps.drop_last(), pv);
        assert(a1[0] == PeActV::Cm(recv, pv));
        if ok1 && port != 0 {
            let (s2, a2, ok2) = flow_spec(enqueue(s1, port, pv), n, port);
            assert((a1 + a2)[0] == a1[0]);
        }
    } else {
        assert(ps.drop_last().len() == 0);
        assert(a1 == Seq::<PeActV>::empty() && ok1);
        assert(port == 0);
        assert(a1.push(PeActV::Cm(recv, pv))[0] == PeActV::Cm(recv, pv));
    }
}

/// The ports a mask selects below a bound are those whose bits are set,
/// each once, in increasing order.
proof fn lemma_ports_selected_members(m: u16, n: nat)
    requires
        n <= 16,
    ensures
        forall|q: int|
            0 <= q < 16 ==> (#[trigger] ports_selected(m, n).contains(PortNo(q as u8)) <==> (q < n && port_bit(m, q as u16))),
        forall|i: int, j: int|
            0 <= i < j < ports_selected(m, n).len() ==> (#[trigger] ports_selected(m, n)[i]).0 < (
            #[trigger] ports_selected(m, n)[j]).0,
        forall|i: int| 0 <= i < ports_selected(m, n).len() ==> (#[trigger] ports_selected(m, n)[i]).0 < n,
    decreases n,
{
    if n > 0 {
        let prev = ports_selected(m, (n - 1) as nat);
        lemma_ports_selected_members(m, (n - 1) as nat);
        let last = PortNo((n - 1) as u8);
        if port_bit(m, (n - 1) as u16) {
            let ps = prev.push(last);
            assert forall|q: int| 0 <= q < 16 implies (#[trigger] ps.contains(PortNo(q as u8)) <==> (q < n && port_bit(m, q as u16))) by {
                if ps.contains(PortNo(q as u8)) {
                    let i = choose|i: int| 0 <= i < ps.len() && ps[i] == PortNo(q as u8);
                    if i < prev.len() {
                        assert(prev[i] == ps[i]);
                        assert(prev.contains(PortNo(q as u8)));
                    }
                }
                if q < n && port_bit(m, q as u16) {
                    if q == n - 1 {
                        assert(ps[prev.len() as int] == last);
                    } else {
                        assert(prev.contains(PortNo(q as u8)));
                        let i = choose|i: int| 0 <= i < prev.len() && prev[i] == PortNo(q as u8);
                        assert(ps[i] == prev[i]);
                    }
                }
            }
            assert forall|i: int, j: int| 0 <= i < j < ps.len() implies (#[trigger] ps[i]).0 < (#[trigger] ps[j]).0 by {
                assert(ps[i] == prev[i]);
                if j < prev.len() {
                    assert(ps[j] == prev[j]);
                }
            }
        }
    }
}

/// A packet added to a port's buffer, with flow control run on the port,
/// where the port is not rerouted and has a channel: the port's packets
/// sent and waiting gain the packet at the end, every other port's stay as
/// they were, and whatever is sent goes on that port.
proof fn lemma_flow_after_enqueue(s: PeView, n: usize, p: int, pv: PacketV)
    requires
        0 <= p < MAX_SLOTS,
        s.may_send.len() == MAX_SLOTS,
        s.seen.len() == MAX_SLOTS,
        s.sent_count.len() == MAX_SLOTS,
        s.sent.len() == MAX_SLOTS,
        s.out.len() == MAX_SLOTS,
        s.reroute.len() == MAX_SLOTS,
        s.reroute[p].0 == 0,
        p < n,
    ensures
        ({
            let (s2, a, ok) = flow_spec(enqueue(s, p, pv), n, p);
            &&& ok
            &&& s2.may_send.len() == MAX_SLOTS
            &&& s2.seen.len() == MAX_SLOTS
            &&& s2.sent_count.len() == MAX_SLOTS
            &&& s2.sent.len() == MAX_SLOTS
            &&& s2.out.len() == MAX_SLOTS
            &&& s2.reroute == s.reroute
            &&& s2.sent[p] + s2.out[p] == s.sent[p] + s.out[p].push(pv)
            &&& forall|q: int| 0 <= q < MAX_SLOTS && q != p ==> #[trigger] s2.sent[q] == s.sent[q] && s2.out[q] == s.out[q]
            &&& forall|k: int| 0 <= k < a.len() ==> (#[trigger] a[k] matches PeActV::Port(q, _) && q.0 == p)
        }),
{
    let s1 = enqueue(s, p, pv);
    if s1.may_send[p] {
        let pv0 = s1.out[p][0];
        let s2 = PeView { out: s1.out.update(p, s1.out[p].drop_first()), may_send: s1.may_send.update(p, false), ..s1 };
        assert(send_target(s2, p) == p);
        assert(merged(s2, p) == s2);
        assert(s.sent[p].push(pv0) + s1.out[p].drop_first() =~= s.sent[p] + s.out[p].push(pv));
    } else {
        assert(s.sent[p] + s1.out[p] =~= s.sent[p] + s.out[p].push(pv));
    }
}

/// Sending leafward on distinct ports, in increasing order, that are not
/// rerouted and have channels: each of them but port 0 gains the packet
/// after its own, every other port keeps its packets, and all goes.
proof fn lemma_leafward_spread(s: PeView, n: usize, recv: PortNo, ps: Seq<PortNo>, pv: PacketV)
    requires
        s.may_send.len() == MAX_SLOTS,
        s.seen.len() == MAX_SLOTS,
        s.sent_count.len() == MAX_SLOTS,
        s.sent.len() == MAX_SLOTS,
        s.out.len() == MAX_SLOTS,
        s.reroute.len() == MAX_SLOTS,
        forall|i: int| 0 <= i < ps.len() ==> (#[trigger] ps[i]).0 < MAX_SLOTS && (ps[i].0 != 0 ==> ps[i].0 < n && s.reroute[ps[i].0 as int].0 == 0),
        forall|i: int, j: int| 0 <= i < j < ps.len() ==> (#[trigger] ps[i]).0 < (#[trigger] ps[j]).0,
    ensures
        ({
            let (s2, a, ok) = leafward_spec(s, n, recv, ps, pv);
            &&& ok
            &&& s2.may_send.len() == MAX_SLOTS
            &&& s2.seen.len() == MAX_SLOTS
            &&& s2.sent_count.len() == MAX_SLOTS
            &&& s2.sent.len() == MAX_SLOTS
            &&& s2.out.len() == MAX_SLOTS
            &&& s2.reroute == s.reroute
            &&& forall|q: int|
                0 <= q < MAX_SLOTS ==> #[trigger] s2.sent[q] + s2.out[q] == if q != 0 && ps.contains(PortNo(q as u8)) {
                    s.sent[q] + s.out[q].push(pv)
                } else {
                    s.sent[q] + s.out[q]
                }
        }),
    decreases ps.len(),
{
    if ps.len() > 0 {
        let init = ps.drop_last();
        let last = ps.last();
        assert(ps[ps.len() - 1] == last);
        assert forall|i: int| 0 <= i < init.len() implies (#[trigger] init[i]).0 < MAX_SLOTS && (init[i].0 != 0 ==> init[i].0 < n
            && s.reroute[init[i].0 as int].0 == 0) by {
            assert(init[i] == ps[i]);
        }
        assert forall|i: int, j: int| 0 <= i < j < init.len() implies (#[trigger] init[i]).0 < (#[trigger] init[j]).0 by {
            assert(init[i] == ps[i] && init[j] == ps[j]);
        }
        lemma_leafward_spread(s, n, recv, init, pv);
        let (s1, a1, ok1) = leafward_spec(s, n, recv, init, pv);
        let port = last.0 as int;
        assert(!init.contains(last)) by {
            if init.contains(last) {
                let i = choose|i: int| 0 <= i < init.len() && init[i] == last;
                assert(ps[i] == init[i]);
                assert(ps[i].0 < ps[ps.len() - 1].0);
            }
        }
        assert forall|q: int| 0 <= q < MAX_SLOTS implies (#[trigger] ps.contains(PortNo(q as u8)) <==> (init.contains(
            PortNo(q as u8),
        ) || q == port)) by {
            if ps.contains(PortNo(q as u8)) {
                let i = choose|i: int| 0 <= i < ps.len() && ps[i] == PortNo(q as u8);
                if i < init.len() {
                    assert(init[i] == ps[i]);
                }
            }
            if init.contains(PortNo(q as u8)) {
                let i = choose|i: int| 0 <= i < init.len() && init[i] == PortNo(q as u8);
                assert(ps[i] == init[i]);
            }
            if q == port {
                assert(PortNo(q as u8) == last);
            }
        }
        if port != 0 {
            lemma_flow_after_enqueue(s1, n, port, pv);
            let (s2, a2, ok2) = flow_spec(enqueue(s1, port, pv), n, port);
            assert forall|q: int| 0 <= q < MAX_SLOTS implies #[trigger] s2.sent[q] + s2.out[q] == if q != 0 && ps.contains(
                PortNo(q as u8),
            ) {
                s.sent[q] + s.out[q].push(pv)
            } else {
                s.sent[q] + s.out[q]
            } by {
                assert(ps.contains(PortNo(q as u8)) <==> (init.contains(PortNo(q as u8)) || q == port));
                assert(s1.sent[q] + s1.out[q] == if q != 0 && init.contains(PortNo(q as u8)) {
                    s.sent[q] + s.out[q].push(pv)
                } else {
                    s.sent[q] + s.out[q]
                });
                if q == port {
                    assert(PortNo(q as u8) == last);
                    assert(s1.sent[q] + s1.out[q].push(pv) =~= (s1.sent[q] + s1.out[q]).push(pv));
                    assert(s.sent[q] + s.out[q].push(pv) =~= (s.sent[q] + s.out[q]).push(pv));
                } else {
                    assert(s2.sent[q] == s1.sent[q] && s2.out[q] == s1.out[q]);
                }
            }
        } else {
            assert forall|q: int| 0 <= q < MAX_SLOTS implies #[trigger] s1.sent[q] + s1.out[q] == if q != 0 && ps.contains(
                PortNo(q as u8),
            ) {
                s.sent[q] + s.out[q].push(pv)
            } else {
                s.sent[q] + s.out[q]
            } by {
                assert(ps.contains(PortNo(q as u8)) <==> (init.contains(PortNo(q as u8)) || q == port));
            }
        }
    } else {
        assert forall|q: int| 0 <= q < MAX_SLOTS implies !#[trigger] ps.contains(PortNo(q as u8)) by {}
    }
}

/// A packet of a tree that comes in from the tree's parent goes leafward:
/// every child port that both the entry's mask and the user mask select
/// gets the packet after those it already has (sent or waiting), and no
/// other port gets anything (where the child ports are not rerouted and
/// have channels).
pub proof fn law_leafward_to_children(s: PeView, n: usize, connected: Uuid, recv: PortNo, e: RoutingTableEntry,
    user_mask: u16, pv: PacketV)
    requires
        view_wf(s),
        lookup_uuid(pv.0) != connected,
        recv == e.spec_parent(),
        forall|q: int|
            1 <= q < MAX_PORTS && #[trigger] port_bit(user_mask & e.spec_mask(), q as u16) ==> q < n && s.reroute[q].0 == 0,
    ensures
        ({
            let (s2, a, ok) = forward_spec(s, n, connected, recv, e, user_mask, pv);
            &&& ok
            &&& forall|q: int|
                0 <= q < MAX_SLOTS ==> #[trigger] s2.sent[q] + s2.out[q] == if 1 <= q < MAX_PORTS && port_bit(
                    user_mask & e.spec_mask(),
                    q as u16,
                ) {
                    s.sent[q] + s.out[q].push(pv)
                } else {
                    s.sent[q] + s.out[q]
                }
        }),
{
    let m = user_mask & e.spec_mask();
    let ps = ports_selected(m, MAX_PORTS as nat);
    lemma_ports_selected_members(m, MAX_PORTS as nat);
    assert forall|i: int| 0 <= i < ps.len() implies (#[trigger] ps[i]).0 < MAX_SLOTS && (ps[i].0 != 0 ==> ps[i].0 < n
        && s.reroute[ps[i].0 as int].0 == 0) by {
        let q = ps[i].0 as int;
        assert(ps.contains(PortNo(q as u8)));
        assert(port_bit(m, q as u16));
    }
    lemma_leafward_spread(s, n, recv, ps, pv);
    let (s2, a, ok) = leafward_spec(s, n, recv, ps, pv);
    assert forall|q: int| 0 <= q < MAX_SLOTS implies #[trigger] s2.sent[q] + s2.out[q] == if 1 <= q < MAX_PORTS && port_bit(m,
        q as u16) {
        s.sent[q] + s.out[q].push(pv)
    } else {
        s.sent[q] + s.out[q]
    } by {
        if q < 16 {
            assert(ps.contains(PortNo(q as u8)) <==> (q < MAX_PORTS && port_bit(m, q as u16)));
        }
    }
}

/// A packet of a tree that comes in from the tree's parent goes leafward;
/// where the entry's mask and the user mask both select port 0, the cell's
/// own agent is among the receivers: the first thing the packet engine does
/// is hand the packet, with the port it came in on, to the cell model.
pub proof fn law_leafward_reaches_cell(s: PeView, n: usize, connected: Uuid, recv: PortNo, e: RoutingTableEntry,
    user_mask: u16, pv: PacketV)
    requires
        lookup_uuid(pv.0) != connected,
        recv == e.spec_parent(),
        port_bit(user_mask & e.spec_mask(), 0),
    ensures
        forward_spec(s, n, connected, recv, e, user_mask, pv).1.len() >= 1,
        forward_spec(s, n, connected, recv, e, user_mask, pv).1[0] == PeActV::Cm(recv, pv),
{
    let ps = ports_selected(user_mask & e.spec_mask(), MAX_PORTS as nat);
    lemma_port0_selected_first(user_mask & e.spec_mask(), MAX_PORTS as nat);
    lemma_leafward_port0_first(s, n, recv, ps, pv);
}

/// A packet of a tree that comes in from a child goes rootward: at the
/// tree's root (parent port 0) it goes to the cell model with its arrival
/// port and nothing else changes; elsewhere it joins the parent port's
/// packets, after those waiting there, and the only port anything is sent
/// on is the parent (where that port is not rerouted and has a channel).
pub proof fn law_rootward_to_parent(s: PeView, n: usize, connected: Uuid, recv: PortNo, e: RoutingTableEntry,
    user_mask: u16, pv: PacketV)
    requires
        view_wf(s),
        e.spec_parent().0 < MAX_SLOTS,
        lookup_uuid(pv.0) != connected,
        recv != e.spec_parent(),
    ensures
        e.spec_parent().0 == 0 ==> forward_spec(s, n, connected, recv, e, user_mask, pv) == (s, seq![PeActV::Cm(recv, pv)], true),
        ({
            let p = e.spec_parent().0 as int;
            let (s1, a, ok) = forward_spec(s, n, connected, recv, e, user_mask, pv);
            p != 0 && s.reroute[p].0 == 0 && p < n ==> {
                &&& ok
                &&& forall|k: int| 0 <= k < a.len() ==> (#[trigger] a[k] matches PeActV::Port(q, _) && q == e.spec_parent())
                &&& s1.sent[p] + s1.out[p] == s.sent[p] + s.out[p].push(pv)
            }
        }),
{
    let p = e.spec_parent().0 as int;
    if p != 0 && s.reroute[p].0 == 0 && p < n {
        let s1 = enqueue(s, p, pv);
        if s1.may_send[p] {
            let pv0 = s1.out[p][0];
            let s2 = PeView { out: s1.out.update(p, s1.out[p].drop_first()), may_send: s1.may_send.update(p, false), ..s1 };
            assert(send_target(s2, p) == p);
            assert(merged(s2, p) == s2);
            assert(s.sent[p].push(pv0) + s1.out[p].drop_first() =~= s.sent[p] + s.out[p].push(pv));
        }
    }
}

/// Sending directly on ports that are not rerouted and have channels sends
/// the packet on each of them, in order, and changes nothing else.
proof fn lemma_direct_plain(s: PeView, n: usize, ps: Seq<PortNo>, pv: PacketV)
    requires
        view_wf(s),
        forall|i: int| 0 <= i < ps.len() ==> (#[trigger] ps[i]).0 < n && ps[i].0 < MAX_SLOTS && s.reroute[ps[i].0 as int].0 == 0,
    ensures
        direct_spec(s, n, ps, pv) == (s, ps.map_values(|q: PortNo| PeActV::Port(q, pv)), true),
    decreases ps.len(),
{
    if ps.len() > 0 {
        let init = ps.drop_last();
        assert forall|i: int| 0 <= i < init.len() implies (#[trigger] init[i]).0 < n && init[i].0 < MAX_SLOTS
            && s.reroute[init[i].0 as int].0 == 0 by {
            assert(init[i] == ps[i]);
        }
        lemma_direct_plain(s, n, init, pv);
        let last = ps.last();
        assert(ps[ps.len() - 1] == last);
        assert(merged(s, last.0 as int) == s);
        assert(PortNo((last.0 as int) as u8) == last);
        assert(init.map_values(|q: PortNo| PeActV::Port(q, pv)) + seq![PeActV::Port(last, pv)] =~= ps.map_values(
            |q: PortNo| PeActV::Port(q, pv),
        ));
    } else {
        assert(ps.map_values(|q: PortNo| PeActV::Port(q, pv)) =~= Seq::<PeActV>::empty());
    }
}

/// A packet of the connected-ports tree is not held back by flow control:
/// it is sent at once on each port that both the user mask and the entry's
/// mask select, in increasing order, and nowhere else (where those ports
/// are not rerouted and have channels).
pub proof fn law_connected_tree_sent_directly(s: PeView, n: usize, connected: Uuid, recv: PortNo, e: RoutingTableEntry,
    user_mask: u16, pv: PacketV)
    requires
        view_wf(s),
        lookup_uuid(pv.0) == connected,
        forall|i: int|
            0 <= i < ports_selected(user_mask & e.spec_mask(), MAX_PORTS as nat).len() ==> (#[trigger] ports_selected(
                user_mask & e.spec_mask(),
                MAX_PORTS as nat,
            )[i]).0 < n && s.reroute[ports_selected(user_mask & e.spec_mask(), MAX_PORTS as nat)[i].0 as int].0 == 0,
    ensures
        forward_spec(s, n, connected, recv, e, user_mask, pv) == (
            s,
            ports_selected(user_mask & e.spec_mask(), MAX_PORTS as nat).map_values(|q: PortNo| PeActV::Port(q, pv)),
            true,
        ),
{
    let ps = ports_selected(user_mask & e.spec_mask(), MAX_PORTS as nat);
    lemma_ports_selected(user_mask & e.spec_mask(), MAX_PORTS as nat);
    assert forall|i: int| 0 <= i < ps.len() implies (#[trigger] ps[i]).0 < n && ps[i].0 < MAX_SLOTS && s.reroute[ps[i].0 as int].0
        == 0 by {
        assert(ps[i].0 < MAX_PORTS);
    }
    lemma_direct_plain(s, n, ps, pv);
}

/// Rerouting a broken port loses no packet and duplicates none: the new
/// parent keeps the packets it had waiting, first, and what follows them,
/// after the packets the broken port keeps as sent, is every packet the
/// broken port had sent or had waiting, in order. The broken port's traffic
/// goes to the new parent from then on.
pub proof fn law_reroute_loses_nothing(s: PeView, broken: PortNo, new_parent: PortNo, seen: usize)
    requires
        view_wf(s),
        broken.0 < MAX_SLOTS,
        new_parent.0 < MAX_SLOTS,
        new_parent != broken,
        seen <= s.sent_count[broken.0 as int],
        s.sent_count[broken.0 as int] - seen <= s.sent[broken.0 as int].len(),
    ensures
        ({
            let b = broken.0 as int;
            let np = new_parent.0 as int;
            let s2 = reroute_spec(s, b, new_parent, seen);
            &&& s2.reroute[b] == new_parent
            &&& s2.out[np].take(s.out[np].len() as int) == s.out[np]
            &&& s2.sent[b] + s2.out[np].skip(s.out[np].len() as int) == s.sent[b] + s.out[b]
            &&& s2.out[b] == s.out[b]
        }),
{
    let b = broken.0 as int;
    let np = new_parent.0 as int;
    let k = s.sent_count[b] - seen;
    let remaining = s.sent[b].subrange(k, s.sent[b].len() as int);
    let s2 = reroute_spec(s, b, new_parent, seen);
    assert(s2.out[np] == s.out[np] + remaining + s.out[b]);
    assert(s2.out[np].take(s.out[np].len() as int) =~= s.out[np]);
    assert(s2.out[np].skip(s.out[np].len() as int) =~= remaining + s.out[b]);
    assert(s.sent[b].subrange(0, k) + (remaining + s.out[b]) =~= s.sent[b] + s.out[b]);
}

/// An AIT packet that comes in on a port goes to the cell model with that
/// port and nowhere else, whatever the routing table says; so does a
/// normal packet of a tree the table has no entry for. Either way the port
/// may send again.
pub proof fn law_unrouted_packets_to_cell(s: PeView, n: usize, connected: Uuid, port: PortNo, pv: PacketV)
    requires
        view_wf(s),
        port.0 < MAX_SLOTS,
        pv.0.spec_ait_state() == AitState::Ait || (pv.0.spec_ait_state() == AitState::Normal && table_entry(
            s.entries,
            lookup_uuid(pv.0),
        ) is None),
    ensures
        process_spec(s, n, connected, port, pv).1 == seq![PeActV::Cm(port, pv)],
        process_spec(s, n, connected, port, pv).2 == PeOutcome::Done,
        process_spec(s, n, connected, port, pv).0.may_send[port.0 as int],
        process_spec(s, n, connected, port, pv).0.out == s.out,
        process_spec(s, n, connected, port, pv).0.sent == s.sent,
{
}

#[derive(Debug)]
pub struct PacketEngine {
    cell_id: CellID,
    connected_tree_uuid: Uuid,
    border_port_nos: Vec<PortNo>,
    routing_table: RoutingTable,
    no_seen_packets: Vec<usize>,
    no_sent_packets: Vec<usize>,
    sent_packets: Vec<Vec<Packet>>,
    out_buffers: Vec<Vec<Packet>>,
    port_got_event: Vec<bool>,
    reroute: Vec<PortNo>,
    no_port_senders: usize,
}

impl View for PacketEngine {
    type V = PeView;

    closed spec fn view(&self) -> PeView {
        PeView {
            may_send: self.port_got_event@,
            seen: self.no_seen_packets@,
            sent_count: self.no_sent_packets@,
            sent: bufs_view(self.sent_packets@),
            out: bufs_view(self.out_buffers@),
            reroute: self.reroute@,
            entries: self.routing_table.spec_entries(),
        }
    }
}

fn slots<T: Copy>(v: T) -> (r: Vec<T>)
    ensures
        r@ == Seq::new(MAX_SLOTS as nat, |i: int| v),
{
    let mut r: Vec<T> = Vec::new();
    let mut i: usize = 0;
    while i < MAX_SLOTS
        invariant
            i <= MAX_SLOTS,
            r@ == Seq::new(i as nat, |k: int| v),
        decreases MAX_SLOTS - i,
    {
        r.push(v);
        i = i + 1;
        assert(r@ =~= Seq::new(i as nat, |k: int| v));
    }
    r
}

fn empty_bufs() -> (r: Vec<Vec<Packet>>)
    ensures
        r@.len() == MAX_SLOTS,
        bufs_view(r@) == Seq::new(MAX_SLOTS as nat, |i: int| Seq::<PacketV>::empty()),
{
    let mut r: Vec<Vec<Packet>> = Vec::new();
    let mut i: usize = 0;
    while i < MAX_SLOTS
        invariant
            i <= MAX_SLOTS,
            r@.len() == i,
            forall|k: int| 0 <= k < i ==> (#[trigger] r@[k])@.len() == 0,
        decreases MAX_SLOTS - i,
    {
        r.push(Vec::new());
        i = i + 1;
    }
    assert forall|k: int| 0 <= k < MAX_SLOTS implies #[trigger] bufs_view(r@)[k] == Seq::<PacketV>::empty() by {
        assert(r@[k]@.map_values(|p: Packet| p@) =~= Seq::<PacketV>::empty());
    }
    assert(bufs_view(r@) =~= Seq::new(MAX_SLOTS as nat, |i: int| Seq::<PacketV>::empty()));
    r
}

impl PacketEngine {
    pub closed spec fn spec_cell_id(&self) -> CellID {
        self.cell_id
    }

    pub closed spec fn spec_connected_tree_uuid(&self) -> Uuid {
        self.connected_tree_uuid
    }

    /// How many ports there are channels for.
    pub closed spec fn spec_senders(&self) -> usize {
        self.no_port_senders
    }

    pub closed spec fn spec_border_ports(&self) -> Seq<PortNo> {
        self.border_port_nos@
    }

    pub open spec fn wf(&self) -> bool {
        view_wf(self@)
    }

    /// Whether the engine is well formed, and the stable parts are as before.
    pub open spec fn same_setup(&self, other: &PacketEngine) -> bool {
        &&& self.spec_cell_id() == other.spec_cell_id()
        &&& self.spec_connected_tree_uuid() == other.spec_connected_tree_uuid()
        &&& self.spec_senders() == other.spec_senders()
        &&& self.spec_border_ports() == other.spec_border_ports()
    }

    /// A packet engine with an empty routing table and empty buffers, with
    /// channels to `no_port_senders` ports; no port may send yet.
    pub fn new(cell_id: CellID, connected_tree_uuid: Uuid, no_port_senders: usize, border_port_nos: &Vec<PortNo>) -> (r:
        Result<PacketEngine, PacketEngineError>)
        ensures
            r matches Ok(pe) && {
                &&& pe.wf()
                &&& pe.spec_cell_id() == cell_id
                &&& pe.spec_connected_tree_uuid() == connected_tree_uuid
                &&& pe.spec_senders() == no_port_senders
                &&& pe.spec_border_ports() == border_port_nos@
                &&& pe@.may_send == Seq::new(MAX_SLOTS as nat, |i: int| false)
                &&& pe@.sent_count == Seq::new(MAX_SLOTS as nat, |i: int| 0usize)
                &&& pe@.out == Seq::new(MAX_SLOTS as nat, |i: int| Seq::<PacketV>::empty())
                &&& pe@.sent == Seq::new(MAX_SLOTS as nat, |i: int| Seq::<PacketV>::empty())
                &&& pe@.reroute == Seq::new(MAX_SLOTS as nat, |i: int| PortNo(0))
                &&& pe@.entries == Seq::<RoutingTableEntry>::empty()
            },
    {
        let routing_table = match RoutingTable::new(cell_id.clone()) {
            Ok(t) => t,
            Err(_) => {
                return Err(PacketEngineError::Chain { func_name: "new", comment: String::new() });
            },
        };
        let mut borders: Vec<PortNo> = Vec::new();
        let mut i: usize = 0;
        while i < border_port_nos.len()
            invariant
                i <= border_port_nos@.len(),
                borders@ == border_port_nos@.take(i as int),
            decreases border_port_nos@.len() - i,
        {
            borders.push(border_port_nos[i]);
            i = i + 1;
            assert(borders@ =~= border_port_nos@.take(i as int));
        }
        assert(border_port_nos@.take(border_port_nos@.len() as int) =~= border_port_nos@);
        Ok(
            PacketEngine {
                cell_id,
                connected_tree_uuid,
                border_port_nos: borders,
                routing_table,
                no_seen_packets: slots(0usize),
                no_sent_packets: slots(0usize),
                sent_packets: empty_bufs(),
                out_buffers: empty_bufs(),
                port_got_event: slots(false),
                reroute: slots(PortNo(0)),
                no_port_senders,
            },
        )
    }

    pub fn get_cell_id(&self) -> (c: &CellID)
        ensures
            *c == self.spec_cell_id(),
    {
        &self.cell_id
    }

    /// Whether every port's counts have room for one step.
    pub fn has_room(&self) -> (b: bool)
        requires
            self.wf(),
        ensures
            b == counts_room(self@),
    {
        let mut i: usize = 0;
        while i < MAX_SLOTS
            invariant
                self.wf(),
                i <= MAX_SLOTS,
                forall|p: int| 0 <= p < i ==> #[trigger] self@.sent_count[p] < usize::MAX - 16,
                forall|p: int| 0 <= p < i ==> #[trigger] self@.seen[p] < usize::MAX,
            decreases MAX_SLOTS - i,
        {
            if self.no_sent_packets[i] >= usize::MAX - 16 || self.no_seen_packets[i] == usize::MAX {
                return false;
            }
            i = i + 1;
        }
        true
    }

    /// Sends a packet on a port, or on the port that took over its traffic,
    /// copying the broken port's waiting packets there.
    fn send_packet(&mut self, port: usize, packet: &Packet, out: &mut Vec<PeAction>) -> (r: Result<(), PacketEngineError>)
        requires
            old(self).wf(),
            port < MAX_SLOTS,
        ensures
            final(self).wf(),
            final(self).same_setup(old(self)),
            ({
                let (s, a, ok) = send_spec(old(self)@, old(self).spec_senders(), port as int, packet@);
                &&& final(self)@ == s
                &&& acts_view(final(out)@) == acts_view(old(out)@) + a
                &&& ok <==> r is Ok
            }),
            r matches Err(e) ==> (e matches PacketEngineError::Sender { func_name, .. } && func_name == "send_packet"),
    {
        let ghost s0 = self@;
        let rr = self.reroute[port].0;
        let target: usize = if rr == 0 {
            port
        } else {
            rr as usize
        };
        if rr != 0 && self.out_buffers[port].len() > 0 {
            append_copy(&mut self.out_buffers, port, target);
        }
        proof {
            assert(self@ == merged(s0, port as int));
        }
        if target < self.no_port_senders {
            let ghost o0 = out@;
            let c = packet.clone();
            out.push(PeAction::ToPort((PortNo(target as u8), c)));
            proof {
                assert(c@ == packet@);
                assert(acts_view(out@) =~= acts_view(o0) + seq![PeActV::Port(PortNo(target as u8), packet@)]);
            }
            Ok(())
        } else {
            proof {
                assert(acts_view(out@) =~= acts_view(out@) + Seq::<PeActV>::empty());
            }
            Err(PacketEngineError::Sender { func_name: "send_packet", cell_id: self.cell_id.clone(), port_no: target as u8 })
        }
    }

    /// Sends the first waiting packet on the port where the port may send.
    fn send_packet_flow_control(&mut self, port: usize, out: &mut Vec<PeAction>) -> (r: Result<(), PacketEngineError>)
        requires
            old(self).wf(),
            port < MAX_SLOTS,
            old(self)@.sent_count[port as int] < usize::MAX,
        ensures
            final(self).wf(),
            final(self).same_setup(old(self)),
            ({
                let (s, a, ok) = flow_spec(old(self)@, old(self).spec_senders(), port as int);
                &&& final(self)@ == s
                &&& acts_view(final(out)@) == acts_view(old(out)@) + a
                &&& ok <==> r is Ok
            }),
            r matches Err(e) ==> (e matches PacketEngineError::Sender { func_name, .. } && func_name == "send_packet"),
            forall|p: int| 0 <= p < MAX_SLOTS ==> old(self)@.sent_count[p] <= #[trigger] final(self)@.sent_count[p]
                <= old(self)@.sent_count[p] + 1,
    {
        let ghost s0 = self@;
        if self.port_got_event[port] {
            match pop_front(&mut self.out_buffers, port) {
                Some(packet) => {
                    self.port_got_event.set(port, false);
                    let ghost s1 = self@;
                    proof {
                        assert(s1 == PeView {
                            out: s0.out.update(port as int, s0.out[port as int].drop_first()),
                            may_send: s0.may_send.update(port as int, false),
                            ..s0
                        });
                    }
                    let ghost o0 = out@;
                    match self.send_packet(port, &packet, out) {
                        Ok(()) => {},
                        Err(e) => {
                            return Err(e);
                        },
                    }
                    let ghost s2 = self@;
                    push_back(&mut self.sent_packets, port, packet);
                    let c = self.no_sent_packets[port];
                    self.no_sent_packets.set(port, c + 1);
                    self.no_seen_packets.set(port, 0);
                    proof {
                        assert(self@ == PeView {
                            sent: s2.sent.update(port as int, s2.sent[port as int].push(packet@)),
                            sent_count: s2.sent_count.update(port as int, (s2.sent_count[port as int] + 1) as usize),
                            seen: s2.seen.update(port as int, 0usize),
                            ..s2
                        });
                    }
                    Ok(())
                },
                None => {
                    proof {
                        assert(acts_view(out@) =~= acts_view(out@) + Seq::<PeActV>::empty());
                    }
                    Ok(())
                },
            }
        } else {
            proof {
                assert(acts_view(out@) =~= acts_view(out@) + Seq::<PeActV>::empty());
            }
            Ok(())
        }
    }
}

proof fn lemma_direct_stuck(s: PeView, n: usize, ps: Seq<PortNo>, pv: PacketV, k: int)
    requires
        0 <= k <= ps.len(),
        !direct_spec(s, n, ps.take(k), pv).2,
    ensures
        direct_spec(s, n, ps, pv) == direct_spec(s, n, ps.take(k), pv),
    decreases ps.len() - k,
{
    if k < ps.len() {
        assert(ps.take(k + 1).drop_last() =~= ps.take(k));
        lemma_direct_stuck(s, n, ps, pv, k + 1);
    } else {
        assert(ps.take(k) =~= ps);
    }
}

proof fn lemma_leafward_stuck(s: PeView, n: usize, recv: PortNo, ps: Seq<PortNo>, pv: PacketV, k: int)
    requires
        0 <= k <= ps.len(),
        !leafward_spec(s, n, recv, ps.take(k), pv).2,
    ensures
        leafward_spec(s, n, recv, ps, pv) == leafward_spec(s, n, recv, ps.take(k), pv),
    decreases ps.len() - k,
{
    if k < ps.len() {
        assert(ps.take(k + 1).drop_last() =~= ps.take(k));
        lemma_leafward_stuck(s, n, recv, ps, pv, k + 1);
    } else {
        assert(ps.take(k) =~= ps);
    }
}

/// The counts of sent packets grew by at most `k` on each port.
pub open spec fn counts_within(before: PeView, after: PeView, k: int) -> bool {
    forall|p: int| 0 <= p < MAX_SLOTS ==> before.sent_count[p] <= #[trigger] after.sent_count[p] <= before.sent_count[p] + k
}

impl PacketEngine {
    /// The UUID a packet's tree is looked up by.
    fn lookup_of(packet: &Packet) -> (u: Uuid)
        ensures
            u == lookup_uuid(packet.spec_uuid()),
    {
        let mut u = packet.get_tree_uuid();
        u.make_normal();
        proof {
            Uuid::lemma_parts(u, NORMAL, 0, packet.spec_uuid().spec_rest());
        }
        u
    }

    /// Forwards a packet that came in on `recv` by its tree's entry: see
    /// `forward_spec`.
    #[verifier::rlimit(30)]
    fn forward(&mut self, recv: PortNo, entry: RoutingTableEntry, user_mask: Mask, packet: &Packet, out: &mut Vec<PeAction>) -> (r:
        Result<(), PacketEngineError>)
        requires
            old(self).wf(),
            recv.0 < MAX_SLOTS,
            entry.spec_parent().0 < MAX_SLOTS,
            forall|p: int| 0 <= p < MAX_SLOTS ==> #[trigger] old(self)@.sent_count[p] < usize::MAX - 9,
        ensures
            final(self).wf(),
            final(self).same_setup(old(self)),
            ({
                let (s, a, ok) = forward_spec(
                    old(self)@,
                    old(self).spec_senders(),
                    old(self).spec_connected_tree_uuid(),
                    recv,
                    entry,
                    user_mask@,
                    packet@,
                );
                &&& final(self)@ == s
                &&& acts_view(final(out)@) == acts_view(old(out)@) + a
                &&& ok <==> r is Ok
            }),
            r matches Err(e) ==> (e matches PacketEngineError::Sender { func_name, .. } && func_name == "send_packet"),
            counts_within(old(self)@, final(self)@, 8),
    {
        let ghost s0 = self@;
        let ghost o0 = out@;
        let ghost n = self.no_port_senders;
        let ghost pv = packet@;
        let mask = user_mask.and(entry.get_mask());
        let ports = mask.get_port_nos();
        proof {
            lemma_ports_selected(mask@, MAX_PORTS as nat);
        }
        if Self::lookup_of(packet) == self.connected_tree_uuid {
            let mut i: usize = 0;
            proof {
                assert(ports@.take(0) =~= Seq::<PortNo>::empty());
                assert(acts_view(out@) =~= acts_view(o0) + Seq::<PeActV>::empty());
            }
            while i < ports.len()
                invariant
                    self.wf(),
                    self.same_setup(old(self)),
                    n == self.spec_senders(),
                    s0 == old(self)@,
                    o0 == old(out)@,
                    lookup_uuid(pv.0) == old(self).spec_connected_tree_uuid(),
                    ports@ == ports_selected(user_mask@ & entry.spec_mask(), MAX_PORTS as nat),
                    pv == packet@,
                    i <= ports@.len(),
                    ports@.len() <= MAX_PORTS,
                    forall|k: int| 0 <= k < ports@.len() ==> (#[trigger] ports@[k]).0 < MAX_PORTS,
                    self@.sent_count == s0.sent_count,
                    ({
                        let (sx, ax, okx) = direct_spec(s0, n, ports@.take(i as int), pv);
                        &&& sx == self@
                        &&& acts_view(out@) == acts_view(o0) + ax
                        &&& okx
                    }),
                decreases ports@.len() - i,
            {
                let port = ports[i].0 as usize;
                let ghost o1 = out@;
                let r = self.send_packet(port, packet, out);
                proof {
                    assert(ports@.take(i + 1).drop_last() =~= ports@.take(i as int));
                    assert(ports@.take(i + 1).last() == ports@[i as int]);
                    let (sx, ax, okx) = direct_spec(s0, n, ports@.take(i as int), pv);
                    let (s2, a2, ok2) = send_spec(sx, n, port as int, pv);
                    assert(acts_view(o1) == acts_view(o0) + ax);
                    assert(acts_view(out@) == acts_view(o1) + a2);
                    assert(acts_view(o0) + ax + a2 =~= acts_view(o0) + (ax + a2));
                }
                match r {
                    Ok(()) => {},
                    Err(e) => {
                        proof {
                            let (sx, ax, okx) = direct_spec(s0, n, ports@.take(i as int), pv);
                            let (s2, a2, ok2) = send_spec(sx, n, port as int, pv);
                            assert(!ok2);
                            assert(direct_spec(s0, n, ports@.take(i + 1), pv) == (s2, ax + a2, false));
                            lemma_direct_stuck(s0, n, ports@, pv, i + 1);
                        }
                        return Err(e);
                    },
                }
                i = i + 1;
            }
            proof {
                assert(ports@.take(ports@.len() as int) =~= ports@);
            }
            Ok(())
        } else if recv != entry.get_parent() {
            let parent = entry.get_parent();
            if parent.0 == 0 {
                let c = packet.clone();
                assert(c@ == pv);
                out.push(PeAction::ToCm(PeToCmPacket::Packet((recv, c))));
                proof {
                    assert(acts_view(out@) =~= acts_view(o0) + seq![PeActV::Cm(recv, pv)]);
                }
                Ok(())
            } else {
                let c = packet.clone();
                assert(c@ == pv);
                push_back(&mut self.out_buffers, parent.0 as usize, c);
                proof {
                    assert(self@ == enqueue(s0, parent.0 as int, pv));
                }
                self.send_packet_flow_control(parent.0 as usize, out)
            }
        } else {
            let mut i: usize = 0;
            proof {
                assert(ports@.take(0) =~= Seq::<PortNo>::empty());
                assert(acts_view(out@) =~= acts_view(o0) + Seq::<PeActV>::empty());
            }
            while i < ports.len()
                invariant
                    self.wf(),
                    self.same_setup(old(self)),
                    n == self.spec_senders(),
                    s0 == old(self)@,
                    o0 == old(out)@,
                    lookup_uuid(pv.0) != old(self).spec_connected_tree_uuid(),
                    recv == entry.spec_parent(),
                    ports@ == ports_selected(user_mask@ & entry.spec_mask(), MAX_PORTS as nat),
                    pv == packet@,
                    i <= ports@.len(),
                    ports@.len() <= MAX_PORTS,
                    forall|k: int| 0 <= k < ports@.len() ==> (#[trigger] ports@[k]).0 < MAX_PORTS,
                    s0.sent_count.len() == MAX_SLOTS,
                    forall|p: int| 0 <= p < MAX_SLOTS ==> #[trigger] s0.sent_count[p] < usize::MAX - 9,
                    counts_within(s0, self@, i as int),
                    ({
                        let (sx, ax, okx) = leafward_spec(s0, n, recv, ports@.take(i as int), pv);
                        &&& sx == self@
                        &&& acts_view(out@) == acts_view(o0) + ax
                        &&& okx
                    }),
                decreases ports@.len() - i,
            {
                let port = ports[i];
                let ghost sx = self@;
                proof {
                    assert(ports@.take(i + 1).drop_last() =~= ports@.take(i as int));
                    assert(ports@.take(i + 1).last() == port);
                }
                if port.0 == 0 {
                    let ghost o1 = out@;
                    let c = packet.clone();
                    assert(c@ == pv);
                    out.push(PeAction::ToCm(PeToCmPacket::Packet((recv, c))));
                    proof {
                        let (sy, ay, oky) = leafward_spec(s0, n, recv, ports@.take(i as int), pv);
                        assert(acts_view(out@) =~= acts_view(o1).push(PeActV::Cm(recv, pv)));
                        assert(acts_view(out@) =~= acts_view(o0) + ay.push(PeActV::Cm(recv, pv)));
                    }
                } else {
                    let c = packet.clone();
                    assert(c@ == pv);
                    push_back(&mut self.out_buffers, port.0 as usize, c);
                    proof {
                        assert(self@ == enqueue(sx, port.0 as int, pv));
                    }
                    let ghost o1 = out@;
                    let r = self.send_packet_flow_control(port.0 as usize, out);
                    proof {
                        let (sy, ay, oky) = leafward_spec(s0, n, recv, ports@.take(i as int), pv);
                        let (s2, a2, ok2) = flow_spec(enqueue(sy, port.0 as int, pv), n, port.0 as int);
                        assert(acts_view(o1) == acts_view(o0) + ay);
                        assert(acts_view(out@) == acts_view(o1) + a2);
                        assert(acts_view(o0) + ay + a2 =~= acts_view(o0) + (ay + a2));
                    }
                    match r {
                        Ok(()) => {},
                        Err(e) => {
                            proof {
                                let (sy, ay, oky) = leafward_spec(s0, n, recv, ports@.take(i as int), pv);
                                let (s2, a2, ok2) = flow_spec(enqueue(sy, port.0 as int, pv), n, port.0 as int);
                                assert(!ok2);
                                assert(leafward_spec(s0, n, recv, ports@.take(i + 1), pv) == (s2, ay + a2, false));
                                lemma_leafward_stuck(s0, n, recv, ports@, pv, i + 1);
                            }
                            return Err(e);
                        },
                    }
                }
                i = i + 1;
            }
            proof {
                assert(ports@.take(ports@.len() as int) =~= ports@);
            }
            Ok(())
        }
    }
}

impl PacketEngine {
    /// A packet that came in on a port: see `process_spec`.
    #[verifier::rlimit(30)]
    pub fn process_packet(&mut self, port_no: PortNo, packet: Packet, out: &mut Vec<PeAction>) -> (r: Result<
        (),
        PacketEngineError,
    >)
        requires
            old(self).wf(),
            port_no.0 < MAX_SLOTS,
            counts_room(old(self)@),
        ensures
            final(self).wf(),
            final(self).same_setup(old(self)),
            ({
                let (s, a, o) = process_spec(
                    old(self)@,
                    old(self).spec_senders(),
                    old(self).spec_connected_tree_uuid(),
                    port_no,
                    packet@,
                );
                &&& final(self)@ == s
                &&& acts_view(final(out)@) == acts_view(old(out)@) + a
                &&& outcome_of(o, "process_packet", r)
            }),
    {
        let ghost s = self@;
        let ghost o0 = out@;
        let ghost pv = packet@;
        let port = port_no.0 as usize;
        self.port_got_event.set(port, true);
        // The other side answered: the packet is counted as received, and the
        // count of packets sent since the last one received starts again.
        let seen = self.no_seen_packets[port];
        self.no_seen_packets.set(port, seen + 1);
        self.no_sent_packets.set(port, 0);
        let ghost s0 = self@;
        proof {
            assert(s0.seen =~= s.seen.update(port as int, (s.seen[port as int] + 1) as usize));
            assert(s0.sent_count =~= s.sent_count.update(port as int, 0usize));
            assert(s0.may_send =~= s.may_send.update(port as int, true));
        }
        let ait_state = packet.get_ait_state();
        match ait_state {
            AitState::Ait => {
                out.push(PeAction::ToCm(PeToCmPacket::Packet((port_no, packet))));
                proof {
                    assert(acts_view(out@) =~= acts_view(o0) + seq![PeActV::Cm(port_no, pv)]);
                }
                Ok(())
            },
            AitState::Normal => {
                let uuid = Self::lookup_of(&packet);
                match self.routing_table.get_entry(uuid) {
                    Err(_) => {
                        proof {
                            assert(table_entry(s.entries, uuid) is None);
                        }
                        out.push(PeAction::ToCm(PeToCmPacket::Packet((port_no, packet))));
                        proof {
                            assert(acts_view(out@) =~= acts_view(o0) + seq![PeActV::Cm(port_no, pv)]);
                        }
                        Ok(())
                    },
                    Ok(entry) => {
                        proof {
                            lemma_table_entry(s.entries, uuid, entry);
                        }
                        if entry.is_in_use() {
                            let mask = entry.get_mask();
                            proof {
                                assert(s.entries.contains(entry));
                            }
                            match self.forward(port_no, entry, mask, &packet, out) {
                                Ok(()) => {},
                                Err(e) => {
                                    return Err(e);
                                },
                            }
                            let ghost s1 = self@;
                            let ghost o1 = out@;
                            let r = self.send_packet_flow_control(port, out);
                            proof {
                                let (sx, a1, ok1) = forward_spec(s0, self.spec_senders(), self.spec_connected_tree_uuid(),
                                    port_no, entry, entry.spec_mask(), pv);
                                let (s2, a2, ok2) = flow_spec(s1, self.spec_senders(), port as int);
                                assert(acts_view(o0) + a1 + a2 =~= acts_view(o0) + (a1 + a2));
                            }
                            r
                        } else {
                            proof {
                                assert(acts_view(out@) =~= acts_view(o0) + Seq::<PeActV>::empty());
                            }
                            Ok(())
                        }
                    },
                }
            },
            _ => {
                match self.send_packet_flow_control(port, out) {
                    Ok(()) => {},
                    Err(e) => {
                        return Err(e);
                    },
                }
                Err(PacketEngineError::Ait { func_name: "process_packet", ait_state })
            },
        }
    }

    /// A packet from the cell model with the user mask: see `route_cm_spec`.
    pub fn route_cm_packet(&mut self, user_mask: Mask, packet: Packet, out: &mut Vec<PeAction>) -> (r: Result<
        (),
        PacketEngineError,
    >)
        requires
            old(self).wf(),
            counts_room(old(self)@),
        ensures
            final(self).wf(),
            final(self).same_setup(old(self)),
            ({
                let (s, a, o) = route_cm_spec(
                    old(self)@,
                    old(self).spec_senders(),
                    old(self).spec_connected_tree_uuid(),
                    user_mask@,
                    packet@,
                );
                &&& final(self)@ == s
                &&& acts_view(final(out)@) == acts_view(old(out)@) + a
                &&& outcome_of(o, "route_cm_packet", r)
            }),
            counts_within(old(self)@, final(self)@, 8),
    {
        let ghost s = self@;
        let uuid = Self::lookup_of(&packet);
        let entry = match self.routing_table.get_entry(uuid) {
            Ok(e) => e,
            Err(_) => {
                proof {
                    assert(acts_view(out@) =~= acts_view(out@) + Seq::<PeActV>::empty());
                }
                return Err(PacketEngineError::Chain { func_name: "route_cm_packet", comment: String::new() });
            },
        };
        proof {
            lemma_table_entry(s.entries, uuid, entry);
            assert(s.entries.contains(entry));
        }
        let ait_state = packet.get_ait_state();
        match ait_state {
            AitState::Normal | AitState::Ait => self.forward(PortNo(0), entry, user_mask, &packet, out),
            _ => {
                proof {
                    assert(acts_view(out@) =~= acts_view(out@) + Seq::<PeActV>::empty());
                }
                Err(PacketEngineError::Ait { func_name: "route_cm_packet", ait_state })
            },
        }
    }

    /// Whether a reroute can be carried out: see `reroute_ok`.
    pub fn can_reroute(&self, broken: PortNo, new_parent: PortNo, counts: NumberOfPackets) -> (b: bool)
        requires
            self.wf(),
        ensures
            b == reroute_ok(self@, broken, new_parent, counts),
    {
        if broken.0 as usize >= MAX_SLOTS || new_parent.0 as usize >= MAX_SLOTS {
            return false;
        }
        let sent = self.no_sent_packets[broken.0 as usize];
        let seen = counts.get_number_seen();
        seen <= sent && sent - seen <= self.sent_packets[broken.0 as usize].len()
    }

    /// Reroutes a broken port's traffic to a new parent: see `reroute_spec`.
    pub fn reroute_packets(&mut self, broken: PortNo, new_parent: PortNo, counts: NumberOfPackets)
        requires
            old(self).wf(),
            reroute_ok(old(self)@, broken, new_parent, counts),
        ensures
            final(self).wf(),
            final(self).same_setup(old(self)),
            final(self)@ == reroute_spec(old(self)@, broken.0 as int, new_parent, counts.spec_recd()),
    {
        let ghost s = self@;
        let b = broken.0 as usize;
        let np = new_parent.0 as usize;
        self.reroute.set(b, new_parent);
        let no_resend = self.no_sent_packets[b] - counts.get_number_seen();
        let mut sent = self.sent_packets.remove(b);
        let ghost sent0 = sent@;
        let mut remaining = sent.split_off(no_resend);
        let ghost rem0 = remaining@;
        self.sent_packets.insert(b, sent);
        proof {
            assert(self.sent_packets@ =~= old(self).sent_packets@.update(b as int, sent));
        }
        let mut broken_out: Vec<Packet> = Vec::new();
        let mut k: usize = 0;
        let ghost bo = self.out_buffers@[b as int]@;
        while k < self.out_buffers[b].len()
            invariant
                b < self.out_buffers@.len(),
                self.out_buffers@[b as int]@ == bo,
                k <= bo.len(),
                broken_out@.map_values(|q: Packet| q@) == bo.map_values(|q: Packet| q@).take(k as int),
            decreases bo.len() - k,
        {
            let c = self.out_buffers[b][k].clone();
            let ghost before = broken_out@;
            broken_out.push(c);
            proof {
                assert(broken_out@.map_values(|q: Packet| q@) =~= before.map_values(|q: Packet| q@).push(c@));
                assert(bo.map_values(|q: Packet| q@).take(k + 1) =~= bo.map_values(|q: Packet| q@).take(k as int).push(bo[k as int]@));
            }
            k = k + 1;
        }
        let ghost ob = self.out_buffers@;
        let mut target = self.out_buffers.remove(np);
        let ghost t0 = target@;
        target.append(&mut remaining);
        target.append(&mut broken_out);
        self.out_buffers.insert(np, target);
        proof {
            assert(bo.map_values(|q: Packet| q@).take(bo.len() as int) =~= bo.map_values(|q: Packet| q@));
            assert(self.out_buffers@ =~= ob.update(np as int, target));
            lemma_bufs_update(ob, np as int, target);
            assert(target@.map_values(|q: Packet| q@) =~= t0.map_values(|q: Packet| q@) + rem0.map_values(|q: Packet| q@)
                + bo.map_values(|q: Packet| q@));
            lemma_bufs_update(old(self).sent_packets@, b as int, sent);
            assert(sent@.map_values(|q: Packet| q@) =~= s.sent[b as int].subrange(0, no_resend as int));
            assert(rem0.map_values(|q: Packet| q@) =~= s.sent[b as int].subrange(no_resend as int, s.sent[b as int].len() as int));
            assert(self@ == reroute_spec(s, b as int, new_parent, counts.spec_recd()));
        }
    }

    /// A message from the cell model: an entry is set in the routing table,
    /// a packet is routed, a reroute is carried out.
    pub fn listen_cm_step(&mut self, msg: CmToPePacket, out: &mut Vec<PeAction>) -> (r: Result<(), PacketEngineError>)
        requires
            old(self).wf(),
            msg matches CmToPePacket::Entry(e) ==> e.spec_parent().0 < MAX_SLOTS,
            msg matches CmToPePacket::Packet(_) ==> counts_room(old(self)@),
            msg matches CmToPePacket::Reroute((b, np, c)) ==> reroute_ok(old(self)@, b, np, c),
        ensures
            final(self).wf(),
            final(self).same_setup(old(self)),
            match msg {
                CmToPePacket::Entry(e) => {
                    &&& r is Ok
                    &&& acts_view(final(out)@) == acts_view(old(out)@)
                    &&& entry_set(old(self)@.entries, final(self)@.entries, e)
                    &&& final(self)@ == PeView { entries: final(self)@.entries, ..old(self)@ }
                },
                CmToPePacket::Packet((m, p)) => {
                    let (s, a, o) = route_cm_spec(
                        old(self)@,
                        old(self).spec_senders(),
                        old(self).spec_connected_tree_uuid(),
                        m@,
                        p@,
                    );
                    &&& final(self)@ == s
                    &&& acts_view(final(out)@) == acts_view(old(out)@) + a
                    &&& outcome_of(o, "route_cm_packet", r)
                },
                CmToPePacket::Reroute((b, np, c)) => {
                    &&& r is Ok
                    &&& acts_view(final(out)@) == acts_view(old(out)@)
                    &&& final(self)@ == reroute_spec(old(self)@, b.0 as int, np, c.spec_recd())
                },
            },
    {
        match msg {
            CmToPePacket::Reroute((broken, new_parent, counts)) => {
                self.reroute_packets(broken, new_parent, counts);
                Ok(())
            },
            CmToPePacket::Entry(entry) => {
                let ghost s = self@;
                self.routing_table.set_entry(entry);
                proof {
                    let es = self.routing_table.spec_entries();
                    assert forall|i: int| 0 <= i < es.len() implies (#[trigger] es[i]).spec_parent().0 < MAX_SLOTS by {
                        if has_entry(s.entries, entry.spec_uuid()) {
                            let j = choose|j: int|
                                0 <= j < s.entries.len() && s.entries[j].spec_uuid() == entry.spec_uuid() && es
                                    == s.entries.update(j, entry);
                            if i != j {
                                assert(es[i] == s.entries[i]);
                            }
                        } else {
                            if i < s.entries.len() {
                                assert(es[i] == s.entries[i]);
                            }
                        }
                    }
                }
                Ok(())
            },
            CmToPePacket::Packet((user_mask, packet)) => self.route_cm_packet(user_mask, packet, out),
        }
    }

    /// A message from a port: a status says whether the port may send and
    /// goes to the cell model with the port's packet counts; a packet is
    /// processed.
    pub fn listen_port_step(&mut self, msg: PortToPePacket, out: &mut Vec<PeAction>) -> (r: Result<(), PacketEngineError>)
        requires
            old(self).wf(),
            msg matches PortToPePacket::Status((p, _, _)) ==> p.0 < MAX_SLOTS,
            msg matches PortToPePacket::Packet((p, _)) ==> p.0 < MAX_SLOTS && counts_room(old(self)@),
        ensures
            final(self).wf(),
            final(self).same_setup(old(self)),
            match msg {
                PortToPePacket::Status((p, b, st)) => {
                    let s = old(self)@;
                    &&& r is Ok
                    &&& final(self)@ == PeView { may_send: s.may_send.update(p.0 as int, st == PortStatus::Connected), ..s }
                    &&& acts_view(final(out)@).len() == acts_view(old(out)@).len() + 1
                    &&& acts_view(final(out)@).drop_last() == acts_view(old(out)@)
                    &&& acts_view(final(out)@).last() matches PeActV::Status(p2, b2, c, st2) && p2 == p && b2 == b && st2
                        == st && c.spec_sent() == s.sent_count[p.0 as int] && c.spec_recd() == s.seen[p.0 as int]
                },
                PortToPePacket::Packet((p, packet)) => {
                    let (s, a, o) = process_spec(
                        old(self)@,
                        old(self).spec_senders(),
                        old(self).spec_connected_tree_uuid(),
                        p,
                        packet@,
                    );
                    &&& final(self)@ == s
                    &&& acts_view(final(out)@) == acts_view(old(out)@) + a
                    &&& outcome_of(o, "process_packet", r)
                },
            },
    {
        match msg {
            PortToPePacket::Status((port_no, is_border, status)) => {
                let port = port_no.0 as usize;
                let counts = NumberOfPackets { sent: self.no_sent_packets[port], recd: self.no_seen_packets[port] };
                match status {
                    PortStatus::Connected => self.port_got_event.set(port, true),
                    PortStatus::Disconnected => self.port_got_event.set(port, false),
                }
                let ghost o0 = out@;
                out.push(PeAction::ToCm(PeToCmPacket::Status((port_no, is_border, counts, status))));
                proof {
                    assert(acts_view(out@).drop_last() =~= acts_view(o0));
                }
                Ok(())
            },
            PortToPePacket::Packet((port_no, packet)) => self.process_packet(port_no, packet, out),
        }
    }
}

} // verus!
