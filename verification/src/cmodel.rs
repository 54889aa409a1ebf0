//! The cell model: it cuts the cell agent's messages into packets for the
//! packet engine, reassembles the packets the packet engine delivers, and
//! passes everything else through. What it sends, and to whom, is decided
//! here; the channels themselves belong to the program around it.
use vstd::prelude::*;

use crate::config::{ByteArray, MsgID, PortNo};
use crate::ec_message_formats::{CaToCmBytes, CmToCaBytes, CmToPePacket, PeToCmPacket};
use crate::message::MsgDirection;
use crate::name::TreeID;
use crate::utility::Mask;
use crate::name::{CellID, Name};
use crate::packet::{
    assembled, is_packet_of, is_packetization, lemma_num_packets, lemma_unpacketize_packetize, packet_count_for, Packet, PacketAssembler,
    Packetizer, PAYLOAD_MAX,
};
use crate::utility::S;
use crate::uuid_ec::{with_code, AitState, Uuid, AIT, NORMAL};

verus! {

#[derive(Debug)]
pub enum CmodelError {
    Chain { func_name: &'static str, comment: String },
}

/// Something the cell model sends: to the packet engine or to the cell agent.
#[derive(Debug)]
pub enum CmOutput {
    ToPe(CmToPePacket),
    ToCa(CmToCaBytes),
}

#[derive(Debug)]
pub struct Cmodel {
    cell_id: CellID,
    packet_assemblers: Vec<(MsgID, PacketAssembler)>,
}

/// The packets collected so far for the message id.
pub open spec fn collected(assemblers: Seq<(MsgID, PacketAssembler)>, msg_id: MsgID) -> Seq<Packet> {
    if exists|i: int| 0 <= i < assemblers.len() && assemblers[i].0 == msg_id {
        assemblers[choose|i: int| 0 <= i < assemblers.len() && assemblers[i].0 == msg_id && forall|k: int|
            0 <= k < i ==> assemblers[k].0 != msg_id].1.spec_packets()
    } else {
        Seq::empty()
    }
}

/// The byte sequences of a message that the packetizer accepts.
pub open spec fn sendable(len: nat) -> bool {
    1 <= len && len != PAYLOAD_MAX + 1 && len <= usize::MAX - PAYLOAD_MAX
}

impl Cmodel {
    pub closed spec fn spec_cell_id(&self) -> CellID {
        self.cell_id
    }

    pub closed spec fn spec_assemblers(&self) -> Seq<(MsgID, PacketAssembler)> {
        self.packet_assemblers@
    }

    /// At most one assembler is kept per message id.
    pub open spec fn wf(&self) -> bool {
        ids_distinct(self.spec_assemblers())
    }

    pub fn new(cell_id: CellID) -> (c: Cmodel)
        ensures
            c.spec_cell_id() == cell_id,
            c.spec_assemblers() == Seq::<(MsgID, PacketAssembler)>::empty(),
            c.wf(),
    {
        Cmodel { cell_id, packet_assemblers: Vec::new() }
    }

    pub fn get_name(&self) -> (s: String)
        ensures
            s@ == self.spec_cell_id().spec_name(),
    {
        S(self.cell_id.get_name())
    }

    pub fn get_cell_id(&self) -> (c: &CellID)
        ensures
            *c == self.spec_cell_id(),
    {
        &self.cell_id
    }

    /// A message from the cell agent: bytes are cut into packets, all for
    /// the packet engine with the user mask, on the tree's UUID made AIT
    /// when the message is; entries and reroutes go to the packet engine;
    /// statuses and tunnelled bytes go back to the cell agent.
    #[verifier::spinoff_prover]
    pub fn listen_ca(&self, msg: CaToCmBytes, first_count: usize) -> (out: Vec<CmOutput>)
        requires
            msg is Bytes ==> sendable(msg->Bytes_0.5.0@.len()),
        ensures
            msg matches CaToCmBytes::Entry(e) ==> out@.len() == 1 && (out@[0] matches CmOutput::ToPe(
                CmToPePacket::Entry(x),
            ) && x == e),
            msg matches CaToCmBytes::Reroute(r) ==> out@.len() == 1 && (out@[0] matches CmOutput::ToPe(
                CmToPePacket::Reroute(x),
            ) && x == r),
            msg matches CaToCmBytes::Status(st) ==> out@.len() == 1 && (out@[0] matches CmOutput::ToCa(
                CmToCaBytes::Status(x),
            ) && x == st),
            msg matches CaToCmBytes::TunnelPort((p, b)) ==> out@.len() == 1 && (out@[0] matches CmOutput::ToCa(
                CmToCaBytes::TunnelPort((p2, b2)),
            ) && p2 == p && b2.0@ == b.0@),
            msg matches CaToCmBytes::TunnelUp((s, b)) ==> out@.len() == 1 && (out@[0] matches CmOutput::ToCa(
                CmToCaBytes::TunnelUp((s2, b2)),
            ) && s2.spec_name() == s.spec_name() && s2.spec_uuid() == s.spec_uuid() && b2.0@ == b.0@),
            msg is Bytes ==> sent_as_packets(
                out@,
                msg->Bytes_0.0,
                msg->Bytes_0.1,
                msg->Bytes_0.2,
                msg->Bytes_0.3,
                msg->Bytes_0.4,
                msg->Bytes_0.5.0@,
                first_count,
            ),
    {
        match msg {
            CaToCmBytes::Entry(entry) => {
                let v = one(CmOutput::ToPe(CmToPePacket::Entry(entry)));
                v
            },
            CaToCmBytes::Reroute(reroute) => one(CmOutput::ToPe(CmToPePacket::Reroute(reroute))),
            CaToCmBytes::Status(status_msg) => one(CmOutput::ToCa(CmToCaBytes::Status(status_msg))),
            CaToCmBytes::TunnelPort(tunnel_msg) => one(CmOutput::ToCa(CmToCaBytes::TunnelPort(tunnel_msg))),
            CaToCmBytes::TunnelUp(tunnel_msg) => one(CmOutput::ToCa(CmToCaBytes::TunnelUp(tunnel_msg))),
            CaToCmBytes::Bytes((tree_id, is_ait, user_mask, direction, is_blocking, bytes)) => {
                let ghost tid = tree_id;
                let send_tree = if is_ait {
                    tree_id.with_ait_uuid()
                } else {
                    tree_id
                };
                proof {
                    let u = send_tree.spec_uuid();
                    Uuid::lemma_parts(u, u.spec_code(), u.spec_port_byte(), u.spec_rest());
                }
                let packets = Packetizer::packetize(&send_tree, &bytes, direction, is_blocking, first_count);
                let ghost ps = packets@;
                let ghost msg_id = choose|msg_id: MsgID|
                    crate::packet::is_packetization(
                        ps,
                        send_tree.spec_uuid(),
                        bytes.0@,
                        direction,
                        is_blocking,
                        msg_id,
                        first_count,
                    );
                let n = packets.len();
                let mut out: Vec<CmOutput> = Vec::new();
                let mut packets = packets;
                let mut rest: Vec<Packet> = Vec::new();
                while packets.len() > 0
                    invariant
                        ps.len() == n,
                        packets@.len() + rest@.len() == ps.len(),
                        forall|k: int| 0 <= k < rest@.len() ==> rest@[k] == ps[ps.len() - 1 - k],
                        forall|k: int| 0 <= k < packets@.len() ==> packets@[k] == ps[k],
                    decreases packets@.len(),
                {
                    let p = packets.pop().unwrap();
                    rest.push(p);
                }
                let mut i: usize = 0;
                while rest.len() > 0
                    invariant
                        ps.len() == n,
                        rest@.len() + i == ps.len(),
                        forall|k: int| 0 <= k < rest@.len() ==> rest@[k] == ps[ps.len() - 1 - k],
                        out@.len() == i,
                        crate::packet::is_packetization(
                            ps,
                            send_tree.spec_uuid(),
                            bytes.0@,
                            direction,
                            is_blocking,
                            msg_id,
                            first_count,
                        ),
                        forall|k: int|
                            0 <= k < i ==> (#[trigger] out@[k] matches CmOutput::ToPe(CmToPePacket::Packet((m, p)))
                                && m == user_mask && p == ps[k]),
                    decreases rest@.len(),
                {
                    let p = rest.pop().unwrap();
                    out.push(CmOutput::ToPe(CmToPePacket::Packet((user_mask, p))));
                    i = i + 1;
                }
                proof {
                    assert forall|k: int| 0 <= k < out@.len() implies (#[trigger] out@[k] matches CmOutput::ToPe(
                        CmToPePacket::Packet((m, p)),
                    ) && m == user_mask && is_packet_of(
                        p,
                        send_tree.spec_uuid(),
                        bytes.0@,
                        direction,
                        is_blocking,
                        msg_id,
                        first_count,
                        k,
                    )) by {
                        assert(is_packet_of(ps[k], send_tree.spec_uuid(), bytes.0@, direction, is_blocking, msg_id,
                            first_count, k));
                    }
                    assert(sent_with_id(out@, send_tree.spec_uuid(), user_mask, direction, is_blocking, bytes.0@,
                        msg_id, first_count));
                    assert(send_tree.spec_uuid() == send_uuid(tid, is_ait));
                    assert(sent_as_packets(out@, tid, is_ait, user_mask, direction, is_blocking, bytes.0@, first_count));
                }
                out
            },
        }
    }

    /// A packet or a status from the packet engine: statuses go to the cell
    /// agent; a packet is added to its message, which goes to the cell agent
    /// once its last packet has come.
    pub fn listen_pe(&mut self, msg: PeToCmPacket) -> (out: Option<CmToCaBytes>)
        requires
            old(self).wf(),
        ensures
            final(self).wf(),
            match msg {
                PeToCmPacket::Status(st) => out matches Some(CmToCaBytes::Status(x)) && x == st
                    && final(self).spec_assemblers() == old(self).spec_assemblers(),
                PeToCmPacket::Packet((port_no, packet)) => delivered(
                    old(self).spec_assemblers(),
                    final(self).spec_assemblers(),
                    port_no,
                    packet,
                    out,
                ),
            },
            final(self).spec_cell_id() == old(self).spec_cell_id(),
    {
        match msg {
            PeToCmPacket::Status(status_msg) => Some(CmToCaBytes::Status(status_msg)),
            PeToCmPacket::Packet((port_no, packet)) => self.process_packet(port_no, packet),
        }
    }

    /// Takes the message's assembler out, or starts one when there is none,
    /// and adds the packet. Until the message's last packet has come the
    /// assembler is put back; with the last packet the message's bytes are
    /// handed on and the assembler is dropped.
    fn process_packet(&mut self, port_no: PortNo, packet: Packet) -> (out: Option<CmToCaBytes>)
        requires
            old(self).wf(),
        ensures
            final(self).wf(),
            delivered(old(self).spec_assemblers(), final(self).spec_assemblers(), port_no, packet, out),
            final(self).spec_cell_id() == old(self).spec_cell_id(),
    {
        reveal(delivered);
        let msg_id = packet.get_msg_id();
        let ghost before = self.packet_assemblers@;
        let mut packet_assembler = match self.take_assembler(msg_id) {
            Some(a) => a,
            None => PacketAssembler::new(msg_id),
        };
        proof {
            lemma_without_id_keeps_distinct(before, msg_id);
        }
        let uuid = packet.get_tree_uuid();
        let (last_packet, packets) = packet_assembler.add(packet);
        if last_packet {
            let is_ait = packets[0].get_uuid().get_ait_state() == AitState::Ait;
            match Packetizer::unpacketize(packets) {
                Ok(bytes) => Some(CmToCaBytes::Bytes((port_no, is_ait, uuid, bytes))),
                Err(_) => None,
            }
        } else {
            self.packet_assemblers.push((msg_id, packet_assembler));
            proof {
                let after = self.packet_assemblers@;
                assert(after.drop_last() == without_id(before, msg_id));
                assert forall|i: int, j: int| 0 <= i < j < after.len() implies after[i].0 != after[j].0 by {
                    if j == after.len() - 1 {
                        assert(after[i] == without_id(before, msg_id)[i]);
                    } else {
                        assert(after[i] == without_id(before, msg_id)[i]);
                        assert(after[j] == without_id(before, msg_id)[j]);
                    }
                }
                lemma_collected_of_last(after, msg_id);
            }
            None
        }
    }

    /// Removes the first assembler for the message id.
    fn take_assembler(&mut self, msg_id: MsgID) -> (r: Option<PacketAssembler>)
        ensures
            collected(old(self).spec_assemblers(), msg_id).len() > 0 ==> r is Some,
            r matches Some(a) ==> a.spec_packets() == collected(old(self).spec_assemblers(), msg_id),
            r is None ==> collected(old(self).spec_assemblers(), msg_id) == Seq::<Packet>::empty(),
            final(self).spec_assemblers() == without_id(old(self).spec_assemblers(), msg_id),
            final(self).spec_cell_id() == old(self).spec_cell_id(),
    {
        let ghost s = self.packet_assemblers@;
        let mut i: usize = 0;
        while i < self.packet_assemblers.len()
            invariant
                i <= self.packet_assemblers@.len(),
                self.packet_assemblers@ == s,
                s == old(self).packet_assemblers@,
                self.cell_id == old(self).cell_id,
                forall|k: int| 0 <= k < i ==> s[k].0 != msg_id,
            decreases self.packet_assemblers@.len() - i,
        {
            if self.packet_assemblers[i].0 == msg_id {
                let (_, a) = self.packet_assemblers.remove(i);
                proof {
                    assert(s[i as int].0 == msg_id);
                    let j = choose|j: int|
                        0 <= j < s.len() && s[j].0 == msg_id && forall|k: int| 0 <= k < j ==> s[k].0 != msg_id;
                    if j < i {
                    } else if j > i {
                        assert(s[i as int].0 == msg_id);
                    }
                    assert(j == i);
                }
                return Some(a);
            }
            i = i + 1;
        }
        None
    }
}

fn one(x: CmOutput) -> (v: Vec<CmOutput>)
    ensures
        v@ == seq![x],
{
    let mut v: Vec<CmOutput> = Vec::new();
    v.push(x);
    v
}

/// The outputs are the packets of the message, each for the packet engine
/// with the user mask, on the tree's UUID made AIT when the message is.
pub open spec fn sent_as_packets(out: Seq<CmOutput>, tree_id: TreeID, is_ait: bool, user_mask: Mask,
    direction: MsgDirection, is_blocking: bool, bytes: Seq<u8>, first_count: usize) -> bool {
    exists|msg_id: MsgID|
        #[trigger] sent_with_id(
            out,
            send_uuid(tree_id, is_ait),
            user_mask,
            direction,
            is_blocking,
            bytes,
            msg_id,
            first_count,
        )
}

/// The tree's UUID, with the AIT code when the message is AIT.
pub open spec fn send_uuid(tree_id: TreeID, is_ait: bool) -> Uuid {
    let u = tree_id.spec_uuid();
    let code = if is_ait {
        with_code(u.spec_code(), AIT)
    } else {
        u.spec_code()
    };
    Uuid::spec_from_parts(code, u.spec_port_byte(), u.spec_rest())
}

/// The outputs are the packets of the message under the message id.
pub open spec fn sent_with_id(out: Seq<CmOutput>, uuid: Uuid, user_mask: Mask, direction: MsgDirection,
    is_blocking: bool, bytes: Seq<u8>, msg_id: MsgID, first_count: usize) -> bool {
    &&& out.len() == packet_count_for(bytes.len() as int)
    &&& forall|i: int|
        0 <= i < out.len() ==> (#[trigger] out[i] matches CmOutput::ToPe(CmToPePacket::Packet((m, p))) && m == user_mask
            && is_packet_of(p, uuid, bytes, direction, is_blocking, msg_id, first_count, i))
}

/// The assemblers without the first one for the message id.
pub open spec fn without_id(assemblers: Seq<(MsgID, PacketAssembler)>, msg_id: MsgID) -> Seq<(MsgID, PacketAssembler)> {
    if exists|i: int| 0 <= i < assemblers.len() && assemblers[i].0 == msg_id {
        assemblers.remove(
            choose|i: int|
                0 <= i < assemblers.len() && assemblers[i].0 == msg_id && forall|k: int|
                    0 <= k < i ==> assemblers[k].0 != msg_id,
        )
    } else {
        assemblers
    }
}

/// No two assemblers are for the same message id.
pub open spec fn ids_distinct(assemblers: Seq<(MsgID, PacketAssembler)>) -> bool {
    forall|i: int, j: int| 0 <= i < j < assemblers.len() ==> assemblers[i].0 != assemblers[j].0
}

/// Whether an assembler for the message id is kept.
pub open spec fn has_assembler(assemblers: Seq<(MsgID, PacketAssembler)>, msg_id: MsgID) -> bool {
    exists|i: int| 0 <= i < assemblers.len() && assemblers[i].0 == msg_id
}

/// What happens to a packet that arrives on a port: it joins the packets
/// of its message that came before it. Before the last packet, the message's
/// assembler is kept with all of them and nothing is handed on; with the last
/// packet, the message's bytes, made of all its packets, go to the cell agent
/// with the arrival port, whether the first packet's tree UUID is AIT, and the
/// packet's tree UUID, and no assembler is left for the message.
#[verifier::opaque]
pub open spec fn delivered(before: Seq<(MsgID, PacketAssembler)>, after: Seq<(MsgID, PacketAssembler)>, port_no: PortNo,
    packet: Packet, out: Option<CmToCaBytes>) -> bool {
    let id = packet.spec_msg_id();
    let ps = collected(before, id).push(packet);
    &&& packet.spec_is_last() ==> {
        &&& after == without_id(before, id)
        &&& !has_assembler(after, id)
        &&& out matches Some(CmToCaBytes::Bytes((p, a, u, b))) && p == port_no && a == (
        ps[0].spec_uuid().spec_ait_state() == AitState::Ait) && u == packet.spec_uuid() && b.0@ == assembled(ps)
    }
    &&& !packet.spec_is_last() ==> {
        &&& out is None
        &&& after.len() > 0
        &&& after.drop_last() == without_id(before, id)
        &&& after.last().0 == id
        &&& after.last().1.spec_packets() == ps
        &&& collected(after, id) == ps
    }
}

/// Taking out the one assembler of a message id keeps the others' ids
/// distinct and leaves none for that id.
proof fn lemma_without_id_keeps_distinct(s: Seq<(MsgID, PacketAssembler)>, msg_id: MsgID)
    requires
        ids_distinct(s),
    ensures
        ids_distinct(without_id(s, msg_id)),
        !has_assembler(without_id(s, msg_id), msg_id),
{
    if exists|i: int| 0 <= i < s.len() && s[i].0 == msg_id {
        let j = choose|i: int|
            0 <= i < s.len() && s[i].0 == msg_id && forall|k: int| 0 <= k < i ==> s[k].0 != msg_id;
        assert(0 <= j < s.len() && s[j].0 == msg_id) by {
            let i0 = choose|i: int| 0 <= i < s.len() && s[i].0 == msg_id;
            assert(0 <= i0 < s.len() && s[i0].0 == msg_id && forall|k: int| 0 <= k < i0 ==> s[k].0 != msg_id);
        }
        let r = s.remove(j);
        assert(without_id(s, msg_id) == r);
        assert forall|a: int, b: int| 0 <= a < b < r.len() implies r[a].0 != r[b].0 by {
            let a2 = if a < j { a } else { a + 1 };
            let b2 = if b < j { b } else { b + 1 };
            assert(r[a] == s[a2]);
            assert(r[b] == s[b2]);
        }
        assert forall|i: int| 0 <= i < r.len() implies r[i].0 != msg_id by {
            let i2 = if i < j { i } else { i + 1 };
            assert(r[i] == s[i2]);
        }
    }
}

/// An assembler pushed last, with an id no other one has, is the one
/// whose packets are collected for that id.
proof fn lemma_collected_of_last(s: Seq<(MsgID, PacketAssembler)>, msg_id: MsgID)
    requires
        s.len() > 0,
        s.last().0 == msg_id,
        ids_distinct(s),
    ensures
        collected(s, msg_id) == s.last().1.spec_packets(),
{
    let n = s.len() - 1;
    assert(0 <= n < s.len() && s[n].0 == msg_id && forall|k: int| 0 <= k < n ==> s[k].0 != msg_id);
    let j = choose|i: int|
        0 <= i < s.len() && s[i].0 == msg_id && forall|k: int| 0 <= k < i ==> s[k].0 != msg_id;
    assert(j == n);
}

/// What a packet that is not its message's last does, and what the last does.
proof fn lemma_delivered_step(before: Seq<(MsgID, PacketAssembler)>, after: Seq<(MsgID, PacketAssembler)>, port: PortNo,
    packet: Packet, out: Option<CmToCaBytes>)
    requires
        delivered(before, after, port, packet, out),
    ensures
        !packet.spec_is_last() ==> out is None && collected(after, packet.spec_msg_id()) == collected(
            before,
            packet.spec_msg_id(),
        ).push(packet),
        packet.spec_is_last() ==> !has_assembler(after, packet.spec_msg_id()) && (out matches Some(
            CmToCaBytes::Bytes((p, a, u, b)),
        ) && p == port && a == (collected(before, packet.spec_msg_id()).push(packet)[0].spec_uuid().spec_ait_state()
            == AitState::Ait) && u == packet.spec_uuid() && b.0@ == assembled(
            collected(before, packet.spec_msg_id()).push(packet),
        )),
{
    reveal(delivered);
}

proof fn lemma_no_assembler_collects_nothing(s: Seq<(MsgID, PacketAssembler)>, id: MsgID)
    requires
        !has_assembler(s, id),
    ensures
        collected(s, id) == Seq::<Packet>::empty(),
{
}

#[verifier::spinoff_prover]
proof fn lemma_collected_prefix(states: Seq<Seq<(MsgID, PacketAssembler)>>, outs: Seq<Option<CmToCaBytes>>, port: PortNo,
    ps: Seq<Packet>, k: int)
    requires
        states.len() == ps.len() + 1,
        outs.len() == ps.len(),
        0 <= k < ps.len(),
        forall|j: int| 0 <= j < ps.len() ==> (#[trigger] ps[j]).spec_msg_id() == ps[0].spec_msg_id(),
        forall|j: int| 0 <= j < ps.len() - 1 ==> !(#[trigger] ps[j]).spec_is_last(),
        !has_assembler(states[0], ps[0].spec_msg_id()),
        forall|j: int| 0 <= j < ps.len() ==> #[trigger] delivered(states[j], states[j + 1], port, ps[j], outs[j]),
    ensures
        collected(states[k], ps[0].spec_msg_id()) == ps.take(k),
        forall|j: int| 0 <= j < k ==> (#[trigger] outs[j]) is None,
    decreases k,
{
    if k == 0 {
        lemma_no_assembler_collects_nothing(states[0], ps[0].spec_msg_id());
        assert(ps.take(0) =~= Seq::<Packet>::empty());
    } else {
        lemma_collected_prefix(states, outs, port, ps, k - 1);
        let j = k - 1;
        assert(delivered(states[j], states[j + 1], port, ps[j], outs[j]));
        lemma_delivered_step(states[j], states[j + 1], port, ps[j], outs[j]);
        assert(!ps[j].spec_is_last());
        assert(ps[j].spec_msg_id() == ps[0].spec_msg_id());
        assert(ps.take(j).push(ps[j]) =~= ps.take(k));
    }
}

/// The packets of one message, handed in order to the cell model, come out
/// as the message: nothing is handed on before the last packet, then the
/// bytes of all the packets joined, marked AIT exactly when the tree UUID of
/// the message's first packet is in the AIT state, and no assembler is left
/// for the message.
pub proof fn law_message_reassembled(states: Seq<Seq<(MsgID, PacketAssembler)>>, outs: Seq<Option<CmToCaBytes>>,
    port: PortNo, ps: Seq<Packet>)
    requires
        ps.len() >= 1,
        states.len() == ps.len() + 1,
        outs.len() == ps.len(),
        forall|j: int| 0 <= j < ps.len() ==> (#[trigger] ps[j]).spec_msg_id() == ps[0].spec_msg_id(),
        forall|j: int| 0 <= j < ps.len() - 1 ==> !(#[trigger] ps[j]).spec_is_last(),
        ps.last().spec_is_last(),
        !has_assembler(states[0], ps[0].spec_msg_id()),
        forall|j: int| 0 <= j < ps.len() ==> #[trigger] delivered(states[j], states[j + 1], port, ps[j], outs[j]),
    ensures
        forall|j: int| 0 <= j < ps.len() - 1 ==> (#[trigger] outs[j]) is None,
        outs.last() matches Some(CmToCaBytes::Bytes((p, _, u, b))) && p == port && u == ps.last().spec_uuid() && b.0@
            == assembled(ps),
        outs.last() matches Some(CmToCaBytes::Bytes((_, a, _, _))) && (a <==> ps[0].spec_uuid().spec_ait_state()
            == AitState::Ait),
        !has_assembler(states.last(), ps[0].spec_msg_id()),
{
    let n = ps.len() - 1;
    lemma_collected_prefix(states, outs, port, ps, n);
    assert(delivered(states[n], states[n + 1], port, ps[n], outs[n]));
    lemma_delivered_step(states[n], states[n + 1], port, ps[n], outs[n]);
    assert(ps[n].spec_msg_id() == ps[0].spec_msg_id());
    assert(ps.take(n).push(ps[n]) =~= ps);
}

/// A message that a cell model sends on a tree, handed packet by packet to
/// the cell model at the other end, reaches the cell agent there whole:
/// nothing before the last packet, then the message's own bytes, with the
/// arrival port, the tree UUID it was sent under, and marked AIT exactly
/// when it was sent as AIT (for a tree whose UUID has the normal code).
pub proof fn law_sent_message_received(states: Seq<Seq<(MsgID, PacketAssembler)>>, outs: Seq<Option<CmToCaBytes>>,
    port: PortNo, ps: Seq<Packet>, tree_id: TreeID, is_ait: bool, direction: MsgDirection, is_blocking: bool,
    bytes: Seq<u8>, msg_id: MsgID, first_count: usize)
    requires
        is_packetization(ps, send_uuid(tree_id, is_ait), bytes, direction, is_blocking, msg_id, first_count),
        bytes.len() >= 1,
        tree_id.spec_uuid().spec_code() == NORMAL,
        states.len() == ps.len() + 1,
        outs.len() == ps.len(),
        !has_assembler(states[0], msg_id),
        forall|j: int| 0 <= j < ps.len() ==> #[trigger] delivered(states[j], states[j + 1], port, ps[j], outs[j]),
    ensures
        ps.len() >= 1,
        forall|j: int| 0 <= j < ps.len() - 1 ==> (#[trigger] outs[j]) is None,
        outs.last() matches Some(CmToCaBytes::Bytes((p, a, u, b))) && p == port && a == is_ait && u == send_uuid(
            tree_id,
            is_ait,
        ) && b.0@ == bytes,
{
    lemma_num_packets(bytes.len() as int);
    let uuid = send_uuid(tree_id, is_ait);
    assert(is_packet_of(ps[0], uuid, bytes, direction, is_blocking, msg_id, first_count, 0));
    assert forall|j: int| 0 <= j < ps.len() implies (#[trigger] ps[j]).spec_msg_id() == ps[0].spec_msg_id() by {
        assert(is_packet_of(ps[j], uuid, bytes, direction, is_blocking, msg_id, first_count, j));
    }
    assert forall|j: int| 0 <= j < ps.len() - 1 implies !(#[trigger] ps[j]).spec_is_last() by {
        assert(is_packet_of(ps[j], uuid, bytes, direction, is_blocking, msg_id, first_count, j));
    }
    assert(is_packet_of(ps[ps.len() - 1], uuid, bytes, direction, is_blocking, msg_id, first_count, ps.len() - 1));
    law_message_reassembled(states, outs, port, ps);
    lemma_unpacketize_packetize(ps, uuid, bytes, direction, is_blocking, msg_id, first_count);
    let u0 = tree_id.spec_uuid();
    let code = if is_ait {
        with_code(u0.spec_code(), AIT)
    } else {
        u0.spec_code()
    };
    Uuid::lemma_parts(uuid, code, u0.spec_port_byte(), u0.spec_rest());
    assert(4u8 | (64u8 & 128u8) == 4u8) by (bit_vector);
}

/// The packet an output hands to the packet engine.
pub open spec fn output_packet(o: CmOutput) -> Packet {
    match o {
        CmOutput::ToPe(CmToPePacket::Packet((_, p))) => p,
        _ => vstd::pervasive::arbitrary(),
    }
}

/// A message the cell model sends goes out whole: one packet or more, each
/// to the packet engine with the message's user mask and under the tree's
/// UUID (with the AIT code for an AIT message), only the last marked last,
/// and the packets together give back the message's bytes.
pub proof fn law_message_sent_in_packets(out: Seq<CmOutput>, tree_id: TreeID, is_ait: bool, user_mask: Mask,
    direction: MsgDirection, is_blocking: bool, bytes: Seq<u8>, first_count: usize)
    requires
        sent_as_packets(out, tree_id, is_ait, user_mask, direction, is_blocking, bytes, first_count),
        bytes.len() >= 1,
    ensures
        out.len() >= 1,
        forall|i: int|
            0 <= i < out.len() ==> (#[trigger] out[i] matches CmOutput::ToPe(CmToPePacket::Packet((m, p))) && m == user_mask
                && p.spec_uuid() == send_uuid(tree_id, is_ait) && (p.spec_is_last() <==> i == out.len() - 1)),
        assembled(Seq::new(out.len(), |i: int| output_packet(out[i]))) == bytes,
{
    let uuid = send_uuid(tree_id, is_ait);
    let msg_id = choose|msg_id: MsgID|
        #[trigger] sent_with_id(out, uuid, user_mask, direction, is_blocking, bytes, msg_id, first_count);
    lemma_num_packets(bytes.len() as int);
    let ps = Seq::new(out.len(), |i: int| output_packet(out[i]));
    assert forall|i: int| 0 <= i < ps.len() implies is_packet_of(#[trigger] ps[i], uuid, bytes, direction, is_blocking, msg_id,
        first_count, i) by {
        assert(out[i] matches CmOutput::ToPe(CmToPePacket::Packet((m, p))) && m == user_mask && is_packet_of(p, uuid, bytes,
            direction, is_blocking, msg_id, first_count, i));
    }
    lemma_unpacketize_packetize(ps, uuid, bytes, direction, is_blocking, msg_id, first_count);
}

} // verus!


