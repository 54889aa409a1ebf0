//! Packets: a message's bytes are cut into fixed-size payloads that all
//! carry the same message id; the last packet records how many of its bytes
//! belong to the message, every other packet how many packets remain.
use vstd::prelude::*;

use crate::config::{ByteArray, MsgID, PacketNo, PACKET_MAX, PACKET_MIN, PAYLOAD_DEFAULT_ELEMENT};
use crate::message::MsgDirection;
use crate::name::{Name, TreeID};
use crate::uuid_ec::{ait_stepped, with_code, AitState, Uuid, UuidError, AIT};

verus! {

/// Bytes taken by the packet header.
pub const PACKET_HEADER_SIZE: usize = 16;

pub const PAYLOAD_MIN: usize = PACKET_MAX - PACKET_HEADER_SIZE;

/// Number of payload bytes in every packet.
pub const PAYLOAD_MAX: usize = PACKET_MAX - PACKET_HEADER_SIZE;

/// The header of a packet: the UUID of the tree it travels on.
#[derive(Debug, Copy, Clone)]
pub struct PacketHeader {
    uuid: Uuid,
}

impl PacketHeader {
    pub closed spec fn spec_uuid(&self) -> Uuid {
        self.uuid
    }

    pub fn new(tree_id: &TreeID) -> (h: PacketHeader)
        ensures
            h.spec_uuid() == tree_id.spec_uuid(),
    {
        PacketHeader { uuid: tree_id.get_uuid() }
    }

    pub fn get_uuid(&self) -> (u: Uuid)
        ensures
            u == self.spec_uuid(),
    {
        self.uuid
    }
}

/// The bytes given, padded with the default element to a full payload.
pub open spec fn padded(data: Seq<u8>) -> Seq<u8> {
    Seq::new(PAYLOAD_MAX as nat, |i: int| if i < data.len() { data[i] } else { PAYLOAD_DEFAULT_ELEMENT })
}

#[derive(Debug)]
pub struct Payload {
    msg_id: MsgID,
    size: PacketNo,
    is_last: bool,
    is_blocking: bool,
    direction: MsgDirection,
    bytes: Vec<u8>,
}

impl Payload {
    pub closed spec fn spec_msg_id(&self) -> MsgID {
        self.msg_id
    }

    pub closed spec fn spec_size(&self) -> PacketNo {
        self.size
    }

    pub closed spec fn spec_is_last(&self) -> bool {
        self.is_last
    }

    pub closed spec fn spec_is_blocking(&self) -> bool {
        self.is_blocking
    }

    pub closed spec fn spec_direction(&self) -> MsgDirection {
        self.direction
    }

    pub closed spec fn spec_bytes(&self) -> Seq<u8> {
        self.bytes@
    }

    /// A payload holding the data bytes followed by default elements.
    pub fn new(msg_id: MsgID, size: PacketNo, direction: MsgDirection, is_last: bool, is_blocking: bool, data_bytes: Vec<
        u8,
    >) -> (p: Payload)
        requires
            data_bytes@.len() <= PAYLOAD_MAX,
        ensures
            p.spec_msg_id() == msg_id,
            p.spec_size() == size,
            p.spec_is_last() == is_last,
            p.spec_is_blocking() == is_blocking,
            p.spec_direction() == direction,
            p.spec_bytes() == padded(data_bytes@),
    {
        let mut bytes: Vec<u8> = Vec::new();
        let mut i: usize = 0;
        while i < PAYLOAD_MAX
            invariant
                i <= PAYLOAD_MAX,
                data_bytes@.len() <= PAYLOAD_MAX,
                bytes@.len() == i,
                forall|k: int| 0 <= k < i ==> bytes@[k] == padded(data_bytes@)[k],
            decreases PAYLOAD_MAX - i,
        {
            if i < data_bytes.len() {
                bytes.push(data_bytes[i]);
            } else {
                bytes.push(PAYLOAD_DEFAULT_ELEMENT);
            }
            i = i + 1;
        }
        assert(bytes@ =~= padded(data_bytes@));
        Payload { msg_id, size, is_last, is_blocking, direction, bytes }
    }

    fn get_bytes(&self) -> (v: Vec<u8>)
        ensures
            v@ == self.spec_bytes(),
    {
        let mut v: Vec<u8> = Vec::new();
        let mut i: usize = 0;
        while i < self.bytes.len()
            invariant
                i <= self.bytes@.len(),
                v@ == self.bytes@.take(i as int),
            decreases self.bytes@.len() - i,
        {
            v.push(self.bytes[i]);
            i = i + 1;
            assert(v@ =~= self.bytes@.take(i as int));
        }
        assert(self.bytes@.take(self.bytes@.len() as int) =~= self.bytes@);
        v
    }

    fn get_msg_id(&self) -> (m: MsgID)
        ensures
            m == self.spec_msg_id(),
    {
        self.msg_id
    }

    fn get_size(&self) -> (s: PacketNo)
        ensures
            s == self.spec_size(),
    {
        self.size
    }

    fn get_direction(&self) -> (d: MsgDirection)
        ensures
            d == self.spec_direction(),
    {
        self.direction
    }

    fn is_leafcast(&self) -> (b: bool)
        ensures
            b == (self.spec_direction() == MsgDirection::Leafward),
    {
        match self.direction {
            MsgDirection::Leafward => true,
            _ => false,
        }
    }

    fn is_rootcast(&self) -> (b: bool)
        ensures
            b == (self.spec_direction() != MsgDirection::Leafward),
    {
        !self.is_leafcast()
    }

    fn is_last_packet(&self) -> (b: bool)
        ensures
            b == self.spec_is_last(),
    {
        self.is_last
    }

    fn is_blocking(&self) -> (b: bool)
        ensures
            b == self.spec_is_blocking(),
    {
        self.is_blocking
    }

    fn set_direction(&mut self, direction: MsgDirection)
        ensures
            final(self).spec_direction() == direction,
            final(self).spec_msg_id() == old(self).spec_msg_id(),
            final(self).spec_size() == old(self).spec_size(),
            final(self).spec_is_last() == old(self).spec_is_last(),
            final(self).spec_is_blocking() == old(self).spec_is_blocking(),
            final(self).spec_bytes() == old(self).spec_bytes(),
    {
        self.direction = direction;
    }
}

impl Clone for Payload {
    fn clone(&self) -> (p: Self)
        ensures
            p.spec_msg_id() == self.spec_msg_id(),
            p.spec_size() == self.spec_size(),
            p.spec_is_last() == self.spec_is_last(),
            p.spec_is_blocking() == self.spec_is_blocking(),
            p.spec_direction() == self.spec_direction(),
            p.spec_bytes() == self.spec_bytes(),
    {
        Payload {
            msg_id: self.msg_id,
            size: self.size,
            is_last: self.is_last,
            is_blocking: self.is_blocking,
            direction: self.direction,
            bytes: self.get_bytes(),
        }
    }
}

#[derive(Debug)]
pub struct Packet {
    header: PacketHeader,
    payload: Payload,
    packet_count: usize,
}

impl Packet {
    pub closed spec fn spec_uuid(&self) -> Uuid {
        self.header.spec_uuid()
    }

    pub closed spec fn spec_msg_id(&self) -> MsgID {
        self.payload.spec_msg_id()
    }

    pub closed spec fn spec_size(&self) -> PacketNo {
        self.payload.spec_size()
    }

    pub closed spec fn spec_is_last(&self) -> bool {
        self.payload.spec_is_last()
    }

    pub closed spec fn spec_is_blocking(&self) -> bool {
        self.payload.spec_is_blocking()
    }

    pub closed spec fn spec_direction(&self) -> MsgDirection {
        self.payload.spec_direction()
    }

    pub closed spec fn spec_bytes(&self) -> Seq<u8> {
        self.payload.spec_bytes()
    }

    pub closed spec fn spec_count(&self) -> usize {
        self.packet_count
    }

    fn new(msg_id: MsgID, tree_id: &TreeID, size: PacketNo, direction: MsgDirection, is_last_packet: bool,
        is_blocking: bool, data_bytes: Vec<u8>, packet_count: usize) -> (p: Packet)
        requires
            data_bytes@.len() <= PAYLOAD_MAX,
        ensures
            p.spec_uuid() == tree_id.spec_uuid(),
            p.spec_msg_id() == msg_id,
            p.spec_size() == size,
            p.spec_is_last() == is_last_packet,
            p.spec_is_blocking() == is_blocking,
            p.spec_direction() == direction,
            p.spec_bytes() == padded(data_bytes@),
            p.spec_count() == packet_count,
    {
        let header = PacketHeader::new(tree_id);
        let payload = Payload::new(msg_id, size, direction, is_last_packet, is_blocking, data_bytes);
        Packet { header, payload, packet_count }
    }

    pub fn get_uuid(&self) -> (u: Uuid)
        ensures
            u == self.spec_uuid(),
    {
        self.header.get_uuid()
    }

    pub fn get_count(&self) -> (c: usize)
        ensures
            c == self.spec_count(),
    {
        self.packet_count
    }

    pub fn get_header(&self) -> (h: PacketHeader)
        ensures
            h.spec_uuid() == self.spec_uuid(),
    {
        self.header
    }

    pub fn get_payload(&self) -> (p: Payload)
        ensures
            p.spec_msg_id() == self.spec_msg_id(),
            p.spec_size() == self.spec_size(),
            p.spec_is_last() == self.spec_is_last(),
            p.spec_is_blocking() == self.spec_is_blocking(),
            p.spec_direction() == self.spec_direction(),
            p.spec_bytes() == self.spec_bytes(),
    {
        self.payload.clone()
    }

    pub fn get_tree_uuid(&self) -> (u: Uuid)
        ensures
            u == self.spec_uuid(),
    {
        self.header.get_uuid()
    }

    pub fn is_blocking(&self) -> (b: bool)
        ensures
            b == self.spec_is_blocking(),
    {
        self.payload.is_blocking()
    }

    pub fn is_last_packet(&self) -> (b: bool)
        ensures
            b == self.spec_is_last(),
    {
        self.payload.is_last_packet()
    }

    pub fn get_bytes(&self) -> (v: Vec<u8>)
        ensures
            v@ == self.spec_bytes(),
    {
        self.payload.get_bytes()
    }

    pub fn get_msg_id(&self) -> (m: MsgID)
        ensures
            m == self.spec_msg_id(),
    {
        self.payload.get_msg_id()
    }

    pub fn get_size(&self) -> (s: PacketNo)
        ensures
            s == self.spec_size(),
    {
        self.payload.get_size()
    }

    pub fn is_leafcast(&self) -> (b: bool)
        ensures
            b == (self.spec_direction() == MsgDirection::Leafward),
    {
        match self.payload.get_direction() {
            MsgDirection::Leafward => true,
            _ => false,
        }
    }

    pub fn is_rootcast(&self) -> (b: bool)
        ensures
            b == (self.spec_direction() != MsgDirection::Leafward),
    {
        !self.is_leafcast()
    }

    fn set_direction(&mut self, direction: MsgDirection)
        ensures
            final(self).spec_direction() == direction,
            final(self).spec_uuid() == old(self).spec_uuid(),
            final(self).spec_msg_id() == old(self).spec_msg_id(),
            final(self).spec_size() == old(self).spec_size(),
            final(self).spec_is_last() == old(self).spec_is_last(),
            final(self).spec_is_blocking() == old(self).spec_is_blocking(),
            final(self).spec_bytes() == old(self).spec_bytes(),
            final(self).spec_count() == old(self).spec_count(),
    {
        self.payload.set_direction(direction)
    }
}

/// What a packet holds, as plain values: its tree UUID, message id, size,
/// whether it is the last and blocking, direction, bytes and count.
pub type PacketV = (Uuid, MsgID, PacketNo, bool, bool, MsgDirection, Seq<u8>, usize);

impl View for Packet {
    type V = PacketV;

    open spec fn view(&self) -> PacketV {
        (
            self.spec_uuid(),
            self.spec_msg_id(),
            self.spec_size(),
            self.spec_is_last(),
            self.spec_is_blocking(),
            self.spec_direction(),
            self.spec_bytes(),
            self.spec_count(),
        )
    }
}

/// The packet's payload and count are kept.
pub open spec fn same_contents(p: Packet, q: Packet) -> bool {
    &&& p.spec_msg_id() == q.spec_msg_id()
    &&& p.spec_size() == q.spec_size()
    &&& p.spec_is_last() == q.spec_is_last()
    &&& p.spec_is_blocking() == q.spec_is_blocking()
    &&& p.spec_direction() == q.spec_direction()
    &&& p.spec_bytes() == q.spec_bytes()
    &&& p.spec_count() == q.spec_count()
}

impl Packet {
    /// The AIT state of the packet's tree UUID.
    pub fn get_ait_state(&self) -> (s: AitState)
        ensures
            s == self.spec_uuid().spec_ait_state(),
    {
        self.header.uuid.get_ait_state()
    }

    /// Steps the AIT state of the packet's tree UUID.
    pub fn next_ait_state(&mut self) -> (r: Result<AitState, UuidError>)
        ensures
            ait_stepped(old(self).spec_uuid(), final(self).spec_uuid(), r),
            same_contents(*final(self), *old(self)),
    {
        let mut uuid = self.header.uuid;
        let r = uuid.next();
        self.header = PacketHeader { uuid };
        r
    }

    /// Marks the packet's tree UUID as AIT, keeping its direction.
    pub fn make_ait_send(&mut self)
        ensures
            final(self).spec_uuid().spec_code() == with_code(old(self).spec_uuid().spec_code(), AIT),
            final(self).spec_uuid().spec_port_byte() == old(self).spec_uuid().spec_port_byte(),
            final(self).spec_uuid().spec_rest() == old(self).spec_uuid().spec_rest(),
            same_contents(*final(self), *old(self)),
    {
        let mut uuid = self.header.uuid;
        uuid.make_ait();
        self.header = PacketHeader { uuid };
    }
}

impl Clone for Packet {
    fn clone(&self) -> (p: Self)
        ensures
            p.spec_uuid() == self.spec_uuid(),
            p.spec_msg_id() == self.spec_msg_id(),
            p.spec_size() == self.spec_size(),
            p.spec_is_last() == self.spec_is_last(),
            p.spec_is_blocking() == self.spec_is_blocking(),
            p.spec_direction() == self.spec_direction(),
            p.spec_bytes() == self.spec_bytes(),
            p.spec_count() == self.spec_count(),
    {
        Packet { header: self.header, payload: self.payload.clone(), packet_count: self.packet_count }
    }
}

/// Two packets that agree in everything observable.
pub open spec fn same_packet(p: Packet, q: Packet) -> bool {
    &&& p.spec_uuid() == q.spec_uuid()
    &&& p.spec_msg_id() == q.spec_msg_id()
    &&& p.spec_size() == q.spec_size()
    &&& p.spec_is_last() == q.spec_is_last()
    &&& p.spec_is_blocking() == q.spec_is_blocking()
    &&& p.spec_direction() == q.spec_direction()
    &&& p.spec_bytes() == q.spec_bytes()
    &&& p.spec_count() == q.spec_count()
}

/// Turns a message into packets and back.
pub struct Packetizer {
}

/// Frames messages for the packet layer; the framing itself is JSON and
/// happens where the messages are serialized.
pub struct Serializer {
}

/// Payload size chosen for a message of the given length.
pub open spec fn payload_size_for(len: int) -> int {
    if len - 1 <= PACKET_MIN {
        PAYLOAD_MIN as int
    } else if PAYLOAD_MIN <= len - 1 <= PAYLOAD_MAX {
        len
    } else {
        PAYLOAD_MAX as int
    }
}

/// Number of packets for a message of the given length.
pub open spec fn packet_count_for(len: int) -> int {
    (len + PAYLOAD_MAX - 1) / (PAYLOAD_MAX as int)
}

/// Number of message bytes in the last packet.
pub open spec fn last_size_for(len: int) -> int {
    len - (packet_count_for(len) - 1) * PAYLOAD_MAX
}

/// The payload bytes of packet `i`: the message's bytes from `i` payloads
/// on, padded with the default element.
pub open spec fn chunk(b: Seq<u8>, i: int) -> Seq<u8> {
    Seq::new(
        PAYLOAD_MAX as nat,
        |j: int| if i * PAYLOAD_MAX + j < b.len() { b[i * PAYLOAD_MAX + j] } else { PAYLOAD_DEFAULT_ELEMENT },
    )
}

/// The size field of packet `i`: the byte count in the last packet, the
/// number of packets from this one on in the others.
pub open spec fn size_field(len: int, i: int) -> u16 {
    if i == packet_count_for(len) - 1 {
        last_size_for(len) as u16
    } else {
        (packet_count_for(len) - i) as u16
    }
}

/// The count of the `i`th packet made after `first`, wrapping as the
/// counter does.
pub open spec fn count_after(first: usize, i: int) -> usize {
    if first + i <= usize::MAX {
        (first + i) as usize
    } else {
        (first + i - usize::MAX - 1) as usize
    }
}

/// Packet `i` of the message `b`.
pub open spec fn is_packet_of(p: Packet, uuid: Uuid, b: Seq<u8>, direction: MsgDirection, is_blocking: bool,
    msg_id: MsgID, first_count: usize, i: int) -> bool {
    &&& p.spec_uuid() == uuid
    &&& p.spec_msg_id() == msg_id
    &&& p.spec_size() == PacketNo(size_field(b.len() as int, i))
    &&& p.spec_is_last() == (i == packet_count_for(b.len() as int) - 1)
    &&& p.spec_is_blocking() == is_blocking
    &&& p.spec_direction() == direction
    &&& p.spec_bytes() == chunk(b, i)
    &&& p.spec_count() == count_after(first_count, i)
}

/// The packets of the message `b`, in order.
pub open spec fn is_packetization(ps: Seq<Packet>, uuid: Uuid, b: Seq<u8>, direction: MsgDirection,
    is_blocking: bool, msg_id: MsgID, first_count: usize) -> bool {
    &&& ps.len() == packet_count_for(b.len() as int)
    &&& forall|i: int|
        0 <= i < ps.len() ==> is_packet_of(#[trigger] ps[i], uuid, b, direction, is_blocking, msg_id, first_count, i)
}

/// The bytes a packet contributes to its message: all of them, or in the
/// last packet only as many as its size field says.
pub open spec fn kept_bytes(p: Packet) -> Seq<u8> {
    if p.spec_is_last() && (p.spec_size().0 as int) < p.spec_bytes().len() {
        p.spec_bytes().take(p.spec_size().0 as int)
    } else {
        p.spec_bytes()
    }
}

/// The message the packets carry, packet after packet.
pub open spec fn assembled(ps: Seq<Packet>) -> Seq<u8>
    decreases ps.len(),
{
    if ps.len() == 0 {
        Seq::empty()
    } else {
        assembled(ps.drop_last()) + kept_bytes(ps.last())
    }
}

/// A random message id.
#[verifier::external_body]
fn random_msg_id() -> (id: u64) {
    rand::random::<u64>()
}

pub(crate) proof fn lemma_num_packets(len: int)
    requires
        len >= 1,
    ensures
        packet_count_for(len) >= 1,
        (packet_count_for(len) - 1) * PAYLOAD_MAX < len <= packet_count_for(len) * PAYLOAD_MAX,
        1 <= last_size_for(len) <= PAYLOAD_MAX,
{
    let n = packet_count_for(len);
    let p = PAYLOAD_MAX as int;
    assert(p == 8984);
    assert(n == (len + p - 1) / p);
    assert((len + p - 1) == p * n + (len + p - 1) % p) by (nonlinear_arith)
        requires
            p == 8984,
            n == (len + p - 1) / p,
    ;
    assert(0 <= (len + p - 1) % p < p) by (nonlinear_arith)
        requires
            p == 8984,
    ;
    assert((n - 1) * p == n * p - p) by (nonlinear_arith);
    assert(n * p == p * n) by (nonlinear_arith);
}

impl Packetizer {
    fn packet_payload_size(len: usize) -> (s: usize)
        requires
            len >= 1,
        ensures
            s == payload_size_for(len as int),
    {
        let m = len - 1;
        if m <= PACKET_MIN {
            PAYLOAD_MIN
        } else if PAYLOAD_MIN <= m && m <= PAYLOAD_MAX {
            len
        } else {
            PAYLOAD_MAX
        }
    }

    /// Cuts the message into packets under the given message id; packet `i`
    /// gets the count `first_count + i`.
    pub fn packetize_with_id(tree_id: &TreeID, msg_bytes: &ByteArray, direction: MsgDirection, is_blocking: bool,
        msg_id: MsgID, first_count: usize) -> (packets: Vec<Packet>)
        requires
            msg_bytes.0@.len() >= 1,
            msg_bytes.0@.len() != PAYLOAD_MAX + 1,
            msg_bytes.0@.len() <= usize::MAX - PAYLOAD_MAX,
        ensures
            is_packetization(packets@, tree_id.spec_uuid(), msg_bytes.0@, direction, is_blocking, msg_id, first_count),
    {
        let len = msg_bytes.0.len();
        let payload_size = Packetizer::packet_payload_size(len);
        assert(payload_size == PAYLOAD_MAX);
        proof {
            lemma_num_packets(len as int);
        }
        let num_packets = (len + payload_size - 1) / payload_size;
        assert(num_packets == packet_count_for(len as int));
        let last_packet_size = len - (num_packets - 1) * payload_size;
        let ghost b = msg_bytes.0@;
        let mut packets: Vec<Packet> = Vec::new();
        let mut i: usize = 0;
        while i < num_packets
            invariant
                b == msg_bytes.0@,
                len == b.len(),
                1 <= len <= usize::MAX - PAYLOAD_MAX,
                payload_size == PAYLOAD_MAX,
                num_packets == packet_count_for(len as int),
                num_packets >= 1,
                (num_packets - 1) * PAYLOAD_MAX < len <= num_packets * PAYLOAD_MAX,
                last_packet_size == last_size_for(len as int),
                i <= num_packets,
                packets@.len() == i,
                forall|k: int|
                    0 <= k < i ==> is_packet_of(#[trigger] packets@[k], tree_id.spec_uuid(), b, direction,
                        is_blocking, msg_id, first_count, k),
            decreases num_packets - i,
        {
            let (size, is_last_packet) = if i == num_packets - 1 {
                (last_packet_size, true)
            } else {
                (num_packets - i, false)
            };
            assert(i * PAYLOAD_MAX <= (num_packets - 1) * PAYLOAD_MAX) by (nonlinear_arith)
                requires
                    i <= num_packets - 1,
            ;
            let base = i * payload_size;
            let mut packet_bytes: Vec<u8> = vec![PAYLOAD_DEFAULT_ELEMENT; payload_size];
            let mut j: usize = 0;
            while j < payload_size && base + j < len
                invariant
                    b == msg_bytes.0@,
                    len == b.len(),
                    len <= usize::MAX - PAYLOAD_MAX,
                    payload_size == PAYLOAD_MAX,
                    base == i * PAYLOAD_MAX,
                    base < len,
                    j <= payload_size,
                    base + j <= len,
                    packet_bytes@.len() == payload_size,
                    forall|k: int| 0 <= k < j ==> packet_bytes@[k] == chunk(b, i as int)[k],
                    forall|k: int| j <= k < payload_size ==> packet_bytes@[k] == PAYLOAD_DEFAULT_ELEMENT,
                decreases payload_size - j,
            {
                packet_bytes.set(j, msg_bytes.0[base + j]);
                j = j + 1;
            }
            assert(packet_bytes@ =~= chunk(b, i as int)) by {
                assert forall|k: int| 0 <= k < PAYLOAD_MAX implies packet_bytes@[k] == chunk(b, i as int)[k] by {
                    if k >= j {
                        assert(base + j == len || j == payload_size);
                        assert(i * PAYLOAD_MAX + k >= len);
                    }
                }
            }
            assert(padded(packet_bytes@) =~= packet_bytes@);
            let count = first_count.wrapping_add(i);
            let packet = Packet::new(
                msg_id,
                tree_id,
                PacketNo(#[verifier::truncate] (size as u16)),
                direction,
                is_last_packet,
                is_blocking,
                packet_bytes,
                count,
            );
            packets.push(packet);
            proof {
                assert(is_packet_of(packets@[i as int], tree_id.spec_uuid(), b, direction, is_blocking, msg_id,
                    first_count, i as int));
            }
            i = i + 1;
        }
        packets
    }

    /// Cuts the message into packets that share a random message id;
    /// packet `i` gets the count `first_count + i`.
    pub fn packetize(tree_id: &TreeID, msg_bytes: &ByteArray, direction: MsgDirection, is_blocking: bool,
        first_count: usize) -> (packets: Vec<Packet>)
        requires
            msg_bytes.0@.len() >= 1,
            msg_bytes.0@.len() != PAYLOAD_MAX + 1,
            msg_bytes.0@.len() <= usize::MAX - PAYLOAD_MAX,
        ensures
            exists|msg_id: MsgID|
                is_packetization(packets@, tree_id.spec_uuid(), msg_bytes.0@, direction, is_blocking, msg_id, first_count),
    {
        let msg_id = MsgID(random_msg_id());
        Packetizer::packetize_with_id(tree_id, msg_bytes, direction, is_blocking, msg_id, first_count)
    }

    /// The message the packets carry.
    pub fn unpacketize(packets: &Vec<Packet>) -> (r: Result<ByteArray, PacketError>)
        ensures
            r matches Ok(b) && b.0@ == assembled(packets@),
    {
        let mut all_bytes: Vec<u8> = Vec::new();
        let mut i: usize = 0;
        while i < packets.len()
            invariant
                i <= packets@.len(),
                all_bytes@ == assembled(packets@.take(i as int)),
            decreases packets@.len() - i,
        {
            let packet = &packets[i];
            let is_last_packet = packet.is_last_packet();
            let last_packet_size = packet.get_size().0 as usize;
            let mut bytes = packet.get_bytes();
            if is_last_packet {
                bytes.truncate(last_packet_size);
            }
            assert(bytes@ =~= kept_bytes(packets@[i as int]));
            all_bytes.extend_from_slice(bytes.as_slice());
            proof {
                let prefix = packets@.take(i + 1);
                assert(prefix.drop_last() =~= packets@.take(i as int));
                assert(prefix.last() == packets@[i as int]);
                assert(all_bytes@ =~= assembled(packets@.take(i as int)) + bytes@);
            }
            i = i + 1;
        }
        assert(packets@.take(packets@.len() as int) =~= packets@);
        Ok(ByteArray(all_bytes))
    }
}

/// The first `k` packets of a message carry its first `k` payloads.
proof fn lemma_assembled_prefix(ps: Seq<Packet>, uuid: Uuid, b: Seq<u8>, direction: MsgDirection,
    is_blocking: bool, msg_id: MsgID, first_count: usize, k: int)
    requires
        is_packetization(ps, uuid, b, direction, is_blocking, msg_id, first_count),
        b.len() >= 1,
        0 <= k < ps.len(),
    ensures
        assembled(ps.take(k)) == b.take(k * PAYLOAD_MAX),
    decreases k,
{
    lemma_num_packets(b.len() as int);
    if k == 0 {
        assert(ps.take(0) =~= Seq::<Packet>::empty());
        assert(b.take(0) =~= Seq::<u8>::empty());
    } else {
        lemma_assembled_prefix(ps, uuid, b, direction, is_blocking, msg_id, first_count, k - 1);
        let p = ps[k - 1];
        assert(is_packet_of(p, uuid, b, direction, is_blocking, msg_id, first_count, k - 1));
        assert(ps.take(k).drop_last() =~= ps.take(k - 1));
        assert(ps.take(k).last() == p);
        assert(k * PAYLOAD_MAX <= (ps.len() - 1) * PAYLOAD_MAX) by (nonlinear_arith)
            requires
                k <= ps.len() - 1,
        ;
        assert((k - 1) * PAYLOAD_MAX + PAYLOAD_MAX == k * PAYLOAD_MAX) by (nonlinear_arith);
        assert(kept_bytes(p) == chunk(b, k - 1));
        assert(b.take(k * PAYLOAD_MAX) =~= b.take((k - 1) * PAYLOAD_MAX) + chunk(b, k - 1));
    }
}

/// Unpacketizing the packets of a message gives the message back.
pub proof fn lemma_unpacketize_packetize(ps: Seq<Packet>, uuid: Uuid, b: Seq<u8>, direction: MsgDirection,
    is_blocking: bool, msg_id: MsgID, first_count: usize)
    requires
        is_packetization(ps, uuid, b, direction, is_blocking, msg_id, first_count),
        b.len() >= 1,
    ensures
        assembled(ps) == b,
{
    lemma_num_packets(b.len() as int);
    let n = ps.len();
    lemma_assembled_prefix(ps, uuid, b, direction, is_blocking, msg_id, first_count, n - 1);
    let p = ps[n - 1];
    assert(is_packet_of(p, uuid, b, direction, is_blocking, msg_id, first_count, n - 1));
    assert(ps.drop_last() =~= ps.take(n - 1));
    let last = last_size_for(b.len() as int);
    assert(p.spec_size().0 == last);
    assert(kept_bytes(p) =~= chunk(b, n - 1).take(last));
    assert(b =~= b.take((n - 1) * PAYLOAD_MAX) + chunk(b, n - 1).take(last));
}

/// Collects the packets of one message as they arrive.
#[derive(Debug)]
pub struct PacketAssembler {
    msg_id: MsgID,
    packets: Vec<Packet>,
}

impl PacketAssembler {
    pub closed spec fn spec_msg_id(&self) -> MsgID {
        self.msg_id
    }

    pub closed spec fn spec_packets(&self) -> Seq<Packet> {
        self.packets@
    }

    pub fn new(msg_id: MsgID) -> (a: PacketAssembler)
        ensures
            a.spec_msg_id() == msg_id,
            a.spec_packets() == Seq::<Packet>::empty(),
    {
        PacketAssembler { msg_id, packets: Vec::new() }
    }

    /// An assembler that already holds copies of the packets.
    pub fn create(msg_id: MsgID, packets: &Vec<Packet>) -> (a: PacketAssembler)
        ensures
            a.spec_msg_id() == msg_id,
            a.spec_packets().len() == packets@.len(),
            forall|i: int| 0 <= i < packets@.len() ==> same_packet(#[trigger] a.spec_packets()[i], packets@[i]),
    {
        let mut copies: Vec<Packet> = Vec::new();
        let mut i: usize = 0;
        while i < packets.len()
            invariant
                i <= packets@.len(),
                copies@.len() == i,
                forall|k: int| 0 <= k < i ==> same_packet(#[trigger] copies@[k], packets@[k]),
            decreases packets@.len() - i,
        {
            copies.push(packets[i].clone());
            i = i + 1;
        }
        PacketAssembler { msg_id, packets: copies }
    }

    /// Adds a packet; says whether it was the last one and gives all the
    /// packets so far.
    pub fn add(&mut self, packet: Packet) -> (r: (bool, &Vec<Packet>))
        ensures
            final(self).spec_msg_id() == old(self).spec_msg_id(),
            final(self).spec_packets() == old(self).spec_packets().push(packet),
            r.0 == packet.spec_is_last(),
            r.1@ == final(self).spec_packets(),
    {
        let is_last = packet.is_last_packet();
        self.packets.push(packet);
        (is_last, &self.packets)
    }
}

#[derive(Debug)]
pub enum PacketError {
    Chain { func_name: &'static str, comment: &'static str },
}

} // verus!
