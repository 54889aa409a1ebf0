use multicell::config::{ByteArray, MsgID};
use multicell::message::MsgDirection;
use multicell::name::{Name, TreeID};
use multicell::packet::Packetizer;

#[test]
fn packetize_then_unpacketize_gives_message_back() {
    let tree_id = TreeID::new("Tree").unwrap();
    let bytes: Vec<u8> = (0..20000u32).map(|i| (i % 251) as u8).collect();
    let packets = Packetizer::packetize(&tree_id, &ByteArray(bytes.clone()), MsgDirection::Leafward, false, 0);
    assert_eq!(packets.len(), 3);
    let back = Packetizer::unpacketize(&packets).unwrap();
    assert_eq!(back.0, bytes);
    let id = packets[0].get_msg_id();
    assert!(packets.iter().all(|p| p.get_msg_id() == id));
    let _ = MsgID(0);
}

use multicell::packet::{PacketAssembler, Payload, PAYLOAD_MAX};
use multicell::config::PacketNo;

#[test]
fn packet_fields_follow_the_message() {
    let tree_id = TreeID::new("Tree").unwrap();
    let bytes: Vec<u8> = vec![5; PAYLOAD_MAX + 10];
    let packets =
        Packetizer::packetize_with_id(&tree_id, &ByteArray(bytes), MsgDirection::Rootward, true, MsgID(42), 7);
    assert_eq!(packets.len(), 2);
    assert_eq!(packets[0].get_msg_id(), MsgID(42));
    assert!(!packets[0].is_last_packet());
    assert_eq!(packets[0].get_size(), PacketNo(2));
    assert!(packets[1].is_last_packet());
    assert_eq!(packets[1].get_size(), PacketNo(10));
    assert!(packets[1].is_blocking());
    assert!(packets[0].is_rootcast());
    assert!(!packets[0].is_leafcast());
    assert_eq!(packets[1].get_count(), 8);
    assert_eq!(packets[1].get_bytes().len(), PAYLOAD_MAX);
    assert_eq!(&packets[1].get_bytes()[..12], &[5, 5, 5, 5, 5, 5, 5, 5, 5, 5, 0, 0]);
    assert_eq!(packets[0].get_tree_uuid().to_u128(), tree_id.get_uuid().to_u128());
    assert_eq!(packets[0].get_header().get_uuid().to_u128(), tree_id.get_uuid().to_u128());
}

#[test]
fn a_message_of_one_full_payload_is_one_packet() {
    let tree_id = TreeID::new("Tree").unwrap();
    let bytes: Vec<u8> = vec![1; PAYLOAD_MAX];
    let packets = Packetizer::packetize_with_id(&tree_id, &ByteArray(bytes.clone()), MsgDirection::Leafward, false, MsgID(1), 0);
    assert_eq!(packets.len(), 1);
    assert_eq!(packets[0].get_size(), PacketNo(PAYLOAD_MAX as u16));
    assert_eq!(Packetizer::unpacketize(&packets).unwrap().0, bytes);
    let one = Packetizer::packetize_with_id(&tree_id, &ByteArray(vec![3]), MsgDirection::Leafward, false, MsgID(1), 0);
    assert_eq!(Packetizer::unpacketize(&one).unwrap().0, vec![3]);
}

#[test]
fn payload_pads_with_zeros() {
    let p = Payload::new(MsgID(3), PacketNo(2), MsgDirection::Leafward, true, false, vec![7, 8]);
    let mut a = PacketAssembler::new(MsgID(3));
    let tree_id = TreeID::new("T").unwrap();
    let packets = Packetizer::packetize_with_id(&tree_id, &ByteArray(vec![1, 2]), MsgDirection::Leafward, false, MsgID(3), 0);
    let (last, all) = a.add(packets[0].clone());
    assert!(last);
    assert_eq!(all.len(), 1);
    let b = PacketAssembler::create(MsgID(3), &packets);
    let _ = b;
    let _ = p;
}
