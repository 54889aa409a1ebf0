use multicell::cmodel::{CmOutput, Cmodel};
use multicell::config::{ByteArray, CellNo, MsgID, PortNo, MAX_PORTS};
use multicell::ec_message_formats::{CaToCmBytes, CmToCaBytes, CmToPePacket, PeToCmPacket};
use multicell::message::MsgDirection;
use multicell::name::{CellID, Name, TreeID};
use multicell::packet::Packetizer;
use multicell::packet_engine::NumberOfPackets;
use multicell::port::PortStatus;
use multicell::routing_table_entry::RoutingTableEntry;
use multicell::utility::{Mask, PortNumber};
use multicell::uuid_ec::AitState;

fn cmodel() -> Cmodel {
    Cmodel::new(CellID::new(CellNo(2)).unwrap())
}

#[test]
fn entries_and_statuses_pass_through() {
    let cm = cmodel();
    assert_eq!(cm.get_name(), "C:2");
    assert_eq!(cm.get_cell_id().get_name(), "C:2");
    let entry = RoutingTableEntry::default();
    let out = cm.listen_ca(CaToCmBytes::Entry(entry), 0);
    assert_eq!(out.len(), 1);
    match &out[0] {
        CmOutput::ToPe(CmToPePacket::Entry(e)) => assert_eq!(*e, entry),
        other => panic!("unexpected {:?}", other),
    }
    let out = cm.listen_ca(CaToCmBytes::Status((PortNo(1), true, NumberOfPackets::new(), PortStatus::Connected)), 0);
    match &out[0] {
        CmOutput::ToCa(CmToCaBytes::Status((p, b, _, s))) => {
            assert_eq!(*p, PortNo(1));
            assert!(*b);
            assert_eq!(*s, PortStatus::Connected);
        },
        other => panic!("unexpected {:?}", other),
    }
}

#[test]
fn bytes_are_packetized_for_the_packet_engine() {
    let cm = cmodel();
    let tree = TreeID::new("T").unwrap();
    let mask = Mask::new(PortNumber::new(PortNo(3), PortNo(MAX_PORTS)).unwrap());
    let bytes: Vec<u8> = (0..10000u32).map(|i| (i % 7) as u8).collect();
    let out = cm.listen_ca(
        CaToCmBytes::Bytes((tree.clone(), true, mask, MsgDirection::Rootward, false, ByteArray(bytes.clone()))),
        100,
    );
    assert_eq!(out.len(), 2);
    let mut packets = Vec::new();
    for (i, o) in out.iter().enumerate() {
        match o {
            CmOutput::ToPe(CmToPePacket::Packet((m, p))) => {
                assert!(m.equal(mask));
                assert_eq!(p.get_count(), 100 + i);
                assert_eq!(p.get_uuid().get_ait_state(), AitState::Ait);
                packets.push(p.clone());
            },
            other => panic!("unexpected {:?}", other),
        }
    }
    assert_eq!(Packetizer::unpacketize(&packets).unwrap().0, bytes);
}

#[test]
fn a_one_packet_message_goes_to_the_cell_agent() {
    let mut cm = cmodel();
    let tree = TreeID::new("T").unwrap();
    let packets =
        Packetizer::packetize_with_id(&tree, &ByteArray(vec![1, 2, 3]), MsgDirection::Leafward, false, MsgID(7), 0);
    assert_eq!(packets.len(), 1);
    let out = cm.listen_pe(PeToCmPacket::Packet((PortNo(4), packets[0].clone())));
    match out {
        Some(CmToCaBytes::Bytes((port, is_ait, uuid, bytes))) => {
            assert_eq!(port, PortNo(4));
            assert!(!is_ait);
            assert_eq!(uuid.to_u128(), tree.get_uuid().to_u128());
            assert_eq!(bytes.0, vec![1, 2, 3]);
        },
        other => panic!("unexpected {:?}", other),
    }
}

#[test]
fn a_message_of_two_packets_is_handed_on_whole() {
    let mut cm = cmodel();
    let tree = TreeID::new("T").unwrap();
    let bytes: Vec<u8> = vec![9; 9000];
    let packets = Packetizer::packetize_with_id(&tree, &ByteArray(bytes), MsgDirection::Leafward, false, MsgID(1), 0);
    assert_eq!(packets.len(), 2);
    assert!(cm.listen_pe(PeToCmPacket::Packet((PortNo(1), packets[0].clone()))).is_none());
    match cm.listen_pe(PeToCmPacket::Packet((PortNo(1), packets[1].clone()))) {
        Some(CmToCaBytes::Bytes((_, _, _, b))) => assert_eq!(b.0, vec![9; 9000]),
        other => panic!("unexpected {:?}", other),
    }
}

#[test]
fn interleaved_messages_are_assembled_apart() {
    let mut cm = cmodel();
    let tree = TreeID::new("T").unwrap();
    let a = Packetizer::packetize_with_id(&tree, &ByteArray(vec![1; 9000]), MsgDirection::Leafward, false, MsgID(1), 0);
    let b = Packetizer::packetize_with_id(&tree, &ByteArray(vec![2; 9000]), MsgDirection::Leafward, false, MsgID(2), 0);
    assert!(cm.listen_pe(PeToCmPacket::Packet((PortNo(1), a[0].clone()))).is_none());
    assert!(cm.listen_pe(PeToCmPacket::Packet((PortNo(2), b[0].clone()))).is_none());
    match cm.listen_pe(PeToCmPacket::Packet((PortNo(2), b[1].clone()))) {
        Some(CmToCaBytes::Bytes((p, _, _, bytes))) => {
            assert_eq!(p, PortNo(2));
            assert_eq!(bytes.0, vec![2; 9000]);
        },
        other => panic!("unexpected {:?}", other),
    }
    match cm.listen_pe(PeToCmPacket::Packet((PortNo(1), a[1].clone()))) {
        Some(CmToCaBytes::Bytes((p, _, _, bytes))) => {
            assert_eq!(p, PortNo(1));
            assert_eq!(bytes.0, vec![1; 9000]);
        },
        other => panic!("unexpected {:?}", other),
    }
}
