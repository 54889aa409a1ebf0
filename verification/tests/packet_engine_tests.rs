use multicell::config::{ByteArray, CellNo, MsgID, PortNo};
use multicell::ec_message_formats::{CmToPePacket, LinkToPortPacket, PeToCmPacket, PeToPortPacket, PortToPePacket};
use multicell::message::MsgDirection;
use multicell::name::{CellID, Name, TreeID};
use multicell::packet::{Packet, Packetizer};
use multicell::packet_engine::{NumberOfPackets, PacketEngine, PacketEngineError, PeAction};
use multicell::port::{Port, PortAction, PortError, PortStatus};
use multicell::routing_table_entry::RoutingTableEntry;
use multicell::utility::{Mask, PortNumber};
use multicell::uuid_ec::AitState;

fn engine() -> PacketEngine {
    let control = TreeID::new("Control").unwrap();
    PacketEngine::new(CellID::new(CellNo(1)).unwrap(), control.get_uuid(), 10, &vec![]).unwrap()
}

fn packet(tree: &TreeID, id: u64) -> Packet {
    Packetizer::packetize_with_id(tree, &ByteArray(vec![7, 8]), MsgDirection::Leafward, false, MsgID(id), 0).remove(0)
}

fn connect(pe: &mut PacketEngine, port: u8) {
    let mut out = Vec::new();
    pe.listen_port_step(PortToPePacket::Status((PortNo(port), false, PortStatus::Connected)), &mut out).unwrap();
    match &out[0] {
        PeAction::ToCm(PeToCmPacket::Status((p, _, counts, status))) => {
            assert_eq!(*p, PortNo(port));
            assert_eq!(*status, PortStatus::Connected);
            assert_eq!(counts.get_number_seen(), 0);
        },
        other => panic!("unexpected {:?}", other),
    }
}

fn tree_entry(tree: &TreeID, parent: u8, children: &[u8]) -> RoutingTableEntry {
    let ports: Vec<PortNumber> = children.iter().map(|c| PortNumber { port_no: PortNo(*c) }).collect();
    RoutingTableEntry::new(tree, true, PortNumber { port_no: PortNo(parent) }, Mask::make(&ports), true)
}

fn ports_sent(out: &[PeAction]) -> Vec<u8> {
    out.iter()
        .filter_map(|a| match a {
            PeAction::ToPort((p, _)) => Some(p.0),
            _ => None,
        })
        .collect()
}

#[test]
fn a_packet_from_the_parent_goes_leafward_to_the_children() {
    let mut pe = engine();
    connect(&mut pe, 1);
    connect(&mut pe, 2);
    let tree = TreeID::new("T").unwrap();
    let mut out = Vec::new();
    pe.listen_cm_step(CmToPePacket::Entry(tree_entry(&tree, 3, &[1, 2])), &mut out).unwrap();
    assert!(out.is_empty());
    pe.listen_port_step(PortToPePacket::Packet((PortNo(3), packet(&tree, 1))), &mut out).unwrap();
    assert_eq!(ports_sent(&out), vec![1, 2]);
}

#[test]
fn a_packet_from_a_child_goes_rootward_to_the_cell_when_the_parent_is_port_0() {
    let mut pe = engine();
    let tree = TreeID::new("T").unwrap();
    let mut out = Vec::new();
    pe.listen_cm_step(CmToPePacket::Entry(tree_entry(&tree, 0, &[1, 2])), &mut out).unwrap();
    pe.listen_port_step(PortToPePacket::Packet((PortNo(2), packet(&tree, 1))), &mut out).unwrap();
    assert_eq!(out.len(), 1);
    match &out[0] {
        PeAction::ToCm(PeToCmPacket::Packet((p, q))) => {
            assert_eq!(*p, PortNo(2));
            assert_eq!(q.get_msg_id(), MsgID(1));
        },
        other => panic!("unexpected {:?}", other),
    }
}

#[test]
fn a_packet_from_a_child_waits_for_the_parent_port() {
    let mut pe = engine();
    let tree = TreeID::new("T").unwrap();
    let mut out = Vec::new();
    pe.listen_cm_step(CmToPePacket::Entry(tree_entry(&tree, 4, &[1])), &mut out).unwrap();
    pe.listen_port_step(PortToPePacket::Packet((PortNo(1), packet(&tree, 1))), &mut out).unwrap();
    assert!(ports_sent(&out).is_empty());
    connect(&mut pe, 4);
    let mut out = Vec::new();
    pe.listen_port_step(PortToPePacket::Packet((PortNo(1), packet(&tree, 2))), &mut out).unwrap();
    assert_eq!(ports_sent(&out), vec![4]);
}

#[test]
fn a_packet_of_an_unknown_tree_goes_to_the_cell() {
    let mut pe = engine();
    let tree = TreeID::new("Unknown").unwrap();
    let mut out = Vec::new();
    pe.listen_port_step(PortToPePacket::Packet((PortNo(5), packet(&tree, 1))), &mut out).unwrap();
    assert!(matches!(&out[0], PeAction::ToCm(PeToCmPacket::Packet((PortNo(5), _)))));
}

#[test]
fn a_packet_from_the_cell_model_on_an_unknown_tree_is_refused() {
    let mut pe = engine();
    let tree = TreeID::new("Unknown").unwrap();
    let mut out = Vec::new();
    match pe.listen_cm_step(CmToPePacket::Packet((Mask::all_but_zero(PortNo(3)), packet(&tree, 1))), &mut out) {
        Err(PacketEngineError::Chain { func_name, .. }) => assert_eq!(func_name, "route_cm_packet"),
        other => panic!("unexpected {:?}", other),
    }
    assert!(out.is_empty());
}

#[test]
fn a_packet_from_the_cell_model_goes_to_the_masked_children() {
    let mut pe = engine();
    connect(&mut pe, 1);
    connect(&mut pe, 2);
    let tree = TreeID::new("T").unwrap();
    let mut out = Vec::new();
    pe.listen_cm_step(CmToPePacket::Entry(tree_entry(&tree, 0, &[1, 2])), &mut out).unwrap();
    let user = Mask::new(PortNumber { port_no: PortNo(2) });
    pe.listen_cm_step(CmToPePacket::Packet((user, packet(&tree, 1))), &mut out).unwrap();
    assert_eq!(ports_sent(&out), vec![2]);
}

#[test]
fn a_rerouted_port_sends_on_the_new_parent() {
    let mut pe = engine();
    connect(&mut pe, 1);
    connect(&mut pe, 2);
    let tree = TreeID::new("T").unwrap();
    let mut out = Vec::new();
    pe.listen_cm_step(CmToPePacket::Entry(tree_entry(&tree, 0, &[1])), &mut out).unwrap();
    let counts = NumberOfPackets::new();
    assert!(pe.can_reroute(PortNo(1), PortNo(2), counts));
    assert!(!pe.can_reroute(PortNo(12), PortNo(2), counts));
    pe.listen_cm_step(CmToPePacket::Reroute((PortNo(1), PortNo(2), counts)), &mut out).unwrap();
    pe.listen_cm_step(CmToPePacket::Packet((Mask::all_but_zero(PortNo(3)), packet(&tree, 1))), &mut out).unwrap();
    assert_eq!(ports_sent(&out), vec![2]);
}

#[test]
fn a_port_without_a_channel_is_an_error() {
    let control = TreeID::new("Control").unwrap();
    let mut pe = PacketEngine::new(CellID::new(CellNo(1)).unwrap(), control.get_uuid(), 2, &vec![]).unwrap();
    connect(&mut pe, 3);
    let tree = TreeID::new("T").unwrap();
    let mut out = Vec::new();
    pe.listen_cm_step(CmToPePacket::Entry(tree_entry(&tree, 0, &[3])), &mut out).unwrap();
    match pe.listen_cm_step(CmToPePacket::Packet((Mask::all_but_zero(PortNo(4)), packet(&tree, 1))), &mut out) {
        Err(PacketEngineError::Sender { func_name, port_no, .. }) => {
            assert_eq!(func_name, "send_packet");
            assert_eq!(port_no, 3);
        },
        other => panic!("unexpected {:?}", other),
    }
}

#[test]
fn an_ait_packet_from_a_port_goes_to_the_cell() {
    let mut pe = engine();
    let tree = TreeID::new("T").unwrap();
    let mut p = packet(&tree, 1);
    p.make_ait_send();
    assert_eq!(p.get_ait_state(), AitState::Ait);
    let mut out = Vec::new();
    pe.listen_port_step(PortToPePacket::Packet((PortNo(6), p)), &mut out).unwrap();
    assert!(matches!(&out[0], PeAction::ToCm(PeToCmPacket::Packet((PortNo(6), _)))));
}

fn port() -> Port {
    Port::new(CellID::new(CellNo(1)).unwrap(), PortNumber { port_no: PortNo(3) }, false, false).unwrap()
}

#[test]
fn port_status_goes_to_the_packet_engine() {
    let mut p = port();
    assert_eq!(p.get_id().get_name(), "C:1+P:3");
    let out = p.link_step(LinkToPortPacket::Status(PortStatus::Connected)).unwrap();
    assert!(p.is_connected());
    assert!(matches!(&out[0], PortAction::ToPe(PortToPePacket::Status((PortNo(3), false, PortStatus::Connected)))));
}

#[test]
fn port_hands_normal_packets_to_the_packet_engine_and_refuses_ait() {
    let mut p = port();
    let tree = TreeID::new("T").unwrap();
    let out = p.link_step(LinkToPortPacket::Packet(packet(&tree, 1))).unwrap();
    assert!(matches!(&out[0], PortAction::ToPe(PortToPePacket::Packet((PortNo(3), _)))));
    let mut ait = packet(&tree, 2);
    ait.make_ait_send();
    match p.link_step(LinkToPortPacket::Packet(ait)) {
        Err(PortError::Ait { func_name, ait_state }) => {
            assert_eq!(func_name, "listen_link_loop");
            assert_eq!(ait_state, AitState::Ait);
        },
        other => panic!("unexpected {:?}", other),
    }
}

#[test]
fn port_steps_teck_and_tock_back_to_the_link() {
    let mut p = port();
    let tree = TreeID::new("T").unwrap();
    let mut q = packet(&tree, 1);
    q.make_ait_send();
    assert_eq!(q.next_ait_state().unwrap(), AitState::Teck);
    let out = p.link_step(LinkToPortPacket::Packet(q)).unwrap();
    let tack = match &out[..] {
        [PortAction::ToLink(x)] => x.clone(),
        other => panic!("unexpected {:?}", other),
    };
    assert_eq!(tack.get_ait_state(), AitState::Tack);
    let mut tock = tack.clone();
    assert_eq!(tock.next_ait_state().unwrap(), AitState::Tock);
    let out = p.link_step(LinkToPortPacket::Packet(tock)).unwrap();
    assert_eq!(out.len(), 2);
    match (&out[0], &out[1]) {
        (PortAction::ToLink(x), PortAction::ToPe(PortToPePacket::Packet((PortNo(3), y)))) => {
            assert_eq!(x.get_ait_state(), AitState::Tick);
            assert_eq!(y.get_ait_state(), AitState::Ait);
        },
        other => panic!("unexpected {:?}", other),
    }
}

#[test]
fn port_passes_packets_from_the_packet_engine_and_steps_ait() {
    let p = port();
    let tree = TreeID::new("T").unwrap();
    let q = p.pe_step(PeToPortPacket::Packet(packet(&tree, 1))).unwrap();
    assert_eq!(q.get_ait_state(), AitState::Normal);
    let mut a = packet(&tree, 2);
    a.make_ait_send();
    assert_eq!(p.pe_step(PeToPortPacket::Packet(a)).unwrap().get_ait_state(), AitState::Teck);
    match p.pe_step(PeToPortPacket::App(ByteArray(vec![1]))) {
        Err(PortError::App { func_name, port_no }) => {
            assert_eq!(func_name, "listen_pe_loop");
            assert_eq!(port_no, 3);
        },
        other => panic!("unexpected {:?}", other),
    }
}

#[test]
fn counts_track_packets_received_since_the_last_send() {
    let mut pe = engine();
    let tree = TreeID::new("T").unwrap();
    let mut out = Vec::new();
    pe.listen_cm_step(CmToPePacket::Entry(tree_entry(&tree, 0, &[1])), &mut out).unwrap();
    pe.listen_port_step(PortToPePacket::Packet((PortNo(1), packet(&tree, 1))), &mut out).unwrap();
    pe.listen_port_step(PortToPePacket::Packet((PortNo(1), packet(&tree, 2))), &mut out).unwrap();
    let mut out = Vec::new();
    pe.listen_port_step(PortToPePacket::Status((PortNo(1), false, PortStatus::Connected)), &mut out).unwrap();
    match &out[0] {
        PeAction::ToCm(PeToCmPacket::Status((_, _, counts, _))) => {
            assert_eq!(counts.get_number_seen(), 2);
            assert_eq!(counts._get_number_sent(), 0);
        },
        other => panic!("unexpected {:?}", other),
    }
    let mut out = Vec::new();
    pe.listen_cm_step(CmToPePacket::Packet((Mask::all_but_zero(PortNo(3)), packet(&tree, 3))), &mut out).unwrap();
    assert_eq!(ports_sent(&out), vec![1]);
    let mut out = Vec::new();
    pe.listen_port_step(PortToPePacket::Status((PortNo(1), false, PortStatus::Connected)), &mut out).unwrap();
    match &out[0] {
        PeAction::ToCm(PeToCmPacket::Status((_, _, counts, _))) => {
            assert_eq!(counts.get_number_seen(), 0);
            assert_eq!(counts._get_number_sent(), 1);
        },
        other => panic!("unexpected {:?}", other),
    }
}
