use multicell::cellagent::{CaMsg, CaStep, CaToCm, CellAgent, CellagentError, CmToCa, TcpRequest};
use multicell::config::{CellConfig, CellNo, CellQty, CellType, PathLength, PortNo};
use multicell::gvm_equation::{GvmEqn, GvmEquation};
use multicell::message::{
    ApplicationMsg, FailoverDMsg, FailoverMsg, ManifestMsg, Message, MsgDirection, TcpMsgType,
};
use multicell::name::{CellID, Name, SenderID, TreeID, VmID};
use multicell::uptree_spec::{AllowedTree, ContainerSpec, Manifest, VmSpec};
use multicell::utility::{Path, UtilityError};

fn started() -> (CellAgent, Vec<CaToCm>) {
    let cell_id = CellID::new(CellNo(1)).unwrap();
    let mut ca = CellAgent::new(&cell_id, CellType::Border, CellConfig::Large, PortNo(3)).unwrap();
    let mut out = Vec::new();
    ca.initialize(&mut out).unwrap();
    (ca, out)
}

/// The agent with a border port on port 2, and the sender of that port.
fn with_border() -> (CellAgent, SenderID) {
    let (mut ca, _) = started();
    let mut out = Vec::new();
    ca.port_connected(PortNo(2), true, &mut out).unwrap();
    let sender = match out.last() {
        Some(CaToCm::Tcp { msg, .. }) => msg.get_header().get_sender_id().clone(),
        other => panic!("expected the tree name for the partner, got {:?}", other),
    };
    (ca, sender)
}

fn equation() -> GvmEquation {
    GvmEquation::new(&vec![GvmEqn::Recv("true"), GvmEqn::Send("true"), GvmEqn::Xtnd("true"), GvmEqn::Save("true")], vec![])
}

fn manifest() -> Manifest {
    let base = AllowedTree::new("Base");
    let c1 = ContainerSpec::new("c1", "NocMaster", vec![], &vec![&base]).unwrap();
    let vm = VmSpec::new("vm1", "Ubuntu", CellConfig::Large, &vec![&base], vec![&c1], vec![]).unwrap();
    let deploy = AllowedTree::new("Base");
    Manifest::new("m1", CellConfig::Large, &deploy, &vec![&base], vec![&vm], vec![]).unwrap()
}

#[test]
fn failover_d_for_an_unknown_tree_is_an_error() {
    let (mut ca, _) = started();
    let cell = ca.get_id();
    let sender = SenderID::new(&cell, "CellAgent").unwrap();
    let unknown = TreeID::new("Nowhere").unwrap();
    let path = Path::new(PortNo(1), PortNo(3)).unwrap();
    let msg = FailoverDMsg::new(&sender, &unknown, PathLength(CellQty(2)), path);
    assert!(ca.process_failover_d_msg(&msg, PortNo(1)).is_err());
}

#[test]
fn failover_d_makes_the_port_the_parent() {
    let (mut ca, _) = started();
    let cell = ca.get_id();
    let sender = SenderID::new(&cell, "CellAgent").unwrap();
    let my_tree = ca.get_my_tree_id().clone();
    let path = Path::new(PortNo(1), PortNo(3)).unwrap();
    let msg = FailoverDMsg::new(&sender, &my_tree, PathLength(CellQty(2)), path);
    ca.process_failover_d_msg(&msg, PortNo(1)).unwrap();
    let entry = ca.get_tree_entry(&my_tree).unwrap();
    assert!(entry.is_in_use());
    assert_eq!(entry.get_parent(), PortNo(1));
}

#[test]
fn failover_request_is_answered_through_the_port() {
    let (mut ca, _) = started();
    let cell = ca.get_id();
    let sender = SenderID::new(&cell, "CellAgent").unwrap();
    let my_tree = ca.get_my_tree_id().clone();
    let broken = Path::new(PortNo(1), PortNo(3)).unwrap();
    let msg = FailoverMsg::new(&sender, &my_tree, broken);
    let mut out = Vec::new();
    ca.process_failover_msg(&msg, PortNo(2), &mut out).unwrap();
    assert_eq!(out.len(), 2);
    match &out[0] {
        CaToCm::Entry(e) => assert!(e.get_mask().get_port_nos().contains(&PortNo(2))),
        other => panic!("expected the new parent entry, got {:?}", other),
    }
    match &out[1] {
        CaToCm::Msg { msg: CaMsg::FailoverD(d), mask, .. } => {
            assert_eq!(d.get_payload().get_port_tree_id().get_name(), "C:1");
            assert_eq!(mask.get_port_nos(), vec![PortNo(2)]);
        },
        other => panic!("expected the failover answer, got {:?}", other),
    }
}

#[test]
fn disconnected_port_leaves_the_connected_tree() {
    let (mut ca, _) = started();
    let mut out = Vec::new();
    ca.port_connected(PortNo(1), false, &mut out).unwrap();
    let mut out = Vec::new();
    ca.port_disconnected(PortNo(1), &mut out).unwrap();
    assert!(!out.is_empty());
    match &out[0] {
        CaToCm::Entry(e) => assert!(!e.get_mask().get_port_nos().contains(&PortNo(1))),
        other => panic!("expected the connected-ports entry, got {:?}", other),
    }
}

#[test]
fn disconnecting_a_port_beyond_the_cell_is_refused() {
    let (mut ca, _) = started();
    let mut out = Vec::new();
    match ca.port_disconnected(PortNo(7), &mut out) {
        Err(CellagentError::Utility(UtilityError::PortNumber { .. })) => {},
        other => panic!("expected a port number error, got {:?}", other),
    }
    assert!(out.is_empty());
}

#[test]
fn deploy_needs_the_senders_tree_names() {
    let (ca, _) = started();
    let cell = ca.get_id();
    let stranger = SenderID::new(&cell, "Stranger").unwrap();
    match ca.deploy(&stranger, &vec![], &manifest()) {
        Err(CellagentError::TreeNameMap { func_name, .. }) => assert_eq!(func_name, "deploy"),
        other => panic!("expected an unknown sender, got {:?}", other),
    }
}

#[test]
fn deploy_needs_every_allowed_tree() {
    let (ca, sender) = with_border();
    match ca.deploy(&sender, &vec![], &manifest()) {
        Err(CellagentError::TreeMap { func_name, tree_name, .. }) => {
            assert_eq!(func_name, "deploy");
            assert_eq!(tree_name.get_name(), "Base");
        },
        other => panic!("expected a missing tree, got {:?}", other),
    }
}

#[test]
fn deployed_vm_gets_the_application_messages_of_its_trees() {
    let (mut ca, sender) = with_border();
    let my_tree = ca.get_my_tree_id().clone();
    let msg_tree_map = vec![("Base".to_string(), my_tree.clone())];
    let m = manifest();
    let tree_map = ca.deploy(&sender, &msg_tree_map, &m).unwrap();
    assert!(tree_map.iter().any(|(n, t)| n == "Base" && t.get_name() == "C:1"));
    let vm_spec = &m.get_vms()[0];
    let cell = ca.get_id();
    let vm_id = VmID::new(&cell, vm_spec.get_id()).unwrap();
    let (vm_sender, trees) = ca.deploy_vm(&sender, &vm_id, &tree_map, vm_spec).unwrap();
    assert_eq!(vm_sender.get_name(), "Sender:C:1+VM:C:1+vm1");
    assert_eq!(trees.len(), 2);
    let body_msg = ApplicationMsg::new(&vm_sender, false, &my_tree, MsgDirection::Leafward, "hello");
    let mut out = Vec::new();
    ca.process_application_msg(&body_msg, PortNo(1), &my_tree, false, &mut out).unwrap();
    assert_eq!(out.len(), 1);
    match &out[0] {
        CaToCm::ToVm { vm_id: v, body, .. } => {
            assert_eq!(v.get_name(), vm_id.get_name());
            assert_eq!(body.as_slice(), "hello".as_bytes());
        },
        other => panic!("expected a delivery to the VM, got {:?}", other),
    }
}

#[test]
fn application_message_without_vms_is_an_error() {
    let (mut ca, _) = started();
    let cell = ca.get_id();
    let sender = SenderID::new(&cell, "CellAgent").unwrap();
    let my_tree = ca.get_my_tree_id().clone();
    let msg = ApplicationMsg::new(&sender, false, &my_tree, MsgDirection::Leafward, "hi");
    let mut out = Vec::new();
    match ca.process_application_msg(&msg, PortNo(1), &my_tree, false, &mut out) {
        Err(CellagentError::Tree { func_name, .. }) => assert_eq!(func_name, "get_vm_senders"),
        other => panic!("expected no VM on the tree, got {:?}", other),
    }
    assert!(out.is_empty());
}

#[test]
fn manifest_message_on_a_known_tree_is_accepted() {
    let (mut ca, sender) = with_border();
    let my_tree = ca.get_my_tree_id().clone();
    let msg = ManifestMsg::new(&sender, false, &my_tree, &vec![("Base".to_string(), my_tree.clone())], &manifest());
    assert!(ca.process_manifest_msg(&msg, PortNo(1), &my_tree).is_ok());
}

#[test]
fn interior_port_event_is_handled_as_a_connection() {
    let (mut ca, _) = started();
    let mut out = Vec::new();
    let step = ca.listen_cm_step(&CmToCa::Status { port_no: PortNo(1), is_border: false, connected: true }, &mut out).unwrap();
    assert!(matches!(step, CaStep::Done));
    assert_eq!(out.len(), 3);
}

fn tcp_event(port: u8, msg_type: TcpMsgType, serialized: &str) -> CmToCa {
    CmToCa::Tcp {
        port_no: PortNo(port),
        is_ait: false,
        allowed_tree: AllowedTree::new("Base"),
        msg_type,
        direction: MsgDirection::Leafward,
        serialized: serialized.to_string(),
        req: TcpRequest { gvm_eqn: Some(equation()), manifest: None },
    }
}

#[test]
fn request_on_an_interior_port_is_refused() {
    let (mut ca, _) = started();
    let mut out = Vec::new();
    match ca.listen_cm_step(&tcp_event(1, TcpMsgType::Query, "{}"), &mut out) {
        Err(CellagentError::Border { func_name, port_no, .. }) => {
            assert_eq!(func_name, "listen_cm_loop");
            assert_eq!(port_no, 1);
        },
        other => panic!("expected a non-border port, got {:?}", other.map(|_| ())),
    }
}

#[test]
fn stack_tree_request_from_the_partner_is_carried_out() {
    let (mut ca, _) = with_border();
    let params = r#"{"parent_tree_name": "Base", "new_tree_name": "Up", "gvm_eqn": "{}"}"#;
    let mut out = Vec::new();
    let step = ca.listen_cm_step(&tcp_event(2, TcpMsgType::StackTree, params), &mut out).unwrap();
    assert!(matches!(step, CaStep::Done));
    assert!(out.iter().any(|x| matches!(x, CaToCm::Msg { msg: CaMsg::StackTree(_), .. })));
}

#[test]
fn unreadable_stack_tree_request_is_an_error() {
    let (mut ca, _) = with_border();
    let mut out = Vec::new();
    match ca.listen_cm_step(&tcp_event(2, TcpMsgType::StackTree, "[1, 2]"), &mut out) {
        Err(CellagentError::Chain { func_name, comment }) => {
            assert_eq!(func_name, "tcp_stack_tree");
            assert_eq!(comment, "deserialize");
        },
        other => panic!("expected an unreadable request, got {:?}", other.map(|_| ())),
    }
}

#[test]
fn delete_tree_request_is_not_implemented() {
    let (mut ca, _) = with_border();
    let mut out = Vec::new();
    match ca.listen_cm_step(&tcp_event(2, TcpMsgType::DeleteTree, "{}"), &mut out) {
        Err(CellagentError::Utility(UtilityError::Unimplemented { func_name, .. })) => assert_eq!(func_name, "tcp_delete_tree"),
        other => panic!("expected an unimplemented request, got {:?}", other.map(|_| ())),
    }
}

#[test]
fn manifest_message_asks_the_caller_to_deploy() {
    let (mut ca, sender) = with_border();
    let my_tree = ca.get_my_tree_id().clone();
    let msg = ManifestMsg::new(&sender, false, &my_tree, &vec![("Base".to_string(), my_tree.clone())], &manifest());
    let elsewhere = TreeID::new("Elsewhere").unwrap();
    let event = CmToCa::Msg { port_no: PortNo(1), is_ait: false, uuid: elsewhere.get_uuid(), msg: CaMsg::Manifest(msg) };
    let mut out = Vec::new();
    match ca.listen_cm_step(&event, &mut out) {
        Ok(CaStep::Deploy { sender_id, tree_map, msg_tree_id }) => {
            assert_eq!(msg_tree_id.get_name(), "C:1+Control");
            assert_eq!(sender_id.get_name(), sender.get_name());
            assert!(tree_map.iter().any(|(n, _)| n == "Base"));
        },
        other => panic!("expected a deployment, got {:?}", other.map(|_| ())),
    }
    assert!(out.is_empty());
}

#[test]
fn vm_request_from_an_unknown_sender_is_refused() {
    let (mut ca, _) = started();
    let cell = ca.get_id();
    let stranger = SenderID::new(&cell, "Stranger").unwrap();
    let req = TcpRequest { gvm_eqn: None, manifest: None };
    let mut out = Vec::new();
    let r = ca.listen_uptree_step(&stranger, false, &AllowedTree::new("Base"), TcpMsgType::Application, MsgDirection::Leafward,
        "hi", &req, &mut out);
    match r {
        Err(CellagentError::TreeNameMap { func_name, .. }) => assert_eq!(func_name, "listen_uptree_loop"),
        other => panic!("expected an unknown sender, got {:?}", other),
    }
}
