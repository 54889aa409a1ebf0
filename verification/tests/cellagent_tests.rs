use multicell::cellagent::{CaMsg, CaToCm, CellAgent, CellagentError};
use multicell::config::{CellConfig, CellNo, CellQty, CellType, PathLength, PortNo};
use multicell::gvm_equation::{GvmEqn, GvmEquation};
use multicell::message::{DiscoverMsg, HelloMsg, MsgDirection, StackTreeDMsg, TcpMsgType};
use multicell::name::{CellID, Name, SenderID, TreeID};
use multicell::utility::Path;

fn agent(no_ports: u8) -> CellAgent {
    let cell_id = CellID::new(CellNo(1)).unwrap();
    CellAgent::new(&cell_id, CellType::Interior, CellConfig::Large, PortNo(no_ports)).unwrap()
}

fn started(no_ports: u8) -> (CellAgent, Vec<CaToCm>) {
    let mut ca = agent(no_ports);
    let mut out = Vec::new();
    ca.initialize(&mut out).unwrap();
    (ca, out)
}

fn is_entry(x: &CaToCm) -> bool {
    matches!(x, CaToCm::Entry(_))
}

#[test]
fn new_agent_names_its_trees_after_the_cell() {
    let ca = agent(3);
    assert_eq!(ca.get_no_ports(), PortNo(3));
    assert_eq!(ca.get_id().get_name(), "C:1");
    assert_eq!(ca.get_my_tree_id().get_name(), "C:1");
    assert_eq!(ca.get_control_tree_id().get_name(), "C:1+Control");
    assert_eq!(ca.get_connected_ports_tree_id().get_name(), "C:1+Connected");
    assert!(!ca.exists_simple(ca.get_my_tree_id()));
    assert!(ca.get_saved_discover().is_empty());
}

#[test]
fn initialize_sets_up_the_three_trees() {
    let (ca, out) = started(3);
    assert_eq!(out.len(), 3);
    assert!(out.iter().all(is_entry));
    assert!(ca.exists_simple(ca.get_control_tree_id()));
    assert!(ca.exists_simple(ca.get_connected_ports_tree_id()));
    assert!(ca.exists_simple(ca.get_my_tree_id()));
    let my_tree = ca.get_my_tree_id().clone();
    assert_eq!(ca.get_base_tree_id(&my_tree).unwrap().get_name(), "C:1");
    assert!(ca.get_traph(&my_tree).is_ok());
    let entry = ca.get_tree_entry(&my_tree).unwrap();
    assert!(entry.is_in_use());
}

#[test]
fn interior_port_sends_entry_hello_and_own_discover() {
    let (mut ca, _) = started(3);
    let mut out = Vec::new();
    ca.port_connected(PortNo(1), false, &mut out).unwrap();
    assert_eq!(out.len(), 3);
    assert!(is_entry(&out[0]));
    match &out[1] {
        CaToCm::Msg { tree_id, is_ait, msg: CaMsg::Hello(_), .. } => {
            assert_eq!(tree_id.get_name(), "C:1+Connected");
            assert!(*is_ait);
        },
        other => panic!("expected a hello, got {:?}", other),
    }
    match &out[2] {
        CaToCm::Msg { msg: CaMsg::Discover(d), mask, .. } => {
            assert_eq!(d.get_payload().get_tree_id().get_name(), "C:1");
            assert_eq!(mask.get_port_nos(), vec![PortNo(1)]);
        },
        other => panic!("expected a discover, got {:?}", other),
    }
}

#[test]
fn port_beyond_the_cell_is_refused() {
    let (mut ca, _) = started(3);
    let mut out = Vec::new();
    match ca.port_connected(PortNo(9), false, &mut out) {
        Err(CellagentError::Utility(_)) => {},
        other => panic!("expected a port number error, got {:?}", other),
    }
    assert!(out.is_empty());
}

#[test]
fn border_port_gets_a_tree_to_the_outside() {
    let (mut ca, _) = started(3);
    let mut out = Vec::new();
    ca.port_connected(PortNo(2), true, &mut out).unwrap();
    match out.last() {
        Some(CaToCm::Tcp { msg_type, .. }) => assert_eq!(*msg_type, TcpMsgType::TreeName),
        other => panic!("expected a tree name for the partner, got {:?}", other),
    }
}

#[test]
fn discover_of_a_new_tree_is_adopted_and_spread() {
    let (mut ca, _) = started(3);
    let other_cell = CellID::new(CellNo(2)).unwrap();
    let other_tree = TreeID::new("C:2").unwrap();
    let sender = SenderID::new(&other_cell, "CellAgent").unwrap();
    let path = Path::new(PortNo(1), PortNo(3)).unwrap();
    let msg = DiscoverMsg::new(&sender, &other_tree, &other_cell, PathLength(CellQty(1)), path);
    let mut out = Vec::new();
    ca.process_discover_msg(&msg, PortNo(1), &mut out).unwrap();
    assert!(ca.exists_simple(&other_tree));
    assert!(!out.is_empty());
    assert_eq!(ca.get_saved_discover().len(), 1);
}

#[test]
fn hello_from_a_neighbour_is_accepted() {
    let (mut ca, _) = started(3);
    let other_cell = CellID::new(CellNo(2)).unwrap();
    let sender = SenderID::new(&other_cell, "CellAgent").unwrap();
    let msg = HelloMsg::new(&sender, &other_cell, PortNo(2));
    assert!(ca.process_hello_msg(&msg, PortNo(1)).is_ok());
}

#[test]
fn stack_tree_d_for_an_unknown_tree_is_an_error() {
    let (mut ca, _) = started(3);
    let other_cell = CellID::new(CellNo(2)).unwrap();
    let sender = SenderID::new(&other_cell, "CellAgent").unwrap();
    let unknown = TreeID::new("Nowhere").unwrap();
    let msg = StackTreeDMsg::new(&sender, &unknown);
    let mut out = Vec::new();
    assert!(ca.process_stack_tree_d_msg(&msg, PortNo(1), &mut out).is_err());
    assert!(out.is_empty());
}

#[test]
fn stack_tree_d_adds_the_child_port() {
    let (mut ca, _) = started(3);
    let other_cell = CellID::new(CellNo(2)).unwrap();
    let sender = SenderID::new(&other_cell, "CellAgent").unwrap();
    let my_tree = ca.get_my_tree_id().clone();
    let msg = StackTreeDMsg::new(&sender, &my_tree);
    let mut out = Vec::new();
    ca.process_stack_tree_d_msg(&msg, PortNo(2), &mut out).unwrap();
    assert!(is_entry(&out[0]));
    assert!(matches!(out.last(), Some(CaToCm::Unblock)));
    let entry = ca.get_tree_entry(&my_tree).unwrap();
    assert!(entry.get_mask().get_port_nos().contains(&PortNo(2)));
}

fn params(pairs: &[(&str, &str)]) -> Vec<(String, String)> {
    pairs.iter().map(|(k, v)| (k.to_string(), v.to_string())).collect()
}

fn equation() -> GvmEquation {
    GvmEquation::new(&vec![GvmEqn::Recv("true"), GvmEqn::Send("true"), GvmEqn::Xtnd("true"), GvmEqn::Save("false")], vec![])
}

#[test]
fn tcp_stack_tree_needs_the_parent_name() {
    let (mut ca, _) = started(3);
    let cell = ca.get_id();
    let sender = SenderID::new(&cell, "Border").unwrap();
    let mut out = Vec::new();
    let eqn = equation();
    let r = ca.tcp_stack_tree(&sender, &params(&[("new_tree_name", "Up")]), Some(&eqn), MsgDirection::Leafward, &vec![], &mut out);
    match r {
        Err(CellagentError::Message { func_name, .. }) => assert_eq!(func_name, "get_param"),
        other => panic!("expected a missing parameter, got {:?}", other),
    }
    assert!(out.is_empty());
}

#[test]
fn tcp_stack_tree_needs_a_known_parent() {
    let (mut ca, _) = started(3);
    let cell = ca.get_id();
    let sender = SenderID::new(&cell, "Border").unwrap();
    let mut out = Vec::new();
    let eqn = equation();
    let msg = params(&[("parent_tree_name", "Base"), ("new_tree_name", "Up"), ("gvm_eqn", "{}")]);
    match ca.tcp_stack_tree(&sender, &msg, Some(&eqn), MsgDirection::Leafward, &vec![], &mut out) {
        Err(CellagentError::TreeMap { func_name, tree_name, .. }) => {
            assert_eq!(func_name, "tcp_stack_tree");
            assert_eq!(tree_name.get_name(), "Base");
        },
        other => panic!("expected an unknown tree, got {:?}", other),
    }
}

#[test]
fn tcp_stack_tree_stacks_and_names_the_new_tree() {
    let (mut ca, _) = started(3);
    let cell = ca.get_id();
    let sender = SenderID::new(&cell, "Border").unwrap();
    let my_tree = ca.get_my_tree_id().clone();
    let tree_map = vec![("Base".to_string(), my_tree.clone())];
    let msg = params(&[("parent_tree_name", "Base"), ("new_tree_name", "Up"), ("gvm_eqn", "{}")]);
    let eqn = equation();
    let mut out = Vec::new();
    let updated = ca.tcp_stack_tree(&sender, &msg, Some(&eqn), MsgDirection::Leafward, &tree_map, &mut out).unwrap();
    assert_eq!(updated.len(), 2);
    let new_tree = updated.iter().find(|(n, _)| n == "Up").map(|(_, t)| t.clone()).unwrap();
    assert_eq!(new_tree.get_name(), "C:1+Up");
    assert!(ca.get_tree_entry(&new_tree).is_ok());
    assert_eq!(ca.get_saved_stack_tree(&my_tree).len(), 1);
    assert!(out.iter().any(|x| matches!(x, CaToCm::Msg { msg: CaMsg::StackTree(_), .. })));
}

#[test]
fn tcp_stack_tree_without_an_equation_is_an_error() {
    let (mut ca, _) = started(3);
    let cell = ca.get_id();
    let sender = SenderID::new(&cell, "Border").unwrap();
    let my_tree = ca.get_my_tree_id().clone();
    let tree_map = vec![("Base".to_string(), my_tree)];
    let msg = params(&[("parent_tree_name", "Base"), ("new_tree_name", "Up"), ("gvm_eqn", "not an equation")]);
    let mut out = Vec::new();
    match ca.tcp_stack_tree(&sender, &msg, None, MsgDirection::Leafward, &tree_map, &mut out) {
        Err(CellagentError::Chain { comment, .. }) => assert_eq!(comment, "gvm"),
        other => panic!("expected an unreadable equation, got {:?}", other),
    }
}
