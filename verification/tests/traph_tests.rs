use multicell::config::{CellNo, CellQty, PathLength, PortNo, MAX_PORTS};
use multicell::gvm_equation::{GvmEqn, GvmEquation, GvmVariable, GvmVariableType};
use multicell::name::{CellID, Name, TreeID};
use multicell::port_tree::PortTree;
use multicell::traph::{PortState, Traph, TraphError};
use multicell::traph_element::TraphElement;
use multicell::utility::{Path, PortNumber};

fn pn(n: u8) -> PortNumber {
    PortNumber::new(PortNo(n), PortNo(MAX_PORTS)).unwrap()
}

fn traph(no_ports: u8) -> (Traph, TreeID) {
    let cell = CellID::new(CellNo(1)).unwrap();
    let tree = TreeID::new("Black").unwrap();
    let eqn = GvmEquation::new(&vec![GvmEqn::Recv("true"), GvmEqn::Send("true")], vec![]);
    (Traph::new(&cell, PortNo(no_ports), &tree, &eqn).unwrap(), tree)
}

#[test]
fn new_traph_has_one_unknown_element_per_port() {
    let (t, tree) = traph(4);
    let elements = t.get_elements();
    assert_eq!(elements.len(), 4);
    for (k, e) in elements.iter().enumerate() {
        assert_eq!(e.get_port_no(), PortNo(k as u8 + 1));
        assert_eq!(e.get_state(), PortState::Unknown);
        assert!(!e.is_connected());
    }
    assert!(t.has_tree(&tree));
    assert!(t.get_tree(&tree.get_uuid()).is_ok());
    assert!(t.get_port_trees().is_empty());
}

#[test]
fn too_many_ports_is_an_error() {
    let cell = CellID::new(CellNo(1)).unwrap();
    let tree = TreeID::new("Black").unwrap();
    let eqn = GvmEquation::new(&vec![], vec![]);
    match Traph::new(&cell, PortNo(MAX_PORTS + 1), &tree, &eqn) {
        Err(TraphError::Chain { func_name, .. }) => assert_eq!(func_name, "new"),
        other => panic!("unexpected {:?}", other),
    }
}

#[test]
fn no_parent_until_one_is_marked() {
    let (mut t, _) = traph(4);
    match t.get_hops() {
        Err(TraphError::ParentElement { func_name, .. }) => assert_eq!(func_name, "get_parent_element"),
        other => panic!("unexpected {:?}", other),
    }
    t.mark_parent(pn(2));
    assert_eq!(t.get_port_status(pn(2)), PortState::Parent);
    assert_eq!(t.get_parent_port().unwrap(), PortNo(3));
    assert!(!t.has_broken_parent());
    t.set_broken(pn(2));
    assert!(t.is_port_broken(pn(2)));
    assert!(t.has_broken_parent());
}

#[test]
fn update_element_records_the_port_and_files_the_entry() {
    let (mut t, tree) = traph(4);
    let path = Path::new(PortNo(1), PortNo(MAX_PORTS)).unwrap();
    let entry = t
        .update_element(&tree, pn(1), PortState::Parent, &vec![pn(2), pn(3)], PathLength(CellQty(2)), path)
        .unwrap();
    assert!(entry.is_in_use());
    assert_eq!(entry.get_parent(), PortNo(1));
    assert!(entry.has_child(pn(2)));
    assert!(entry.has_child(pn(3)));
    assert!(!entry.has_child(pn(4)));
    assert!(t.is_port_connected(pn(1)));
    assert_eq!(t.get_port_status(pn(1)), PortState::Parent);
    let e: &TraphElement = &t.get_elements()[1];
    assert_eq!(e.get_hops(), PathLength(CellQty(2)));
    assert_eq!(t.get_tree_entry(&tree.get_uuid()).unwrap().get_parent(), PortNo(1));
}

#[test]
fn update_element_needs_a_stacked_tree() {
    let (mut t, _) = traph(4);
    let other = TreeID::new("Other").unwrap();
    match t.update_element(&other, pn(1), PortState::Child, &vec![], PathLength(CellQty(1)), Path::new0()) {
        Err(TraphError::Tree { func_name, tree_uuid, .. }) => {
            assert_eq!(func_name, "update_element");
            assert_eq!(tree_uuid.to_u128(), other.get_uuid().to_u128());
        },
        other => panic!("unexpected {:?}", other),
    }
}

#[test]
fn get_params_reports_parent_hops() {
    let (mut t, tree) = traph(4);
    let mut hops = GvmVariable::new(GvmVariableType::PathLength, "hops");
    hops.set_value("0".to_string());
    assert!(t.get_params(&vec![hops.clone()]).is_err());
    t.update_element(&tree, pn(2), PortState::Parent, &vec![], PathLength(CellQty(3)), Path::new0()).unwrap();
    let params = t.get_params(&vec![hops]).unwrap();
    assert_eq!(params.len(), 1);
    assert_eq!(params[0].get_value(), "3");
    let other = GvmVariable::new(GvmVariableType::CellNo, "cells");
    match t.get_params(&vec![other]) {
        Err(TraphError::Gvm { func_name, var_name }) => {
            assert_eq!(func_name, "get_params");
            assert_eq!(var_name, "cells");
        },
        r => panic!("unexpected {:?}", r),
    }
    assert!(t.get_params(&vec![]).unwrap().is_empty());
}

#[test]
fn children_are_added_and_removed_in_all_trees() {
    let (mut t, tree) = traph(4);
    let port_tree_id = tree.with_root_port_number(&pn(1));
    let base = PortTree::new(&tree, PortNo(1), PathLength(CellQty(1)));
    t.add_port_tree(base);
    let with_port = PortTree::new(&port_tree_id, PortNo(1), PathLength(CellQty(1)));
    t.add_port_tree(with_port);
    let entries = t.add_child(&port_tree_id, pn(3)).unwrap();
    assert_eq!(entries.len(), 3);
    assert!(entries.iter().all(|e| e.has_child(pn(3))));
    let entries = t.remove_child(&port_tree_id, pn(3)).unwrap();
    assert!(entries.iter().all(|e| !e.has_child(pn(3))));
    let missing = TreeID::new("Missing").unwrap();
    match t.add_child(&missing, pn(3)) {
        Err(TraphError::Chain { func_name, .. }) => assert_eq!(func_name, "add_or_remove_child"),
        other => panic!("unexpected {:?}", other),
    }
}

#[test]
fn new_parent_is_the_usable_port_with_fewest_hops() {
    let (mut t, tree) = traph(6);
    let far = Path::new(PortNo(1), PortNo(MAX_PORTS)).unwrap();
    t.update_element(&tree, pn(0), PortState::Parent, &vec![], PathLength(CellQty(4)), far).unwrap();
    t.update_element(&tree, pn(2), PortState::Pruned, &vec![], PathLength(CellQty(3)), far).unwrap();
    t.update_element(&tree, pn(3), PortState::Pruned, &vec![], PathLength(CellQty(2)), far).unwrap();
    let broken = Path::new(PortNo(5), PortNo(MAX_PORTS)).unwrap();
    let chosen = t.find_new_parent_port(&tree, broken);
    assert_eq!(chosen, Some(PortNo(3)));
    let next = t.find_new_parent_port(&tree, broken);
    assert_eq!(next, Some(PortNo(2)));
    t.clear_tried_ports(&tree);
    assert_eq!(t.find_new_parent_port(&tree, broken), Some(PortNo(3)));
    assert_eq!(t.find_new_parent_port(&tree, far), None);
}

#[test]
fn one_hop_parent() {
    let (mut t, tree) = traph(4);
    assert!(!t.is_one_hop());
    t.update_element(&tree, pn(1), PortState::Parent, &vec![], PathLength(CellQty(1)), Path::new0()).unwrap();
    assert!(t.is_one_hop());
    assert_eq!(t.get_hops().unwrap(), PathLength(CellQty(1)));
}
