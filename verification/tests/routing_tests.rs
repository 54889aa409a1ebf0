use multicell::config::{CellNo, CellQty, PathLength, PortNo, MAX_PORTS};
use multicell::gvm_equation::{GvmEqn, GvmEquation};
use multicell::name::{CellID, Name, TreeID};
use multicell::port_tree::PortTree;
use multicell::routing_table::{RoutingTable, RoutingTableError};
use multicell::routing_table_entry::RoutingTableEntry;
use multicell::tree::Tree;
use multicell::utility::{Mask, PortNumber};

fn pn(n: u8) -> PortNumber {
    PortNumber::new(PortNo(n), PortNo(MAX_PORTS)).unwrap()
}

#[test]
fn entry_children_and_parent() {
    let tree = TreeID::new("T").unwrap();
    let mut e = RoutingTableEntry::new(&tree, false, pn(1), Mask::empty(), true);
    assert!(!e.is_in_use());
    assert!(e.may_send());
    assert_eq!(e.get_uuid().to_u128(), tree.get_uuid().to_u128());
    e.add_child(pn(2));
    e.add_children(&vec![pn(3), pn(4)]);
    assert!(e.has_child(pn(2)) && e.has_child(pn(3)) && e.has_child(pn(4)));
    assert_eq!(e.get_mask().get_port_nos(), vec![PortNo(2), PortNo(3), PortNo(4)]);
    e.remove_child(pn(3));
    assert!(!e.has_child(pn(3)));
    e.set_parent(pn(5));
    assert_eq!(e.get_parent(), PortNo(5));
    e.set_inuse();
    assert!(e.is_in_use());
    e.disable_send();
    assert!(!e.may_send());
    e.enable_send();
    assert!(e.may_send());
    e.clear_children();
    assert!(e.get_mask().equal(Mask::empty()));
}

#[test]
fn adding_then_removing_a_new_child_restores_the_mask() {
    let tree = TreeID::new("T").unwrap();
    let mut e = RoutingTableEntry::new(&tree, true, pn(0), Mask::new(pn(1)), true);
    let before = e.get_mask();
    e.add_child(pn(6));
    e.remove_child(pn(6));
    assert!(e.get_mask().equal(before));
}

#[test]
fn entry_masks_and_ids() {
    let tree = TreeID::new("T").unwrap();
    let other = TreeID::new("U").unwrap();
    let mut e = RoutingTableEntry::default();
    assert_eq!(e.get_parent(), PortNo(0));
    assert!(!e.is_in_use());
    e.set_tree_id(&other);
    assert_eq!(e.get_uuid().to_u128(), other.get_uuid().to_u128());
    e.set_uuid(&tree.get_uuid());
    assert_eq!(e.get_uuid().to_u128(), tree.get_uuid().to_u128());
    e.set_mask(Mask::new(pn(1)));
    e.or_with_mask(Mask::new(pn(2)));
    assert_eq!(e.get_mask().get_port_nos(), vec![PortNo(1), PortNo(2)]);
    e.and_with_mask(Mask::new(pn(2)));
    assert_eq!(e.get_mask().get_port_nos(), vec![PortNo(2)]);
}

#[test]
fn routing_table_get_after_set() {
    let cell = CellID::new(CellNo(3)).unwrap();
    let mut table = RoutingTable::new(cell).unwrap();
    let t1 = TreeID::new("A").unwrap();
    let t2 = TreeID::new("B").unwrap();
    match table.get_entry(t1.get_uuid()) {
        Err(RoutingTableError::Uuid { func_name, .. }) => assert_eq!(func_name, "get_entry"),
        other => panic!("unexpected {:?}", other),
    }
    let e1 = RoutingTableEntry::new(&t1, true, pn(1), Mask::new(pn(2)), true);
    let e2 = RoutingTableEntry::new(&t2, true, pn(3), Mask::new(pn(4)), false);
    table.set_entry(e1);
    table.set_entry(e2);
    assert_eq!(table.get_entry(t1.get_uuid()).unwrap(), e1);
    assert_eq!(table.get_entry(t2.get_uuid()).unwrap(), e2);
    let e1b = RoutingTableEntry::new(&t1, false, pn(6), Mask::empty(), true);
    table.set_entry(e1b);
    assert_eq!(table.get_entry(t1.get_uuid()).unwrap(), e1b);
    assert_eq!(table.get_entries().len(), 2);
}

#[test]
fn port_tree_entry_starts_with_port_zero() {
    let tree = TreeID::new("T").unwrap().with_root_port_number(&pn(2));
    let mut pt = PortTree::new(&tree, PortNo(3), PathLength(CellQty(4)));
    assert_eq!(pt.get_root_port_no(), PortNo(2));
    assert_eq!(pt.get_in_port_no(), PortNo(3));
    assert_eq!(*pt._get_hops(), PathLength(CellQty(4)));
    assert!(pt._has_child(pn(0)));
    assert!(pt.get_entry().may_send());
    pt.add_child(pn(5));
    assert!(pt._has_child(pn(5)));
    pt.remove_child(pn(5));
    assert!(!pt._has_child(pn(5)));
    assert_eq!(pt.set_parent(pn(1)).get_parent(), PortNo(1));
    assert!(pt.get_port_tree_id().equals(&tree));
}

#[test]
fn tree_children_swap() {
    let id = TreeID::new("T").unwrap();
    let eqn = GvmEquation::new(&vec![GvmEqn::Recv("true")], vec![]);
    let mut tree = Tree::new(&id, &id, &id, &eqn, RoutingTableEntry::default());
    tree.add_child(pn(1));
    assert!(tree.has_child(pn(1)));
    tree.swap_children(pn(1), pn(2));
    assert!(!tree.has_child(pn(1)));
    assert!(tree.has_child(pn(2)));
    tree.remove_child(pn(2));
    assert!(!tree.has_child(pn(2)));
    assert_eq!(tree.get_uuid().to_u128(), id.get_uuid().to_u128());
    assert!(tree.get_stacked_tree_ids().is_empty());
    assert_eq!(tree.get_gvm_eqn().eval_recv(&[]).unwrap(), true);
}
