use multicell::config::{CellNo, PortNo};
use multicell::name::{CellID, ContainerID, LinkID, Name, NameError, PortID, SenderID, TreeID, UptreeID, VmID};
use multicell::name_type::{str_from_chars, str_to_chars};
use multicell::utility::PortNumber;
use multicell::uuid_ec::AitState;

#[test]
fn cell_and_port_names() {
    let cell = CellID::new(CellNo(12)).unwrap();
    assert_eq!(cell.get_name(), "C:12");
    let port = PortID::new(&cell, PortNumber::new(PortNo(3), PortNo(8)).unwrap()).unwrap();
    assert_eq!(port.get_name(), "C:12+P:3");
    let other = PortID::new(&CellID::new(CellNo(4)).unwrap(), PortNumber::new0()).unwrap();
    let link = LinkID::new(&port, &other).unwrap();
    assert_eq!(link.get_name(), "C:12+P:3+C:4+P:0");
}

#[test]
fn vm_and_sender_names() {
    let cell = CellID::new(CellNo(0)).unwrap();
    assert_eq!(VmID::new(&cell, "vm1").unwrap().get_name(), "VM:C:0+vm1");
    assert_eq!(SenderID::new(&cell, "CellAgent").unwrap().get_name(), "Sender:C:0+CellAgent");
}

#[test]
fn names_with_blanks_are_refused() {
    match TreeID::new("a b") {
        Err(NameError::Format { func_name, name }) => {
            assert_eq!(func_name, "TreeID::new");
            assert_eq!(name, "a b");
        },
        other => panic!("unexpected {:?}", other),
    }
    assert!(UptreeID::new("x y").is_err());
    assert!(ContainerID::new("c d").is_err());
    assert_eq!(ContainerID::new("c1").unwrap().get_name(), "c1");
}

#[test]
fn add_component_joins_with_separator() {
    let t = TreeID::new("Base").unwrap();
    let c = t.add_component("Control").unwrap();
    assert_eq!(c.get_name(), "Base+Control");
    assert!(c.is_name("Base+Control"));
    assert!(!c.is_name("Base"));
    match t.add_component("a b") {
        Err(NameError::Format { func_name, .. }) => assert_eq!(func_name, "add_component"),
        other => panic!("unexpected {:?}", other),
    }
    assert_eq!(t.stringify(), "Base");
    match t.name_from_str("x y") {
        Err(NameError::Format { func_name, .. }) => assert_eq!(func_name, "from_str"),
        other => panic!("unexpected {:?}", other),
    }
    assert_eq!(t.name_from_str("xy").unwrap().get_name(), "xy");
}

#[test]
fn tree_ids_carry_root_port_numbers() {
    let t = TreeID::new("T").unwrap();
    let with = t.with_root_port_number(&PortNumber::new(PortNo(5), PortNo(8)).unwrap());
    assert_eq!(with._get_port_no(), PortNo(5));
    assert_eq!(with.get_name(), "T");
    let without = with.without_root_port_number();
    assert_eq!(without._get_port_no(), PortNo(0));
    assert!(without.equals(&t));
    assert!(!with.equals(&t));
    let ait = t.with_ait_uuid();
    assert_eq!(ait.get_uuid().get_ait_state(), AitState::Ait);
    assert_eq!(TreeID::default().get_name(), "Default");
    let mut moved = TreeID::new("U").unwrap();
    moved._transfer_port_number(&with);
    assert_eq!(moved._get_port_no(), PortNo(5));
}

#[test]
fn clones_are_equal_and_fresh_names_differ() {
    let t = TreeID::new("T").unwrap();
    assert!(t.clone().equals(&t));
    let u = TreeID::new("T").unwrap();
    assert!(!u.equals(&t));
}

#[test]
fn name_type_round_trip() {
    let n = str_to_chars("Hello");
    assert_eq!(str_from_chars(n), "Hello");
    let full = "abcdefghijklmnopqrstuvwxyz012345";
    assert_eq!(str_from_chars(str_to_chars(full)), full);
    assert_eq!(str_from_chars(str_to_chars("")), "");
    assert_eq!(str_from_chars(str_to_chars("héllo")), "héllo");
}
