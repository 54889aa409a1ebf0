use multicell::config::{CellConfig, CellNo, PortNo, PortQty};
use multicell::name::Name;
use multicell::nalcell::{NalCell, NalcellError};

#[test]
fn a_cell_has_a_port_per_number_and_its_parts() {
    let cell = NalCell::new(CellNo(3), PortQty(4), &vec![PortNo(2)], CellConfig::Large).unwrap();
    assert_eq!(cell.get_name(), "C:3");
    assert_eq!(cell.get_num_ports(), PortQty(5));
    assert!(cell.is_border());
    assert_eq!(cell._get_cell_agent().get_no_ports(), PortNo(4));
    assert_eq!(cell.get_packet_engine().get_cell_id().get_name(), "C:3");
}

#[test]
fn an_interior_cell_has_no_border_ports() {
    let cell = NalCell::new(CellNo(1), PortQty(2), &vec![], CellConfig::Large).unwrap();
    assert!(!cell.is_border());
}

#[test]
fn too_many_ports_are_refused() {
    match NalCell::new(CellNo(1), PortQty(10), &vec![], CellConfig::Large) {
        Err(NalcellError::NumberPorts { func_name, num_phys_ports, max_num_phys_ports }) => {
            assert_eq!(func_name, "new");
            assert_eq!(num_phys_ports, PortQty(10));
            assert_eq!(max_num_phys_ports, PortQty(9));
        },
        other => panic!("unexpected {:?}", other.map(|c| c.get_name())),
    }
}

#[test]
fn free_ports_are_handed_out_once() {
    let mut cell = NalCell::new(CellNo(3), PortQty(3), &vec![PortNo(2)], CellConfig::Large).unwrap();
    assert_eq!(cell.get_free_ec_port_mut().unwrap(), PortNo(1));
    assert_eq!(cell.get_free_ec_port_mut().unwrap(), PortNo(3));
    assert_eq!(cell.get_free_boundary_port_mut().unwrap(), PortNo(2));
    match cell.get_free_ec_port_mut() {
        Err(NalcellError::NoFreePorts { func_name, cell_id }) => {
            assert_eq!(func_name, "get_free_ec_port_mut");
            assert_eq!(cell_id.get_name(), "C:3");
        },
        other => panic!("unexpected {:?}", other),
    }
    assert!(cell.get_free_boundary_port_mut().is_err());
}
