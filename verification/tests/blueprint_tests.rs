use multicell::blueprint::{Blueprint, BlueprintError, Cell};
use multicell::config::{border_cell_ports, edge_list, is2e, CellNo, CellQty, CellType, PortNo, PortQty};

fn border(cell: usize, ports: &[u8]) -> (CellNo, Vec<PortNo>) {
    (CellNo(cell), ports.iter().map(|p| PortNo(*p)).collect())
}

#[test]
fn demonstration_blueprint() {
    let bp = Blueprint::new(CellQty(10), &edge_list(), PortQty(8), &vec![(CellNo(5), PortQty(7))], &border_cell_ports())
        .unwrap();
    assert_eq!(bp.get_ncells(), CellQty(10));
    assert_eq!(bp.get_n_border_cells(), 2);
    assert_eq!(bp.get_n_interior_cells(), 8);
    assert_eq!(bp.get_edge_list().len(), 13);
    let b = &bp.get_border_cells()[0];
    assert_eq!(b.get_cell_no(), CellNo(2));
    assert_eq!(b.get_cell_type(), CellType::Border);
    assert_eq!(b.get_border_ports(), &vec![PortNo(2)]);
    assert_eq!(b.get_interior_ports(), &vec![PortNo(0), PortNo(1), PortNo(3), PortNo(4), PortNo(5), PortNo(6), PortNo(7)]);
    assert_eq!(b.get_num_phys_ports(), PortQty(8));
    assert_eq!(b.get_name(), "2");
    let i5 = bp.get_interior_cells().iter().find(|c| c.get_cell_no() == CellNo(5)).unwrap();
    assert_eq!(i5.get_interior_ports().len(), 7);
    assert_eq!(i5.get_num_phys_ports(), PortQty(7));
    assert_eq!(i5.get_cell_type(), CellType::Interior);
    let order: Vec<CellNo> = bp.get_interior_cells().iter().map(|c| c.get_cell_no()).collect();
    assert_eq!(order, vec![CellNo(0), CellNo(1), CellNo(3), CellNo(4), CellNo(5), CellNo(6), CellNo(8), CellNo(9)]);
}

#[test]
fn edge_endpoint_beyond_cells_is_refused() {
    let r = Blueprint::new(CellQty(3), &vec![is2e(0, 1), is2e(1, 4)], PortQty(3), &vec![], &vec![border(0, &[1])]);
    match r {
        Err(BlueprintError::EdgeEndpoint { func_name, num_cells, invalid_endpoint }) => {
            assert_eq!(func_name, "new");
            assert_eq!(num_cells, 3);
            assert_eq!(invalid_endpoint, 4);
        },
        other => panic!("unexpected {:?}", other),
    }
    assert!(Blueprint::new(CellQty(3), &vec![is2e(0, 2)], PortQty(3), &vec![], &vec![border(0, &[1])]).is_ok());
}

#[test]
fn edge_endpoint_equal_to_cell_count_is_refused() {
    let r = Blueprint::new(CellQty(2), &vec![is2e(0, 2)], PortQty(3), &vec![], &vec![border(0, &[1])]);
    assert_eq!(r.unwrap_err(), BlueprintError::EdgeEndpoint { func_name: "new", num_cells: 2, invalid_endpoint: 2 });
}

#[test]
fn too_many_default_ports_is_refused() {
    let r = Blueprint::new(CellQty(3), &vec![], PortQty(10), &vec![], &vec![border(0, &[1])]);
    assert_eq!(
        r.unwrap_err(),
        BlueprintError::DefaultNumPhysPortsPerCell {
            func_name: "new",
            default_num_phys_ports_per_cell: 10,
            max_num_phys_ports_per_cell: 9
        }
    );
}

#[test]
fn bad_port_exceptions_are_refused() {
    let r = Blueprint::new(CellQty(3), &vec![], PortQty(3), &vec![(CellNo(3), PortQty(2))], &vec![border(0, &[1])]);
    assert_eq!(r.unwrap_err(), BlueprintError::CellPortsExceptionsCell { func_name: "new", cell_no: 3, num_cells: 3 });
    let r = Blueprint::new(CellQty(3), &vec![], PortQty(3), &vec![(CellNo(1), PortQty(12))], &vec![border(0, &[1])]);
    assert_eq!(
        r.unwrap_err(),
        BlueprintError::CellPortsExceptionsPorts {
            func_name: "new",
            num_phys_ports: 12,
            max_num_phys_ports_per_cell: 9,
            cell_no: 1
        }
    );
}

#[test]
fn bad_border_cells_are_refused() {
    let r = Blueprint::new(CellQty(3), &vec![], PortQty(3), &vec![], &vec![border(7, &[1])]);
    assert_eq!(r.unwrap_err(), BlueprintError::BorderCellPortsCell { func_name: "new", cell_no: 7, num_cells: 3 });
    let r = Blueprint::new(CellQty(3), &vec![], PortQty(3), &vec![(CellNo(0), PortQty(2))], &vec![border(0, &[1, 2])]);
    assert_eq!(
        r.unwrap_err(),
        BlueprintError::BorderCellPortsPort { func_name: "new", port_no: 2, cell_no: 0, num_phys_ports: 2 }
    );
    let r = Blueprint::new(CellQty(3), &vec![], PortQty(3), &vec![], &vec![]);
    assert_eq!(r.unwrap_err(), BlueprintError::BorderCellCount { func_name: "new", num_border: 0, num_reqd: 1 });
}

#[test]
fn checks_come_in_order() {
    let r = Blueprint::new(CellQty(3), &vec![is2e(5, 0)], PortQty(10), &vec![(CellNo(9), PortQty(1))], &vec![]);
    assert_eq!(r.unwrap_err(), BlueprintError::EdgeEndpoint { func_name: "new", num_cells: 3, invalid_endpoint: 5 });
    let r = Blueprint::new(CellQty(3), &vec![], PortQty(3), &vec![(CellNo(9), PortQty(1))], &vec![border(9, &[])]);
    assert_eq!(r.unwrap_err(), BlueprintError::CellPortsExceptionsCell { func_name: "new", cell_no: 9, num_cells: 3 });
}

#[test]
fn every_cell_is_interior_or_border() {
    let bp = Blueprint::new(CellQty(5), &vec![], PortQty(2), &vec![], &vec![border(1, &[0]), border(3, &[1])]).unwrap();
    assert_eq!(bp.get_n_interior_cells() + bp.get_n_border_cells(), 5);
    let b: Vec<CellNo> = bp.get_border_cells().iter().map(|c| c.get_cell_no()).collect();
    assert_eq!(b, vec![CellNo(1), CellNo(3)]);
    assert_eq!(bp.get_border_cells()[0].get_interior_ports(), &vec![PortNo(1)]);
}
