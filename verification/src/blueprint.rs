//! The blueprint of a datacenter: which cells exist, how many physical
//! ports each has, which cells are border cells and through which ports,
//! and how the cells are wired.
use vstd::prelude::*;

use crate::config::{CellNo, CellQty, CellType, Edge, PortNo, PortQty, MAX_NUM_PHYS_PORTS_PER_CELL,
    MIN_NUM_BORDER_CELLS};
use crate::text::{decimal, decimal_string};

verus! {

#[derive(Debug, Clone, PartialEq, Eq)]
pub enum BlueprintError {
    EdgeEndpoint { func_name: &'static str, num_cells: usize, invalid_endpoint: usize },
    DefaultNumPhysPortsPerCell {
        func_name: &'static str,
        default_num_phys_ports_per_cell: u8,
        max_num_phys_ports_per_cell: u8,
    },
    CellPortsExceptionsCell { func_name: &'static str, cell_no: usize, num_cells: usize },
    CellPortsExceptionsPorts {
        func_name: &'static str,
        num_phys_ports: u8,
        max_num_phys_ports_per_cell: u8,
        cell_no: usize,
    },
    BorderCellPortsCell { func_name: &'static str, cell_no: usize, num_cells: usize },
    BorderCellPortsPort { func_name: &'static str, port_no: u8, cell_no: usize, num_phys_ports: u8 },
    BorderCellCount { func_name: &'static str, num_border: usize, num_reqd: usize },
}

/// What every cell of a blueprint tells about itself.
pub trait Cell {
    spec fn spec_cell_no(&self) -> CellNo;

    spec fn spec_cell_type(&self) -> CellType;

    spec fn spec_interior_ports(&self) -> Seq<PortNo>;

    spec fn spec_num_phys_ports(&self) -> PortQty;

    fn get_cell_no(&self) -> (c: CellNo)
        ensures
            c == self.spec_cell_no(),
    ;

    /// The cell's number in decimal.
    fn get_name(&self) -> (s: String)
        ensures
            s@ == decimal(self.spec_cell_no().0 as nat),
    {
        let c = self.get_cell_no();
        decimal_string(c.0 as u64)
    }

    fn get_cell_type(&self) -> (t: CellType)
        ensures
            t == self.spec_cell_type(),
    ;

    fn get_num_phys_ports(&self) -> (n: PortQty)
        ensures
            n == self.spec_num_phys_ports(),
    ;

    fn get_interior_ports(&self) -> (v: &Vec<PortNo>)
        ensures
            v@ == self.spec_interior_ports(),
    ;
}

#[derive(Debug)]
pub struct BorderCell {
    cell_no: CellNo,
    cell_type: CellType,
    interior_ports: Vec<PortNo>,
    border_ports: Vec<PortNo>,
}

impl BorderCell {
    pub closed spec fn spec_border_ports(&self) -> Seq<PortNo> {
        self.border_ports@
    }

    pub fn _new(cell_no: CellNo, cell_type: CellType, interior_ports: Vec<PortNo>, border_ports: Vec<PortNo>) -> (c:
        BorderCell)
        ensures
            c.spec_cell_no() == cell_no,
            c.spec_cell_type() == cell_type,
            c.spec_interior_ports() == interior_ports@,
            c.spec_border_ports() == border_ports@,
    {
        BorderCell { cell_no, cell_type, interior_ports, border_ports }
    }

    pub fn get_border_ports(&self) -> (v: &Vec<PortNo>)
        ensures
            v@ == self.spec_border_ports(),
    {
        &self.border_ports
    }
}

impl Cell for BorderCell {
    closed spec fn spec_cell_no(&self) -> CellNo {
        self.cell_no
    }

    closed spec fn spec_cell_type(&self) -> CellType {
        self.cell_type
    }

    closed spec fn spec_interior_ports(&self) -> Seq<PortNo> {
        self.interior_ports@
    }

    /// The number of border and interior ports, as a byte.
    closed spec fn spec_num_phys_ports(&self) -> PortQty {
        PortQty((self.border_ports@.len() + self.interior_ports@.len()) as u8)
    }

    fn get_cell_no(&self) -> (c: CellNo) {
        self.cell_no
    }

    fn get_cell_type(&self) -> (t: CellType) {
        self.cell_type
    }

    fn get_num_phys_ports(&self) -> (n: PortQty) {
        let b = self.border_ports.len();
        let i = self.interior_ports.len();
        let n = (#[verifier::truncate] (b as u8)).wrapping_add(#[verifier::truncate] (i as u8));
        assert(n == (b + i) as u8) by (bit_vector)
            requires
                n == (b as u8).wrapping_add(i as u8),
        ;
        PortQty(n)
    }

    fn get_interior_ports(&self) -> (v: &Vec<PortNo>) {
        &self.interior_ports
    }
}

#[derive(Debug)]
pub struct InteriorCell {
    cell_no: CellNo,
    cell_type: CellType,
    interior_ports: Vec<PortNo>,
}

impl InteriorCell {
    pub fn _new(cell_no: CellNo, cell_type: CellType, interior_ports: Vec<PortNo>) -> (c: InteriorCell)
        ensures
            c.spec_cell_no() == cell_no,
            c.spec_cell_type() == cell_type,
            c.spec_interior_ports() == interior_ports@,
    {
        InteriorCell { cell_no, cell_type, interior_ports }
    }
}

impl Cell for InteriorCell {
    closed spec fn spec_cell_no(&self) -> CellNo {
        self.cell_no
    }

    closed spec fn spec_cell_type(&self) -> CellType {
        self.cell_type
    }

    closed spec fn spec_interior_ports(&self) -> Seq<PortNo> {
        self.interior_ports@
    }

    /// The number of interior ports, as a byte.
    closed spec fn spec_num_phys_ports(&self) -> PortQty {
        PortQty(self.interior_ports@.len() as u8)
    }

    fn get_cell_no(&self) -> (c: CellNo) {
        self.cell_no
    }

    fn get_cell_type(&self) -> (t: CellType) {
        self.cell_type
    }

    fn get_num_phys_ports(&self) -> (n: PortQty) {
        PortQty(#[verifier::truncate] (self.interior_ports.len() as u8))
    }

    fn get_interior_ports(&self) -> (v: &Vec<PortNo>) {
        &self.interior_ports
    }
}

/// No two entries share a cell number.
pub open spec fn distinct_cells<T>(s: Seq<(CellNo, T)>) -> bool {
    forall|i: int, j: int| 0 <= i < j < s.len() ==> s[i].0 != s[j].0
}

/// The first endpoint that is not less than the number of cells, from
/// edge `i` on.
pub open spec fn bad_edge_from(edges: Seq<Edge>, num_cells: usize, i: int) -> Option<usize>
    decreases edges.len() - i,
{
    if i < 0 || i >= edges.len() {
        None
    } else if edges[i].0.0 >= num_cells {
        Some(edges[i].0.0)
    } else if edges[i].1.0 >= num_cells {
        Some(edges[i].1.0)
    } else {
        bad_edge_from(edges, num_cells, i + 1)
    }
}

/// The error for the first invalid port exception, from entry `i` on.
pub open spec fn bad_exception_from(xs: Seq<(CellNo, PortQty)>, num_cells: usize, i: int) -> Option<BlueprintError>
    decreases xs.len() - i,
{
    if i < 0 || i >= xs.len() {
        None
    } else if xs[i].0.0 >= num_cells {
        Some(BlueprintError::CellPortsExceptionsCell { func_name: "new", cell_no: xs[i].0.0, num_cells })
    } else if xs[i].1.0 > MAX_NUM_PHYS_PORTS_PER_CELL {
        Some(
            BlueprintError::CellPortsExceptionsPorts {
                func_name: "new",
                cell_no: xs[i].0.0,
                num_phys_ports: xs[i].1.0,
                max_num_phys_ports_per_cell: MAX_NUM_PHYS_PORTS_PER_CELL,
            },
        )
    } else {
        bad_exception_from(xs, num_cells, i + 1)
    }
}

/// The index of the first entry for the cell, from entry `i` on.
pub open spec fn index_from<T>(s: Seq<(CellNo, T)>, cell_no: CellNo, i: int) -> Option<int>
    decreases s.len() - i,
{
    if i < 0 || i >= s.len() {
        None
    } else if s[i].0 == cell_no {
        Some(i)
    } else {
        index_from(s, cell_no, i + 1)
    }
}

/// The number of physical ports of a cell: its exception, or the default.
pub open spec fn ports_of(xs: Seq<(CellNo, PortQty)>, default: PortQty, c: usize) -> PortQty {
    match index_from(xs, CellNo(c), 0) {
        Some(j) => xs[j].1,
        None => default,
    }
}

/// The first port at or beyond the limit, from position `j` on.
pub open spec fn bad_port_from(ps: Seq<PortNo>, limit: u8, j: int) -> Option<u8>
    decreases ps.len() - j,
{
    if j < 0 || j >= ps.len() {
        None
    } else if ps[j].0 >= limit {
        Some(ps[j].0)
    } else {
        bad_port_from(ps, limit, j + 1)
    }
}

/// The error for the first invalid border cell entry, from entry `i` on.
pub open spec fn bad_border_from(bs: Seq<(CellNo, Vec<PortNo>)>, num_cells: usize, xs: Seq<(CellNo, PortQty)>,
    default: PortQty, i: int) -> Option<BlueprintError>
    decreases bs.len() - i,
{
    if i < 0 || i >= bs.len() {
        None
    } else if bs[i].0.0 >= num_cells {
        Some(BlueprintError::BorderCellPortsCell { func_name: "new", cell_no: bs[i].0.0, num_cells })
    } else {
        let limit = ports_of(xs, default, bs[i].0.0).0;
        match bad_port_from(bs[i].1@, limit, 0) {
            Some(p) => Some(
                BlueprintError::BorderCellPortsPort {
                    func_name: "new",
                    port_no: p,
                    cell_no: bs[i].0.0,
                    num_phys_ports: limit,
                },
            ),
            None => bad_border_from(bs, num_cells, xs, default, i + 1),
        }
    }
}

/// The error `Blueprint::new` reports for its arguments, checked in the
/// order edges, default, exceptions, border cells, border count.
pub open spec fn blueprint_error(num_cells: usize, edges: Seq<Edge>, default: PortQty, xs: Seq<(CellNo, PortQty)>,
    bs: Seq<(CellNo, Vec<PortNo>)>) -> Option<BlueprintError> {
    match bad_edge_from(edges, num_cells, 0) {
        Some(e) => Some(BlueprintError::EdgeEndpoint { func_name: "new", num_cells, invalid_endpoint: e }),
        None => if default.0 > MAX_NUM_PHYS_PORTS_PER_CELL {
            Some(
                BlueprintError::DefaultNumPhysPortsPerCell {
                    func_name: "new",
                    default_num_phys_ports_per_cell: default.0,
                    max_num_phys_ports_per_cell: MAX_NUM_PHYS_PORTS_PER_CELL,
                },
            )
        } else {
            match bad_exception_from(xs, num_cells, 0) {
                Some(e) => Some(e),
                None => match bad_border_from(bs, num_cells, xs, default, 0) {
                    Some(e) => Some(e),
                    None => if bs.len() < MIN_NUM_BORDER_CELLS {
                        Some(
                            BlueprintError::BorderCellCount {
                                func_name: "new",
                                num_border: bs.len() as usize,
                                num_reqd: MIN_NUM_BORDER_CELLS,
                            },
                        )
                    } else {
                        None
                    },
                },
            }
        },
    }
}

/// Ports `0` to `k - 1`.
pub open spec fn port_range(k: u8) -> Seq<PortNo> {
    Seq::new(k as nat, |i: int| PortNo(i as u8))
}

/// The ports of `s` that are not in `border`, in order.
pub open spec fn without(s: Seq<PortNo>, border: Seq<PortNo>) -> Seq<PortNo>
    decreases s.len(),
{
    if s.len() == 0 {
        Seq::empty()
    } else if border.contains(s.last()) {
        without(s.drop_last(), border)
    } else {
        without(s.drop_last(), border).push(s.last())
    }
}

/// The cells below `k` with (`border` true) or without a border entry, in order.
pub open spec fn cells_below(k: nat, bs: Seq<(CellNo, Vec<PortNo>)>, border: bool) -> Seq<usize>
    decreases k,
{
    if k == 0 {
        Seq::empty()
    } else {
        let c = (k - 1) as usize;
        let rest = cells_below((k - 1) as nat, bs, border);
        if (index_from(bs, CellNo(c), 0) is Some) == border {
            rest.push(c)
        } else {
            rest
        }
    }
}

/// The interior cell the blueprint makes for cell `c`.
pub open spec fn is_interior_cell_for(cell: InteriorCell, c: usize, xs: Seq<(CellNo, PortQty)>, default: PortQty) -> bool {
    &&& cell.spec_cell_no() == CellNo(c)
    &&& cell.spec_cell_type() == CellType::Interior
    &&& cell.spec_interior_ports() == port_range(ports_of(xs, default, c).0)
}

/// The border cell the blueprint makes for cell `c`.
pub open spec fn is_border_cell_for(cell: BorderCell, c: usize, xs: Seq<(CellNo, PortQty)>, default: PortQty,
    bs: Seq<(CellNo, Vec<PortNo>)>) -> bool {
    let border = bs[index_from(bs, CellNo(c), 0)->0].1@;
    &&& cell.spec_cell_no() == CellNo(c)
    &&& cell.spec_cell_type() == CellType::Border
    &&& cell.spec_border_ports() == border
    &&& cell.spec_interior_ports() == without(port_range(ports_of(xs, default, c).0), border)
}

#[derive(Debug)]
pub struct Blueprint {
    interior_cells: Vec<InteriorCell>,
    border_cells: Vec<BorderCell>,
    edges: Vec<Edge>,
}

/// The blueprint that `Blueprint::new` builds from its inputs: the edges as
/// given, an interior cell for each cell below `n` that the border cell
/// ports do not name and a border cell for each one they name, both in
/// increasing order of cell number.
pub open spec fn built_from(bp: Blueprint, n: usize, edges: Seq<Edge>, d: PortQty, xs: Seq<(CellNo, PortQty)>, bs: Seq<
    (CellNo, Vec<PortNo>),
>) -> bool {
    let inner = cells_below(n as nat, bs, false);
    let outer = cells_below(n as nat, bs, true);
    &&& bp.spec_edges() == edges
    &&& bp.spec_interior_cells().len() + bp.spec_border_cells().len() == n
    &&& bp.spec_border_cells().len() == bs.len()
    &&& bp.spec_interior_cells().len() == n - bs.len()
    &&& bp.spec_interior_cells().len() == inner.len()
    &&& forall|i: int|
        0 <= i < inner.len() ==> is_interior_cell_for(
            #[trigger] bp.spec_interior_cells()[i],
            inner[i],
            xs,
            d,
        )
    &&& bp.spec_border_cells().len() == outer.len()
    &&& forall|i: int|
        0 <= i < outer.len() ==> is_border_cell_for(
            #[trigger] bp.spec_border_cells()[i],
            outer[i],
            xs,
            d,
            bs,
        )
}

impl Blueprint {
    #[verifier::type_invariant]
    spec fn cells_fit(self) -> bool {
        self.interior_cells@.len() + self.border_cells@.len() <= usize::MAX
    }

    pub closed spec fn spec_interior_cells(&self) -> Seq<InteriorCell> {
        self.interior_cells@
    }

    pub closed spec fn spec_border_cells(&self) -> Seq<BorderCell> {
        self.border_cells@
    }

    pub closed spec fn spec_edges(&self) -> Seq<Edge> {
        self.edges@
    }

    /// Checks the description and builds the cells: a border cell for each
    /// cell with border ports, an interior cell for every other one, each
    /// kind in order of cell number.
    pub fn new(num_cells: CellQty, edges: &Vec<Edge>, default_num_phys_ports_per_cell: PortQty,
        cell_port_exceptions: &Vec<(CellNo, PortQty)>, border_cell_ports: &Vec<(CellNo, Vec<PortNo>)>) -> (r: Result<
        Blueprint,
        BlueprintError,
    >)
        requires
            distinct_cells(cell_port_exceptions@),
            distinct_cells(border_cell_ports@),
        ensures
            match blueprint_error(
                num_cells.0,
                edges@,
                default_num_phys_ports_per_cell,
                cell_port_exceptions@,
                border_cell_ports@,
            ) {
                Some(e) => r == Err::<Blueprint, BlueprintError>(e),
                None => r matches Ok(bp) && built_from(
                    bp,
                    num_cells.0,
                    edges@,
                    default_num_phys_ports_per_cell,
                    cell_port_exceptions@,
                    border_cell_ports@,
                ),
            },
    {
        let n = num_cells.0;
        let mut i: usize = 0;
        while i < edges.len()
            invariant
                n == num_cells.0,
                i <= edges@.len(),
                bad_edge_from(edges@, n, 0) == bad_edge_from(edges@, n, i as int),
            decreases edges@.len() - i,
        {
            let edge = edges[i];
            if edge.0.0 >= n {
                return Err(BlueprintError::EdgeEndpoint { func_name: "new", num_cells: n, invalid_endpoint: edge.0.0 });
            }
            if edge.1.0 >= n {
                return Err(BlueprintError::EdgeEndpoint { func_name: "new", num_cells: n, invalid_endpoint: edge.1.0 });
            }
            i = i + 1;
        }
        if default_num_phys_ports_per_cell.0 > MAX_NUM_PHYS_PORTS_PER_CELL {
            return Err(
                BlueprintError::DefaultNumPhysPortsPerCell {
                    func_name: "new",
                    default_num_phys_ports_per_cell: default_num_phys_ports_per_cell.0,
                    max_num_phys_ports_per_cell: MAX_NUM_PHYS_PORTS_PER_CELL,
                },
            );
        }
        let mut i: usize = 0;
        while i < cell_port_exceptions.len()
            invariant
                n == num_cells.0,
                bad_edge_from(edges@, n, 0) is None,
                default_num_phys_ports_per_cell.0 <= MAX_NUM_PHYS_PORTS_PER_CELL,
                i <= cell_port_exceptions@.len(),
                bad_exception_from(cell_port_exceptions@, n, 0) == bad_exception_from(
                    cell_port_exceptions@,
                    n,
                    i as int,
                ),
            decreases cell_port_exceptions@.len() - i,
        {
            let (cell_no, num_phys_ports) = cell_port_exceptions[i];
            if cell_no.0 >= n {
                return Err(BlueprintError::CellPortsExceptionsCell { func_name: "new", cell_no: cell_no.0, num_cells: n });
            }
            if num_phys_ports.0 > MAX_NUM_PHYS_PORTS_PER_CELL {
                return Err(
                    BlueprintError::CellPortsExceptionsPorts {
                        func_name: "new",
                        cell_no: cell_no.0,
                        num_phys_ports: num_phys_ports.0,
                        max_num_phys_ports_per_cell: MAX_NUM_PHYS_PORTS_PER_CELL,
                    },
                );
            }
            i = i + 1;
        }
        let mut i: usize = 0;
        while i < border_cell_ports.len()
            invariant
                n == num_cells.0,
                bad_edge_from(edges@, n, 0) is None,
                default_num_phys_ports_per_cell.0 <= MAX_NUM_PHYS_PORTS_PER_CELL,
                bad_exception_from(cell_port_exceptions@, n, 0) is None,
                i <= border_cell_ports@.len(),
                bad_border_from(
                    border_cell_ports@,
                    n,
                    cell_port_exceptions@,
                    default_num_phys_ports_per_cell,
                    0,
                ) == bad_border_from(
                    border_cell_ports@,
                    n,
                    cell_port_exceptions@,
                    default_num_phys_ports_per_cell,
                    i as int,
                ),
            decreases border_cell_ports@.len() - i,
        {
            let cell_no = border_cell_ports[i].0;
            if cell_no.0 >= n {
                return Err(BlueprintError::BorderCellPortsCell { func_name: "new", cell_no: cell_no.0, num_cells: n });
            }
            let num_phys_ports = num_phys_ports_of(cell_port_exceptions, default_num_phys_ports_per_cell, cell_no.0);
            let port_nos = &border_cell_ports[i].1;
            let mut j: usize = 0;
            while j < port_nos.len()
                invariant
                    n == num_cells.0,
                    bad_edge_from(edges@, n, 0) is None,
                    default_num_phys_ports_per_cell.0 <= MAX_NUM_PHYS_PORTS_PER_CELL,
                    bad_exception_from(cell_port_exceptions@, n, 0) is None,
                    i < border_cell_ports@.len(),
                    bad_border_from(
                        border_cell_ports@,
                        n,
                        cell_port_exceptions@,
                        default_num_phys_ports_per_cell,
                        0,
                    ) == bad_border_from(
                        border_cell_ports@,
                        n,
                        cell_port_exceptions@,
                        default_num_phys_ports_per_cell,
                        i as int,
                    ),
                    cell_no == border_cell_ports@[i as int].0,
                    cell_no.0 < n,
                    num_phys_ports == ports_of(cell_port_exceptions@, default_num_phys_ports_per_cell, cell_no.0),
                    port_nos@ == border_cell_ports@[i as int].1@,
                    j <= port_nos@.len(),
                    bad_port_from(port_nos@, num_phys_ports.0, 0) == bad_port_from(port_nos@, num_phys_ports.0, j as int),
                decreases port_nos@.len() - j,
            {
                let port_no = port_nos[j];
                if port_no.0 >= num_phys_ports.0 {
                    return Err(
                        BlueprintError::BorderCellPortsPort {
                            func_name: "new",
                            cell_no: cell_no.0,
                            port_no: port_no.0,
                            num_phys_ports: num_phys_ports.0,
                        },
                    );
                }
                j = j + 1;
            }
            i = i + 1;
        }
        let num_border = border_cell_ports.len();
        if num_border < MIN_NUM_BORDER_CELLS {
            return Err(BlueprintError::BorderCellCount { func_name: "new", num_border, num_reqd: MIN_NUM_BORDER_CELLS });
        }
        let ghost xs = cell_port_exceptions@;
        let ghost bs = border_cell_ports@;
        let ghost d = default_num_phys_ports_per_cell;
        let mut interior_cells: Vec<InteriorCell> = Vec::new();
        let mut border_cells: Vec<BorderCell> = Vec::new();
        let mut no: usize = 0;
        while no < n
            invariant
                no <= n,
                xs == cell_port_exceptions@,
                bs == border_cell_ports@,
                d == default_num_phys_ports_per_cell,
                d.0 <= MAX_NUM_PHYS_PORTS_PER_CELL,
                bad_exception_from(xs, n, 0) is None,
                interior_cells@.len() == cells_below(no as nat, bs, false).len(),
                forall|k: int|
                    0 <= k < interior_cells@.len() ==> is_interior_cell_for(
                        #[trigger] interior_cells@[k],
                        cells_below(no as nat, bs, false)[k],
                        xs,
                        d,
                    ),
                border_cells@.len() == cells_below(no as nat, bs, true).len(),
                forall|k: int|
                    0 <= k < border_cells@.len() ==> is_border_cell_for(
                        #[trigger] border_cells@[k],
                        cells_below(no as nat, bs, true)[k],
                        xs,
                        d,
                        bs,
                    ),
                interior_cells@.len() + border_cells@.len() == no,
            decreases n - no,
        {
            let num_ports = num_phys_ports_of(cell_port_exceptions, default_num_phys_ports_per_cell, no);
            proof {
                lemma_ports_of_bounded(xs, n, d, no);
            }
            let phys_port_list = port_list(num_ports.0);
            match border_index(border_cell_ports, no) {
                Some(b) => {
                    let border_ports = clone_ports(&border_cell_ports[b].1);
                    let interior_ports = ports_without(&phys_port_list, &border_ports);
                    border_cells.push(
                        BorderCell { cell_no: CellNo(no), cell_type: CellType::Border, interior_ports, border_ports },
                    );
                },
                None => {
                    interior_cells.push(
                        InteriorCell { cell_no: CellNo(no), cell_type: CellType::Interior, interior_ports: phys_port_list },
                    );
                },
            }
            no = no + 1;
        }
        let mut edge_copy: Vec<Edge> = Vec::new();
        let mut i: usize = 0;
        while i < edges.len()
            invariant
                i <= edges@.len(),
                edge_copy@ == edges@.take(i as int),
            decreases edges@.len() - i,
        {
            edge_copy.push(edges[i]);
            i = i + 1;
            assert(edge_copy@ =~= edges@.take(i as int));
        }
        assert(edges@.take(edges@.len() as int) =~= edges@);
        proof {
            law_border_cell_count(
                num_cells.0,
                edges@,
                default_num_phys_ports_per_cell,
                cell_port_exceptions@,
                border_cell_ports@,
            );
        }
        Ok(Blueprint { interior_cells, border_cells, edges: edge_copy })
    }

    pub fn get_ncells(&self) -> (n: CellQty)
        ensures
            n.0 == self.spec_interior_cells().len() + self.spec_border_cells().len(),
    {
        proof {
            use_type_invariant(self);
        }
        CellQty(self.get_n_interior_cells() + self.get_n_border_cells())
    }

    pub fn get_n_border_cells(&self) -> (n: usize)
        ensures
            n == self.spec_border_cells().len(),
    {
        self.border_cells.len()
    }

    pub fn get_n_interior_cells(&self) -> (n: usize)
        ensures
            n == self.spec_interior_cells().len(),
    {
        self.interior_cells.len()
    }

    pub fn get_edge_list(&self) -> (v: &Vec<Edge>)
        ensures
            v@ == self.spec_edges(),
    {
        &self.edges
    }

    pub fn get_border_cells(&self) -> (v: &Vec<BorderCell>)
        ensures
            v@ == self.spec_border_cells(),
    {
        &self.border_cells
    }

    pub fn get_interior_cells(&self) -> (v: &Vec<InteriorCell>)
        ensures
            v@ == self.spec_interior_cells(),
    {
        &self.interior_cells
    }
}

/// Once the exceptions are checked, every cell has at most the maximum
/// number of ports.
proof fn lemma_ports_of_bounded(xs: Seq<(CellNo, PortQty)>, n: usize, d: PortQty, c: usize)
    requires
        bad_exception_from(xs, n, 0) is None,
        d.0 <= MAX_NUM_PHYS_PORTS_PER_CELL,
    ensures
        ports_of(xs, d, c).0 <= MAX_NUM_PHYS_PORTS_PER_CELL,
{
    lemma_index_from_found(xs, CellNo(c), 0);
    lemma_no_bad_exception(xs, n, 0);
}

proof fn lemma_index_from_found<T>(s: Seq<(CellNo, T)>, c: CellNo, i: int)
    requires
        0 <= i,
    ensures
        index_from(s, c, i) matches Some(j) ==> i <= j < s.len() && s[j].0 == c && forall|k: int|
            i <= k < j ==> s[k].0 != c,
        index_from(s, c, i) is None ==> forall|k: int| i <= k < s.len() ==> s[k].0 != c,
    decreases s.len() - i,
{
    if i < s.len() && s[i].0 != c {
        lemma_index_from_found(s, c, i + 1);
    }
}

proof fn lemma_no_bad_exception(xs: Seq<(CellNo, PortQty)>, n: usize, i: int)
    requires
        0 <= i,
        bad_exception_from(xs, n, i) is None,
    ensures
        forall|k: int| i <= k < xs.len() ==> xs[k].0.0 < n && xs[k].1.0 <= MAX_NUM_PHYS_PORTS_PER_CELL,
    decreases xs.len() - i,
{
    if i < xs.len() {
        lemma_no_bad_exception(xs, n, i + 1);
    }
}

/// The number of physical ports of the cell.
fn num_phys_ports_of(xs: &Vec<(CellNo, PortQty)>, default: PortQty, c: usize) -> (p: PortQty)
    ensures
        p == ports_of(xs@, default, c),
{
    proof {
        lemma_index_from_found(xs@, CellNo(c), 0);
    }
    let mut i: usize = 0;
    while i < xs.len()
        invariant
            i <= xs@.len(),
            index_from(xs@, CellNo(c), 0) == index_from(xs@, CellNo(c), i as int),
        decreases xs@.len() - i,
    {
        if xs[i].0.0 == c {
            return xs[i].1;
        }
        i = i + 1;
    }
    default
}

/// The index of the cell's border entry.
fn border_index(bs: &Vec<(CellNo, Vec<PortNo>)>, c: usize) -> (r: Option<usize>)
    ensures
        r matches Some(j) ==> index_from(bs@, CellNo(c), 0) == Some(j as int) && j < bs@.len(),
        r is None ==> index_from(bs@, CellNo(c), 0) is None,
{
    proof {
        lemma_index_from_found(bs@, CellNo(c), 0);
    }
    let mut i: usize = 0;
    while i < bs.len()
        invariant
            i <= bs@.len(),
            index_from(bs@, CellNo(c), 0) == index_from(bs@, CellNo(c), i as int),
        decreases bs@.len() - i,
    {
        if bs[i].0.0 == c {
            return Some(i);
        }
        i = i + 1;
    }
    None
}

/// Ports `0` to `k - 1`.
fn port_list(k: u8) -> (v: Vec<PortNo>)
    ensures
        v@ == port_range(k),
{
    let mut v: Vec<PortNo> = Vec::new();
    let mut i: u8 = 0;
    while i < k
        invariant
            i <= k,
            v@ == port_range(i),
        decreases k - i,
    {
        v.push(PortNo(i));
        i = i + 1;
        assert(v@ =~= port_range(i));
    }
    v
}

fn clone_ports(ps: &Vec<PortNo>) -> (v: Vec<PortNo>)
    ensures
        v@ == ps@,
{
    let mut v: Vec<PortNo> = Vec::new();
    let mut i: usize = 0;
    while i < ps.len()
        invariant
            i <= ps@.len(),
            v@ == ps@.take(i as int),
        decreases ps@.len() - i,
    {
        v.push(ps[i]);
        i = i + 1;
        assert(v@ =~= ps@.take(i as int));
    }
    assert(ps@.take(ps@.len() as int) =~= ps@);
    v
}

fn contains_port(ps: &Vec<PortNo>, p: PortNo) -> (b: bool)
    ensures
        b == ps@.contains(p),
{
    let mut i: usize = 0;
    while i < ps.len()
        invariant
            i <= ps@.len(),
            forall|k: int| 0 <= k < i ==> ps@[k] != p,
        decreases ps@.len() - i,
    {
        if ps[i] == p {
            return true;
        }
        i = i + 1;
    }
    false
}

/// The ports of `all` that are not border ports, in order.
fn ports_without(all: &Vec<PortNo>, border: &Vec<PortNo>) -> (v: Vec<PortNo>)
    ensures
        v@ == without(all@, border@),
{
    let mut v: Vec<PortNo> = Vec::new();
    let mut i: usize = 0;
    while i < all.len()
        invariant
            i <= all@.len(),
            v@ == without(all@.take(i as int), border@),
        decreases all@.len() - i,
    {
        let p = all[i];
        let ghost prefix = all@.take(i + 1);
        assert(prefix.drop_last() =~= all@.take(i as int));
        assert(prefix.last() == p);
        if !contains_port(border, p) {
            v.push(p);
        }
        i = i + 1;
    }
    assert(all@.take(all@.len() as int) =~= all@);
    v
}

/// How many entries name a cell below `k`.
pub open spec fn count_below(bs: Seq<(CellNo, Vec<PortNo>)>, k: int) -> nat
    decreases bs.len(),
{
    if bs.len() == 0 {
        0
    } else {
        count_below(bs.drop_last(), k) + if bs.last().0.0 < k {
            1nat
        } else {
            0nat
        }
    }
}

/// How many entries name cell `c`.
pub open spec fn count_of(bs: Seq<(CellNo, Vec<PortNo>)>, c: int) -> nat
    decreases bs.len(),
{
    if bs.len() == 0 {
        0
    } else {
        count_of(bs.drop_last(), c) + if bs.last().0.0 == c {
            1nat
        } else {
            0nat
        }
    }
}

proof fn lemma_count_step(bs: Seq<(CellNo, Vec<PortNo>)>, k: int)
    ensures
        count_below(bs, k + 1) == count_below(bs, k) + count_of(bs, k),
    decreases bs.len(),
{
    if bs.len() > 0 {
        lemma_count_step(bs.drop_last(), k);
    }
}

proof fn lemma_count_of_distinct(bs: Seq<(CellNo, Vec<PortNo>)>, c: int)
    requires
        distinct_cells(bs),
    ensures
        count_of(bs, c) == if exists|i: int| 0 <= i < bs.len() && (#[trigger] bs[i]).0.0 == c {
            1nat
        } else {
            0nat
        },
    decreases bs.len(),
{
    if bs.len() > 0 {
        let d = bs.drop_last();
        assert(distinct_cells(d)) by {
            assert forall|i: int, j: int| 0 <= i < j < d.len() implies d[i].0 != d[j].0 by {
                assert(d[i] == bs[i] && d[j] == bs[j]);
            }
        }
        lemma_count_of_distinct(d, c);
        if bs.last().0.0 == c {
            assert forall|i: int| 0 <= i < d.len() implies (#[trigger] d[i]).0.0 != c by {
                assert(d[i] == bs[i]);
                assert(bs[i].0 != bs[bs.len() - 1].0);
            }
            assert(bs[bs.len() - 1].0.0 == c);
        } else {
            if exists|i: int| 0 <= i < bs.len() && (#[trigger] bs[i]).0.0 == c {
                let i = choose|i: int| 0 <= i < bs.len() && (#[trigger] bs[i]).0.0 == c;
                assert(i < d.len());
                assert(d[i] == bs[i]);
            }
            if exists|i: int| 0 <= i < d.len() && (#[trigger] d[i]).0.0 == c {
                let i = choose|i: int| 0 <= i < d.len() && (#[trigger] d[i]).0.0 == c;
                assert(d[i] == bs[i]);
            }
        }
    }
}

proof fn lemma_cells_below_count(k: nat, bs: Seq<(CellNo, Vec<PortNo>)>)
    requires
        distinct_cells(bs),
        k <= usize::MAX,
    ensures
        cells_below(k, bs, true).len() == count_below(bs, k as int),
        cells_below(k, bs, true).len() + cells_below(k, bs, false).len() == k,
    decreases k,
{
    if k > 0 {
        let c = (k - 1) as int;
        assert((c as usize) as int == c);
        lemma_cells_below_count((k - 1) as nat, bs);
        lemma_count_step(bs, c);
        lemma_count_of_distinct(bs, c);
        lemma_index_from_found(bs, CellNo(c as usize), 0);
        if index_from(bs, CellNo(c as usize), 0) is Some {
            let j = index_from(bs, CellNo(c as usize), 0)->0;
            assert(bs[j].0.0 == c);
        } else {
            if exists|i: int| 0 <= i < bs.len() && (#[trigger] bs[i]).0.0 == c {
                let i = choose|i: int| 0 <= i < bs.len() && (#[trigger] bs[i]).0.0 == c;
                assert(bs[i].0 == CellNo(c as usize));
            }
        }
    } else {
        assert(count_below(bs, 0) == 0) by {
            lemma_count_zero(bs);
        }
    }
}

proof fn lemma_count_zero(bs: Seq<(CellNo, Vec<PortNo>)>)
    ensures
        count_below(bs, 0) == 0,
    decreases bs.len(),
{
    if bs.len() > 0 {
        lemma_count_zero(bs.drop_last());
    }
}

proof fn lemma_count_all(bs: Seq<(CellNo, Vec<PortNo>)>, n: int)
    requires
        forall|i: int| 0 <= i < bs.len() ==> (#[trigger] bs[i]).0.0 < n,
    ensures
        count_below(bs, n) == bs.len(),
    decreases bs.len(),
{
    if bs.len() > 0 {
        let d = bs.drop_last();
        assert forall|i: int| 0 <= i < d.len() implies (#[trigger] d[i]).0.0 < n by {
            assert(d[i] == bs[i]);
        }
        lemma_count_all(d, n);
        assert(bs[bs.len() - 1].0.0 < n);
    }
}

proof fn lemma_border_cells_in_range(bs: Seq<(CellNo, Vec<PortNo>)>, n: usize, xs: Seq<(CellNo, PortQty)>, d: PortQty, i: int)
    requires
        0 <= i,
        bad_border_from(bs, n, xs, d, i) is None,
    ensures
        forall|k: int| i <= k < bs.len() ==> (#[trigger] bs[k]).0.0 < n,
    decreases bs.len() - i,
{
    if i < bs.len() {
        lemma_border_cells_in_range(bs, n, xs, d, i + 1);
    }
}

/// A blueprint that is built has one border cell per entry of the border
/// cell ports, and its other cells are interior.
pub proof fn law_border_cell_count(num_cells: usize, edges: Seq<Edge>, default: PortQty, xs: Seq<(CellNo, PortQty)>, bs: Seq<
    (CellNo, Vec<PortNo>),
>)
    requires
        distinct_cells(bs),
        blueprint_error(num_cells, edges, default, xs, bs) is None,
    ensures
        cells_below(num_cells as nat, bs, true).len() == bs.len(),
        cells_below(num_cells as nat, bs, false).len() == num_cells - bs.len(),
{
    lemma_border_cells_in_range(bs, num_cells, xs, default, 0);
    lemma_cells_below_count(num_cells as nat, bs);
    lemma_count_all(bs, num_cells as int);
}

/// The cells `cells_below` lists are the cells below `k` that the border
/// cell ports name (or do not name), in increasing order.
proof fn lemma_cells_below_members(k: nat, bs: Seq<(CellNo, Vec<PortNo>)>, border: bool)
    requires
        k <= usize::MAX,
    ensures
        forall|i: int| 0 <= i < cells_below(k, bs, border).len() ==> (#[trigger] cells_below(k, bs, border)[i]) < k
            && (index_from(bs, CellNo(cells_below(k, bs, border)[i]), 0) is Some) == border,
        forall|c: usize|
            c < k && (index_from(bs, CellNo(c), 0) is Some) == border ==> #[trigger] cells_below(k, bs, border).contains(c),
        forall|i: int, j: int|
            0 <= i < j < cells_below(k, bs, border).len() ==> cells_below(k, bs, border)[i] < cells_below(k, bs, border)[j],
    decreases k,
{
    if k > 0 {
        lemma_cells_below_members((k - 1) as nat, bs, border);
        let rest = cells_below((k - 1) as nat, bs, border);
        let s = cells_below(k, bs, border);
        let c = (k - 1) as usize;
        assert forall|x: usize| x < k && (index_from(bs, CellNo(x), 0) is Some) == border implies #[trigger] s.contains(x) by {
            if x < k - 1 {
                assert(rest.contains(x));
                let j = choose|j: int| 0 <= j < rest.len() && rest[j] == x;
                assert(s[j] == x);
            } else {
                assert(x == c);
                assert(s[s.len() - 1] == x);
            }
        }
    }
}

/// Whether the border cell ports name cell `c`.
pub open spec fn names_cell(bs: Seq<(CellNo, Vec<PortNo>)>, c: usize) -> bool {
    exists|k: int| 0 <= k < bs.len() && (#[trigger] bs[k]).0 == CellNo(c)
}

proof fn lemma_index_names(bs: Seq<(CellNo, Vec<PortNo>)>, c: usize)
    ensures
        (index_from(bs, CellNo(c), 0) is Some) <==> names_cell(bs, c),
{
    lemma_index_from_found(bs, CellNo(c), 0);
    if names_cell(bs, c) {
        let k = choose|k: int| 0 <= k < bs.len() && (#[trigger] bs[k]).0 == CellNo(c);
        assert(bs[k].0 == CellNo(c));
    }
}

/// A blueprint lists as interior cells exactly the cells below the number
/// of cells that the border cell ports do not name, in increasing order of
/// cell number, each an interior cell with the ports from 0 up to its number
/// of physical ports (its exception, or the default).
pub proof fn law_interior_cells_listed(bp: Blueprint, n: usize, edges: Seq<Edge>, d: PortQty, xs: Seq<(CellNo, PortQty)>,
    bs: Seq<(CellNo, Vec<PortNo>)>)
    requires
        built_from(bp, n, edges, d, xs, bs),
    ensures
        forall|c: usize|
            #![trigger names_cell(bs, c)]
            (exists|i: int| 0 <= i < bp.spec_interior_cells().len() && bp.spec_interior_cells()[i].spec_cell_no() == CellNo(c))
                <==> (c < n && !names_cell(bs, c)),
        forall|i: int, j: int|
            0 <= i < j < bp.spec_interior_cells().len() ==> bp.spec_interior_cells()[i].spec_cell_no().0
                < bp.spec_interior_cells()[j].spec_cell_no().0,
        forall|i: int|
            0 <= i < bp.spec_interior_cells().len() ==> {
                let cell = #[trigger] bp.spec_interior_cells()[i];
                &&& cell.spec_cell_type() == CellType::Interior
                &&& cell.spec_interior_ports() == port_range(ports_of(xs, d, cell.spec_cell_no().0).0)
            },
{
    let inner = cells_below(n as nat, bs, false);
    let cells = bp.spec_interior_cells();
    lemma_cells_below_members(n as nat, bs, false);
    assert forall|c: usize| #![trigger names_cell(bs, c)]
        (exists|i: int| 0 <= i < cells.len() && cells[i].spec_cell_no() == CellNo(c)) <==> (c < n && !names_cell(bs, c)) by {
        lemma_index_names(bs, c);
        if exists|i: int| 0 <= i < cells.len() && cells[i].spec_cell_no() == CellNo(c) {
            let i = choose|i: int| 0 <= i < cells.len() && cells[i].spec_cell_no() == CellNo(c);
            assert(is_interior_cell_for(cells[i], inner[i], xs, d));
            assert(inner[i] == c);
        }
        if c < n && !names_cell(bs, c) {
            assert(inner.contains(c));
            let i = choose|i: int| 0 <= i < inner.len() && inner[i] == c;
            assert(is_interior_cell_for(cells[i], inner[i], xs, d));
        }
    }
    assert forall|i: int, j: int| 0 <= i < j < cells.len() implies cells[i].spec_cell_no().0 < cells[j].spec_cell_no().0 by {
        assert(is_interior_cell_for(cells[i], inner[i], xs, d));
        assert(is_interior_cell_for(cells[j], inner[j], xs, d));
    }
}

/// A blueprint lists as border cells exactly the cells that the border cell
/// ports name, in increasing order of cell number, each a border cell whose
/// border ports are those named for it, in the order given, and whose
/// interior ports are the other ports from 0 up to its number of physical
/// ports, in increasing order.
pub proof fn law_border_cells_listed(bp: Blueprint, n: usize, edges: Seq<Edge>, d: PortQty, xs: Seq<(CellNo, PortQty)>,
    bs: Seq<(CellNo, Vec<PortNo>)>)
    requires
        distinct_cells(bs),
        blueprint_error(n, edges, d, xs, bs) is None,
        built_from(bp, n, edges, d, xs, bs),
    ensures
        forall|c: usize|
            #![trigger names_cell(bs, c)]
            (exists|i: int| 0 <= i < bp.spec_border_cells().len() && bp.spec_border_cells()[i].spec_cell_no() == CellNo(c))
                <==> names_cell(bs, c),
        forall|i: int, j: int|
            0 <= i < j < bp.spec_border_cells().len() ==> bp.spec_border_cells()[i].spec_cell_no().0
                < bp.spec_border_cells()[j].spec_cell_no().0,
        forall|i: int, k: int|
            #![trigger bp.spec_border_cells()[i], bs[k]]
            0 <= i < bp.spec_border_cells().len() && 0 <= k < bs.len() && bs[k].0 == bp.spec_border_cells()[i].spec_cell_no()
                ==> {
                let cell = bp.spec_border_cells()[i];
                &&& cell.spec_cell_type() == CellType::Border
                &&& cell.spec_border_ports() == bs[k].1@
                &&& cell.spec_interior_ports() == without(port_range(ports_of(xs, d, cell.spec_cell_no().0).0), bs[k].1@)
            },
{
    let outer = cells_below(n as nat, bs, true);
    let cells = bp.spec_border_cells();
    lemma_cells_below_members(n as nat, bs, true);
    lemma_border_cells_in_range(bs, n, xs, d, 0);
    assert forall|c: usize| #![trigger names_cell(bs, c)]
        (exists|i: int| 0 <= i < cells.len() && cells[i].spec_cell_no() == CellNo(c)) <==> names_cell(bs, c) by {
        lemma_index_names(bs, c);
        if exists|i: int| 0 <= i < cells.len() && cells[i].spec_cell_no() == CellNo(c) {
            let i = choose|i: int| 0 <= i < cells.len() && cells[i].spec_cell_no() == CellNo(c);
            assert(is_border_cell_for(cells[i], outer[i], xs, d, bs));
            assert(outer[i] == c);
        }
        if names_cell(bs, c) {
            let k = choose|k: int| 0 <= k < bs.len() && (#[trigger] bs[k]).0 == CellNo(c);
            assert(bs[k].0.0 < n);
            assert(outer.contains(c));
            let i = choose|i: int| 0 <= i < outer.len() && outer[i] == c;
            assert(is_border_cell_for(cells[i], outer[i], xs, d, bs));
        }
    }
    assert forall|i: int, j: int| 0 <= i < j < cells.len() implies cells[i].spec_cell_no().0 < cells[j].spec_cell_no().0 by {
        assert(is_border_cell_for(cells[i], outer[i], xs, d, bs));
        assert(is_border_cell_for(cells[j], outer[j], xs, d, bs));
    }
    assert forall|i: int, k: int|
        #![trigger cells[i], bs[k]]
        0 <= i < cells.len() && 0 <= k < bs.len() && bs[k].0 == cells[i].spec_cell_no() implies {
            let cell = cells[i];
            &&& cell.spec_cell_type() == CellType::Border
            &&& cell.spec_border_ports() == bs[k].1@
            &&& cell.spec_interior_ports() == without(port_range(ports_of(xs, d, cell.spec_cell_no().0).0), bs[k].1@)
        } by {
        assert(is_border_cell_for(cells[i], outer[i], xs, d, bs));
        let c = outer[i];
        lemma_index_from_found(bs, CellNo(c), 0);
        assert(index_from(bs, CellNo(c), 0) is Some);
        let j = index_from(bs, CellNo(c), 0)->0;
        assert(bs[j].0 == bs[k].0);
        if j < k {
            assert(bs[j].0 != bs[k].0);
        } else if k < j {
            assert(bs[k].0 != bs[j].0);
        }
    }
}

} // verus!
