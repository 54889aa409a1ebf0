//! A cell: its cell agent, cell model, packet engine and ports, built
//! together, with one port per port number from 0 (the cell itself) up. The
//! channels and threads that connect them belong to the program around it.
use vstd::prelude::*;

use crate::cellagent::{fresh_agent, CellAgent};
use crate::cmodel::Cmodel;
use crate::config::{CellConfig, CellNo, CellType, PortNo, PortQty, MAX_NUM_PHYS_PORTS_PER_CELL};
use crate::name::{CellID, Name, TreeID};
use crate::packet_engine::PacketEngine;
use crate::port::Port;
use crate::text::{decimal, lemma_concat_contains, lemma_decimal_no_blank};

verus! {

#[derive(Debug)]
pub enum NalcellError {
    Chain { func_name: &'static str, comment: String },
    Channel { func_name: &'static str, port_no: PortNo },
    NoFreePorts { func_name: &'static str, cell_id: CellID },
    NumberPorts { func_name: &'static str, num_phys_ports: PortQty, max_num_phys_ports: PortQty },
}

#[derive(Debug)]
pub struct NalCell {
    id: CellID,
    cell_type: CellType,
    config: CellConfig,
    cmodel: Cmodel,
    ports: Vec<Port>,
    cell_agent: CellAgent,
    packet_engine: PacketEngine,
}

/// Port `i` of the cell as it is built: numbered `i`, a border port when the
/// border ports name it, and connected only when it is port 0.
pub open spec fn laid_out(p: Port, i: int, border: Seq<PortNo>) -> bool {
    &&& p.spec_port_no() == PortNo(i as u8)
    &&& p.spec_is_border() == border.contains(PortNo(i as u8))
    &&& p.spec_is_connected() == (i == 0)
}

/// A port that can be handed out for a link: not connected, not port 0, and
/// a border port or not as asked.
pub open spec fn free_port(p: Port, border: bool) -> bool {
    !p.spec_is_connected() && p.spec_is_border() == border && p.spec_port_no().0 != 0
}

/// The first port that can be handed out, if any.
pub open spec fn first_free(ports: Seq<Port>, border: bool, i: int) -> bool {
    &&& 0 <= i < ports.len()
    &&& free_port(ports[i], border)
    &&& forall|k: int| 0 <= k < i ==> !free_port(#[trigger] ports[k], border)
}

/// Whether the port list holds the port.
fn has_port(v: &Vec<PortNo>, p: PortNo) -> (b: bool)
    ensures
        b == v@.contains(p),
{
    let mut i: usize = 0;
    while i < v.len()
        invariant
            i <= v@.len(),
            forall|k: int| 0 <= k < i ==> v@[k] != p,
        decreases v@.len() - i,
    {
        if v[i] == p {
            assert(v@[i as int] == p);
            return true;
        }
        i = i + 1;
    }
    false
}

impl NalCell {
    pub closed spec fn spec_id(&self) -> CellID {
        self.id
    }

    pub closed spec fn spec_cell_type(&self) -> CellType {
        self.cell_type
    }

    pub closed spec fn spec_config(&self) -> CellConfig {
        self.config
    }

    pub closed spec fn spec_ports(&self) -> Seq<Port> {
        self.ports@
    }

    pub closed spec fn spec_cell_agent(&self) -> CellAgent {
        self.cell_agent
    }

    pub closed spec fn spec_cmodel(&self) -> Cmodel {
        self.cmodel
    }

    pub closed spec fn spec_packet_engine(&self) -> PacketEngine {
        self.packet_engine
    }

    /// Builds a cell with `num_phys_ports` ports besides port 0: a border
    /// cell when some ports are border ports. Refuses more ports than a cell
    /// may have.
    pub fn new(cell_no: CellNo, num_phys_ports: PortQty, border_port_nos: &Vec<PortNo>, config: CellConfig) -> (r: Result<
        NalCell,
        NalcellError,
    >)
        ensures
            num_phys_ports.0 > MAX_NUM_PHYS_PORTS_PER_CELL ==> (r matches Err(NalcellError::NumberPorts {
                func_name,
                num_phys_ports: n,
                max_num_phys_ports: m,
            }) && func_name == "new" && n == num_phys_ports && m.0 == MAX_NUM_PHYS_PORTS_PER_CELL),
            num_phys_ports.0 <= MAX_NUM_PHYS_PORTS_PER_CELL ==> (r matches Ok(c) && {
                &&& c.spec_id().spec_name() == seq!['C', ':'] + decimal(cell_no.0 as nat)
                &&& c.spec_cell_type() == if border_port_nos@.len() == 0 {
                    CellType::Interior
                } else {
                    CellType::Border
                }
                &&& c.spec_config() == config
                &&& c.spec_ports().len() == num_phys_ports.0 + 1
                &&& forall|i: int| 0 <= i < c.spec_ports().len() ==> laid_out(#[trigger] c.spec_ports()[i], i, border_port_nos@)
                &&& fresh_agent(c.spec_cell_agent(), c.spec_id(), c.spec_cell_type(), config, PortNo(num_phys_ports.0))
                &&& c.spec_cmodel().spec_cell_id() == c.spec_id()
                &&& c.spec_cmodel().wf()
                &&& c.spec_packet_engine().wf()
                &&& c.spec_packet_engine().spec_cell_id() == c.spec_id()
                &&& c.spec_packet_engine().spec_connected_tree_uuid()
                    == c.spec_cell_agent().spec_connected_tree_id().spec_uuid()
                &&& c.spec_packet_engine().spec_senders() == num_phys_ports.0 + 1
                &&& c.spec_packet_engine().spec_border_ports() == border_port_nos@
            }),
    {
        if num_phys_ports.0 > MAX_NUM_PHYS_PORTS_PER_CELL {
            return Err(
                NalcellError::NumberPorts {
                    func_name: "new",
                    num_phys_ports,
                    max_num_phys_ports: PortQty(MAX_NUM_PHYS_PORTS_PER_CELL),
                },
            );
        }
        let cell_id = match CellID::new(cell_no) {
            Ok(id) => id,
            Err(_) => {
                return Err(NalcellError::Chain { func_name: "new", comment: String::new() });
            },
        };
        let cell_type = if border_port_nos.len() == 0 {
            CellType::Interior
        } else {
            CellType::Border
        };
        let mut ports: Vec<Port> = Vec::new();
        let mut i: u8 = 0;
        while i <= num_phys_ports.0
            invariant
                num_phys_ports.0 <= MAX_NUM_PHYS_PORTS_PER_CELL,
                i <= num_phys_ports.0 + 1,
                ports@.len() == i,
                forall|k: int| 0 <= k < i ==> laid_out(#[trigger] ports@[k], k, border_port_nos@),
            decreases num_phys_ports.0 + 1 - i,
        {
            let is_border = has_port(border_port_nos, PortNo(i));
            let port_number = match PortNo(i).make_port_number(PortNo(num_phys_ports.0)) {
                Ok(p) => p,
                Err(_) => {
                    return Err(NalcellError::Chain { func_name: "new", comment: String::new() });
                },
            };
            let port = match Port::new(cell_id.clone(), port_number, is_border, i == 0) {
                Ok(p) => p,
                Err(_) => {
                    return Err(NalcellError::Chain { func_name: "new", comment: String::new() });
                },
            };
            ports.push(port);
            i = i + 1;
        }
        proof {
            lemma_decimal_no_blank(cell_no.0 as nat);
            lemma_concat_contains(seq!['C', ':'], decimal(cell_no.0 as nat), ' ');
            assert(!seq!['C', ':'].contains(' ')) by {
                assert(seq!['C', ':'][0] != ' ' && seq!['C', ':'][1] != ' ');
            }
        }
        let cell_agent = match CellAgent::new(&cell_id, cell_type, config, PortNo(num_phys_ports.0)) {
            Ok(ca) => ca,
            Err(_) => {
                return Err(NalcellError::Chain { func_name: "new", comment: String::new() });
            },
        };
        let cmodel = Cmodel::new(cell_id.clone());
        let connected: &TreeID = cell_agent.get_connected_tree_id();
        let packet_engine = match PacketEngine::new(
            cell_id.clone(),
            connected.get_uuid(),
            num_phys_ports.0 as usize + 1,
            border_port_nos,
        ) {
            Ok(pe) => pe,
            Err(_) => {
                return Err(NalcellError::Chain { func_name: "new", comment: String::new() });
            },
        };
        Ok(NalCell { id: cell_id, cell_type, config, cmodel, ports, cell_agent, packet_engine })
    }

    /// The cell's parts, to be run: its agent, cell model, packet engine and
    /// ports.
    pub fn into_parts(self) -> (r: (CellAgent, Cmodel, PacketEngine, Vec<Port>))
        ensures
            r.0 == self.spec_cell_agent(),
            r.1 == self.spec_cmodel(),
            r.2 == self.spec_packet_engine(),
            r.3@ == self.spec_ports(),
    {
        (self.cell_agent, self.cmodel, self.packet_engine, self.ports)
    }

    pub fn get_id(&self) -> (c: CellID)
        ensures
            c == self.spec_id(),
    {
        self.id.clone()
    }

    pub fn get_name(&self) -> (s: String)
        ensures
            s@ == self.spec_id().spec_name(),
    {
        String::from_str(self.id.get_name())
    }

    pub fn get_num_ports(&self) -> (n: PortQty)
        requires
            self.spec_ports().len() <= 255,
        ensures
            n.0 == self.spec_ports().len(),
    {
        PortQty(self.ports.len() as u8)
    }

    pub fn _get_cell_agent(&self) -> (ca: &CellAgent)
        ensures
            *ca == self.spec_cell_agent(),
    {
        &self.cell_agent
    }

    pub fn get_packet_engine(&self) -> (pe: &PacketEngine)
        ensures
            *pe == self.spec_packet_engine(),
    {
        &self.packet_engine
    }

    pub fn is_border(&self) -> (b: bool)
        ensures
            b == (self.spec_cell_type() == CellType::Border),
    {
        match self.cell_type {
            CellType::Border => true,
            CellType::Interior => false,
        }
    }

    /// Hands out the first port that is free for a link between cells,
    /// marked connected from now on; an error where there is none.
    pub fn get_free_ec_port_mut(&mut self) -> (r: Result<PortNo, NalcellError>)
        ensures
            free_port_taken(*old(self), *final(self), false, "get_free_ec_port_mut", r),
    {
        self.take_free_port(false, "get_free_ec_port_mut")
    }

    /// Hands out the first free border port, marked connected from now on;
    /// an error where there is none.
    pub fn get_free_boundary_port_mut(&mut self) -> (r: Result<PortNo, NalcellError>)
        ensures
            free_port_taken(*old(self), *final(self), true, "get_free_boundary_port_mut", r),
    {
        self.take_free_port(true, "get_free_boundary_port_mut")
    }

    fn take_free_port(&mut self, border: bool, func_name: &'static str) -> (r: Result<PortNo, NalcellError>)
        ensures
            free_port_taken(*old(self), *final(self), border, func_name, r),
    {
        let mut i: usize = 0;
        while i < self.ports.len()
            invariant
                i <= self.ports@.len(),
                *self == *old(self),
                forall|k: int| 0 <= k < i ==> !free_port(#[trigger] self.ports@[k], border),
            decreases self.ports@.len() - i,
        {
            let free = !self.ports[i].is_connected() && self.ports[i].is_border() == border
                && self.ports[i].get_port_no().0 != 0;
            if free {
                let ghost ps = self.ports@;
                let mut port = self.ports.remove(i);
                port.set_connected();
                let port_no = port.get_port_no();
                self.ports.insert(i, port);
                proof {
                    assert(ps == old(self).spec_ports());
                    assert(self.ports@ =~= ps.update(i as int, port));
                    assert(self.ports@[i as int] == port);
                    assert(first_free(ps, border, i as int));
                    assert forall|k: int| 0 <= k < ps.len() && k != i implies self.ports@[k] == ps[k] by {
                        if k < i {
                            assert(self.ports@[k] == ps[k]);
                        } else {
                            assert(self.ports@[k] == ps[k]);
                        }
                    }
                }
                return Ok(port_no);
            }
            i = i + 1;
        }
        Err(NalcellError::NoFreePorts { func_name, cell_id: self.id.clone() })
    }
}

/// The first free port of the kind is marked connected and its number
/// returned; where there is none, the cell is unchanged and the error
/// names it.
pub open spec fn free_port_taken(a: NalCell, b: NalCell, border: bool, func_name: &'static str, r: Result<
    PortNo,
    NalcellError,
>) -> bool {
    let ps = a.spec_ports();
    &&& b.spec_id() == a.spec_id()
    &&& b.spec_cell_type() == a.spec_cell_type()
    &&& b.spec_config() == a.spec_config()
    &&& b.spec_cell_agent() == a.spec_cell_agent()
    &&& b.spec_cmodel() == a.spec_cmodel()
    &&& b.spec_packet_engine() == a.spec_packet_engine()
    &&& match r {
        Ok(p) => exists|i: int|
            #![trigger first_free(ps, border, i)]
            first_free(ps, border, i) && p == ps[i].spec_port_no() && b.spec_ports().len() == ps.len() && (forall|k: int|
                0 <= k < ps.len() && k != i ==> b.spec_ports()[k] == ps[k]) && b.spec_ports()[i].spec_is_connected()
                && b.spec_ports()[i].spec_port_no() == ps[i].spec_port_no() && b.spec_ports()[i].spec_is_border()
                == ps[i].spec_is_border() && b.spec_ports()[i].spec_id() == ps[i].spec_id(),
        Err(e) => (forall|k: int| 0 <= k < ps.len() ==> !free_port(#[trigger] ps[k], border)) && b.spec_ports() == ps
            && (e matches NalcellError::NoFreePorts { func_name: f, cell_id } && f == func_name && cell_id
            == a.spec_id()),
    }
}


} // verus!
