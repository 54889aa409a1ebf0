use vstd::prelude::*;

verus! {

/// Version of the trace record schema.
pub const SCHEMA_VERSION: &'static str = "0.1";
/// Repository tag written into every trace header.
pub const REPO: &'static str = "CellAgent";
/// Longest valid name.
pub const MAX_CHARS: usize = 32;
/// Separator for compound names.
pub const SEPARATOR: &'static str = "+";
pub const CONTROL_TREE_NAME: &'static str = "Control";
pub const CONNECTED_PORTS_TREE_NAME: &'static str = "Connected";
pub const BASE_TREE_NAME: &'static str = "Base";
/// Limit on the number of physical ports per cell.
pub const MAX_NUM_PHYS_PORTS_PER_CELL: u8 = 9;
/// Minimum acceptable number of border cells.
pub const MIN_NUM_BORDER_CELLS: usize = 1;
/// Highest port number a mask or traph addresses.
pub const MAX_PORTS: u8 = 8;
pub const PACKET_MIN: usize = 64;
pub const PACKET_MAX: usize = 9000;
/// Don't close a channel following an error if true.
pub const CONTINUE_ON_ERROR: bool = false;
/// Bigger means wait longer to quiesce.
pub const DISCOVER_QUIESCE_FACTOR: usize = 4;
pub const PAYLOAD_DEFAULT_ELEMENT: u8 = 0;
pub const OUTPUT_DIR_NAME: &'static str = "/tmp/multicell/";
pub const OUTPUT_FILE_NAME: &'static str = "/tmp/multicell/trace";
pub const KAFKA_SERVER: &'static str = "172.16.1.2";
pub const KAFKA_TOPIC: &'static str = "CellAgent";
pub const NUM_CELLS: usize = 10;
pub const NUM_PORTS_PER_CELL: u8 = 8;

#[derive(Debug, Copy, Clone, PartialEq, Eq, Structural, Hash)]
pub struct CellQty(pub usize);

#[derive(Debug, Copy, Clone, PartialEq, Eq, Structural, Hash)]
pub struct ContainerNo(pub usize);

#[derive(Debug, Copy, Clone, PartialEq, Eq, Structural, Hash)]
pub struct DatacenterNo(pub u16);

#[derive(Debug, Copy, Clone, PartialEq, Eq, Structural, Hash)]
pub struct LinkQty(pub usize);

#[derive(Debug, Copy, Clone, PartialEq, Eq, Structural, Hash)]
pub struct MaskValue(pub u16);

#[derive(Debug, Copy, Clone, PartialEq, Eq, Structural, Hash)]
pub struct PacketNo(pub u16);

#[derive(Debug, Copy, Clone, PartialEq, Eq, Structural, Hash)]
pub struct PathLength(pub CellQty);

#[derive(Debug, Copy, Clone, PartialEq, Eq, Structural, Hash)]
pub struct PortQty(pub u8);

#[derive(Debug, Copy, Clone, PartialEq, Eq, Structural, Hash)]
pub struct CellNo(pub usize);

#[derive(Debug, Copy, Clone, PartialEq, Eq, Structural, Hash)]
pub struct PortNo(pub u8);

#[derive(Debug, Copy, Clone, PartialEq, Eq, Structural, Hash)]
pub struct LinkNo(pub CellNo);

#[derive(Debug, Copy, Clone, PartialEq, Eq, Structural, Hash)]
pub struct MsgID(pub u64);

/// An undirected link between two cells.
#[derive(Debug, Copy, Clone, PartialEq, Eq, Structural, Hash)]
pub struct Edge(pub CellNo, pub CellNo);

/// Raw message bytes.
#[derive(Debug, Clone)]
pub struct ByteArray(pub Vec<u8>);

#[derive(Debug, Copy, Clone, PartialEq, Eq, Structural, Hash)]
pub enum CellType {
    Border,
    Interior,
}

#[derive(Debug, Copy, Clone, PartialEq, Eq, Structural, Hash)]
pub enum CellConfig {
    Small,
    Medium,
    Large,
}

/// Which port gets quenched when a tree is broken.
#[derive(Debug, Copy, Clone, PartialEq, Eq, Structural, Hash)]
pub enum Quench {
    Simple,
    RootPort,
}

pub fn quench() -> (q: Quench)
    ensures
        q == Quench::RootPort,
{
    Quench::RootPort
}

/// Builds an edge from two cell numbers.
pub fn is2e(i: usize, j: usize) -> (e: Edge)
    ensures
        e == Edge(CellNo(i), CellNo(j)),
{
    Edge(CellNo(i), CellNo(j))
}

/// Which modules write trace records.
#[derive(Debug, Copy, Clone)]
pub struct TraceOptions {
    pub all: bool,
    pub dc: bool,
    pub nal: bool,
    pub noc: bool,
    pub svc: bool,
    pub vm: bool,
    pub ca: bool,
    pub cm: bool,
    pub pe: bool,
    pub pe_cm: bool,
    pub pe_port: bool,
    pub port: bool,
    pub link: bool,
}

/// Which debugging printouts are enabled.
#[derive(Debug, Copy, Clone)]
pub struct DebugOptions {
    pub all: bool,
    pub flow_control: bool,
    pub ca_msg_recv: bool,
    pub ca_msg_send: bool,
    pub cm_from_ca: bool,
    pub cm_to_ca: bool,
    pub cm_from_pe: bool,
    pub cm_to_pe: bool,
    pub application: bool,
    pub deploy: bool,
    pub discover: bool,
    pub discoverd: bool,
    pub manifest: bool,
    pub pe_pkt_recv: bool,
    pub pe_pkt_send: bool,
    pub process_msg: bool,
    pub pe_process_pkt: bool,
    pub port: bool,
    pub saved_discover: bool,
    pub saved_stack: bool,
    pub stack_tree: bool,
    pub traph_entry: bool,
}

/// The trace options the simulator runs with.
pub fn trace_options() -> (t: TraceOptions)
    ensures
        !t.all && t.dc && t.nal && t.noc && t.svc && t.vm && t.ca,
        !t.cm && !t.pe && !t.pe_cm && !t.pe_port && !t.port && !t.link,
{
    TraceOptions {
        all: false,
        dc: true,
        nal: true,
        noc: true,
        svc: true,
        vm: true,
        ca: true,
        cm: false,
        pe: false,
        pe_cm: false,
        pe_port: false,
        port: false,
        link: false,
    }
}

/// The debug options the simulator runs with: all off.
pub fn debug_options() -> (d: DebugOptions)
    ensures
        !d.all && !d.flow_control && !d.ca_msg_recv && !d.ca_msg_send,
        !d.cm_from_ca && !d.cm_to_ca && !d.cm_from_pe && !d.cm_to_pe,
        !d.application && !d.deploy && !d.discover && !d.discoverd && !d.manifest,
        !d.pe_pkt_recv && !d.pe_pkt_send && !d.process_msg && !d.pe_process_pkt,
        !d.port && !d.saved_discover && !d.saved_stack && !d.stack_tree && !d.traph_entry,
{
    DebugOptions {
        all: false,
        flow_control: false,
        ca_msg_recv: false,
        ca_msg_send: false,
        cm_from_ca: false,
        cm_to_ca: false,
        cm_from_pe: false,
        cm_to_pe: false,
        application: false,
        deploy: false,
        discover: false,
        discoverd: false,
        manifest: false,
        pe_pkt_recv: false,
        pe_pkt_send: false,
        process_msg: false,
        pe_process_pkt: false,
        port: false,
        saved_discover: false,
        saved_stack: false,
        stack_tree: false,
        traph_entry: false,
    }
}

/// The edges of the ten-cell demonstration blueprint.
pub fn edge_list() -> (v: Vec<Edge>)
    ensures
        v@ == seq![
            Edge(CellNo(0), CellNo(1)), Edge(CellNo(1), CellNo(2)), Edge(CellNo(3), CellNo(4)),
            Edge(CellNo(2), CellNo(3)), Edge(CellNo(1), CellNo(6)), Edge(CellNo(5), CellNo(6)),
            Edge(CellNo(6), CellNo(7)), Edge(CellNo(7), CellNo(8)), Edge(CellNo(8), CellNo(9)),
            Edge(CellNo(0), CellNo(5)), Edge(CellNo(2), CellNo(7)), Edge(CellNo(3), CellNo(8)),
            Edge(CellNo(4), CellNo(9))],
{
    vec![is2e(0, 1), is2e(1, 2), is2e(3, 4), is2e(2, 3), is2e(1, 6), is2e(5, 6), is2e(6, 7),
        is2e(7, 8), is2e(8, 9), is2e(0, 5), is2e(2, 7), is2e(3, 8), is2e(4, 9)]
}

/// The border cells of the demonstration blueprint and their border ports.
pub fn border_cell_ports() -> (v: Vec<(CellNo, Vec<PortNo>)>)
    ensures
        v.len() == 2,
        v[0].0 == CellNo(2) && v[0].1@ == seq![PortNo(2)],
        v[1].0 == CellNo(7) && v[1].1@ == seq![PortNo(2)],
{
    vec![(CellNo(2), vec![PortNo(2)]), (CellNo(7), vec![PortNo(2)])]
}

} // verus!
