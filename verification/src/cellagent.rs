//! The cell agent: what a cell knows of its trees, its neighbours and the
//! messages it keeps for late joiners, and what it decides on each port
//! event and message. Each decision is a function from the agent's state
//! and the event to the new state and the list of routing entries and
//! messages it hands the cell module, in order.
use vstd::prelude::*;
use vstd::string::StringSliceAdditionalSpecFns;

use crate::assoc::{
    file, find, has_key, keys_distinct, lemma_lookup_at, lemma_lookup_push, lemma_lookup_update, lemma_remove_insert, lookup,
    MapKey,
};
use crate::config::{quench, CellConfig, CellType, PortNo, Quench, CONNECTED_PORTS_TREE_NAME, CONTROL_TREE_NAME};
use crate::message::{
    is_discover_equation, tree_map_view, MsgType, StackTreeMsgPayload,
    ApplicationMsg, DiscoverDMsg, DiscoverMsg, FailoverDMsg, FailoverMsg, HelloMsg, ManifestMsg, Message,
    StackTreeDMsg, StackTreeMsg, TcpMsgType, MsgDirection, TreeNameMsg,
};
use crate::name::{CellID, Name, NameError, SenderID, TreeID, VmID};
use crate::routing_table_entry::RoutingTableEntry;
use crate::traph::{element_updated, entry_filed, entry_set, fewer_hops, hops_of, key, old_entry_of, was_tried, port_tree_added, strip_port, tree_stacked, PortState, PortStatus, Traph, TraphError};
use crate::traph_element::TraphElement;
use crate::port_tree::PortTree;
use crate::tree::Tree;
use crate::config::{CellQty, PathLength, MAX_PORTS};
use crate::gvm_equation::{equation_of, eval_bool, evaluation, json_usize, parsed_bindings, same_equation, same_variables, GvmEquation, GvmEquationError, GvmVariable};
use crate::text::{concat3, decimal, decimal_string};
use crate::uptree_spec::{same_manifest, tree_names, AllowedTree, Manifest, VmSpec};
use crate::utility::{base_tenant_mask, default_user_mask, lemma_mask_set_algebra, lemma_port_mask_bit, port_bit, port_mask_value, Mask, Path, PortNumber, UtilityError};
use crate::uuid_ec::{AitState, TimeDirection, Uuid, NORMAL};

verus! {

#[derive(Debug)]
pub enum CellagentError {
    Chain { func_name: &'static str, comment: &'static str },
    BaseTree { func_name: &'static str, cell_id: CellID, tree_id: TreeID },
    Border { func_name: &'static str, cell_id: CellID, port_no: u8 },
    MayNotSend { cell_id: CellID, func_name: &'static str, tree_id: TreeID },
    Message { func_name: &'static str, cell_id: CellID, msg: Vec<(String, String)> },
    NoParentTraph { cell_id: CellID, func_name: &'static str, port_no: u8 },
    NoTraph { cell_id: CellID, func_name: &'static str, tree_uuid: Uuid },
    StackTree { func_name: &'static str, tree_id: TreeID, cell_id: CellID },
    TcpMessageType { func_name: &'static str, cell_id: CellID, msg: TcpMsgType },
    TreeNameMap { func_name: &'static str, cell_id: CellID, sender_id: SenderID },
    TreeMap { func_name: &'static str, cell_id: CellID, tree_name: AllowedTree },
    Tree { func_name: &'static str, cell_id: CellID, tree_uuid: Uuid },
    TreeUuid { func_name: &'static str, uuid: Uuid, cell_id: CellID },
    Gvm(GvmEquationError),
    Name(NameError),
    Traph(TraphError),
    Utility(UtilityError),
}

/// Data the cell agent exposes to applications.
#[derive(Debug, Copy, Clone)]
pub struct CellInfo {
    external_id: Uuid,
}

impl CellInfo {
    pub closed spec fn spec_external_id(&self) -> Uuid {
        self.external_id
    }

    /// A fresh random identifier, visible outside the cell: normal, forward
    /// in time, with no root port.
    fn new() -> (c: CellInfo)
        ensures
            c.spec_external_id().spec_code() == NORMAL,
            c.spec_external_id().spec_port_byte() == 0,
            c.spec_external_id().spec_ait_state() == AitState::Normal,
            c.spec_external_id().spec_direction() == TimeDirection::Forward,
    {
        CellInfo { external_id: Uuid::new() }
    }

    pub fn get_external_id(&self) -> (u: Uuid)
        ensures
            u == self.spec_external_id(),
    {
        self.external_id
    }
}

/// The messages a cell agent sends.
#[derive(Debug)]
pub enum CaMsg {
    Application(ApplicationMsg),
    Discover(DiscoverMsg),
    DiscoverD(DiscoverDMsg),
    Failover(FailoverMsg),
    FailoverD(FailoverDMsg),
    Hello(HelloMsg),
    Manifest(ManifestMsg),
    StackTree(StackTreeMsg),
    StackTreeD(StackTreeDMsg),
}

impl CaMsg {
    pub open spec fn spec_ait(&self) -> bool {
        match self {
            CaMsg::Application(m) => m.spec_header().spec_ait(),
            CaMsg::Discover(m) => m.spec_header().spec_ait(),
            CaMsg::DiscoverD(m) => m.spec_header().spec_ait(),
            CaMsg::Failover(m) => m.spec_header().spec_ait(),
            CaMsg::FailoverD(m) => m.spec_header().spec_ait(),
            CaMsg::Hello(m) => m.spec_header().spec_ait(),
            CaMsg::Manifest(m) => m.spec_header().spec_ait(),
            CaMsg::StackTree(m) => m.spec_header().spec_ait(),
            CaMsg::StackTreeD(m) => m.spec_header().spec_ait(),
        }
    }

    pub open spec fn spec_blocking(&self) -> bool {
        match self {
            CaMsg::Application(m) => m.spec_blocking(),
            CaMsg::Discover(m) => m.spec_blocking(),
            CaMsg::DiscoverD(m) => m.spec_blocking(),
            CaMsg::Failover(m) => m.spec_blocking(),
            CaMsg::FailoverD(m) => m.spec_blocking(),
            CaMsg::Hello(m) => m.spec_blocking(),
            CaMsg::Manifest(m) => m.spec_blocking(),
            CaMsg::StackTree(m) => m.spec_blocking(),
            CaMsg::StackTreeD(m) => m.spec_blocking(),
        }
    }

    pub fn is_ait(&self) -> (b: bool)
        ensures
            b == self.spec_ait(),
    {
        match self {
            CaMsg::Application(m) => m.is_ait(),
            CaMsg::Discover(m) => m.is_ait(),
            CaMsg::DiscoverD(m) => m.is_ait(),
            CaMsg::Failover(m) => m.is_ait(),
            CaMsg::FailoverD(m) => m.is_ait(),
            CaMsg::Hello(m) => m.is_ait(),
            CaMsg::Manifest(m) => m.is_ait(),
            CaMsg::StackTree(m) => m.is_ait(),
            CaMsg::StackTreeD(m) => m.is_ait(),
        }
    }

    pub fn is_blocking(&self) -> (b: bool)
        ensures
            b == self.spec_blocking(),
    {
        match self {
            CaMsg::Application(m) => m.is_blocking(),
            CaMsg::Discover(m) => m.is_blocking(),
            CaMsg::DiscoverD(m) => m.is_blocking(),
            CaMsg::Failover(m) => m.is_blocking(),
            CaMsg::FailoverD(m) => m.is_blocking(),
            CaMsg::Hello(m) => m.is_blocking(),
            CaMsg::Manifest(m) => m.is_blocking(),
            CaMsg::StackTree(m) => m.is_blocking(),
            CaMsg::StackTreeD(m) => m.is_blocking(),
        }
    }
}

/// What the cell agent hands the cell module and the cell's VMs.
#[derive(Debug)]
pub enum CaToCm {
    /// A routing entry to install.
    Entry(RoutingTableEntry),
    /// A message to send on a tree, through the ports of the mask.
    Msg { tree_id: TreeID, is_ait: bool, is_blocking: bool, mask: Mask, msg: CaMsg },
    /// Lets the port that delivered a blocking message deliver the next.
    Unblock,
    /// A message body for a VM of the cell.
    ToVm { vm_id: VmID, is_ait: bool, body: Vec<u8> },
    /// A message for the outside partner of a border port.
    Tcp {
        port_number: PortNumber,
        is_ait: bool,
        allowed_tree: AllowedTree,
        msg_type: TcpMsgType,
        direction: MsgDirection,
        msg: TreeNameMsg,
    },
}

/// An entry as `RoutingTableEntry::default` makes it: not in use, parent
/// port 0, no children, sending allowed.
pub open spec fn unused_entry(e: RoutingTableEntry) -> bool {
    !e.spec_inuse() && e.spec_parent() == PortNo(0) && e.spec_mask() == 0 && e.spec_may_send()
}

/// A saved message for trees that late joiners must still get.
pub type SavedMsg = (Option<ApplicationMsg>, Option<ManifestMsg>);

#[derive(Debug)]
pub struct CellAgent {
    cell_id: CellID,
    cell_type: CellType,
    config: CellConfig,
    cell_info: CellInfo,
    no_ports: PortNo,
    my_tree_id: TreeID,
    control_tree_id: TreeID,
    connected_tree_id: TreeID,
    my_entry: RoutingTableEntry,
    connected_tree_entry: RoutingTableEntry,
    saved_discover: Vec<DiscoverMsg>,
    saved_msgs: Vec<(TreeID, Vec<SavedMsg>)>,
    saved_stack: Vec<(TreeID, Vec<StackTreeMsg>)>,
    traphs: Vec<(Uuid, Traph)>,
    tree_map: Vec<(Uuid, Uuid)>,
    tree_name_map: Vec<(SenderID, Vec<(String, TreeID)>)>,
    border_port_tree_id_map: Vec<(PortNumber, (SenderID, TreeID))>,
    base_tree_map: Vec<(TreeID, TreeID)>,
    tree_id_map: Vec<(Uuid, TreeID)>,
    tenant_masks: Vec<Mask>,
    neighbors: Vec<(PortNo, (CellID, PortNo))>,
    tree_vm_map: Vec<(TreeID, Vec<VmID>)>,
}

/// The agent's state as values.
pub struct CaView {
    pub cell_id: CellID,
    pub cell_type: CellType,
    pub config: CellConfig,
    pub cell_info: CellInfo,
    pub no_ports: PortNo,
    pub my_tree_id: TreeID,
    pub control_tree_id: TreeID,
    pub connected_tree_id: TreeID,
    pub my_entry: RoutingTableEntry,
    pub connected_tree_entry: RoutingTableEntry,
    pub saved_discover: Seq<DiscoverMsg>,
    pub saved_msgs: Seq<(TreeID, Vec<SavedMsg>)>,
    pub saved_stack: Seq<(TreeID, Vec<StackTreeMsg>)>,
    pub traphs: Seq<(Uuid, Traph)>,
    pub tree_map: Seq<(Uuid, Uuid)>,
    pub tree_name_map: Seq<(SenderID, Vec<(String, TreeID)>)>,
    pub border_map: Seq<(PortNumber, (SenderID, TreeID))>,
    pub base_tree_map: Seq<(TreeID, TreeID)>,
    pub tree_id_map: Seq<(Uuid, TreeID)>,
    pub tenant_masks: Seq<Mask>,
    pub neighbors: Seq<(PortNo, (CellID, PortNo))>,
    pub tree_vm_map: Seq<(TreeID, Vec<VmID>)>,
}

impl View for CellAgent {
    type V = CaView;

    closed spec fn view(&self) -> CaView {
        CaView {
            cell_id: self.cell_id,
            cell_type: self.cell_type,
            config: self.config,
            cell_info: self.cell_info,
            no_ports: self.no_ports,
            my_tree_id: self.my_tree_id,
            control_tree_id: self.control_tree_id,
            connected_tree_id: self.connected_tree_id,
            my_entry: self.my_entry,
            connected_tree_entry: self.connected_tree_entry,
            saved_discover: self.saved_discover@,
            saved_msgs: self.saved_msgs@,
            saved_stack: self.saved_stack@,
            traphs: self.traphs@,
            tree_map: self.tree_map@,
            tree_name_map: self.tree_name_map@,
            border_map: self.border_port_tree_id_map@,
            base_tree_map: self.base_tree_map@,
            tree_id_map: self.tree_id_map@,
            tenant_masks: self.tenant_masks@,
            neighbors: self.neighbors@,
            tree_vm_map: self.tree_vm_map@,
        }
    }
}

/// A cell agent as `CellAgent::new` makes it: well formed, with the cell's
/// id, type, configuration and ports, its own trees named after the cell,
/// and every table empty.
pub open spec fn fresh_agent(ca: CellAgent, cell_id: CellID, cell_type: CellType, config: CellConfig, no_ports: PortNo) -> bool {
    &&& ca.wf()
    &&& ca.spec_cell_id() == cell_id
    &&& ca.spec_cell_type() == cell_type
    &&& ca.spec_config() == config
    &&& ca.spec_no_ports() == no_ports
    &&& ca.spec_my_tree_id().spec_name() == cell_id.spec_name()
    &&& ca.spec_control_tree_id().spec_name() == cell_id.spec_name() + seq!['+'] + CONTROL_TREE_NAME@
    &&& ca.spec_connected_tree_id().spec_name() == cell_id.spec_name() + seq!['+']
        + CONNECTED_PORTS_TREE_NAME@
    &&& ca.spec_base_tree_map() == seq![(ca.spec_my_tree_id(), ca.spec_my_tree_id())]
    &&& ca.spec_traphs().len() == 0
    &&& ca.spec_tree_map().len() == 0
    &&& ca.spec_tree_id_map().len() == 0
    &&& ca.spec_tree_name_map().len() == 0
    &&& ca.spec_border_map().len() == 0
    &&& ca.spec_saved_discover().len() == 0
    &&& ca.spec_saved_msgs().len() == 0
    &&& ca.spec_saved_stack().len() == 0
    &&& ca.spec_neighbors().len() == 0
    &&& ca.spec_tree_vm_map().len() == 0
    &&& ca.spec_cell_info().spec_external_id().spec_code() == NORMAL
    &&& ca.spec_cell_info().spec_external_id().spec_port_byte() == 0
    &&& ca.spec_tenant_masks().len() == 1 && ca.spec_tenant_masks()[0]@ == 255u16
    &&& unused_entry(ca.spec_my_entry())
    &&& unused_entry(ca.spec_connected_tree_entry())
}

impl CellAgent {
    pub open spec fn spec_cell_id(&self) -> CellID {
        self@.cell_id
    }

    pub open spec fn spec_cell_type(&self) -> CellType {
        self@.cell_type
    }

    pub open spec fn spec_config(&self) -> CellConfig {
        self@.config
    }

    pub open spec fn spec_cell_info(&self) -> CellInfo {
        self@.cell_info
    }

    pub open spec fn spec_no_ports(&self) -> PortNo {
        self@.no_ports
    }

    pub open spec fn spec_my_tree_id(&self) -> TreeID {
        self@.my_tree_id
    }

    pub open spec fn spec_control_tree_id(&self) -> TreeID {
        self@.control_tree_id
    }

    pub open spec fn spec_connected_tree_id(&self) -> TreeID {
        self@.connected_tree_id
    }

    pub open spec fn spec_my_entry(&self) -> RoutingTableEntry {
        self@.my_entry
    }

    pub open spec fn spec_connected_tree_entry(&self) -> RoutingTableEntry {
        self@.connected_tree_entry
    }

    pub open spec fn spec_saved_discover(&self) -> Seq<DiscoverMsg> {
        self@.saved_discover
    }

    pub open spec fn spec_saved_msgs(&self) -> Seq<(TreeID, Vec<SavedMsg>)> {
        self@.saved_msgs
    }

    pub open spec fn spec_saved_stack(&self) -> Seq<(TreeID, Vec<StackTreeMsg>)> {
        self@.saved_stack
    }

    pub open spec fn spec_traphs(&self) -> Seq<(Uuid, Traph)> {
        self@.traphs
    }

    pub open spec fn spec_tree_map(&self) -> Seq<(Uuid, Uuid)> {
        self@.tree_map
    }

    pub open spec fn spec_tree_name_map(&self) -> Seq<(SenderID, Vec<(String, TreeID)>)> {
        self@.tree_name_map
    }

    pub open spec fn spec_border_map(&self) -> Seq<(PortNumber, (SenderID, TreeID))> {
        self@.border_map
    }

    pub open spec fn spec_base_tree_map(&self) -> Seq<(TreeID, TreeID)> {
        self@.base_tree_map
    }

    pub open spec fn spec_tree_id_map(&self) -> Seq<(Uuid, TreeID)> {
        self@.tree_id_map
    }

    pub open spec fn spec_tenant_masks(&self) -> Seq<Mask> {
        self@.tenant_masks
    }

    pub open spec fn spec_neighbors(&self) -> Seq<(PortNo, (CellID, PortNo))> {
        self@.neighbors
    }

    /// The VMs that get the messages of each tree.
    pub open spec fn spec_tree_vm_map(&self) -> Seq<(TreeID, Vec<VmID>)> {
        self@.tree_vm_map
    }

    /// The tree a tree is stacked on, where the agent knows it.
    pub open spec fn base_tree_of(&self, tree_id: TreeID) -> Option<TreeID> {
        lookup(self.spec_base_tree_map(), tree_id.key_of())
    }

    /// The traph of the base tree with the UUID.
    pub open spec fn traph_of(&self, uuid: Uuid) -> Option<Traph> {
        lookup(self.spec_traphs(), uuid)
    }

    /// Every table keeps each key once; every traph is filed under its
    /// base tree's UUID and has one element per port.
    pub open spec fn wf(&self) -> bool {
        &&& self.spec_no_ports().0 < 255
        &&& self.spec_traphs().len() > 0 ==> self.spec_no_ports().0 <= MAX_PORTS
        &&& keys_distinct(self.spec_traphs())
        &&& forall|i: int|
            0 <= i < self.spec_traphs().len() ==> {
                let (u, t) = #[trigger] self.spec_traphs()[i];
                &&& t.wf()
                &&& t.spec_elements().len() == self.spec_no_ports().0
                &&& u == t.spec_base_tree_id().spec_uuid()
            }
        &&& keys_distinct(self.spec_saved_msgs())
        &&& keys_distinct(self.spec_saved_stack())
        &&& keys_distinct(self.spec_tree_map())
        &&& keys_distinct(self.spec_tree_name_map())
        &&& forall|i: int| 0 <= i < self.spec_tree_name_map().len() ==> keys_distinct((#[trigger] self.spec_tree_name_map()[i]).1@)
        &&& keys_distinct(self.spec_border_map())
        &&& keys_distinct(self.spec_base_tree_map())
        &&& keys_distinct(self.spec_tree_id_map())
        &&& keys_distinct(self.spec_neighbors())
        &&& keys_distinct(self.spec_tree_vm_map())
    }

    /// An agent with the cell's own tree (named as the cell) as its only
    /// known base tree, and with no traphs yet. Fails when the cell's name
    /// holds a blank.
    pub fn new(cell_id: &CellID, cell_type: CellType, config: CellConfig, no_ports: PortNo) -> (r: Result<
        CellAgent,
        CellagentError,
    >)
        requires
            no_ports.0 < 255,
        ensures
            cell_id.spec_name().contains(' ') <==> r is Err,
            r matches Ok(ca) ==> fresh_agent(ca, *cell_id, cell_type, config, no_ports),
    {
        proof {
            reveal_strlit("Control");
            reveal_strlit("Connected");
        }
        let my_tree_id = match TreeID::new(cell_id.get_name()) {
            Ok(t) => t,
            Err(e) => {
                return Err(CellagentError::Name(e));
            },
        };
        let control_tree_id = match TreeID::new(cell_id.get_name()) {
            Ok(t) => match t.add_component(CONTROL_TREE_NAME) {
                Ok(c) => c,
                Err(e) => {
                    proof {
                        assert(!(cell_id.spec_name() + seq!['+'] + CONTROL_TREE_NAME@).contains(' ')) by {
                            lemma_no_blank_join(cell_id.spec_name(), CONTROL_TREE_NAME@);
                        }
                    }
                    return Err(CellagentError::Name(e));
                },
            },
            Err(e) => {
                return Err(CellagentError::Name(e));
            },
        };
        let connected_tree_id = match TreeID::new(cell_id.get_name()) {
            Ok(t) => match t.add_component(CONNECTED_PORTS_TREE_NAME) {
                Ok(c) => c,
                Err(e) => {
                    proof {
                        assert(!(cell_id.spec_name() + seq!['+'] + CONNECTED_PORTS_TREE_NAME@).contains(' ')) by {
                            lemma_no_blank_join(cell_id.spec_name(), CONNECTED_PORTS_TREE_NAME@);
                        }
                    }
                    return Err(CellagentError::Name(e));
                },
            },
            Err(e) => {
                return Err(CellagentError::Name(e));
            },
        };
        let mut base_tree_map: Vec<(TreeID, TreeID)> = Vec::new();
        base_tree_map.push((my_tree_id.clone(), my_tree_id.clone()));
        let mut tenant_masks: Vec<Mask> = Vec::new();
        tenant_masks.push(base_tenant_mask());
        let ca = CellAgent {
            cell_id: cell_id.clone(),
            cell_type,
            config,
            cell_info: CellInfo::new(),
            no_ports,
            my_tree_id,
            control_tree_id,
            connected_tree_id,
            my_entry: RoutingTableEntry::default(),
            connected_tree_entry: RoutingTableEntry::default(),
            saved_discover: Vec::new(),
            saved_msgs: Vec::new(),
            saved_stack: Vec::new(),
            traphs: Vec::new(),
            tree_map: Vec::new(),
            tree_name_map: Vec::new(),
            border_port_tree_id_map: Vec::new(),
            base_tree_map,
            tree_id_map: Vec::new(),
            tenant_masks,
            neighbors: Vec::new(),
            tree_vm_map: Vec::new(),
        };
        Ok(ca)
    }

    pub fn get_no_ports(&self) -> (n: PortNo)
        ensures
            n == self.spec_no_ports(),
    {
        self.no_ports
    }

    pub fn get_id(&self) -> (c: CellID)
        ensures
            c == self.spec_cell_id(),
    {
        self.cell_id.clone()
    }

    pub fn get_cell_info(&self) -> (c: CellInfo)
        ensures
            c == self.spec_cell_info(),
    {
        self.cell_info
    }

    pub fn get_connected_ports_tree_id(&self) -> (t: &TreeID)
        ensures
            *t == self.spec_connected_tree_id(),
    {
        &self.connected_tree_id
    }

    pub fn get_my_tree_id(&self) -> (t: &TreeID)
        ensures
            *t == self.spec_my_tree_id(),
    {
        &self.my_tree_id
    }

    pub fn get_connected_tree_id(&self) -> (t: &TreeID)
        ensures
            *t == self.spec_connected_tree_id(),
    {
        &self.connected_tree_id
    }

    pub fn get_control_tree_id(&self) -> (t: &TreeID)
        ensures
            *t == self.spec_control_tree_id(),
    {
        &self.control_tree_id
    }
}

/// The routing entry of the stacked tree filed under the UUID in the traph.
pub open spec fn tree_entry_in(t: Traph, uuid: Uuid) -> Option<RoutingTableEntry> {
    match lookup(t.spec_stacked(), uuid) {
        Some(tree) => Some(tree.spec_entry()),
        None => None,
    }
}

/// A stacked tree's entry, found by its position, is the one filed under its UUID.
proof fn lemma_stacked_at(t: Traph, i: int)
    requires
        t.wf(),
        0 <= i < t.spec_stacked().len(),
    ensures
        lookup(t.spec_stacked(), t.spec_stacked()[i].0) == Some(t.spec_stacked()[i].1),
        tree_entry_in(t, t.spec_stacked()[i].0) == Some(t.spec_stacked()[i].1.spec_entry()),
{
    let s = t.spec_stacked();
    assert(keys_distinct(s)) by {
        assert forall|a: int, b: int| 0 <= a < b < s.len() implies (#[trigger] s[a].0.key_of()) != (
        #[trigger] s[b].0.key_of()) by {
            assert(s[a].0 != s[b].0);
        }
    }
    lemma_lookup_at(s, i);
}

/// Setting the entry of a tree stacked in a traph and then reading it back
/// gives that entry, and every other tree's entry is as it was; a traph
/// without the tree refuses and is left unchanged.
pub proof fn law_traph_entry_read_after_set(before: Traph, after: Traph, uuid: Uuid, entry: RoutingTableEntry, r: Result<
    (),
    TraphError,
>)
    requires
        before.wf(),
        entry_set(before, after, uuid, entry, r),
    ensures
        before.has_stacked(uuid) ==> r is Ok && tree_entry_in(after, uuid) == Some(entry),
        !before.has_stacked(uuid) ==> r is Err && after == before,
        forall|v: Uuid| v != uuid ==> #[trigger] tree_entry_in(after, v) == tree_entry_in(before, v),
{
    let sb = before.spec_stacked();
    let sa = after.spec_stacked();
    if before.has_stacked(uuid) {
        let i = choose|i: int|
            0 <= i < sb.len() && sb[i].0 == uuid && sa.len() == sb.len() && sa[i].0 == uuid && sb[i].1.with_entry(&sa[i].1, entry)
                && forall|k: int| 0 <= k < sb.len() && k != i ==> sa[k] == sb[k];
        lemma_stacked_at(after, i);
        assert forall|v: Uuid| v != uuid implies #[trigger] tree_entry_in(after, v) == tree_entry_in(before, v) by {
            lemma_has_stacked(before, v);
            lemma_has_stacked(after, v);
            if before.has_stacked(v) {
                let k = choose|k: int| 0 <= k < sb.len() && (#[trigger] sb[k]).0 == v;
                assert(k != i);
                assert(sa[k] == sb[k]);
                lemma_stacked_at(before, k);
                lemma_stacked_at(after, k);
            } else if after.has_stacked(v) {
                let k = choose|k: int| 0 <= k < sa.len() && (#[trigger] sa[k]).0 == v;
                assert(k != i);
                assert(sa[k] == sb[k]);
                assert(before.has_stacked(v));
            }
        }
    }
}

/// Stacking a tree in a traph and then looking its UUID up gives that
/// tree and its entry; every other tree stacked there is as it was.
pub proof fn law_stacked_tree_found(before: Traph, after: Traph, tree: Tree)
    requires
        before.wf(),
        tree_stacked(before, after, tree),
    ensures
        lookup(after.spec_stacked(), tree.spec_uuid()) == Some(tree),
        tree_entry_in(after, tree.spec_uuid()) == Some(tree.spec_entry()),
        forall|v: Uuid| v != tree.spec_uuid() ==> #[trigger] tree_entry_in(after, v) == tree_entry_in(before, v),
{
    let sb = before.spec_stacked();
    let sa = after.spec_stacked();
    let u = tree.spec_uuid();
    let i = choose|i: int| 0 <= i < sa.len() && sa[i] == (u, tree);
    lemma_stacked_at(after, i);
    assert forall|v: Uuid| v != u implies #[trigger] tree_entry_in(after, v) == tree_entry_in(before, v) by {
        lemma_has_stacked(before, v);
        lemma_has_stacked(after, v);
        if before.has_stacked(u) {
            let j = choose|j: int| 0 <= j < sb.len() && sb[j].0 == u && sa == sb.update(j, (u, tree));
            if before.has_stacked(v) {
                let k = choose|k: int| 0 <= k < sb.len() && (#[trigger] sb[k]).0 == v;
                assert(k != j && sa[k] == sb[k]);
                lemma_stacked_at(before, k);
                lemma_stacked_at(after, k);
            } else if after.has_stacked(v) {
                let k = choose|k: int| 0 <= k < sa.len() && (#[trigger] sa[k]).0 == v;
                assert(k != j && sa[k] == sb[k]);
                assert(before.has_stacked(v));
            }
        } else {
            assert(sa == sb.push((u, tree)));
            if before.has_stacked(v) {
                let k = choose|k: int| 0 <= k < sb.len() && (#[trigger] sb[k]).0 == v;
                assert(sa[k] == sb[k]);
                lemma_stacked_at(before, k);
                lemma_stacked_at(after, k);
            } else if after.has_stacked(v) {
                let k = choose|k: int| 0 <= k < sa.len() && (#[trigger] sa[k]).0 == v;
                assert(k < sb.len());
                assert(sa[k] == sb[k]);
                assert(before.has_stacked(v));
            }
        }
    }
}

/// Whether the traph has a port tree whose root is reached through the port.
pub open spec fn has_root_port(t: Traph, port_no: PortNo) -> bool {
    exists|i: int| 0 <= i < t.spec_port_trees().len() && (#[trigger] t.spec_port_trees()[i]).spec_root_port_no() == port_no
}

/// Whether a traph holds a stacked tree under the UUID, in either form.
proof fn lemma_has_stacked(t: Traph, uuid: Uuid)
    ensures
        t.has_stacked(uuid) == has_key(t.spec_stacked(), uuid),
{
    let s = t.spec_stacked();
    if t.has_stacked(uuid) {
        let i = choose|i: int| 0 <= i < s.len() && (#[trigger] s[i]).0 == uuid;
        assert(s[i].0.key_of() == uuid);
    }
    if has_key(s, uuid) {
        let i = choose|i: int| 0 <= i < s.len() && (#[trigger] s[i].0.key_of()) == uuid;
        assert(s[i].0 == uuid);
    }
}

/// What `update_base_tree_map` does: the stacked tree's base tree is
/// recorded by tree id and by UUID, and nothing else changes.
pub open spec fn base_tree_mapped(a: CellAgent, b: CellAgent, stacked_tree_id: TreeID, base_tree_id: TreeID) -> bool {
    &&& b.wf()
    &&& b@ == (CaView { base_tree_map: b@.base_tree_map, tree_map: b@.tree_map, ..a@ })
    &&& forall|t: TreeID| #[trigger]
        b.base_tree_of(t) == if t.key_of() == stacked_tree_id.key_of() {
            Some(base_tree_id)
        } else {
            a.base_tree_of(t)
        }
    &&& forall|u: Uuid| #[trigger]
        lookup(b.spec_tree_map(), u) == if u == stacked_tree_id.spec_uuid() {
            Some(base_tree_id.spec_uuid())
        } else {
            lookup(a.spec_tree_map(), u)
        }
}

impl CellAgent {
    /// The traph of the tree's base tree, where both are known.
    pub open spec fn traph_for_tree(&self, tree_id: TreeID) -> Option<Traph> {
        match self.base_tree_of(tree_id) {
            Some(b) => self.traph_of(b.spec_uuid()),
            None => None,
        }
    }

    /// Records that the stacked tree is built on the base tree, by tree id
    /// and by UUID.
    pub fn update_base_tree_map(&mut self, stacked_tree_id: &TreeID, base_tree_id: &TreeID)
        requires
            old(self).wf(),
        ensures
            base_tree_mapped(*old(self), *final(self), *stacked_tree_id, *base_tree_id),
    {
        file(&mut self.base_tree_map, stacked_tree_id.clone(), base_tree_id.clone());
        file(&mut self.tree_map, stacked_tree_id.get_uuid(), base_tree_id.get_uuid());
    }

    /// The tree the given tree is stacked on.
    pub fn get_base_tree_id(&self, tree_id: &TreeID) -> (r: Result<TreeID, CellagentError>)
        requires
            self.wf(),
        ensures
            self.base_tree_of(*tree_id) matches Some(b) ==> (r matches Ok(t) && t == b),
            self.base_tree_of(*tree_id) is None ==> (r matches Err(CellagentError::BaseTree { func_name, cell_id, tree_id: t })
                && func_name == "get_base_tree_id" && cell_id == self.spec_cell_id() && t == *tree_id),
    {
        match find(&self.base_tree_map, tree_id) {
            Some(i) => {
                proof {
                    lemma_lookup_at(self.base_tree_map@, i as int);
                }
                Ok(self.base_tree_map[i].1.clone())
            },
            None => Err(
                CellagentError::BaseTree { func_name: "get_base_tree_id", cell_id: self.cell_id.clone(), tree_id: tree_id.clone() },
            ),
        }
    }

    /// The simple quenching rule: a tree is known once the cell has a traph for it.
    pub fn exists_simple(&self, tree_id: &TreeID) -> (b: bool)
        ensures
            b == (self.traph_of(tree_id.spec_uuid()) is Some),
    {
        find(&self.traphs, &tree_id.get_uuid()).is_some()
    }

    /// The root-port quenching rule: a tree is known once the cell has seen
    /// it through the root port of the path.
    pub fn exists_root_port(&self, tree_id: &TreeID, path: Path) -> (b: bool)
        requires
            self.wf(),
        ensures
            b == (self.traph_of(tree_id.spec_uuid()) matches Some(t) && has_root_port(t, path.spec_port_number().port_no)),
    {
        match find(&self.traphs, &tree_id.get_uuid()) {
            Some(k) => {
                proof {
                    lemma_lookup_at(self.traphs@, k as int);
                }
                let traph = &self.traphs[k].1;
                let port_no = path.get_port_no();
                let port_trees = traph.get_port_trees();
                assert(self.traph_of(tree_id.spec_uuid()) == Some(*traph));
                let mut i: usize = 0;
                while i < port_trees.len()
                    invariant
                        self.traph_of(tree_id.spec_uuid()) == Some(*traph),
                        i <= port_trees@.len(),
                        port_trees@ == traph.spec_port_trees(),
                        port_no == path.spec_port_number().port_no,
                        forall|j: int| 0 <= j < i ==> (#[trigger] port_trees@[j]).spec_root_port_no() != port_no,
                    decreases port_trees@.len() - i,
                {
                    if port_trees[i].get_root_port_no() == port_no {
                        assert(traph.spec_port_trees()[i as int].spec_root_port_no() == port_no);
                        assert(has_root_port(*traph, port_no));
                        return true;
                    }
                    i = i + 1;
                }
                false
            },
            None => false,
        }
    }

    /// The traph of the tree's base tree.
    pub fn get_traph(&self, tree_id: &TreeID) -> (r: Result<&Traph, CellagentError>)
        requires
            self.wf(),
        ensures
            self.base_tree_of(*tree_id) is None ==> (r matches Err(CellagentError::Chain { func_name, comment })
                && func_name == "get_traph"),
            self.base_tree_of(*tree_id) matches Some(b) ==> match self.traph_of(b.spec_uuid()) {
                Some(t) => r matches Ok(x) && *x == t,
                None => r matches Err(CellagentError::NoTraph { cell_id, func_name, tree_uuid })
                    && cell_id == self.spec_cell_id() && func_name == "stack_tree" && tree_uuid == b.spec_uuid(),
            },
    {
        let base_tree_id = match self.get_base_tree_id(tree_id) {
            Ok(b) => b,
            Err(_) => {
                return Err(CellagentError::Chain { func_name: "get_traph", comment: "" });
            },
        };
        let uuid = base_tree_id.get_uuid();
        match find(&self.traphs, &uuid) {
            Some(k) => {
                proof {
                    lemma_lookup_at(self.traphs@, k as int);
                }
                Ok(&self.traphs[k].1)
            },
            None => Err(CellagentError::NoTraph { cell_id: self.cell_id.clone(), func_name: "stack_tree", tree_uuid: uuid }),
        }
    }

    /// The routing entry of the tree, from its base tree's traph.
    pub fn get_tree_entry(&self, tree_id: &TreeID) -> (r: Result<RoutingTableEntry, CellagentError>)
        requires
            self.wf(),
        ensures
            self.traph_for_tree(*tree_id) matches Some(t) ==> match tree_entry_in(t, tree_id.spec_uuid()) {
                Some(e) => r == Ok::<RoutingTableEntry, CellagentError>(e),
                None => r matches Err(CellagentError::Traph(TraphError::Chain { func_name, comment }))
                    && func_name == "get_tree_entry",
            },
            self.traph_for_tree(*tree_id) is None ==> r is Err,
    {
        let traph = match self.get_traph(tree_id) {
            Ok(t) => t,
            Err(e) => {
                return Err(e);
            },
        };
        let r = traph.get_tree_entry(&tree_id.get_uuid());
        proof {
            lemma_has_stacked(*traph, tree_id.spec_uuid());
            if traph.has_stacked(tree_id.spec_uuid()) {
                let i = choose|i: int|
                    0 <= i < traph.spec_stacked().len() && traph.spec_stacked()[i].0 == tree_id.spec_uuid()
                        && r == Ok::<RoutingTableEntry, TraphError>(traph.spec_stacked()[i].1.spec_entry());
                lemma_stacked_at(*traph, i);
            }
        }
        match r {
            Ok(e) => Ok(e),
            Err(e) => Err(CellagentError::Traph(e)),
        }
    }
}

/// Two saved messages that agree in everything observable.
pub open spec fn same_saved(a: SavedMsg, b: SavedMsg) -> bool {
    &&& match (a.0, b.0) {
        (Some(x), Some(y)) => x.same(&y),
        (None, None) => true,
        _ => false,
    }
    &&& match (a.1, b.1) {
        (Some(x), Some(y)) => x.same(&y),
        (None, None) => true,
        _ => false,
    }
}

fn clone_saved(m: &SavedMsg) -> (r: SavedMsg)
    ensures
        same_saved(r, *m),
{
    let a = match &m.0 {
        Some(x) => Some(x.clone()),
        None => None,
    };
    let b = match &m.1 {
        Some(x) => Some(x.clone()),
        None => None,
    };
    (a, b)
}

/// The list filed under the tree, or an empty one.
pub open spec fn list_of<V>(s: Seq<(TreeID, Vec<V>)>, tree_id: TreeID) -> Seq<V> {
    match lookup(s, tree_id.key_of()) {
        Some(v) => v@,
        None => Seq::empty(),
    }
}

/// Appends to the list filed under the tree, creating it if needed.
fn append_to<V>(s: &mut Vec<(TreeID, Vec<V>)>, tree_id: &TreeID, x: V)
    requires
        keys_distinct(old(s)@),
    ensures
        keys_distinct(final(s)@),
        list_of(final(s)@, *tree_id) == list_of(old(s)@, *tree_id).push(x),
        forall|t: TreeID| #[trigger] lookup(final(s)@, t.key_of()) is Some <==> t.key_of() == tree_id.key_of()
            || lookup(old(s)@, t.key_of()) is Some,
        forall|t: TreeID| t.key_of() != tree_id.key_of() ==> #[trigger] list_of(final(s)@, t) == list_of(old(s)@, t),
{
    match find(s, tree_id) {
        Some(i) => {
            proof {
                lemma_lookup_at(s@, i as int);
            }
            let (k, mut v) = s.remove(i);
            let ghost before = v@;
            v.push(x);
            proof {
                lemma_lookup_update(old(s)@, i as int, k, v);
                lemma_remove_insert(old(s)@, i as int, (k, v));
            }
            s.insert(i, (k, v));
            proof {
                assert(v@ == before.push(x));
            }
        },
        None => {
            let mut v: Vec<V> = Vec::new();
            v.push(x);
            file(s, tree_id.clone(), v);
            proof {
                assert(v@ =~= Seq::<V>::empty().push(x));
            }
        },
    }
}

/// What `add_tree_name_map_item` does: the sender may use the tree by the
/// name; nothing else changes.
pub open spec fn tree_named_for(a: CellAgent, b: CellAgent, sender_id: SenderID, name: Seq<char>, tree_id: TreeID) -> bool {
    &&& b.wf()
    &&& b@ == (CaView { tree_name_map: b@.tree_name_map, ..a@ })
    &&& lookup(b.spec_tree_name_map(), sender_id.key_of()) is Some
    &&& keys_distinct(b.names_of(sender_id))
    &&& forall|n: Seq<char>| #[trigger]
        lookup(b.names_of(sender_id), n) == if n == name {
            Some(tree_id)
        } else {
            lookup(a.names_of(sender_id), n)
        }
    &&& forall|s: SenderID|
        s.key_of() != sender_id.key_of() ==> #[trigger] lookup(b.spec_tree_name_map(), s.key_of()) == lookup(
            a.spec_tree_name_map(),
            s.key_of(),
        )
}

impl CellAgent {
    /// The trees named for the sender, by name.
    pub open spec fn names_of(&self, sender_id: SenderID) -> Seq<(String, TreeID)> {
        match lookup(self.spec_tree_name_map(), sender_id.key_of()) {
            Some(m) => m@,
            None => Seq::empty(),
        }
    }

    /// The saved discover messages, which go out again on every newly connected port.
    pub fn get_saved_discover(&self) -> (v: Vec<DiscoverMsg>)
        ensures
            v@.len() == self.spec_saved_discover().len(),
            forall|i: int| 0 <= i < v@.len() ==> (#[trigger] v@[i]).same(&self.spec_saved_discover()[i]),
    {
        let mut v: Vec<DiscoverMsg> = Vec::new();
        let mut i: usize = 0;
        while i < self.saved_discover.len()
            invariant
                i <= self.saved_discover@.len(),
                v@.len() == i,
                forall|k: int| 0 <= k < i ==> (#[trigger] v@[k]).same(&self.saved_discover@[k]),
            decreases self.saved_discover@.len() - i,
        {
            v.push(self.saved_discover[i].clone());
            i = i + 1;
        }
        v
    }

    /// The stack-tree messages saved for the tree.
    pub fn get_saved_stack_tree(&self, tree_id: &TreeID) -> (v: Vec<StackTreeMsg>)
        requires
            self.wf(),
        ensures
            v@.len() == list_of(self.spec_saved_stack(), *tree_id).len(),
            forall|i: int| 0 <= i < v@.len() ==> (#[trigger] v@[i]).same(&list_of(self.spec_saved_stack(), *tree_id)[i]),
    {
        let mut v: Vec<StackTreeMsg> = Vec::new();
        match find(&self.saved_stack, tree_id) {
            Some(k) => {
                proof {
                    lemma_lookup_at(self.saved_stack@, k as int);
                }
                let saved = &self.saved_stack[k].1;
                let mut i: usize = 0;
                while i < saved.len()
                    invariant
                        i <= saved@.len(),
                        v@.len() == i,
                        forall|j: int| 0 <= j < i ==> (#[trigger] v@[j]).same(&saved@[j]),
                    decreases saved@.len() - i,
                {
                    v.push(saved[i].clone());
                    i = i + 1;
                }
            },
            None => {},
        }
        v
    }

    /// The application and manifest messages saved for the tree.
    pub fn get_saved_msgs(&self, tree_id: &TreeID) -> (v: Vec<SavedMsg>)
        requires
            self.wf(),
        ensures
            v@.len() == list_of(self.spec_saved_msgs(), *tree_id).len(),
            forall|i: int| 0 <= i < v@.len() ==> same_saved(#[trigger] v@[i], list_of(self.spec_saved_msgs(), *tree_id)[i]),
    {
        let mut v: Vec<SavedMsg> = Vec::new();
        match find(&self.saved_msgs, tree_id) {
            Some(k) => {
                proof {
                    lemma_lookup_at(self.saved_msgs@, k as int);
                }
                let saved = &self.saved_msgs[k].1;
                let mut i: usize = 0;
                while i < saved.len()
                    invariant
                        i <= saved@.len(),
                        v@.len() == i,
                        forall|j: int| 0 <= j < i ==> same_saved(#[trigger] v@[j], saved@[j]),
                    decreases saved@.len() - i,
                {
                    v.push(clone_saved(&saved[i]));
                    i = i + 1;
                }
            },
            None => {},
        }
        v
    }

    /// Saves a message for children that join the tree later; the mask is
    /// not used.
    pub fn add_saved_msg(&mut self, tree_id: &TreeID, _mask: Mask, options: SavedMsg)
        requires
            old(self).wf(),
        ensures
            final(self).wf(),
            final(self)@ == (CaView { saved_msgs: final(self)@.saved_msgs, ..old(self)@ }),
            list_of(final(self).spec_saved_msgs(), *tree_id) == list_of(old(self).spec_saved_msgs(), *tree_id).push(options),
            forall|t: TreeID| t.key_of() != tree_id.key_of() ==> #[trigger] list_of(final(self).spec_saved_msgs(), t)
                == list_of(old(self).spec_saved_msgs(), t),
    {
        append_to(&mut self.saved_msgs, tree_id, options);
    }

    /// Saves a copy of a stack-tree message for the tree.
    pub fn add_saved_stack_tree(&mut self, tree_id: &TreeID, stack_tree_msg: &StackTreeMsg)
        requires
            old(self).wf(),
        ensures
            final(self).wf(),
            final(self)@ == (CaView { saved_stack: final(self)@.saved_stack, ..old(self)@ }),
            list_of(final(self).spec_saved_stack(), *tree_id).len() == list_of(old(self).spec_saved_stack(), *tree_id).len() + 1,
            list_of(final(self).spec_saved_stack(), *tree_id).drop_last() == list_of(old(self).spec_saved_stack(), *tree_id),
            list_of(final(self).spec_saved_stack(), *tree_id).last().same(stack_tree_msg),
            forall|t: TreeID| t.key_of() != tree_id.key_of() ==> #[trigger] list_of(final(self).spec_saved_stack(), t)
                == list_of(old(self).spec_saved_stack(), t),
    {
        let copy = stack_tree_msg.clone();
        append_to(&mut self.saved_stack, tree_id, copy);
        proof {
            assert(list_of(self.spec_saved_stack(), *tree_id).drop_last() =~= list_of(old(self).spec_saved_stack(), *tree_id));
        }
    }

    /// Saves a copy of a discover message; such messages go out again on
    /// every port that connects later.
    pub fn add_saved_discover(&mut self, discover_msg: &DiscoverMsg)
        requires
            old(self).wf(),
        ensures
            final(self).wf(),
            final(self)@ == (CaView { saved_discover: final(self)@.saved_discover, ..old(self)@ }),
            final(self).spec_saved_discover().len() == old(self).spec_saved_discover().len() + 1,
            final(self).spec_saved_discover().drop_last() == old(self).spec_saved_discover(),
            final(self).spec_saved_discover().last().same(discover_msg),
    {
        self.saved_discover.push(discover_msg.clone());
        proof {
            assert(self.spec_saved_discover().drop_last() =~= old(self).spec_saved_discover());
        }
    }

    /// Names a tree for a sender: the sender may then use the tree by that name.
    fn add_tree_name_map_item(&mut self, sender_id: &SenderID, allowed_tree: &AllowedTree, allowed_tree_id: &TreeID)
        requires
            old(self).wf(),
        ensures
            tree_named_for(*old(self), *final(self), *sender_id, allowed_tree.spec_name(), *allowed_tree_id),
    {
        let name = allowed_tree.get_name().clone();
        match find(&self.tree_name_map, sender_id) {
            Some(i) => {
                proof {
                    lemma_lookup_at(self.tree_name_map@, i as int);
                }
                let (k, mut m) = self.tree_name_map.remove(i);
                file(&mut m, name, allowed_tree_id.clone());
                proof {
                    lemma_lookup_update(old(self).tree_name_map@, i as int, k, m);
                    lemma_remove_insert(old(self).tree_name_map@, i as int, (k, m));
                }
                self.tree_name_map.insert(i, (k, m));
                proof {
                    lemma_lookup_at(self.tree_name_map@, i as int);
                    assert forall|j: int| 0 <= j < self.spec_tree_name_map().len() implies keys_distinct(
                        (#[trigger] self.spec_tree_name_map()[j]).1@,
                    ) by {
                        if j != i {
                            assert(self.spec_tree_name_map()[j] == old(self).spec_tree_name_map()[j]);
                        }
                    }
                }
            },
            None => {
                let mut m: Vec<(String, TreeID)> = Vec::new();
                file(&mut m, name, allowed_tree_id.clone());
                let ghost before = self.tree_name_map@;
                file(&mut self.tree_name_map, sender_id.clone(), m);
                proof {
                    assert forall|j: int| 0 <= j < self.spec_tree_name_map().len() implies keys_distinct(
                        (#[trigger] self.spec_tree_name_map()[j]).1@,
                    ) by {
                        if j < before.len() {
                            assert(self.spec_tree_name_map()[j] == before[j]);
                        }
                    }
                }
            },
        }
    }
}

/// The hop count of the traph's first parent element.
pub open spec fn parent_hops(t: Traph) -> nat {
    hops_of(t.spec_elements()[choose|p: int| t.is_first_parent(p)]) as nat
}

/// Every variable is named `hops`.
pub open spec fn all_hops(vars: Seq<GvmVariable>) -> bool {
    forall|k: int| 0 <= k < vars.len() ==> (#[trigger] vars[k]).spec_var_name() == seq!['h', 'o', 'p', 's']
}

/// Whether the traph can give values to the variables: all are `hops`, and
/// if there are any the traph has a parent.
pub open spec fn params_known(t: Traph, vars: Seq<GvmVariable>) -> bool {
    all_hops(vars) && (vars.len() > 0 ==> t.has_parent())
}

/// What an expression gives on the traph, each `hops` variable bound to the
/// parent's hop count; `None` where the values are unknown or evaluation fails.
pub open spec fn traph_eval(t: Traph, vars: Seq<GvmVariable>, text: Seq<char>) -> Option<bool> {
    if !params_known(t, vars) {
        None
    } else if vars.len() == 0 {
        eval_bool(text, Seq::empty())
    } else {
        match json_usize(decimal(parent_hops(t))) {
            Some(v) => eval_bool(text, Seq::new(vars.len(), |i: int| (seq!['h', 'o', 'p', 's'], v))),
            None => None,
        }
    }
}

/// The values `Traph::get_params` gives for the variables.
pub open spec fn good_params(t: Traph, vars: Seq<GvmVariable>, ps: Seq<GvmVariable>) -> bool {
    &&& params_known(t, vars)
    &&& ps.len() == vars.len()
    &&& forall|k: int| 0 <= k < ps.len() ==> t.is_hops_param(#[trigger] ps[k])
}

proof fn lemma_first_parent_unique(t: Traph, p: int, q: int)
    requires
        t.is_first_parent(p),
        t.is_first_parent(q),
    ensures
        p == q,
{
    if p < q {
        assert(t.spec_elements()[p].spec_state() != crate::traph::PortState::Parent);
    } else if q < p {
        assert(t.spec_elements()[q].spec_state() != crate::traph::PortState::Parent);
    }
}

/// Variables all named `hops` with the same value parse to one binding each.
proof fn lemma_parsed_same(ps: Seq<GvmVariable>, d: Seq<char>)
    requires
        forall|k: int| 0 <= k < ps.len() ==> (#[trigger] ps[k]).spec_var_name() == seq!['h', 'o', 'p', 's']
            && ps[k].spec_value() == d,
    ensures
        ps.len() == 0 ==> parsed_bindings(ps) == Some(Seq::<(Seq<char>, usize)>::empty()),
        ps.len() > 0 ==> parsed_bindings(ps) == match json_usize(d) {
            Some(v) => Some(Seq::new(ps.len(), |i: int| (seq!['h', 'o', 'p', 's'], v))),
            None => None::<Seq<(Seq<char>, usize)>>,
        },
    decreases ps.len(),
{
    if ps.len() > 0 {
        let prev = ps.drop_last();
        lemma_parsed_same(prev, d);
        if ps.len() > 1 {
            match json_usize(d) {
                Some(v) => {
                    assert(Seq::new(prev.len(), |i: int| (seq!['h', 'o', 'p', 's'], v)).push(
                        (ps.last().spec_var_name(), v),
                    ) =~= Seq::new(ps.len(), |i: int| (seq!['h', 'o', 'p', 's'], v)));
                },
                None => {},
            }
        } else {
            match json_usize(d) {
                Some(v) => {
                    assert(Seq::<(Seq<char>, usize)>::empty().push((ps.last().spec_var_name(), v)) =~= Seq::new(
                        ps.len(),
                        |i: int| (seq!['h', 'o', 'p', 's'], v),
                    ));
                },
                None => {},
            }
        }
    }
}

/// Evaluating with the values `get_params` gave is what `traph_eval` says.
proof fn lemma_eval_params(
    t: Traph,
    vars: Seq<GvmVariable>,
    ps: Seq<GvmVariable>,
    text: Seq<char>,
    r: Result<bool, GvmEquationError>,
)
    requires
        good_params(t, vars, ps),
        evaluation(text, ps, r),
    ensures
        r matches Ok(b) ==> traph_eval(t, vars, text) == Some(b),
        r is Err ==> traph_eval(t, vars, text) is None,
{
    if ps.len() == 0 {
        lemma_parsed_same(ps, Seq::empty());
    } else {
        let p = choose|p: int| t.is_first_parent(p);
        let d = decimal(parent_hops(t));
        assert forall|k: int| 0 <= k < ps.len() implies (#[trigger] ps[k]).spec_var_name() == seq!['h', 'o', 'p', 's']
            && ps[k].spec_value() == d by {
            assert(t.is_hops_param(ps[k]));
            let q = choose|q: int| t.is_first_parent(q) && ps[k].spec_value() == decimal(hops_of(t.spec_elements()[q]) as nat);
            lemma_first_parent_unique(t, p, q);
        }
        lemma_parsed_same(ps, d);
    }
}

impl CellAgent {
    /// The values of the equation's variables on the traph.
    fn params_for(traph: &Traph, gvm_eqn: &GvmEquation) -> (r: Result<Vec<GvmVariable>, TraphError>)
        ensures
            r is Ok <==> params_known(*traph, gvm_eqn.spec_variables()),
            r matches Ok(ps) ==> good_params(*traph, gvm_eqn.spec_variables(), ps@),
    {
        let r = traph.get_params(gvm_eqn.get_variables());
        proof {
            let vars = gvm_eqn.spec_variables();
            if r is Err {
                let j = choose|j: int|
                    0 <= j < vars.len() && (forall|k: int|
                        0 <= k < j ==> (#[trigger] vars[k]).spec_var_name() == seq!['h', 'o', 'p', 's']) && if vars[j].spec_var_name()
                        == seq!['h', 'o', 'p', 's'] {
                        !traph.has_parent() && (r matches Err(TraphError::Chain { func_name, comment })
                            && func_name == "get_params")
                    } else {
                        (r matches Err(TraphError::Gvm { func_name, var_name }) && func_name == "get_params"
                            && var_name@ == vars[j].spec_var_name())
                    };
                if vars[j].spec_var_name() != seq!['h', 'o', 'p', 's'] {
                    assert(!all_hops(vars));
                }
            }
            if r is Ok {
                let ps = r->Ok_0@;
                assert forall|k: int| 0 <= k < ps.len() implies traph.is_hops_param(#[trigger] ps[k]) by {
                    assert(vars[k].spec_var_name() == seq!['h', 'o', 'p', 's']);
                }
                assert(all_hops(vars)) by {
                    assert forall|k: int| 0 <= k < vars.len() implies (#[trigger] vars[k]).spec_var_name() == seq![
                        'h',
                        'o',
                        'p',
                        's',
                    ] by {
                        assert(traph.is_hops_param(ps[k]));
                    }
                }
            }
        }
        r
    }
}

impl CellAgent {
    /// The ports of the tree's entry; every port where the tree is unknown.
    fn get_mask(&self, tree_id: &TreeID) -> (r: Result<Mask, CellagentError>)
        requires
            self.wf(),
        ensures
            self.traph_for_tree(*tree_id) is None ==> (r matches Ok(m) && m@ == !0u16),
            self.traph_for_tree(*tree_id) matches Some(t) ==> match tree_entry_in(t, tree_id.spec_uuid()) {
                Some(e) => r matches Ok(m) && m@ == e.spec_mask(),
                None => r matches Err(CellagentError::Traph(TraphError::Chain { func_name, comment }))
                    && func_name == "get_tree_entry",
            },
    {
        match self.get_traph(tree_id) {
            Ok(traph) => {
                let r = traph.get_tree_entry(&tree_id.get_uuid());
                proof {
                    lemma_has_stacked(*traph, tree_id.spec_uuid());
                    if traph.has_stacked(tree_id.spec_uuid()) {
                        let i = choose|i: int|
                            0 <= i < traph.spec_stacked().len() && traph.spec_stacked()[i].0 == tree_id.spec_uuid()
                                && r == Ok::<RoutingTableEntry, TraphError>(traph.spec_stacked()[i].1.spec_entry());
                        lemma_stacked_at(*traph, i);
                    }
                }
                match r {
                    Ok(e) => Ok(e.get_mask()),
                    Err(e) => Err(CellagentError::Traph(e)),
                }
            },
            Err(_) => Ok(Mask::empty().not()),
        }
    }

    /// The equation of the tree, from its base tree's traph.
    fn get_gvm_eqn(&self, tree_id: &TreeID) -> (r: Result<GvmEquation, CellagentError>)
        requires
            self.wf(),
        ensures
            self.traph_for_tree(*tree_id) is None ==> (r matches Err(CellagentError::Chain { func_name, comment })
                && func_name == "get_gvm_eqn"),
            self.traph_for_tree(*tree_id) matches Some(t) ==> match lookup(t.spec_stacked(), tree_id.spec_uuid()) {
                Some(tree) => r matches Ok(g) && same_equation(g, tree.spec_gvm_eqn()),
                None => r matches Err(CellagentError::Traph(TraphError::Tree { func_name, cell_id, tree_uuid }))
                    && func_name == "get_tree" && tree_uuid == tree_id.spec_uuid(),
            },
    {
        let traph = match self.get_traph(tree_id) {
            Ok(t) => t,
            Err(_) => {
                return Err(CellagentError::Chain { func_name: "get_gvm_eqn", comment: "" });
            },
        };
        let r = traph.get_tree(&tree_id.get_uuid());
        proof {
            lemma_has_stacked(*traph, tree_id.spec_uuid());
            if traph.has_stacked(tree_id.spec_uuid()) {
                let i = choose|i: int|
                    0 <= i < traph.spec_stacked().len() && traph.spec_stacked()[i].0 == tree_id.spec_uuid()
                        && r->Ok_0.same_as(&traph.spec_stacked()[i].1);
                lemma_stacked_at(*traph, i);
            }
        }
        match r {
            Ok(tree) => Ok(tree.get_gvm_eqn().clone()),
            Err(e) => Err(CellagentError::Traph(e)),
        }
    }

    /// Whether the tree's entry lets this cell send on it.
    fn may_send(&self, tree_id: &TreeID) -> (r: Result<bool, CellagentError>)
        requires
            self.wf(),
        ensures
            r is Ok <==> (self.traph_for_tree(*tree_id) matches Some(t) && tree_entry_in(t, tree_id.spec_uuid()) is Some),
            r matches Ok(b) ==> (self.traph_for_tree(*tree_id) matches Some(t) && tree_entry_in(t, tree_id.spec_uuid())
                matches Some(e) && b == e.spec_may_send()),
    {
        match self.get_tree_entry(tree_id) {
            Ok(entry) => Ok(entry.may_send()),
            Err(e) => Err(e),
        }
    }

    /// Whether a message on the tree must be saved for children that join
    /// later: both the save and the extend equations hold on the base
    /// tree's traph. A tree with no known base tree saves nothing.
    fn gvm_eval_save(&self, tree_id: &TreeID, gvm_eqn: &GvmEquation) -> (r: Result<bool, CellagentError>)
        requires
            self.wf(),
        ensures
            self.base_tree_of(*tree_id) is None ==> r == Ok::<bool, CellagentError>(false),
            self.base_tree_of(*tree_id) matches Some(b) ==> match self.traph_of(b.spec_uuid()) {
                None => r matches Err(CellagentError::Tree { func_name, cell_id, tree_uuid }) && func_name
                    == "gvm_eval_save" && tree_uuid == b.spec_uuid(),
                Some(t) => match (
                    traph_eval(t, gvm_eqn.spec_variables(), gvm_eqn.spec_save()),
                    traph_eval(t, gvm_eqn.spec_variables(), gvm_eqn.spec_xtnd()),
                ) {
                    (Some(save), Some(xtnd)) => r == Ok::<bool, CellagentError>(save && xtnd),
                    _ => r is Err,
                },
            },
    {
        let base_tree_id = match self.get_base_tree_id(tree_id) {
            Ok(b) => b,
            Err(_) => {
                return Ok(false);
            },
        };
        let uuid = base_tree_id.get_uuid();
        let k = match find(&self.traphs, &uuid) {
            Some(k) => k,
            None => {
                return Err(CellagentError::Tree { cell_id: self.cell_id.clone(), func_name: "gvm_eval_save", tree_uuid: uuid });
            },
        };
        proof {
            lemma_lookup_at(self.traphs@, k as int);
        }
        let traph = &self.traphs[k].1;
        let params = match Self::params_for(traph, gvm_eqn) {
            Ok(p) => p,
            Err(e) => {
                return Err(CellagentError::Traph(e));
            },
        };
        let rs = gvm_eqn.eval_save(params.as_slice());
        proof {
            lemma_eval_params(*traph, gvm_eqn.spec_variables(), params@, gvm_eqn.spec_save(), rs);
        }
        let save = match rs {
            Ok(b) => b,
            Err(e) => {
                return Err(CellagentError::Gvm(e));
            },
        };
        let rx = gvm_eqn.eval_xtnd(params.as_slice());
        proof {
            lemma_eval_params(*traph, gvm_eqn.spec_variables(), params@, gvm_eqn.spec_xtnd(), rx);
        }
        let xtnd = match rx {
            Ok(b) => b,
            Err(e) => {
                return Err(CellagentError::Gvm(e));
            },
        };
        Ok(save && xtnd)
    }

    /// Hands a message to the cell module for the ports of the mask; the
    /// tree must be one the agent knows a base tree UUID for.
    fn send_msg(&self, tree_id: &TreeID, msg: CaMsg, user_mask: Mask, out: &mut Vec<CaToCm>) -> (r: Result<(), CellagentError>)
        requires
            self.wf(),
        ensures
            lookup(self.spec_tree_map(), tree_id.spec_uuid()) is None ==> (r matches Err(CellagentError::Tree { func_name, cell_id, tree_uuid })
                && func_name == "send_bytes" && cell_id == self.spec_cell_id() && tree_uuid == tree_id.spec_uuid()
                && final(out)@ == old(out)@),
            lookup(self.spec_tree_map(), tree_id.spec_uuid()) is Some ==> (r is Ok && final(out)@ == old(out)@.push(
                CaToCm::Msg {
                    tree_id: *tree_id,
                    is_ait: msg.spec_ait(),
                    is_blocking: msg.spec_blocking(),
                    mask: user_mask,
                    msg,
                },
            )),
    {
        let tree_uuid = tree_id.get_uuid();
        match find(&self.tree_map, &tree_uuid) {
            Some(_) => {},
            None => {
                return Err(CellagentError::Tree { func_name: "send_bytes", cell_id: self.cell_id.clone(), tree_uuid });
            },
        }
        let is_ait = msg.is_ait();
        let is_blocking = msg.is_blocking();
        out.push(CaToCm::Msg { tree_id: tree_id.clone(), is_ait, is_blocking, mask: user_mask, msg });
        Ok(())
    }
}

/// The state a reported status gives a port.
pub open spec fn status_state(s: PortStatus) -> PortState {
    match s {
        PortStatus::Parent => PortState::Parent,
        PortStatus::Child => PortState::Child,
        PortStatus::Pruned => PortState::Pruned,
        PortStatus::Broken => PortState::Broken,
    }
}

/// A port that is already a parent or a child keeps its state; any other
/// takes the reported one.
pub open spec fn kept_state(current: PortState, reported: PortStatus) -> PortState {
    if current == PortState::Parent || current == PortState::Child {
        current
    } else {
        status_state(reported)
    }
}

/// The traph's first parent element.
pub open spec fn parent_element(t: Traph) -> TraphElement {
    t.spec_elements()[choose|p: int| t.is_first_parent(p)]
}

/// The UUID with the given root port.
pub open spec fn rooted(u: Uuid, port_no: u8) -> Uuid {
    Uuid::spec_from_parts(u.spec_code(), port_no, u.spec_rest())
}

/// The tree id with the given root port, as `with_root_port_number` makes it.
pub open spec fn is_rooted(t: TreeID, of: TreeID, port_no: u8) -> bool {
    t.spec_name() == of.spec_name() && t.spec_uuid() == rooted(of.spec_uuid(), port_no)
}

/// A port tree as `PortTree::new` makes it.
pub open spec fn is_new_port_tree(pt: PortTree, id: TreeID, in_port_no: PortNo, hops: PathLength) -> bool {
    &&& pt.spec_port_tree_id() == id
    &&& pt.spec_root_port_no() == PortNo(id.spec_uuid().spec_port_byte())
    &&& pt.spec_in_port_no() == in_port_no
    &&& pt.spec_hops() == hops
    &&& pt.spec_entry().is(id.spec_uuid(), false, PortNo(0), 1u16, true)
}

/// One when the traph's port tree id is another tree than the port tree's
/// own, zero otherwise.
pub open spec fn retag_count(pid: TreeID, first: TreeID) -> int {
    if first.key_of() != pid.key_of() {
        1
    } else {
        0
    }
}

/// The entries sent after the updated one when the path is not through
/// port 0: the entry again under the traph's port tree id if that is
/// another tree, then each stacked tree's entry for the port tree.
pub open spec fn port_tree_entries(
    sent: Seq<CaToCm>,
    e: RoutingTableEntry,
    pid: TreeID,
    first: TreeID,
    stacked: Seq<(Uuid, Tree)>,
    root: u8,
) -> bool {
    let extra = retag_count(pid, first);
    &&& sent.len() == extra + stacked.len()
    &&& extra == 1 ==> (sent[0] matches CaToCm::Entry(x) && x.is(
        first.spec_uuid(),
        e.spec_inuse(),
        e.spec_parent(),
        e.spec_mask(),
        e.spec_may_send(),
    ))
    &&& forall|i: int|
        0 <= i < stacked.len() ==> (#[trigger] sent[extra + i] matches CaToCm::Entry(x) && x.is(
            rooted(stacked[i].1.spec_uuid(), root),
            stacked[i].1.spec_entry().spec_inuse(),
            stacked[i].1.spec_entry().spec_parent(),
            stacked[i].1.spec_entry().spec_mask(),
            stacked[i].1.spec_entry().spec_may_send(),
        ))
}

/// A failed update: the error is the chain of `update_traph` with the
/// comment, and nothing changed or was sent.
pub open spec fn update_failed(
    t0: Traph,
    tf: Traph,
    r: Result<RoutingTableEntry, CellagentError>,
    sent: Seq<CaToCm>,
    comment: &'static str,
) -> bool {
    &&& tf == t0
    &&& sent.len() == 0
    &&& r matches Err(CellagentError::Chain { func_name, comment: c }) && func_name == "update_traph" && c == comment
}

/// What a port update does to a traph, and what it returns and sends.
/// The equation's four expressions are evaluated on the traph first; for a
/// child the hops and path come from the parent element; a parent or child
/// port keeps its state; a receiving tree gets port 0 as a child; the
/// element and entry are updated, the entry's sending follows the send
/// expression, and it is sent; if the path is not through port 0 the port
/// tree is filed and the entries of the port tree are sent.
pub open spec fn traph_update(
    t0: Traph,
    tf: Traph,
    base_tree_id: TreeID,
    port_number: PortNumber,
    port_status: PortStatus,
    gvm: GvmEquation,
    children0: Seq<PortNumber>,
    children1: Seq<PortNumber>,
    hops: PathLength,
    path: Path,
    r: Result<RoutingTableEntry, CellagentError>,
    sent: Seq<CaToCm>,
) -> bool {
    let vars = gvm.spec_variables();
    let recv = traph_eval(t0, vars, gvm.spec_recv());
    let send = traph_eval(t0, vars, gvm.spec_send());
    let xtnd = traph_eval(t0, vars, gvm.spec_xtnd());
    let save = traph_eval(t0, vars, gvm.spec_save());
    let is_child = port_status == PortStatus::Child;
    if !params_known(t0, vars) {
        update_failed(t0, tf, r, sent, "") && children1 == children0
    } else if recv is None {
        update_failed(t0, tf, r, sent, "eval_recv") && children1 == children0
    } else if send is None {
        update_failed(t0, tf, r, sent, "eval_send") && children1 == children0
    } else if xtnd is None {
        update_failed(t0, tf, r, sent, "eval_xtnd") && children1 == children0
    } else if save is None {
        update_failed(t0, tf, r, sent, "eval_save") && children1 == children0
    } else if is_child && !t0.has_parent() {
        update_failed(t0, tf, r, sent, "") && children1 == children0
    } else if is_child && hops_of(parent_element(t0)) == usize::MAX {
        update_failed(t0, tf, r, sent, "hops") && children1 == children0
    } else {
        let h = if is_child {
            PathLength(CellQty((hops_of(parent_element(t0)) + 1) as usize))
        } else {
            hops
        };
        let p = if is_child {
            parent_element(t0).spec_path()
        } else {
            path
        };
        let st = kept_state(t0.spec_elements()[port_number.port_no.0 as int].spec_state(), port_status);
        let kids = if recv->0 {
            children0.push(PortNumber { port_no: PortNo(0) })
        } else {
            children0
        };
        &&& children1 == kids
        &&& if !t0.has_stacked(strip_port(base_tree_id.spec_uuid())) {
            update_failed(t0, tf, r, sent, "")
        } else {
            update_applied(t0, tf, base_tree_id, port_number, st, kids, h, p, send->0, r, sent)
        }
    }
}

/// The element and entry updated from `t0` to some `t1`, the entry's
/// sending set as `send` says, returned and sent; then, if the path is not
/// through port 0, the port tree filed and its entries sent.
pub open spec fn update_applied(
    t0: Traph,
    tf: Traph,
    base_tree_id: TreeID,
    port_number: PortNumber,
    st: PortState,
    kids: Seq<PortNumber>,
    h: PathLength,
    p: Path,
    send: bool,
    r: Result<RoutingTableEntry, CellagentError>,
    sent: Seq<CaToCm>,
) -> bool {
    exists|t1: Traph, e0: RoutingTableEntry|
        {
            &&& #[trigger] element_updated(t0, t1, base_tree_id, port_number, st, kids, h, p, e0)
            &&& r is Ok
            &&& r->Ok_0.is(e0.spec_uuid(), e0.spec_inuse(), e0.spec_parent(), e0.spec_mask(), send)
            &&& sent.len() >= 1
            &&& sent[0] == CaToCm::Entry(r->Ok_0)
            &&& if p.spec_port_number().port_no == PortNo(0) {
                tf == t1 && sent.len() == 1
            } else {
                port_tree_filed(t1, tf, base_tree_id, port_number, h, p.spec_port_number().port_no.0, r->Ok_0, sent.drop_first())
            }
        }
}

/// The port tree for the root port filed in `t1`, giving `tf`, and the
/// port tree's entries sent.
pub open spec fn port_tree_filed(
    t1: Traph,
    tf: Traph,
    base_tree_id: TreeID,
    port_number: PortNumber,
    h: PathLength,
    root: u8,
    e: RoutingTableEntry,
    sent: Seq<CaToCm>,
) -> bool {
    exists|pt: PortTree, first: TreeID|
        {
            &&& is_rooted(pt.spec_port_tree_id(), base_tree_id, root)
            &&& is_new_port_tree(pt, pt.spec_port_tree_id(), port_number.port_no, h)
            &&& #[trigger] port_tree_added(t1, tf, pt, first)
            &&& port_tree_entries(sent, e, pt.spec_port_tree_id(), first, tf.spec_stacked(), root)
        }
}

/// A successful report about a port of a tree gives the tree's updated
/// entry, which is sent first: it is in use, keeps every port it selected,
/// selects every reported child port, and port 0 too when the receive
/// equation holds; it may send exactly when the send equation holds; and a
/// port reported as the parent, unless it is already a child, becomes the
/// entry's parent port.
pub proof fn law_traph_update_entry(
    t0: Traph,
    tf: Traph,
    base_tree_id: TreeID,
    port_number: PortNumber,
    port_status: PortStatus,
    gvm: GvmEquation,
    children0: Seq<PortNumber>,
    children1: Seq<PortNumber>,
    hops: PathLength,
    path: Path,
    r: Result<RoutingTableEntry, CellagentError>,
    sent: Seq<CaToCm>,
)
    requires
        traph_update(t0, tf, base_tree_id, port_number, port_status, gvm, children0, children1, hops, path, r, sent),
        r is Ok,
    ensures
        sent.len() >= 1,
        sent[0] == CaToCm::Entry(r->Ok_0),
        r->Ok_0.spec_uuid() == base_tree_id.spec_uuid(),
        r->Ok_0.spec_inuse(),
        forall|i: u16|
            i < 16 && port_bit(old_entry_of(t0.spec_stacked(), strip_port(base_tree_id.spec_uuid())).spec_mask(), i)
                ==> #[trigger] port_bit(r->Ok_0.spec_mask(), i),
        forall|k: int|
            0 <= k < children0.len() ==> port_bit(r->Ok_0.spec_mask(), ((#[trigger] children0[k]).port_no.0 % 16) as u16),
        traph_eval(t0, gvm.spec_variables(), gvm.spec_recv()) == Some(true) ==> port_bit(r->Ok_0.spec_mask(), 0),
        traph_eval(t0, gvm.spec_variables(), gvm.spec_send()) matches Some(send) && (r->Ok_0.spec_may_send() <==> send),
        port_status == PortStatus::Parent && t0.spec_elements()[port_number.port_no.0 as int].spec_state() != PortState::Child
            ==> r->Ok_0.spec_parent() == port_number.port_no,
{
    let vars = gvm.spec_variables();
    let recv = traph_eval(t0, vars, gvm.spec_recv());
    let send = traph_eval(t0, vars, gvm.spec_send());
    let is_child = port_status == PortStatus::Child;
    let h = if is_child {
        PathLength(CellQty((hops_of(parent_element(t0)) + 1) as usize))
    } else {
        hops
    };
    let p = if is_child {
        parent_element(t0).spec_path()
    } else {
        path
    };
    let st = kept_state(t0.spec_elements()[port_number.port_no.0 as int].spec_state(), port_status);
    let kids = if recv->0 {
        children0.push(PortNumber { port_no: PortNo(0) })
    } else {
        children0
    };
    assert(update_applied(t0, tf, base_tree_id, port_number, st, kids, h, p, send->0, r, sent));
    let (t1, e0) = choose|t1: Traph, e0: RoutingTableEntry|
        {
            &&& #[trigger] element_updated(t0, t1, base_tree_id, port_number, st, kids, h, p, e0)
            &&& r is Ok
            &&& r->Ok_0.is(e0.spec_uuid(), e0.spec_inuse(), e0.spec_parent(), e0.spec_mask(), send->0)
            &&& sent.len() >= 1
            &&& sent[0] == CaToCm::Entry(r->Ok_0)
            &&& if p.spec_port_number().port_no == PortNo(0) {
                tf == t1 && sent.len() == 1
            } else {
                port_tree_filed(t1, tf, base_tree_id, port_number, h, p.spec_port_number().port_no.0, r->Ok_0, sent.drop_first())
            }
        };
    assert forall|k: int| 0 <= k < children0.len() implies port_bit(r->Ok_0.spec_mask(), ((#[trigger] children0[k]).port_no.0 % 16) as u16) by {
        assert(kids[k] == children0[k]);
        let i = (children0[k].port_no.0 % 16) as u16;
        assert(i < 16);
        assert(0 <= k < kids.len() && (kids[k]).port_no.0 % 16 == i);
    }
    if recv == Some(true) {
        let z = kids.len() - 1;
        assert(kids[z] == PortNumber { port_no: PortNo(0) });
        assert(0 <= z < kids.len() && (kids[z]).port_no.0 % 16 == 0u16);
    }
}

/// Updates the traph for what a message reports about a port, as
/// `traph_update` says, appending the entries to send to `out`.
fn update_in_traph(
    traph: &mut Traph,
    base_tree_id: &TreeID,
    port_number: PortNumber,
    port_status: PortStatus,
    gvm_eqn: &GvmEquation,
    children: &mut Vec<PortNumber>,
    hops: PathLength,
    path: Path,
    out: &mut Vec<CaToCm>,
) -> (r: Result<RoutingTableEntry, CellagentError>)
    requires
        old(traph).wf(),
        (port_number.port_no.0 as int) < old(traph).spec_elements().len(),
    ensures
        final(traph).wf(),
        final(traph).spec_elements().len() == old(traph).spec_elements().len(),
        final(traph).spec_base_tree_id() == old(traph).spec_base_tree_id(),
        final(traph).spec_cell_id() == old(traph).spec_cell_id(),
        final(out)@.len() >= old(out)@.len(),
        final(out)@.take(old(out)@.len() as int) == old(out)@,
        traph_update(
            *old(traph),
            *final(traph),
            *base_tree_id,
            port_number,
            port_status,
            *gvm_eqn,
            old(children)@,
            final(children)@,
            hops,
            path,
            r,
            final(out)@.skip(old(out)@.len() as int),
        ),
{
    let ghost t0 = *traph;
    let ghost out0 = out@;
    let ghost vars = gvm_eqn.spec_variables();
    proof {
        assert(out@.skip(out0.len() as int) =~= Seq::<CaToCm>::empty());
        assert(out@.take(out0.len() as int) =~= out0);
    }
    let params = match CellAgent::params_for(traph, gvm_eqn) {
        Ok(p) => p,
        Err(_) => {
            return Err(CellagentError::Chain { func_name: "update_traph", comment: "" });
        },
    };
    let rr = gvm_eqn.eval_recv(params.as_slice());
    proof {
        lemma_eval_params(t0, vars, params@, gvm_eqn.spec_recv(), rr);
    }
    let recv = match rr {
        Ok(b) => b,
        Err(_) => {
            return Err(CellagentError::Chain { func_name: "update_traph", comment: "eval_recv" });
        },
    };
    let rs = gvm_eqn.eval_send(params.as_slice());
    proof {
        lemma_eval_params(t0, vars, params@, gvm_eqn.spec_send(), rs);
    }
    let send = match rs {
        Ok(b) => b,
        Err(_) => {
            return Err(CellagentError::Chain { func_name: "update_traph", comment: "eval_send" });
        },
    };
    let rx = gvm_eqn.eval_xtnd(params.as_slice());
    proof {
        lemma_eval_params(t0, vars, params@, gvm_eqn.spec_xtnd(), rx);
    }
    match rx {
        Ok(_) => {},
        Err(_) => {
            return Err(CellagentError::Chain { func_name: "update_traph", comment: "eval_xtnd" });
        },
    }
    let rv = gvm_eqn.eval_save(params.as_slice());
    proof {
        lemma_eval_params(t0, vars, params@, gvm_eqn.spec_save(), rv);
    }
    match rv {
        Ok(_) => {},
        Err(_) => {
            return Err(CellagentError::Chain { func_name: "update_traph", comment: "eval_save" });
        },
    }
    let (hops, path) = if port_status == PortStatus::Child {
        let element = match traph.get_parent_element() {
            Ok(e) => e,
            Err(_) => {
                return Err(CellagentError::Chain { func_name: "update_traph", comment: "" });
            },
        };
        proof {
            let i = choose|i: int| t0.is_first_parent(i) && t0.spec_elements()[i] == element;
            let q = choose|q: int| t0.is_first_parent(q);
            lemma_first_parent_unique(t0, i, q);
            assert(element == parent_element(t0));
        }
        if element.get_hops().0.0 == usize::MAX {
            return Err(CellagentError::Chain { func_name: "update_traph", comment: "hops" });
        }
        (element.hops_plus_one(), element.get_path())
    } else {
        (hops, path)
    };
    let traph_status = traph.get_port_status(port_number);
    let status = if traph_status == PortState::Parent || traph_status == PortState::Child {
        traph_status
    } else {
        port_status.to_state()
    };
    let ghost children0 = children@;
    if recv {
        children.push(PortNumber::new0());
    }
    let ghost kids = children@;
    let r0 = traph.update_element(base_tree_id, port_number, status, children, hops, path);
    let mut entry = match r0 {
        Ok(e) => e,
        Err(_) => {
            return Err(CellagentError::Chain { func_name: "update_traph", comment: "" });
        },
    };
    let ghost t1 = *traph;
    let ghost e0 = entry;
    if send {
        entry.enable_send();
    } else {
        entry.disable_send();
    }
    out.push(CaToCm::Entry(entry));
    proof {
        assert(element_updated(t0, t1, *base_tree_id, port_number, status, kids, hops, path, e0));
    }
    if path.get_port_number() != PortNumber::new0() {
        let root_port_number = path.get_port_number();
        let port_tree_id = base_tree_id.with_root_port_number(&root_port_number);
        let port_tree = PortTree::new(&port_tree_id, port_number.get_port_no(), hops);
        let ghost pt = port_tree;
        proof {
            Uuid::lemma_parts(port_tree_id.spec_uuid(), base_tree_id.spec_uuid().spec_code(), root_port_number.port_no.0,
                base_tree_id.spec_uuid().spec_rest());
        }
        let first = traph.add_port_tree(port_tree);
        if !port_tree_id.equals(&first) {
            let mut new_entry = entry;
            new_entry.set_tree_id(&first);
            out.push(CaToCm::Entry(new_entry));
        }
        let ghost base_len = out@.len();
        let ghost prefix = out@;
        let ghost extra: int = retag_count(port_tree_id, first);
        let stacked = traph.get_stacked_trees();
        let mut i: usize = 0;
        while i < stacked.len()
            invariant
                i <= stacked@.len(),
                out@.len() == base_len + i,
                out@.take(base_len as int) == prefix,
                forall|j: int|
                    0 <= j < i ==> (#[trigger] out@[base_len + j] matches CaToCm::Entry(x) && x.is(
                        rooted(stacked@[j].1.spec_uuid(), root_port_number.port_no.0),
                        stacked@[j].1.spec_entry().spec_inuse(),
                        stacked@[j].1.spec_entry().spec_parent(),
                        stacked@[j].1.spec_entry().spec_mask(),
                        stacked@[j].1.spec_entry().spec_may_send(),
                    )),
            decreases stacked@.len() - i,
        {
            let mut e = stacked[i].1.get_table_entry();
            let id = stacked[i].1.get_port_tree_id().with_root_port_number(&root_port_number);
            proof {
                let tid = stacked@[i as int].1.spec_port_tree_id();
                Uuid::lemma_parts(id.spec_uuid(), tid.spec_uuid().spec_code(), root_port_number.port_no.0,
                    tid.spec_uuid().spec_rest());
            }
            e.set_tree_id(&id);
            let ghost before = out@;
            out.push(CaToCm::Entry(e));
            proof {
                assert forall|j: int|
                    0 <= j < i + 1 implies (#[trigger] out@[base_len + j] matches CaToCm::Entry(x) && x.is(
                    rooted(stacked@[j].1.spec_uuid(), root_port_number.port_no.0),
                    stacked@[j].1.spec_entry().spec_inuse(),
                    stacked@[j].1.spec_entry().spec_parent(),
                    stacked@[j].1.spec_entry().spec_mask(),
                    stacked@[j].1.spec_entry().spec_may_send(),
                )) by {
                    if j < i {
                        assert(out@[base_len + j] == before[base_len + j]);
                    }
                }
                assert(out@.take(base_len as int) =~= before.take(base_len as int));
            }
            i = i + 1;
        }
        proof {
            let sent = out@.skip(out0.len() as int);
            let tail = sent.drop_first();
            let tf = *traph;
            assert(tf.spec_stacked() == stacked@);
            assert(out@.take(out0.len() as int) =~= out0) by {
                assert(prefix.take(out0.len() as int) =~= out0);
                assert(out@.take(out0.len() as int) =~= prefix.take(out0.len() as int));
            }
            assert(sent[0] == CaToCm::Entry(entry)) by {
                assert(prefix[out0.len() as int] == CaToCm::Entry(entry));
            }
            assert(tail.len() == extra + stacked@.len());
            if extra == 1 {
                assert(tail[0] == prefix[out0.len() + 1int]);
            }
            assert forall|j: int| 0 <= j < stacked@.len() implies (#[trigger] tail[extra + j] matches CaToCm::Entry(x)
                && x.is(
                rooted(stacked@[j].1.spec_uuid(), root_port_number.port_no.0),
                stacked@[j].1.spec_entry().spec_inuse(),
                stacked@[j].1.spec_entry().spec_parent(),
                stacked@[j].1.spec_entry().spec_mask(),
                stacked@[j].1.spec_entry().spec_may_send(),
            )) by {
                assert(tail[extra + j] == out@[base_len + j]);
            }
            assert(port_tree_entries(tail, entry, port_tree_id, first, tf.spec_stacked(), root_port_number.port_no.0));
            assert(is_rooted(pt.spec_port_tree_id(), *base_tree_id, root_port_number.port_no.0));
            assert(port_tree_added(t1, tf, pt, first));
        }
    } else {
        proof {
            assert(out@.skip(out0.len() as int) =~= seq![CaToCm::Entry(entry)]);
            assert(out@.take(out0.len() as int) =~= out0);
        }
    }
    Ok(entry)
}

/// The traph an update starts from: the one the cell has for the base
/// tree, or a fresh one.
pub open spec fn traph_start(had: Option<Traph>, t0: Traph, cell_id: CellID, no_ports: PortNo, base_tree_id: TreeID) -> bool {
    match had {
        Some(t) => t0 == t,
        None => t0.is_fresh(cell_id, no_ports, base_tree_id),
    }
}

/// What `update_traph` does to the agent: see there.
pub open spec fn traph_updated_in(
    a: CellAgent,
    b: CellAgent,
    base_tree_id: TreeID,
    port_number: PortNumber,
    port_status: PortStatus,
    gvm_eqn: GvmEquation,
    children0: Seq<PortNumber>,
    children1: Seq<PortNumber>,
    hops: PathLength,
    path: Path,
    r: Result<RoutingTableEntry, CellagentError>,
    sent: Seq<CaToCm>,
) -> bool {
    let u = base_tree_id.spec_uuid();
    &&& b.wf()
    &&& b@ == (CaView { traphs: b@.traphs, tree_id_map: b@.tree_id_map, ..a@ })
    &&& forall|v: Uuid| v != u ==> #[trigger] b.traph_of(v) == a.traph_of(v)
    &&& a.traph_of(u) is Some ==> b.spec_tree_id_map() == a.spec_tree_id_map()
    &&& a.traph_of(u) is None ==> forall|v: Uuid| #[trigger]
        lookup(b.spec_tree_id_map(), v) == if v == u {
            Some(base_tree_id)
        } else {
            lookup(a.spec_tree_id_map(), v)
        }
    &&& a.traph_of(u) is None && a.spec_no_ports().0 > MAX_PORTS ==> (r matches Err(CellagentError::Chain { func_name, comment })
        && func_name == "update_traph" && comment == "" && b.traph_of(u) is None && sent.len() == 0 && children1
        == children0)
    &&& a.traph_of(u) is Some || a.spec_no_ports().0 <= MAX_PORTS ==> exists|t0: Traph|
        {
            &&& #[trigger] traph_start(a.traph_of(u), t0, a.spec_cell_id(), a.spec_no_ports(), base_tree_id)
            &&& b.traph_of(u) is Some
            &&& traph_update(t0, b.traph_of(u)->0, base_tree_id, port_number, port_status, gvm_eqn, children0, children1, hops, path, r, sent)
        }
}

impl CellAgent {
    /// What a report about a port of a tree changes: the traph of the tree
    /// (made, and the tree named in the tree-id map, if the cell had none)
    /// is updated as `traph_update` says, and the entries to install are
    /// appended to `out`.
    pub fn update_traph(
        &mut self,
        base_tree_id: &TreeID,
        port_number: PortNumber,
        port_status: PortStatus,
        gvm_eqn: &GvmEquation,
        children: &mut Vec<PortNumber>,
        hops: PathLength,
        path: Path,
        out: &mut Vec<CaToCm>,
    ) -> (r: Result<RoutingTableEntry, CellagentError>)
        requires
            old(self).wf(),
            (port_number.port_no.0 as int) < old(self).spec_no_ports().0,
        ensures
            final(out)@.len() >= old(out)@.len(),
            final(out)@.take(old(out)@.len() as int) == old(out)@,
            traph_updated_in(
                *old(self),
                *final(self),
                *base_tree_id,
                port_number,
                port_status,
                *gvm_eqn,
                old(children)@,
                final(children)@,
                hops,
                path,
                r,
                final(out)@.skip(old(out)@.len() as int),
            ),
    {
        let uuid = base_tree_id.get_uuid();
        let idx = match find(&self.traphs, &uuid) {
            Some(i) => {
                proof {
                    lemma_lookup_at(self.traphs@, i as int);
                }
                i
            },
            None => {
                file(&mut self.tree_id_map, uuid, base_tree_id.clone());
                let t = match Traph::new(&self.cell_id, self.no_ports, base_tree_id, gvm_eqn) {
                    Ok(t) => t,
                    Err(_) => {
                        return Err(CellagentError::Chain { func_name: "update_traph", comment: "" });
                    },
                };
                proof {
                    lemma_lookup_push(self.traphs@, uuid, t);
                }
                self.traphs.push((uuid, t));
                proof {
                    lemma_lookup_at(self.traphs@, self.traphs@.len() - 1);
                }
                self.traphs.len() - 1
            },
        };
        let ghost mid = self.traphs@;
        let ghost t0 = mid[idx as int].1;
        proof {
            assert(traph_start(old(self).traph_of(uuid), t0, self.spec_cell_id(), self.spec_no_ports(), *base_tree_id));
        }
        let (u, mut traph) = self.traphs.remove(idx);
        let r = update_in_traph(&mut traph, base_tree_id, port_number, port_status, gvm_eqn, children, hops, path, out);
        proof {
            lemma_lookup_update(mid, idx as int, u, traph);
            lemma_remove_insert(mid, idx as int, (u, traph));
        }
        self.traphs.insert(idx, (u, traph));
        proof {
            assert(self.traphs@ == mid.update(idx as int, (u, traph)));
            assert forall|i: int| 0 <= i < self.spec_traphs().len() implies {
                let (v, t) = #[trigger] self.spec_traphs()[i];
                &&& t.wf()
                &&& t.spec_elements().len() == self.spec_no_ports().0
                &&& v == t.spec_base_tree_id().spec_uuid()
            } by {
                if i != idx {
                    assert(self.spec_traphs()[i] == mid[i]);
                }
            }
            assert(u == uuid);
            assert(self.traph_of(uuid) == Some(traph));
            assert(traph_start(old(self).traph_of(uuid), t0, old(self).spec_cell_id(), old(self).spec_no_ports(), *base_tree_id));
            assert(traph_update(t0, traph, *base_tree_id, port_number, port_status, *gvm_eqn, old(children)@, children@,
                hops, path, r, out@.skip(old(out)@.len() as int)));
        }

        r
    }
}

/// An equation with the four given expressions and no variables.
pub open spec fn fixed_eqn(g: GvmEquation, recv: Seq<char>, send: Seq<char>, xtnd: Seq<char>, save: Seq<char>) -> bool {
    &&& g.spec_recv() == recv
    &&& g.spec_send() == send
    &&& g.spec_xtnd() == xtnd
    &&& g.spec_save() == save
    &&& g.spec_variables().len() == 0
}

/// The text of a boolean expression that is constantly `b`.
pub open spec fn bool_text(b: bool) -> Seq<char> {
    if b {
        seq!['t', 'r', 'u', 'e']
    } else {
        seq!['f', 'a', 'l', 's', 'e']
    }
}

pub open spec fn port0() -> PortNumber {
    PortNumber { port_no: PortNo(0) }
}

pub open spec fn no_hops() -> PathLength {
    PathLength(CellQty(0))
}

pub open spec fn no_ports_given() -> Seq<PortNumber> {
    Seq::empty()
}

/// A predefined tree set up: its traph updated for port 0 as its parent,
/// no hops away and reached through port 0, with an equation that sends
/// and extends, never saves, and receives when `recv` is true.
pub open spec fn root_tree_set_up(
    a: CellAgent,
    b: CellAgent,
    tree_id: TreeID,
    recv: bool,
    r: Result<RoutingTableEntry, CellagentError>,
    sent: Seq<CaToCm>,
) -> bool {
    exists|g: GvmEquation, kids: Seq<PortNumber>|
        {
            &&& fixed_eqn(g, bool_text(recv), bool_text(true), bool_text(true), bool_text(false))
            &&& #[trigger] traph_updated_in(
                a,
                b,
                tree_id,
                port0(),
                PortStatus::Parent,
                g,
                no_ports_given(),
                kids,
                no_hops(),
                Path::spec_new0(),
                r,
                sent,
            )
        }
}

/// The three predefined trees filed as their own base trees by UUID.
pub open spec fn tree_map_seeded(a: CellAgent, b: CellAgent) -> bool {
    let c = a.spec_control_tree_id().spec_uuid();
    let n = a.spec_connected_tree_id().spec_uuid();
    let m = a.spec_my_tree_id().spec_uuid();
    &&& b.wf()
    &&& b@ == (CaView { tree_map: b@.tree_map, ..a@ })
    &&& forall|u: Uuid| #[trigger]
        lookup(b.spec_tree_map(), u) == if u == c || u == n || u == m {
            Some(u)
        } else {
            lookup(a.spec_tree_map(), u)
        }
}

/// The rest of `initialize` after the connected-ports tree: the cell's
/// own tree set up, its entry kept as the agent's own entry.
pub open spec fn own_tree_done(s2: CellAgent, b: CellAgent, r: Result<(), CellagentError>, sent: Seq<CaToCm>) -> bool {
    exists|s3: CellAgent, r3: Result<RoutingTableEntry, CellagentError>|
        {
            &&& #[trigger] root_tree_set_up(s2, s3, s2.spec_my_tree_id(), true, r3, sent)
            &&& match r3 {
                Err(e) => b == s3 && r == Err::<(), CellagentError>(e),
                Ok(e3) => b@ == (CaView { my_entry: e3, ..s3@ }) && r is Ok,
            }
        }
}

/// The rest of `initialize` after the control tree: the connected-ports
/// tree set up, its entry kept as the connected-ports entry, then the
/// cell's own tree.
pub open spec fn connected_tree_done(s1: CellAgent, b: CellAgent, r: Result<(), CellagentError>, sent: Seq<CaToCm>) -> bool {
    exists|s2: CellAgent, r2: Result<RoutingTableEntry, CellagentError>, k: int|
        {
            &&& 0 <= k <= sent.len()
            &&& #[trigger] root_tree_set_up(s1, s2, s1.spec_connected_tree_id(), false, r2, sent.take(k))
            &&& match r2 {
                Err(e) => b == s2 && r == Err::<(), CellagentError>(e) && k == sent.len(),
                Ok(e2) => exists|s2k: CellAgent|
                    {
                        &&& #[trigger] s2k@ == (CaView { connected_tree_entry: e2, ..s2@ })
                        &&& s2k.wf()
                        &&& own_tree_done(s2k, b, r, sent.skip(k))
                    },
            }
        }
}

/// What `initialize` does: the three trees filed in the tree map, then
/// the control tree, the connected-ports tree and the cell's own tree set
/// up in turn, stopping at the first error.
pub open spec fn initialized(a: CellAgent, b: CellAgent, r: Result<(), CellagentError>, sent: Seq<CaToCm>) -> bool {
    exists|s0: CellAgent, s1: CellAgent, r1: Result<RoutingTableEntry, CellagentError>, k: int|
        {
            &&& tree_map_seeded(a, s0)
            &&& 0 <= k <= sent.len()
            &&& #[trigger] root_tree_set_up(s0, s1, a.spec_control_tree_id(), true, r1, sent.take(k))
            &&& match r1 {
                Err(e) => b == s1 && r == Err::<(), CellagentError>(e) && k == sent.len(),
                Ok(_) => connected_tree_done(s1, b, r, sent.skip(k)),
            }
        }
}

/// A predefined tree set up on a cell with no traph for it yet: its entry
/// is in use with port 0 as parent, and only its traph is added.
proof fn lemma_root_tree_entry(
    a: CellAgent,
    b: CellAgent,
    tree_id: TreeID,
    recv: bool,
    r: Result<RoutingTableEntry, CellagentError>,
    sent: Seq<CaToCm>,
)
    requires
        root_tree_set_up(a, b, tree_id, recv, r, sent),
        r is Ok,
        a.traph_of(tree_id.spec_uuid()) is None,
        a.spec_no_ports().0 >= 1,
    ensures
        r->Ok_0.spec_uuid() == tree_id.spec_uuid(),
        r->Ok_0.spec_inuse(),
        r->Ok_0.spec_parent() == PortNo(0),
        b.traph_of(tree_id.spec_uuid()) is Some,
        b@ == (CaView { traphs: b@.traphs, tree_id_map: b@.tree_id_map, ..a@ }),
        forall|v: Uuid| v != tree_id.spec_uuid() ==> #[trigger] b.traph_of(v) == a.traph_of(v),
{
    let (g, kids) = choose|g: GvmEquation, kids: Seq<PortNumber>|
        {
            &&& fixed_eqn(g, bool_text(recv), bool_text(true), bool_text(true), bool_text(false))
            &&& #[trigger] traph_updated_in(
                a,
                b,
                tree_id,
                port0(),
                PortStatus::Parent,
                g,
                no_ports_given(),
                kids,
                no_hops(),
                Path::spec_new0(),
                r,
                sent,
            )
        };
    let u = tree_id.spec_uuid();
    let t0 = choose|t0: Traph|
        {
            &&& #[trigger] traph_start(a.traph_of(u), t0, a.spec_cell_id(), a.spec_no_ports(), tree_id)
            &&& b.traph_of(u) is Some
            &&& traph_update(t0, b.traph_of(u)->0, tree_id, port0(), PortStatus::Parent, g, no_ports_given(), kids,
                no_hops(), Path::spec_new0(), r, sent)
        };
    assert(t0.is_fresh(a.spec_cell_id(), a.spec_no_ports(), tree_id));
    assert(t0.spec_elements()[0].spec_state() == PortState::Unknown);
    law_traph_update_entry(t0, b.traph_of(u)->0, tree_id, port0(), PortStatus::Parent, g, no_ports_given(), kids,
        no_hops(), Path::spec_new0(), r, sent);
}

/// A new cell agent, once initialized, has a traph for each of its three
/// predefined trees, each filed in the tree map as its own base tree; the
/// entries it keeps for the connected-ports tree and for its own tree are
/// those trees' entries, in use, with port 0 (the cell itself) as parent.
pub proof fn law_initialized_roots(a: CellAgent, b: CellAgent, r: Result<(), CellagentError>, sent: Seq<CaToCm>)
    requires
        initialized(a, b, r, sent),
        r is Ok,
        a.spec_traphs().len() == 0,
        a.spec_no_ports().0 >= 1,
        a.spec_control_tree_id().spec_uuid() != a.spec_connected_tree_id().spec_uuid(),
        a.spec_control_tree_id().spec_uuid() != a.spec_my_tree_id().spec_uuid(),
        a.spec_connected_tree_id().spec_uuid() != a.spec_my_tree_id().spec_uuid(),
    ensures
        b.traph_of(a.spec_control_tree_id().spec_uuid()) is Some,
        b.traph_of(a.spec_connected_tree_id().spec_uuid()) is Some,
        b.traph_of(a.spec_my_tree_id().spec_uuid()) is Some,
        lookup(b.spec_tree_map(), a.spec_control_tree_id().spec_uuid()) == Some(a.spec_control_tree_id().spec_uuid()),
        lookup(b.spec_tree_map(), a.spec_connected_tree_id().spec_uuid()) == Some(a.spec_connected_tree_id().spec_uuid()),
        lookup(b.spec_tree_map(), a.spec_my_tree_id().spec_uuid()) == Some(a.spec_my_tree_id().spec_uuid()),
        b.spec_connected_tree_entry().spec_uuid() == a.spec_connected_tree_id().spec_uuid(),
        b.spec_connected_tree_entry().spec_inuse(),
        b.spec_connected_tree_entry().spec_parent() == PortNo(0),
        b.spec_my_entry().spec_uuid() == a.spec_my_tree_id().spec_uuid(),
        b.spec_my_entry().spec_inuse(),
        b.spec_my_entry().spec_parent() == PortNo(0),
{
    let cu = a.spec_control_tree_id().spec_uuid();
    let nu = a.spec_connected_tree_id().spec_uuid();
    let mu = a.spec_my_tree_id().spec_uuid();
    let (s0, s1, r1, k) = choose|s0: CellAgent, s1: CellAgent, r1: Result<RoutingTableEntry, CellagentError>, k: int|
        {
            &&& tree_map_seeded(a, s0)
            &&& 0 <= k <= sent.len()
            &&& #[trigger] root_tree_set_up(s0, s1, a.spec_control_tree_id(), true, r1, sent.take(k))
            &&& match r1 {
                Err(e) => b == s1 && r == Err::<(), CellagentError>(e) && k == sent.len(),
                Ok(_) => connected_tree_done(s1, b, r, sent.skip(k)),
            }
        };
    assert(r1 is Ok);
    assert(s0.traph_of(cu) is None);
    lemma_root_tree_entry(s0, s1, a.spec_control_tree_id(), true, r1, sent.take(k));
    let rest = sent.skip(k);
    let (s2, r2, k2) = choose|s2: CellAgent, r2: Result<RoutingTableEntry, CellagentError>, k2: int|
        {
            &&& 0 <= k2 <= rest.len()
            &&& #[trigger] root_tree_set_up(s1, s2, s1.spec_connected_tree_id(), false, r2, rest.take(k2))
            &&& match r2 {
                Err(e) => b == s2 && r == Err::<(), CellagentError>(e) && k2 == rest.len(),
                Ok(e2) => exists|s2k: CellAgent|
                    {
                        &&& #[trigger] s2k@ == (CaView { connected_tree_entry: e2, ..s2@ })
                        &&& s2k.wf()
                        &&& own_tree_done(s2k, b, r, rest.skip(k2))
                    },
            }
        };
    assert(r2 is Ok);
    assert(s1.traph_of(nu) == s0.traph_of(nu));
    lemma_root_tree_entry(s1, s2, s1.spec_connected_tree_id(), false, r2, rest.take(k2));
    let e2 = r2->Ok_0;
    let s2k = choose|s2k: CellAgent|
        {
            &&& #[trigger] s2k@ == (CaView { connected_tree_entry: e2, ..s2@ })
            &&& s2k.wf()
            &&& own_tree_done(s2k, b, r, rest.skip(k2))
        };
    let rest2 = rest.skip(k2);
    let (s3, r3) = choose|s3: CellAgent, r3: Result<RoutingTableEntry, CellagentError>|
        {
            &&& #[trigger] root_tree_set_up(s2k, s3, s2k.spec_my_tree_id(), true, r3, rest2)
            &&& match r3 {
                Err(e) => b == s3 && r == Err::<(), CellagentError>(e),
                Ok(e3) => b@ == (CaView { my_entry: e3, ..s3@ }) && r is Ok,
            }
        };
    assert(r3 is Ok);
    assert(s2k.traph_of(mu) == s2.traph_of(mu));
    assert(s2.traph_of(mu) == s1.traph_of(mu));
    assert(s1.traph_of(mu) == s0.traph_of(mu));
    lemma_root_tree_entry(s2k, s3, s2k.spec_my_tree_id(), true, r3, rest2);
    assert(b.traph_of(cu) == s3.traph_of(cu));
    assert(s3.traph_of(cu) == s2k.traph_of(cu));
    assert(s2k.traph_of(cu) == s2.traph_of(cu));
    assert(s2.traph_of(cu) == s1.traph_of(cu));
    assert(b.traph_of(nu) == s3.traph_of(nu));
    assert(s3.traph_of(nu) == s2k.traph_of(nu));
    assert(s2k.traph_of(nu) == s2.traph_of(nu));
    assert(b.spec_tree_map() == s0.spec_tree_map());
}

impl CellAgent {
    /// Sets up the predefined trees: each is filed in the tree map as its
    /// own base tree, then the control, connected-ports and own trees get
    /// their traphs with port 0 as parent; the agent keeps the entries of
    /// the last two. Listening to the cell module is the caller's part.
    pub fn initialize(&mut self, out: &mut Vec<CaToCm>) -> (r: Result<(), CellagentError>)
        requires
            old(self).wf(),
            old(self).spec_no_ports().0 >= 1,
        ensures
            final(self).wf(),
            final(out)@.len() >= old(out)@.len(),
            final(out)@.take(old(out)@.len() as int) == old(out)@,
            initialized(*old(self), *final(self), r, final(out)@.skip(old(out)@.len() as int)),
    {
        let ghost out0 = out@;
        let control_tree_id = self.control_tree_id.clone();
        let connected_tree_id = self.connected_tree_id.clone();
        let my_tree_id = self.my_tree_id.clone();
        file(&mut self.tree_map, control_tree_id.get_uuid(), control_tree_id.get_uuid());
        file(&mut self.tree_map, connected_tree_id.get_uuid(), connected_tree_id.get_uuid());
        file(&mut self.tree_map, my_tree_id.get_uuid(), my_tree_id.get_uuid());
        let ghost s0 = *self;
        proof {
            assert(tree_map_seeded(*old(self), s0));
            reveal_strlit("true");
            reveal_strlit("false");
        }
        let port_number_0 = PortNumber::new0();
        let hops = PathLength(CellQty(0));
        let path = Path::new0();
        let g1 = equation_of("true", "true", "true", "false");
        let mut kids1: Vec<PortNumber> = Vec::new();
        assert(kids1@ =~= Seq::<PortNumber>::empty());
        let r1 = self.update_traph(&control_tree_id, port_number_0, PortStatus::Parent, &g1, &mut kids1, hops, path, out);
        let ghost s1 = *self;
        let ghost k1 = out@.len() - out0.len();
        proof {
            assert("true"@ =~= seq!['t', 'r', 'u', 'e']);
            assert("false"@ =~= seq!['f', 'a', 'l', 's', 'e']);
            assert(port_number_0 == port0());
            assert(hops == no_hops());
            assert(fixed_eqn(g1, bool_text(true), bool_text(true), bool_text(true), bool_text(false)));
            assert(traph_updated_in(s0, s1, control_tree_id, port0(), PortStatus::Parent, g1, no_ports_given(), kids1@,
                no_hops(), Path::spec_new0(), r1, out@.skip(out0.len() as int)));
            assert(root_tree_set_up(s0, s1, old(self).spec_control_tree_id(), true, r1, out@.skip(out0.len() as int)));
        }
        match r1 {
            Ok(_) => {},
            Err(e) => {
                proof {
                    assert(out@.skip(out0.len() as int).take(k1) =~= out@.skip(out0.len() as int));
                }
                return Err(e);
            },
        }
        let ghost out1 = out@;
        let g2 = equation_of("false", "true", "true", "false");
        let mut kids2: Vec<PortNumber> = Vec::new();
        assert(kids2@ =~= Seq::<PortNumber>::empty());
        let r2 = self.update_traph(&connected_tree_id, port_number_0, PortStatus::Parent, &g2, &mut kids2, hops, path, out);
        let ghost s2 = *self;
        let ghost k2 = out@.len() - out1.len();
        proof {
            assert(fixed_eqn(g2, bool_text(false), bool_text(true), bool_text(true), bool_text(false)));
            assert(traph_updated_in(s1, s2, connected_tree_id, port0(), PortStatus::Parent, g2, no_ports_given(), kids2@,
                no_hops(), Path::spec_new0(), r2, out@.skip(out1.len() as int)));
            assert(root_tree_set_up(s1, s2, s1.spec_connected_tree_id(), false, r2, out@.skip(out1.len() as int)));
        }
        let connected_tree_entry = match r2 {
            Ok(e) => e,
            Err(e) => {
                proof {
                    let sent = out@.skip(out0.len() as int);
                    assert(sent.take(k1) =~= out1.skip(out0.len() as int));
                    assert(sent.skip(k1) =~= out@.skip(out1.len() as int));
                    assert(sent.skip(k1).take(k2) =~= sent.skip(k1));
                    assert(connected_tree_done(s1, *self, Err(e), sent.skip(k1)));
                }
                return Err(e);
            },
        };
        self.connected_tree_entry = connected_tree_entry;
        let ghost s2k = *self;
        let ghost out2 = out@;
        let g3 = equation_of("true", "true", "true", "false");
        let mut kids3: Vec<PortNumber> = Vec::new();
        assert(kids3@ =~= Seq::<PortNumber>::empty());
        let r3 = self.update_traph(&my_tree_id, port_number_0, PortStatus::Parent, &g3, &mut kids3, hops, path, out);
        let ghost s3 = *self;
        proof {
            assert(fixed_eqn(g3, bool_text(true), bool_text(true), bool_text(true), bool_text(false)));
            assert(traph_updated_in(s2k, s3, my_tree_id, port0(), PortStatus::Parent, g3, no_ports_given(), kids3@,
                no_hops(), Path::spec_new0(), r3, out@.skip(out2.len() as int)));
            assert(root_tree_set_up(s2k, s3, s2k.spec_my_tree_id(), true, r3, out@.skip(out2.len() as int)));
        }
        let my_entry = match r3 {
            Ok(e) => e,
            Err(e) => {
                proof {
                    let sent = out@.skip(out0.len() as int);
                    assert(sent.take(k1) =~= out1.skip(out0.len() as int));
                    assert(sent.skip(k1).take(k2) =~= out2.skip(out1.len() as int));
                    assert(sent.skip(k1).skip(k2) =~= out@.skip(out2.len() as int));
                    assert(own_tree_done(s2k, *self, Err(e), sent.skip(k1).skip(k2)));
                    assert(connected_tree_done(s1, *self, Err(e), sent.skip(k1)));
                }
                return Err(e);
            },
        };
        self.my_entry = my_entry;
        proof {
            let sent = out@.skip(out0.len() as int);
            assert(sent.take(k1) =~= out1.skip(out0.len() as int));
            assert(sent.skip(k1).take(k2) =~= out2.skip(out1.len() as int));
            assert(sent.skip(k1).skip(k2) =~= out@.skip(out2.len() as int));
            assert(own_tree_done(s2k, *self, Ok(()), sent.skip(k1).skip(k2)));
            assert(connected_tree_done(s1, *self, Ok(()), sent.skip(k1)));
            assert(out@.take(out0.len() as int) =~= out0);
        }
        Ok(())
    }
}

/// The name of the agent's sender id: `Sender:`, the cell's name, the
/// separator and `CellAgent`.
pub open spec fn agent_sender(s: SenderID, cell_id: CellID) -> bool {
    s.spec_name() == seq!['S', 'e', 'n', 'd', 'e', 'r', ':'] + cell_id.spec_name() + seq!['+'] + seq![
        'C',
        'e',
        'l',
        'l',
        'A',
        'g',
        'e',
        'n',
        't',
    ]
}

/// Whether the agent already knows the tree a discover message announces,
/// by the root-port quenching rule that `quench` selects: it has seen the
/// tree through the path's root port.
pub open spec fn discover_known(a: CellAgent, tree_id: TreeID, path: Path) -> bool {
    a.traph_of(tree_id.spec_uuid()) matches Some(t) && has_root_port(t, path.spec_port_number().port_no)
}

/// The answer to a discover message, sent back through its port on the
/// connected-ports tree.
pub open spec fn discover_d_sent(x: CaToCm, a: CellAgent, port_no: PortNo, tree_id: TreeID, path: Path) -> bool {
    x matches CaToCm::Msg { tree_id: t, is_ait, is_blocking, mask, msg: CaMsg::DiscoverD(m) } && t
        == a.spec_connected_tree_id() && is_ait && is_blocking && mask@ == port_mask_value(port_no.0)
        && m.spec_header().spec_msg_type() == MsgType::DiscoverD && m.spec_header().spec_ait()
        && m.spec_header().spec_direction() == MsgDirection::Leafward && agent_sender(
        m.spec_header().spec_sender_id(),
        a.spec_cell_id(),
    ) && m.spec_payload().spec_tree_id() == tree_id && m.spec_payload().spec_path() == path
}

/// The discover message forwarded one hop further on every port but the
/// one it came in on.
pub open spec fn discover_forwarded(x: CaToCm, a: CellAgent, port_no: PortNo, msg: DiscoverMsg) -> bool {
    x matches CaToCm::Msg { tree_id: t, is_ait, is_blocking, mask, msg: CaMsg::Discover(m) } && t
        == a.spec_connected_tree_id() && is_ait == msg.spec_header().spec_ait() && !is_blocking && mask@ == 254u16
        & !port_mask_value(port_no.0) && m.spec_header().same(&msg.spec_header())
        && m.spec_payload().spec_hops().0.0 == msg.spec_payload().spec_hops().0.0 + 1 && m.spec_payload().spec_path()
        == msg.spec_payload().spec_path() && m.spec_payload().spec_sending_cell_id() == a.spec_cell_id()
        && m.spec_payload().spec_tree_id() == msg.spec_payload().spec_tree_id() && same_equation(
        m.spec_payload().spec_gvm_eqn(),
        msg.spec_payload().spec_gvm_eqn(),
    )
}

/// The error `process_discover_msg` reports for a failure on its way.
pub open spec fn discover_failed(r: Result<(), CellagentError>) -> bool {
    r matches Err(CellagentError::Chain { func_name, comment }) && func_name == "process_ca" && comment == "DiscoverMsg"
}

/// After the traph update for a new tree: the tree recorded as its own
/// base tree, the answer and the forwarded message sent (stopping where a
/// send fails), and the message saved.
pub open spec fn discover_spread(
    s1: CellAgent,
    b: CellAgent,
    port_no: PortNo,
    msg: DiscoverMsg,
    r: Result<(), CellagentError>,
    sent: Seq<CaToCm>,
) -> bool {
    let tree_id = msg.spec_payload().spec_tree_id();
    let path = msg.spec_payload().spec_path();
    let can_send = lookup(s1.spec_tree_map(), s1.spec_connected_tree_id().spec_uuid()) is Some || s1.spec_connected_tree_id().spec_uuid()
        == tree_id.spec_uuid();
    exists|s2: CellAgent|
        {
            &&& #[trigger] base_tree_mapped(s1, s2, tree_id, tree_id)
            &&& if !can_send {
                b == s2 && discover_failed(r) && sent.len() == 0
            } else {
                &&& sent.len() == 2
                &&& discover_d_sent(sent[0], s1, port_no, tree_id, path)
                &&& discover_forwarded(sent[1], s1, port_no, msg)
                &&& b@ == (CaView { saved_discover: b@.saved_discover, ..s2@ })
                &&& b.spec_saved_discover().drop_last() == s2.spec_saved_discover()
                &&& b.spec_saved_discover().len() == s2.spec_saved_discover().len() + 1
                &&& b.spec_saved_discover().last().same(&msg)
                &&& r is Ok
            }
        }
}

/// What `process_discover_msg` does.
pub open spec fn discover_processed(
    a: CellAgent,
    b: CellAgent,
    port_no: PortNo,
    msg: DiscoverMsg,
    r: Result<(), CellagentError>,
    sent: Seq<CaToCm>,
) -> bool {
    let known = discover_known(a, msg.spec_payload().spec_tree_id(), msg.spec_payload().spec_path());
    if port_no.0 > a.spec_no_ports().0 {
        b == a && sent.len() == 0 && r matches Err(CellagentError::Utility(_))
    } else {
        discover_handled(a, b, port_no, msg, known, if known { PortStatus::Pruned } else { PortStatus::Parent }, r, sent)
    }
}

/// The traph updated for the port with the reported status (pruned for a
/// known tree, parent for a new one), then, for a new tree, the message
/// spread.
pub open spec fn discover_handled(
    a: CellAgent,
    b: CellAgent,
    port_no: PortNo,
    msg: DiscoverMsg,
    known: bool,
    status: PortStatus,
    r: Result<(), CellagentError>,
    sent: Seq<CaToCm>,
) -> bool {
    exists|s1: CellAgent, r1: Result<RoutingTableEntry, CellagentError>, g: GvmEquation, kids: Seq<PortNumber>, k: int|
        {
            &&& 0 <= k <= sent.len()
            &&& is_discover_equation(g)
            &&& #[trigger] traph_updated_in(
                a,
                s1,
                msg.spec_payload().spec_tree_id(),
                PortNumber { port_no },
                status,
                g,
                no_ports_given(),
                kids,
                msg.spec_payload().spec_hops(),
                msg.spec_payload().spec_path(),
                r1,
                sent.take(k),
            )
            &&& if r1 is Err {
                b == s1 && discover_failed(r) && k == sent.len()
            } else if known {
                b == s1 && r is Ok && k == sent.len()
            } else {
                discover_spread(s1, b, port_no, msg, r, sent.skip(k))
            }
        }
}

/// The mask of a forwarded discover message: every port of the default
/// user mask (ports 1 to 7) but the one the message arrived on.
proof fn lemma_forward_mask(port_no: u8)
    ensures
        forall|i: u16| i < 16 ==> (port_bit(#[trigger] (254u16 & !port_mask_value(port_no)), i) <==> (1 <= i < 8 && i != (
        port_no % 16) as u16)),
{
    let p = (port_no % 16) as u16;
    assert(port_mask_value(port_no) == 1u16 << p);
    assert(forall|i: u16| i < 16 ==> (((254u16 & !(1u16 << p)) >> i) & 1u16 == 1u16 <==> (1 <= i < 8 && i != p)))
        by (bit_vector)
        requires
            p < 16,
    ;
}

/// What a cell that adopts a new tree from a discover message, and
/// succeeds, sends last and keeps: the answer and the forwarded message,
/// after the entries of the traph update, and the message saved.
proof fn lemma_new_tree_spread(
    a: CellAgent,
    b: CellAgent,
    port_no: PortNo,
    msg: DiscoverMsg,
    r: Result<(), CellagentError>,
    sent: Seq<CaToCm>,
) -> (k: int)
    requires
        discover_processed(a, b, port_no, msg, r, sent),
        !discover_known(a, msg.spec_payload().spec_tree_id(), msg.spec_payload().spec_path()),
        r is Ok,
    ensures
        0 <= k,
        sent.len() == k + 2,
        discover_d_sent(sent[k], a, port_no, msg.spec_payload().spec_tree_id(), msg.spec_payload().spec_path()),
        discover_forwarded(sent[k + 1], a, port_no, msg),
        b.spec_saved_discover().drop_last() == a.spec_saved_discover(),
        b.spec_saved_discover().len() == a.spec_saved_discover().len() + 1,
        b.spec_saved_discover().last().same(&msg),
{
    let known = discover_known(a, msg.spec_payload().spec_tree_id(), msg.spec_payload().spec_path());
    assert(port_no.0 <= a.spec_no_ports().0);
    assert(discover_handled(a, b, port_no, msg, known, PortStatus::Parent, r, sent));
    let (s1, r1, g, kids, k) = choose|s1: CellAgent, r1: Result<RoutingTableEntry, CellagentError>, g: GvmEquation, kids: Seq<PortNumber>, k: int|
        {
            &&& 0 <= k <= sent.len()
            &&& is_discover_equation(g)
            &&& #[trigger] traph_updated_in(
                a,
                s1,
                msg.spec_payload().spec_tree_id(),
                PortNumber { port_no },
                PortStatus::Parent,
                g,
                no_ports_given(),
                kids,
                msg.spec_payload().spec_hops(),
                msg.spec_payload().spec_path(),
                r1,
                sent.take(k),
            )
            &&& if r1 is Err {
                b == s1 && discover_failed(r) && k == sent.len()
            } else if known {
                b == s1 && r is Ok && k == sent.len()
            } else {
                discover_spread(s1, b, port_no, msg, r, sent.skip(k))
            }
        };
    assert(r1 is Ok);
    let tree_id = msg.spec_payload().spec_tree_id();
    let s2 = choose|s2: CellAgent|
        {
            &&& #[trigger] base_tree_mapped(s1, s2, tree_id, tree_id)
            &&& if !(lookup(s1.spec_tree_map(), s1.spec_connected_tree_id().spec_uuid()) is Some
                || s1.spec_connected_tree_id().spec_uuid() == tree_id.spec_uuid()) {
                b == s2 && discover_failed(r) && sent.skip(k).len() == 0
            } else {
                &&& sent.skip(k).len() == 2
                &&& discover_d_sent(sent.skip(k)[0], s1, port_no, tree_id, msg.spec_payload().spec_path())
                &&& discover_forwarded(sent.skip(k)[1], s1, port_no, msg)
                &&& b@ == (CaView { saved_discover: b@.saved_discover, ..s2@ })
                &&& b.spec_saved_discover().drop_last() == s2.spec_saved_discover()
                &&& b.spec_saved_discover().len() == s2.spec_saved_discover().len() + 1
                &&& b.spec_saved_discover().last().same(&msg)
                &&& r is Ok
            }
        };
    assert(sent.skip(k)[0] == sent[k]);
    assert(sent.skip(k)[1] == sent[k + 1]);
    k
}


/// A cell that adopts a new tree from a discover message, and succeeds,
/// answers through the port the message came in on, and through that port
/// alone, then forwards the message one hop further on every port of the
/// default user mask except that one: never back to the neighbour it came
/// from.
pub proof fn law_discover_not_sent_back(
    a: CellAgent,
    b: CellAgent,
    port_no: PortNo,
    msg: DiscoverMsg,
    r: Result<(), CellagentError>,
    sent: Seq<CaToCm>,
)
    requires
        discover_processed(a, b, port_no, msg, r, sent),
        !discover_known(a, msg.spec_payload().spec_tree_id(), msg.spec_payload().spec_path()),
        r is Ok,
    ensures
        sent.len() >= 2,
        sent[sent.len() - 2] matches CaToCm::Msg { msg: CaMsg::DiscoverD(d), mask, .. } && d.spec_payload().spec_tree_id()
            == msg.spec_payload().spec_tree_id() && forall|q: u16|
            q < 16 ==> (port_bit(mask@, q) <==> q == (port_no.0 % 16) as u16),
        sent.last() matches CaToCm::Msg { msg: CaMsg::Discover(m), mask, .. } && m.spec_payload().spec_tree_id()
            == msg.spec_payload().spec_tree_id() && m.spec_payload().spec_hops().0.0 == msg.spec_payload().spec_hops().0.0 + 1
            && !port_bit(mask@, (port_no.0 % 16) as u16) && forall|i: u16|
            i < 16 ==> (port_bit(mask@, i) <==> (1 <= i < 8 && i != (port_no.0 % 16) as u16)),
{
    let k = lemma_new_tree_spread(a, b, port_no, msg, r, sent);
    assert(sent[sent.len() - 2] == sent[k]);
    assert(sent.last() == sent[k + 1]);
    lemma_forward_mask(port_no.0);
    assert forall|q: u16| q < 16 implies (port_bit(port_mask_value(port_no.0), q) <==> q == (port_no.0 % 16) as u16) by {
        lemma_port_mask_bit(port_no.0, q);
    }
    assert(port_bit(254u16 & !port_mask_value(port_no.0), (port_no.0 % 16) as u16) <==> false);
}

/// A discover message for a tree the cell already knows is quenched: it is
/// not saved, and the cell's other state but its traphs stays as it was.
pub proof fn law_known_discover_quenched(
    a: CellAgent,
    b: CellAgent,
    port_no: PortNo,
    msg: DiscoverMsg,
    r: Result<(), CellagentError>,
    sent: Seq<CaToCm>,
)
    requires
        discover_processed(a, b, port_no, msg, r, sent),
        discover_known(a, msg.spec_payload().spec_tree_id(), msg.spec_payload().spec_path()),
    ensures
        b.spec_saved_discover() == a.spec_saved_discover(),
        b@ == (CaView { traphs: b@.traphs, tree_id_map: b@.tree_id_map, ..a@ }),
{
    if port_no.0 <= a.spec_no_ports().0 {
        let (s1, r1, g, kids, k) = choose|s1: CellAgent, r1: Result<RoutingTableEntry, CellagentError>, g: GvmEquation, kids: Seq<PortNumber>, k: int|
            {
                &&& 0 <= k <= sent.len()
                &&& is_discover_equation(g)
                &&& #[trigger] traph_updated_in(
                    a,
                    s1,
                    msg.spec_payload().spec_tree_id(),
                    PortNumber { port_no },
                    PortStatus::Pruned,
                    g,
                    no_ports_given(),
                    kids,
                    msg.spec_payload().spec_hops(),
                    msg.spec_payload().spec_path(),
                    r1,
                    sent.take(k),
                )
                &&& b == s1
            };
        assert(b == s1);
    }
}

/// A cell that adopts a new tree from a discover message, and succeeds,
/// keeps the message for ports that connect later: it is added after the
/// ones saved before, which stay as they were.
pub proof fn law_new_tree_discover_saved(
    a: CellAgent,
    b: CellAgent,
    port_no: PortNo,
    msg: DiscoverMsg,
    r: Result<(), CellagentError>,
    sent: Seq<CaToCm>,
)
    requires
        discover_processed(a, b, port_no, msg, r, sent),
        !discover_known(a, msg.spec_payload().spec_tree_id(), msg.spec_payload().spec_path()),
        r is Ok,
    ensures
        b.spec_saved_discover().len() == a.spec_saved_discover().len() + 1,
        b.spec_saved_discover().take(a.spec_saved_discover().len() as int) == a.spec_saved_discover(),
        b.spec_saved_discover().last().same(&msg),
{
    let k = lemma_new_tree_spread(a, b, port_no, msg, r, sent);
    assert(b.spec_saved_discover().take(a.spec_saved_discover().len() as int) =~= b.spec_saved_discover().drop_last());
}

impl CellAgent {
    /// A discover message announces a tree: the traph records the port as
    /// the parent of a new tree, or as pruned for a tree already known by
    /// the quenching rule. For a new tree the cell answers through the
    /// port, forwards the message one hop further on all other ports, and
    /// saves it for ports that connect later.
    pub fn process_discover_msg(&mut self, msg: &DiscoverMsg, port_no: PortNo, out: &mut Vec<CaToCm>) -> (r: Result<
        (),
        CellagentError,
    >)
        requires
            old(self).wf(),
            port_no.0 != old(self).spec_no_ports().0,
            msg.spec_payload().spec_hops().0.0 < usize::MAX,
        ensures
            final(self).wf(),
            final(out)@.len() >= old(out)@.len(),
            final(out)@.take(old(out)@.len() as int) == old(out)@,
            discover_processed(*old(self), *final(self), port_no, *msg, r, final(out)@.skip(old(out)@.len() as int)),
    {
        let ghost out0 = out@;
        proof {
            assert(out@.skip(out0.len() as int) =~= Seq::<CaToCm>::empty());
            assert(out@.take(out0.len() as int) =~= out0);
        }
        let port_number = match port_no.make_port_number(self.no_ports) {
            Ok(p) => p,
            Err(e) => {
                return Err(CellagentError::Utility(e));
            },
        };
        let payload = msg.get_payload();
        let hops = payload.get_hops();
        let path = payload.get_path();
        let new_tree_id = payload.get_tree_id();
        let mut children: Vec<PortNumber> = Vec::new();
        let exists = match quench() {
            Quench::Simple => self.exists_simple(new_tree_id),
            Quench::RootPort => self.exists_root_port(new_tree_id, path),
        };
        let status = if exists {
            PortStatus::Pruned
        } else {
            PortStatus::Parent
        };
        proof {
            reveal_strlit("true");
            reveal_strlit("false");
        }
        let gvm_equation = equation_of("true", "true", "true", "false");
        proof {
            assert("true"@ =~= seq!['t', 'r', 'u', 'e']);
            assert("false"@ =~= seq!['f', 'a', 'l', 's', 'e']);
            assert(children@ =~= no_ports_given());
        }
        let r1 = self.update_traph(new_tree_id, port_number, status, &gvm_equation, &mut children, hops, path, out);
        let ghost s1 = *self;
        let ghost k = out@.len() - out0.len();
        proof {
            assert(traph_updated_in(*old(self), s1, *new_tree_id, PortNumber { port_no }, status, gvm_equation,
                no_ports_given(), children@, hops, path, r1, out@.skip(out0.len() as int)));
            assert(out@.skip(out0.len() as int).take(k) =~= out@.skip(out0.len() as int));
        }
        match r1 {
            Ok(_) => {},
            Err(_) => {
                return Err(CellagentError::Chain { func_name: "process_ca", comment: "DiscoverMsg" });
            },
        }
        if exists {
            return Ok(());
        }
        let ghost out1 = out@;
        self.update_base_tree_map(new_tree_id, new_tree_id);
        let ghost s2 = *self;
        let sender_id = match SenderID::new(&self.cell_id, "CellAgent") {
            Ok(s) => s,
            Err(e) => {
                return Err(CellagentError::Name(e));
            },
        };
        proof {
            reveal_strlit("CellAgent");
            assert("CellAgent"@ =~= seq!['C', 'e', 'l', 'l', 'A', 'g', 'e', 'n', 't']);
            assert(agent_sender(sender_id, self.spec_cell_id()));
        }
        let discoverd_msg = DiscoverDMsg::new(&sender_id, new_tree_id, path);
        let mask = Mask::new(port_number);
        let connected = self.connected_tree_id.clone();
        match self.send_msg(&connected, CaMsg::DiscoverD(discoverd_msg), mask, out) {
            Ok(()) => {},
            Err(_) => {
                proof {
                    assert(out@.skip(out0.len() as int).skip(k) =~= Seq::<CaToCm>::empty());
                }
                return Err(CellagentError::Chain { func_name: "process_ca", comment: "DiscoverMsg" });
            },
        }
        let ghost out2 = out@;
        proof {
            assert(out2.len() == out1.len() + 1);
            assert(discover_d_sent(out2[out1.len() as int], s1, port_no, *new_tree_id, path));
        }
        let updated_msg = msg.update(&self.cell_id);
        let user_mask = default_user_mask().all_but_port(port_number);
        match self.send_msg(&connected, CaMsg::Discover(updated_msg), user_mask, out) {
            Ok(()) => {},
            Err(_) => {
                proof {
                    assert(false);
                }
                return Err(CellagentError::Chain { func_name: "process_ca", comment: "DiscoverMsg" });
            },
        }
        self.add_saved_discover(msg);
        proof {
            let sent = out@.skip(out0.len() as int).skip(k);
            assert(sent =~= out@.skip(out1.len() as int));
            assert(sent.len() == 2);
            assert(discover_d_sent(sent[0], s1, port_no, *new_tree_id, path));
            assert(discover_forwarded(sent[1], s1, port_no, *msg));
            assert(base_tree_mapped(s1, s2, *new_tree_id, *new_tree_id));
            assert(discover_spread(s1, *self, port_no, *msg, Ok(()), sent));
            assert(out@.skip(out0.len() as int).take(k) =~= out1.skip(out0.len() as int));
            assert(out@.take(out0.len() as int) =~= out0);
            assert(discover_handled(*old(self), *self, port_no, *msg, false, PortStatus::Parent, Ok(()), out@.skip(out0.len() as int)));
        }
        Ok(())
    }
}

/// Each saved discover message sent again through the mask's ports, in order.
pub open spec fn discovers_forwarded(sent: Seq<CaToCm>, a: CellAgent, mask: u16) -> bool {
    &&& sent.len() == a.spec_saved_discover().len()
    &&& forall|i: int|
        0 <= i < sent.len() ==> (#[trigger] sent[i] matches CaToCm::Msg { tree_id: t, is_ait, is_blocking, mask: m, msg: CaMsg::Discover(d) }
            && t == a.spec_connected_tree_id() && is_ait == a.spec_saved_discover()[i].spec_header().spec_ait()
            && !is_blocking && m@ == mask && d.same(&a.spec_saved_discover()[i]))
}

impl CellAgent {
    /// Sends the saved discover messages again through the mask's ports,
    /// so that a newly connected neighbour learns the trees already built.
    fn forward_discover(&self, mask: Mask, out: &mut Vec<CaToCm>) -> (r: Result<(), CellagentError>)
        requires
            self.wf(),
        ensures
            lookup(self.spec_tree_map(), self.spec_connected_tree_id().spec_uuid()) is None && self.spec_saved_discover().len() > 0
                ==> (r matches Err(CellagentError::Tree { func_name, cell_id, tree_uuid }) && func_name == "send_bytes"
                && final(out)@ == old(out)@),
            lookup(self.spec_tree_map(), self.spec_connected_tree_id().spec_uuid()) is Some || self.spec_saved_discover().len() == 0
                ==> (r is Ok && final(out)@.len() >= old(out)@.len() && final(out)@.take(old(out)@.len() as int) == old(out)@
                && discovers_forwarded(final(out)@.skip(old(out)@.len() as int), *self, mask@)),
    {
        let ghost out0 = out@;
        let saved = self.get_saved_discover();
        let connected = self.connected_tree_id.clone();
        let mut i: usize = 0;
        while i < saved.len()
            invariant
                self.wf(),
                out0 == old(out)@,
                connected == self.spec_connected_tree_id(),
                saved@.len() == self.spec_saved_discover().len(),
                forall|j: int| 0 <= j < saved@.len() ==> (#[trigger] saved@[j]).same(&self.spec_saved_discover()[j]),
                i <= saved@.len(),
                i > 0 ==> lookup(self.spec_tree_map(), self.spec_connected_tree_id().spec_uuid()) is Some,
                out@.len() == out0.len() + i,
                out@.take(out0.len() as int) == out0,
                forall|j: int|
                    0 <= j < i ==> (#[trigger] out@[out0.len() + j] matches CaToCm::Msg {
                        tree_id: t,
                        is_ait,
                        is_blocking,
                        mask: m,
                        msg: CaMsg::Discover(d),
                    } && t == self.spec_connected_tree_id() && is_ait == self.spec_saved_discover()[j].spec_header().spec_ait()
                        && !is_blocking && m == mask && d.same(&self.spec_saved_discover()[j])),
            decreases saved@.len() - i,
        {
            let ghost before = out@;
            let m = saved[i].clone();
            match self.send_msg(&connected, CaMsg::Discover(m), mask, out) {
                Ok(()) => {},
                Err(e) => {
                    proof {
                        assert(i == 0);
                        assert(out@ =~= out0);
                    }
                    return Err(e);
                },
            }
            proof {
                assert forall|j: int|
                    0 <= j < i + 1 implies (#[trigger] out@[out0.len() + j] matches CaToCm::Msg {
                    tree_id: t,
                    is_ait,
                    is_blocking,
                    mask: mm,
                    msg: CaMsg::Discover(d),
                } && t == self.spec_connected_tree_id() && is_ait == self.spec_saved_discover()[j].spec_header().spec_ait()
                    && !is_blocking && mm == mask && d.same(&self.spec_saved_discover()[j])) by {
                    if j < i {
                        assert(out@[out0.len() + j] == before[out0.len() + j]);
                    }
                }
                assert(out@.take(out0.len() as int) =~= before.take(out0.len() as int));
            }
            i = i + 1;
        }
        proof {
            let sent = out@.skip(out0.len() as int);
            assert forall|j: int| 0 <= j < sent.len() implies (#[trigger] sent[j] matches CaToCm::Msg {
                tree_id: t,
                is_ait,
                is_blocking,
                mask: m,
                msg: CaMsg::Discover(d),
            } && t == self.spec_connected_tree_id() && is_ait == self.spec_saved_discover()[j].spec_header().spec_ait()
                && !is_blocking && m == mask && d.same(&self.spec_saved_discover()[j])) by {
                assert(sent[j] == out@[out0.len() + j]);
            }
        }
        Ok(())
    }
}

/// The name a border port's sender gets: `BorderPort+` and the port number.
pub open spec fn border_port_name(port_no: PortNo) -> Seq<char> {
    seq!['B', 'o', 'r', 'd', 'e', 'r', 'P', 'o', 'r', 't', '+'] + decimal(port_no.0 as nat)
}

pub open spec fn base_name() -> Seq<char> {
    seq!['B', 'a', 's', 'e']
}

pub open spec fn one_hop() -> PathLength {
    PathLength(CellQty(1))
}

/// The error `port_connected` reports for a failure on its way.
pub open spec fn connect_failed(r: Result<(), CellagentError>) -> bool {
    r matches Err(CellagentError::Chain { func_name, comment }) && func_name == "port_connected"
}

/// The message that tells a border port's partner the name of the tree it may use.
pub open spec fn tree_name_sent(x: CaToCm, port_no: PortNo, sender: SenderID) -> bool {
    x matches CaToCm::Tcp { port_number, is_ait, allowed_tree, msg_type, direction, msg } && port_number == PortNumber {
        port_no,
    } && !is_ait && allowed_tree.spec_name() == base_name() && msg_type == TcpMsgType::TreeName && direction
        == MsgDirection::Rootward && msg.spec_header().spec_sender_id() == sender && msg.spec_header().spec_msg_type()
        == MsgType::TreeName && msg.spec_payload().spec_tree_name() == base_name()
}

/// The hello message through a newly connected interior port.
pub open spec fn hello_sent(x: CaToCm, a: CellAgent, port_no: PortNo) -> bool {
    x matches CaToCm::Msg { tree_id: t, is_ait, is_blocking, mask, msg: CaMsg::Hello(m) } && t == a.spec_connected_tree_id()
        && is_ait && !is_blocking && mask@ == port_mask_value(port_no.0) && m.spec_header().spec_msg_type()
        == MsgType::Hello && agent_sender(m.spec_header().spec_sender_id(), a.spec_cell_id())
        && m.spec_payload().spec_cell_id() == a.spec_cell_id() && m.spec_payload().spec_port_no() == port_no
}

/// The discover message for the cell's own tree through a newly connected
/// interior port: one hop, rooted at that port.
pub open spec fn own_discover_sent(x: CaToCm, a: CellAgent, port_no: PortNo) -> bool {
    x matches CaToCm::Msg { tree_id: t, is_ait, is_blocking, mask, msg: CaMsg::Discover(m) } && t
        == a.spec_connected_tree_id() && is_ait && !is_blocking && mask@ == port_mask_value(port_no.0)
        && m.spec_header().spec_msg_type() == MsgType::Discover && agent_sender(
        m.spec_header().spec_sender_id(),
        a.spec_cell_id(),
    ) && m.spec_payload().spec_tree_id() == a.spec_my_tree_id() && m.spec_payload().spec_sending_cell_id()
        == a.spec_cell_id() && m.spec_payload().spec_hops() == one_hop() && m.spec_payload().spec_path().spec_port_number().port_no
        == port_no && is_discover_equation(m.spec_payload().spec_gvm_eqn())
}

/// A border port connected: a tree to the outside (the cell's tree plus
/// `Noc`) gets the port as its parent, the port's sender may use the
/// cell's tree as `Base`, the port is recorded as a border port with its
/// sender and tree, and the partner is told the tree's name.
pub open spec fn border_connected(
    a: CellAgent,
    b: CellAgent,
    port_no: PortNo,
    r: Result<(), CellagentError>,
    sent: Seq<CaToCm>,
) -> bool {
    let noc_name = a.spec_my_tree_id().spec_name() + seq!['+'] + seq!['N', 'o', 'c'];
    if noc_name.contains(' ') || port_no.0 > a.spec_no_ports().0 {
        b == a && sent.len() == 0 && connect_failed(r)
    } else {
        border_tree_set_up(a, b, port_no, noc_name, r, sent)
    }
}

pub open spec fn border_tree_set_up(
    a: CellAgent,
    b: CellAgent,
    port_no: PortNo,
    noc_name: Seq<char>,
    r: Result<(), CellagentError>,
    sent: Seq<CaToCm>,
) -> bool {
    exists|s1: CellAgent, noc: TreeID, g: GvmEquation, kids: Seq<PortNumber>, r1: Result<RoutingTableEntry, CellagentError>, k: int|
        {
            &&& 0 <= k <= sent.len()
            &&& noc.spec_name() == noc_name
            &&& fixed_eqn(g, bool_text(true), bool_text(true), bool_text(false), bool_text(false))
            &&& #[trigger] traph_updated_in(
                a,
                s1,
                noc,
                PortNumber { port_no },
                PortStatus::Parent,
                g,
                no_ports_given(),
                kids,
                one_hop(),
                Path::spec_new0(),
                r1,
                sent.take(k),
            )
            &&& if r1 is Err {
                b == s1 && connect_failed(r) && k == sent.len()
            } else {
                border_named(s1, b, port_no, noc, r, sent.skip(k))
            }
        }
}

pub open spec fn border_named(
    s1: CellAgent,
    b: CellAgent,
    port_no: PortNo,
    noc: TreeID,
    r: Result<(), CellagentError>,
    sent: Seq<CaToCm>,
) -> bool {
    exists|sender: SenderID, s2: CellAgent|
        {
            &&& sender.spec_name() == seq!['S', 'e', 'n', 'd', 'e', 'r', ':'] + s1.spec_cell_id().spec_name() + seq!['+']
                + border_port_name(port_no)
            &&& #[trigger] tree_named_for(s1, s2, sender, base_name(), s1.spec_my_tree_id())
            &&& b.wf()
            &&& b@ == (CaView { border_map: b@.border_map, ..s2@ })
            &&& forall|q: PortNumber| #[trigger]
                lookup(b.spec_border_map(), q) == if q == (PortNumber { port_no }) {
                    Some((sender, noc))
                } else {
                    lookup(s2.spec_border_map(), q)
                }
            &&& sent.len() == 1
            &&& tree_name_sent(sent[0], port_no, sender)
            &&& r is Ok
        }
}

/// An interior port connected: the connected-ports entry gains the port
/// and is sent; through the port go a hello, a discover message for the
/// cell's own tree and the saved discover messages.
pub open spec fn interior_connected(
    a: CellAgent,
    b: CellAgent,
    port_no: PortNo,
    r: Result<(), CellagentError>,
    sent: Seq<CaToCm>,
) -> bool {
    let mask = port_mask_value(port_no.0);
    if port_no.0 > a.spec_no_ports().0 {
        b == a && sent.len() == 0 && r matches Err(CellagentError::Utility(_))
    } else {
        &&& b.wf()
        &&& b@ == (CaView { connected_tree_entry: b@.connected_tree_entry, ..a@ })
        &&& a.spec_connected_tree_entry().with_mask(b.spec_connected_tree_entry(), a.spec_connected_tree_entry().spec_mask() | mask)
        &&& sent.len() >= 1
        &&& sent[0] == CaToCm::Entry(b.spec_connected_tree_entry())
        &&& if lookup(a.spec_tree_map(), a.spec_connected_tree_id().spec_uuid()) is None {
            sent.len() == 1 && (r matches Err(CellagentError::Tree { func_name, cell_id, tree_uuid }) && func_name
                == "send_bytes")
        } else {
            &&& sent.len() >= 3
            &&& hello_sent(sent[1], a, port_no)
            &&& own_discover_sent(sent[2], a, port_no)
            &&& discovers_forwarded(sent.skip(3), a, mask)
            &&& r is Ok
        }
    }
}

/// When an interior port comes up and the cell can reach its neighbours,
/// the connected-ports tree's entry gains that port and keeps every other,
/// and is sent first; then a hello naming the port and a discover message
/// for the cell's own tree go through that port alone.
pub proof fn law_interior_port_introduced(
    a: CellAgent,
    b: CellAgent,
    port_no: PortNo,
    r: Result<(), CellagentError>,
    sent: Seq<CaToCm>,
)
    requires
        interior_connected(a, b, port_no, r, sent),
        r is Ok,
    ensures
        sent.len() >= 3,
        sent[0] matches CaToCm::Entry(e) && e == b.spec_connected_tree_entry() && forall|q: u16|
            q < 16 ==> (port_bit(e.spec_mask(), q) <==> (port_bit(a.spec_connected_tree_entry().spec_mask(), q) || q == (
            port_no.0 % 16) as u16)),
        sent[1] matches CaToCm::Msg { msg: CaMsg::Hello(h), mask, .. } && h.spec_payload().spec_port_no() == port_no
            && h.spec_payload().spec_cell_id() == a.spec_cell_id() && forall|q: u16|
            q < 16 ==> (port_bit(mask@, q) <==> q == (port_no.0 % 16) as u16),
        sent[2] matches CaToCm::Msg { msg: CaMsg::Discover(m), mask, .. } && m.spec_payload().spec_tree_id()
            == a.spec_my_tree_id() && forall|q: u16| q < 16 ==> (port_bit(mask@, q) <==> q == (port_no.0 % 16) as u16),
{
    let pm = port_mask_value(port_no.0);
    let m0 = a.spec_connected_tree_entry().spec_mask();
    assert(lookup(a.spec_tree_map(), a.spec_connected_tree_id().spec_uuid()) is Some);
    assert forall|q: u16| q < 16 implies (port_bit(pm, q) <==> q == (port_no.0 % 16) as u16) && (port_bit(m0 | pm, q) <==> (
    port_bit(m0, q) || q == (port_no.0 % 16) as u16)) by {
        lemma_port_mask_bit(port_no.0, q);
        lemma_mask_set_algebra(m0, pm, q);
    }
}

/// When an interior port comes up and the cell introduces itself, every
/// discover message the cell has saved is sent again to the new neighbour,
/// in the order saved, after the connected-ports entry, the hello and the
/// cell's own discover message, each through the new port alone; nothing
/// else is sent.
pub proof fn law_saved_discovers_replayed(
    a: CellAgent,
    b: CellAgent,
    port_no: PortNo,
    r: Result<(), CellagentError>,
    sent: Seq<CaToCm>,
)
    requires
        interior_connected(a, b, port_no, r, sent),
        r is Ok,
    ensures
        sent.len() == 3 + a.spec_saved_discover().len(),
        forall|i: int|
            0 <= i < a.spec_saved_discover().len() ==> {
                &&& #[trigger] sent[3 + i] matches CaToCm::Msg { msg: CaMsg::Discover(d), mask, .. }
                &&& d.same(&a.spec_saved_discover()[i])
                &&& forall|q: u16| q < 16 ==> (port_bit(mask@, q) <==> q == (port_no.0 % 16) as u16)
            },
{
    let port_mask = port_mask_value(port_no.0);
    assert(lookup(a.spec_tree_map(), a.spec_connected_tree_id().spec_uuid()) is Some);
    let rest = sent.skip(3);
    assert(discovers_forwarded(rest, a, port_mask));
    assert forall|i: int| 0 <= i < a.spec_saved_discover().len() implies {
        &&& #[trigger] sent[3 + i] matches CaToCm::Msg { msg: CaMsg::Discover(d), mask, .. }
        &&& d.same(&a.spec_saved_discover()[i])
        &&& forall|q: u16| q < 16 ==> (port_bit(mask@, q) <==> q == (port_no.0 % 16) as u16)
    } by {
        assert(rest[i] == sent[3 + i]);
        assert forall|q: u16| q < 16 implies (port_bit(port_mask, q) <==> q == (port_no.0 % 16) as u16) by {
            lemma_port_mask_bit(port_no.0, q);
        }
    }
}

impl CellAgent {
    /// A port came up. For a border port the cell sets up a tree to the
    /// outside and tells the partner the name of the tree it may use; for
    /// an interior port it adds the port to the connected-ports tree and
    /// introduces itself and its trees to the neighbour.
    pub fn port_connected(&mut self, port_no: PortNo, is_border: bool, out: &mut Vec<CaToCm>) -> (r: Result<(), CellagentError>)
        requires
            old(self).wf(),
            is_border ==> port_no.0 != old(self).spec_no_ports().0,
        ensures
            final(self).wf(),
            final(out)@.len() >= old(out)@.len(),
            final(out)@.take(old(out)@.len() as int) == old(out)@,
            is_border ==> border_connected(*old(self), *final(self), port_no, r, final(out)@.skip(old(out)@.len() as int)),
            !is_border ==> interior_connected(*old(self), *final(self), port_no, r, final(out)@.skip(old(out)@.len() as int)),
    {
        let ghost out0 = out@;
        proof {
            assert(out@.skip(out0.len() as int) =~= Seq::<CaToCm>::empty());
            assert(out@.take(out0.len() as int) =~= out0);
            reveal_strlit("true");
            reveal_strlit("false");
            reveal_strlit("Noc");
            reveal_strlit("Base");
            reveal_strlit("CellAgent");
            reveal_strlit("BorderPort+");
            reveal_strlit("");
            assert("true"@ =~= seq!['t', 'r', 'u', 'e']);
            assert("false"@ =~= seq!['f', 'a', 'l', 's', 'e']);
            assert("Noc"@ =~= seq!['N', 'o', 'c']);
            assert("Base"@ =~= base_name());
            assert("CellAgent"@ =~= seq!['C', 'e', 'l', 'l', 'A', 'g', 'e', 'n', 't']);
        }
        if is_border {
            let gvm_eqn = equation_of("true", "true", "false", "false");
            let new_tree_id = match self.my_tree_id.add_component("Noc") {
                Ok(t) => t,
                Err(_) => {
                    return Err(CellagentError::Chain { func_name: "port_connected", comment: "" });
                },
            };
            let port_number = match port_no.make_port_number(self.no_ports) {
                Ok(p) => p,
                Err(_) => {
                    return Err(CellagentError::Chain { func_name: "port_connected", comment: "" });
                },
            };
            let mut children: Vec<PortNumber> = Vec::new();
            assert(children@ =~= no_ports_given());
            let r1 = self.update_traph(&new_tree_id, port_number, PortStatus::Parent, &gvm_eqn, &mut children,
                PathLength(CellQty(1)), Path::new0(), out);
            let ghost s1 = *self;
            let ghost k = out@.len() - out0.len();
            proof {
                assert(fixed_eqn(gvm_eqn, bool_text(true), bool_text(true), bool_text(false), bool_text(false)));
                assert(traph_updated_in(*old(self), s1, new_tree_id, PortNumber { port_no }, PortStatus::Parent, gvm_eqn,
                    no_ports_given(), children@, one_hop(), Path::spec_new0(), r1, out@.skip(out0.len() as int)));
                assert(out@.skip(out0.len() as int).take(k) =~= out@.skip(out0.len() as int));
            }
            match r1 {
                Ok(_) => {},
                Err(_) => {
                    return Err(CellagentError::Chain { func_name: "port_connected", comment: "" });
                },
            }
            let ghost out1 = out@;
            let base_tree = AllowedTree::new("Base");
            let my_tree_id = self.my_tree_id.clone();
            let number = decimal_string(port_no.0 as u64);
            let name = concat3("BorderPort+", number.as_str(), "");
            let sender_id = match SenderID::new(&self.cell_id, name.as_str()) {
                Ok(s) => s,
                Err(e) => {
                    return Err(CellagentError::Name(e));
                },
            };
            proof {
                assert(name@ =~= border_port_name(port_no));
            }
            self.add_tree_name_map_item(&sender_id, &base_tree, &my_tree_id);
            let ghost s2 = *self;
            file(&mut self.border_port_tree_id_map, port_number, (sender_id.clone(), new_tree_id.clone()));
            let tree_name_msg = TreeNameMsg::new(&sender_id, base_tree.get_name().as_str());
            out.push(
                CaToCm::Tcp {
                    port_number,
                    is_ait: false,
                    allowed_tree: base_tree,
                    msg_type: TcpMsgType::TreeName,
                    direction: MsgDirection::Rootward,
                    msg: tree_name_msg,
                },
            );
            proof {
                let sent = out@.skip(out0.len() as int);
                assert(sent.take(k) =~= out1.skip(out0.len() as int));
                assert(sent.skip(k) =~= seq![out@[out1.len() as int]]);
                assert(tree_name_sent(sent.skip(k)[0], port_no, sender_id));
                assert(tree_named_for(s1, s2, sender_id, base_name(), s1.spec_my_tree_id()));
                assert(border_named(s1, *self, port_no, new_tree_id, Ok(()), sent.skip(k)));
                assert(out@.take(out0.len() as int) =~= out0);
            }
            Ok(())
        } else {
            let sender_id = match SenderID::new(&self.cell_id, "CellAgent") {
                Ok(s) => s,
                Err(e) => {
                    return Err(CellagentError::Name(e));
                },
            };
            let port_number = match port_no.make_port_number(self.no_ports) {
                Ok(p) => p,
                Err(e) => {
                    return Err(CellagentError::Utility(e));
                },
            };
            let port_no_mask = Mask::new(port_number);
            self.connected_tree_entry.or_with_mask(port_no_mask);
            out.push(CaToCm::Entry(self.connected_tree_entry));
            let connected = self.connected_tree_id.clone();
            let hello_msg = HelloMsg::new(&sender_id, &self.cell_id, port_no);
            match self.send_msg(&connected, CaMsg::Hello(hello_msg), port_no_mask, out) {
                Ok(()) => {},
                Err(e) => {
                    proof {
                        assert(out@.skip(out0.len() as int) =~= seq![CaToCm::Entry(self.spec_connected_tree_entry())]);
                        assert(out@.take(out0.len() as int) =~= out0);
                    }
                    return Err(e);
                },
            }
            let path = match Path::new(port_no, self.no_ports) {
                Ok(p) => p,
                Err(e) => {
                    return Err(CellagentError::Utility(e));
                },
            };
            let hops = PathLength(CellQty(1));
            let discover_msg = DiscoverMsg::new(&sender_id, &self.my_tree_id, &self.cell_id, hops, path);
            match self.send_msg(&connected, CaMsg::Discover(discover_msg), port_no_mask, out) {
                Ok(()) => {},
                Err(_) => {
                    return Err(CellagentError::Chain { func_name: "port_connected", comment: "" });
                },
            }
            let ghost out3 = out@;
            match self.forward_discover(port_no_mask, out) {
                Ok(()) => {},
                Err(_) => {
                    return Err(CellagentError::Chain { func_name: "port_connected", comment: "" });
                },
            }
            proof {
                let sent = out@.skip(out0.len() as int);
                assert(sent.skip(3) =~= out@.skip(out3.len() as int));
                assert(sent[0] == out3[out0.len() as int]);
                assert(sent[1] == out3[out0.len() + 1int]);
                assert(sent[2] == out3[out0.len() + 2int]);
                assert(out@.take(out0.len() as int) =~= out0) by {
                    assert(out3.take(out0.len() as int) =~= out0);
                    assert(out@.take(out0.len() as int) =~= out3.take(out0.len() as int));
                }
            }
            Ok(())
        }
    }
}

/// The error `stack_tree` reports for a failure on its way.
pub open spec fn stack_failed(r: Result<Option<RoutingTableEntry>, CellagentError>, comment: &'static str) -> bool {
    r matches Err(CellagentError::Chain { func_name, comment: c }) && func_name == "stack_tree" && c == comment
}

/// The entry of a new stacked tree: the parent tree's entry for the new
/// tree, with port 0 as its only child if it receives and no children
/// otherwise, sending as the send expression says.
pub open spec fn stacked_entry(pe: RoutingTableEntry, e: RoutingTableEntry, new_tree_id: TreeID, recv: bool, send: bool) -> bool {
    e.is(
        new_tree_id.spec_uuid(),
        pe.spec_inuse(),
        pe.spec_parent(),
        if recv {
            1u16
        } else {
            0u16
        },
        send,
    )
}

/// The base tree of a tree stacked on the parent: the parent's base tree,
/// or the parent itself when the agent knows none.
pub open spec fn stack_base(a: CellAgent, parent_tree_id: TreeID) -> TreeID {
    match a.base_tree_of(parent_tree_id) {
        Some(bt) => bt,
        None => parent_tree_id,
    }
}

/// The maps `stack_tree` updates first: the new tree's name for the
/// sender, and its base tree (the parent's, or the parent itself when the
/// parent has none).
pub open spec fn stack_maps_updated(
    a: CellAgent,
    s0: CellAgent,
    sender_id: SenderID,
    name: Seq<char>,
    new_tree_id: TreeID,
    parent_tree_id: TreeID,
    base_tree_id: TreeID,
) -> bool {
    exists|sa: CellAgent, sb: CellAgent|
        {
            &&& a.base_tree_of(parent_tree_id) is None ==> base_tree_mapped(a, sa, new_tree_id, parent_tree_id)
            &&& a.base_tree_of(parent_tree_id) is Some ==> sa == a
            &&& #[trigger] tree_named_for(sa, sb, sender_id, name, new_tree_id)
            &&& base_tree_mapped(sb, s0, new_tree_id, base_tree_id)
        }
}

/// The new tree stacked on the parent's traph: filed there with its entry,
/// recorded by UUID with its base tree and its id, and its entry sent.
pub open spec fn tree_stacked_in(
    s0: CellAgent,
    b: CellAgent,
    t: Traph,
    pe: RoutingTableEntry,
    new_tree_id: TreeID,
    parent_tree_id: TreeID,
    base_tree_id: TreeID,
    gvm: GvmEquation,
    recv: bool,
    send: bool,
    r: Result<Option<RoutingTableEntry>, CellagentError>,
    sent: Seq<CaToCm>,
) -> bool {
    let tu = s0.base_tree_of(parent_tree_id)->0.spec_uuid();
    let u = new_tree_id.spec_uuid();
    exists|tree: Tree, t1: Traph|
        {
            &&& r matches Ok(Some(e)) && stacked_entry(pe, e, new_tree_id, recv, send)
            &&& tree.spec_port_tree_id() == new_tree_id
            &&& tree.spec_base_tree_id() == base_tree_id
            &&& tree.spec_parent_tree_id() == parent_tree_id
            &&& tree.spec_stacked_tree_ids().len() == 0
            &&& tree.spec_entry() == r->Ok_0->Some_0
            &&& tree.spec_gvm_eqn().spec_recv() == gvm.spec_recv()
            &&& tree.spec_gvm_eqn().spec_send() == gvm.spec_send()
            &&& tree.spec_gvm_eqn().spec_xtnd() == gvm.spec_xtnd()
            &&& tree.spec_gvm_eqn().spec_save() == gvm.spec_save()
            &&& #[trigger] tree_stacked(t, t1, tree)
            &&& b.wf()
            &&& b@ == (CaView { traphs: b@.traphs, tree_map: b@.tree_map, tree_id_map: b@.tree_id_map, ..s0@ })
            &&& forall|v: Uuid| #[trigger]
                b.traph_of(v) == if v == tu {
                    Some(t1)
                } else {
                    s0.traph_of(v)
                }
            &&& forall|v: Uuid| #[trigger]
                lookup(b.spec_tree_map(), v) == if v == u {
                    Some(base_tree_id.spec_uuid())
                } else {
                    lookup(s0.spec_tree_map(), v)
                }
            &&& forall|v: Uuid| #[trigger]
                lookup(b.spec_tree_id_map(), v) == if v == u {
                    Some(new_tree_id)
                } else {
                    lookup(s0.spec_tree_id_map(), v)
                }
            &&& sent == seq![CaToCm::Entry(r->Ok_0->Some_0)]
        }
}

/// What `stack_tree` does once the maps are updated.
pub open spec fn stacked_from(
    s0: CellAgent,
    b: CellAgent,
    new_tree_id: TreeID,
    parent_tree_id: TreeID,
    base_tree_id: TreeID,
    gvm: GvmEquation,
    r: Result<Option<RoutingTableEntry>, CellagentError>,
    sent: Seq<CaToCm>,
) -> bool {
    match s0.traph_for_tree(parent_tree_id) {
        None => b == s0 && sent.len() == 0 && stack_failed(r, ""),
        Some(t) => if t.has_stacked(new_tree_id.spec_uuid()) {
            b == s0 && sent.len() == 0 && r == Ok::<Option<RoutingTableEntry>, CellagentError>(None)
        } else {
            match tree_entry_in(t, parent_tree_id.spec_uuid()) {
                None => b == s0 && sent.len() == 0 && stack_failed(r, ""),
                Some(pe) => {
                    let vars = gvm.spec_variables();
                    let xtnd = traph_eval(t, vars, gvm.spec_xtnd());
                    let send = traph_eval(t, vars, gvm.spec_send());
                    let recv = traph_eval(t, vars, gvm.spec_recv());
                    if !params_known(t, vars) {
                        b == s0 && sent.len() == 0 && stack_failed(r, "")
                    } else if xtnd is None {
                        b == s0 && sent.len() == 0 && stack_failed(r, "gvm_xtnd")
                    } else if send is None {
                        b == s0 && sent.len() == 0 && stack_failed(r, "gvm_send")
                    } else if recv is None {
                        b == s0 && sent.len() == 0 && stack_failed(r, "")
                    } else {
                        tree_stacked_in(s0, b, t, pe, new_tree_id, parent_tree_id, base_tree_id, gvm, recv->0, send->0, r, sent)
                    }
                },
            }
        },
    }
}

/// A tree stacked on the traph of its parent tree receives on the cell's
/// own port exactly when its receive equation evaluates to true there: the
/// new tree's entry selects port 0 if and only if that equation holds, and
/// it selects no other port. The entry may send exactly when the send
/// equation holds, and keeps the parent tree's parent port and use.
pub proof fn law_stacked_tree_receives_iff_recv(
    s0: CellAgent,
    b: CellAgent,
    new_tree_id: TreeID,
    parent_tree_id: TreeID,
    base_tree_id: TreeID,
    gvm: GvmEquation,
    r: Result<Option<RoutingTableEntry>, CellagentError>,
    sent: Seq<CaToCm>,
)
    requires
        stacked_from(s0, b, new_tree_id, parent_tree_id, base_tree_id, gvm, r, sent),
        r matches Ok(Some(_)),
    ensures
        s0.traph_for_tree(parent_tree_id) matches Some(t) && traph_eval(t, gvm.spec_variables(), gvm.spec_recv())
            matches Some(recv) && (port_bit(r->Ok_0->Some_0.spec_mask(), 0) <==> recv),
        forall|i: u16| 1 <= i < 16 ==> !port_bit(#[trigger] r->Ok_0->Some_0.spec_mask(), i),
        s0.traph_for_tree(parent_tree_id) matches Some(t) && traph_eval(t, gvm.spec_variables(), gvm.spec_send())
            matches Some(send) && (r->Ok_0->Some_0.spec_may_send() <==> send),
        s0.traph_for_tree(parent_tree_id) matches Some(t) && tree_entry_in(t, parent_tree_id.spec_uuid()) matches Some(pe)
            && r->Ok_0->Some_0.spec_parent() == pe.spec_parent() && r->Ok_0->Some_0.spec_inuse() == pe.spec_inuse(),
        r->Ok_0->Some_0.spec_uuid() == new_tree_id.spec_uuid(),
{
    let t = s0.traph_for_tree(parent_tree_id)->0;
    let recv = traph_eval(t, gvm.spec_variables(), gvm.spec_recv())->0;
    let m = r->Ok_0->Some_0.spec_mask();
    assert(m == if recv { 1u16 } else { 0u16 });
    assert(port_bit(1u16, 0) && !port_bit(0u16, 0)) by (bit_vector);
    assert forall|i: u16| 1 <= i < 16 implies !port_bit(#[trigger] r->Ok_0->Some_0.spec_mask(), i) by {
        assert(!port_bit(1u16, i) && !port_bit(0u16, i)) by (bit_vector)
            requires
                1 <= i < 16,
        ;
    }
}

impl CellAgent {
    /// Stacks a new tree on a parent tree: the sender may use the new tree
    /// by the allowed tree's name, the new tree's base tree is the parent's
    /// (or the parent), and, unless the parent's traph already holds it,
    /// the new tree is filed there with an entry derived from the parent's
    /// as its equation says, and the entry is sent. Returns the entry, or
    /// nothing for a tree already stacked.
    pub fn stack_tree(
        &mut self,
        sender_id: &SenderID,
        allowed_tree: &AllowedTree,
        new_tree_id: &TreeID,
        parent_tree_id: &TreeID,
        gvm_eqn: &GvmEquation,
        out: &mut Vec<CaToCm>,
    ) -> (r: Result<Option<RoutingTableEntry>, CellagentError>)
        requires
            old(self).wf(),
            old(self).spec_no_ports().0 >= 1,
        ensures
            final(self).wf(),
            final(out)@.len() >= old(out)@.len(),
            final(out)@.take(old(out)@.len() as int) == old(out)@,
            exists|s0: CellAgent|
                {
                    &&& #[trigger] stack_maps_updated(
                        *old(self),
                        s0,
                        *sender_id,
                        allowed_tree.spec_name(),
                        *new_tree_id,
                        *parent_tree_id,
                        stack_base(*old(self), *parent_tree_id),
                    )
                    &&& stacked_from(
                        s0,
                        *final(self),
                        *new_tree_id,
                        *parent_tree_id,
                        stack_base(*old(self), *parent_tree_id),
                        *gvm_eqn,
                        r,
                        final(out)@.skip(old(out)@.len() as int),
                    )
                },
    {
        let ghost out0 = out@;
        proof {
            assert(out@.skip(out0.len() as int) =~= Seq::<CaToCm>::empty());
            assert(out@.take(out0.len() as int) =~= out0);
        }
        let base_tree_id = match self.get_base_tree_id(parent_tree_id) {
            Ok(id) => id,
            Err(_) => {
                self.update_base_tree_map(new_tree_id, parent_tree_id);
                parent_tree_id.clone()
            },
        };
        let ghost sa = *self;
        assert(base_tree_id == stack_base(*old(self), *parent_tree_id));
        self.add_tree_name_map_item(sender_id, allowed_tree, new_tree_id);
        let ghost sb = *self;
        self.update_base_tree_map(new_tree_id, &base_tree_id);
        let ghost s0 = *self;
        proof {
            assert(stack_maps_updated(*old(self), s0, *sender_id, allowed_tree.spec_name(), *new_tree_id, *parent_tree_id,
                base_tree_id));
        }
        let parent_base = match self.get_base_tree_id(parent_tree_id) {
            Ok(b) => b,
            Err(_) => {
                return Err(CellagentError::Chain { func_name: "stack_tree", comment: "" });
            },
        };
        let k = match find(&self.traphs, &parent_base.get_uuid()) {
            Some(k) => k,
            None => {
                return Err(CellagentError::Chain { func_name: "stack_tree", comment: "" });
            },
        };
        proof {
            lemma_lookup_at(self.traphs@, k as int);
        }
        if self.traphs[k].1.has_tree(new_tree_id) {
            return Ok(None);
        }
        let parent_entry = match self.get_tree_entry(parent_tree_id) {
            Ok(e) => e,
            Err(_) => {
                return Err(CellagentError::Chain { func_name: "stack_tree", comment: "" });
            },
        };
        let mut entry = parent_entry;
        entry.set_mask(Mask::empty());
        entry.set_uuid(&new_tree_id.get_uuid());
        let params = match Self::params_for(&self.traphs[k].1, gvm_eqn) {
            Ok(p) => p,
            Err(_) => {
                return Err(CellagentError::Chain { func_name: "stack_tree", comment: "" });
            },
        };
        let ghost t = self.traphs@[k as int].1;
        let ghost vars = gvm_eqn.spec_variables();
        let rx = gvm_eqn.eval_xtnd(params.as_slice());
        proof {
            lemma_eval_params(t, vars, params@, gvm_eqn.spec_xtnd(), rx);
        }
        let gvm_xtnd = match rx {
            Ok(b) => b,
            Err(_) => {
                return Err(CellagentError::Chain { func_name: "stack_tree", comment: "gvm_xtnd" });
            },
        };
        let rs = gvm_eqn.eval_send(params.as_slice());
        proof {
            lemma_eval_params(t, vars, params@, gvm_eqn.spec_send(), rs);
        }
        let gvm_send = match rs {
            Ok(b) => b,
            Err(_) => {
                return Err(CellagentError::Chain { func_name: "stack_tree", comment: "gvm_send" });
            },
        };
        if !gvm_xtnd {
            entry.clear_children();
        }
        if gvm_send {
            entry.enable_send();
        } else {
            entry.disable_send();
        }
        let rr = gvm_eqn.eval_recv(params.as_slice());
        proof {
            lemma_eval_params(t, vars, params@, gvm_eqn.spec_recv(), rr);
        }
        let gvm_recv = match rr {
            Ok(b) => b,
            Err(_) => {
                return Err(CellagentError::Chain { func_name: "stack_tree", comment: "" });
            },
        };
        let mask = if gvm_recv {
            entry.get_mask().or(Mask::port0())
        } else {
            entry.get_mask().and(Mask::all_but_zero(self.no_ports))
        };
        entry.set_mask(mask);
        proof {
            assert(0u16 & 1u16 == 0u16) by (bit_vector);
            assert(0u16 | 1u16 == 1u16) by (bit_vector);
            assert(forall|x: u16| 0u16 & x == 0u16) by (bit_vector);
        }
        let tree = Tree::new(new_tree_id, &base_tree_id, parent_tree_id, gvm_eqn, entry);
        let ghost tr = tree;
        let ghost mid = self.traphs@;
        let (u, mut traph) = self.traphs.remove(k);
        traph.stack_tree(tree);
        proof {
            lemma_lookup_update(mid, k as int, u, traph);
            lemma_remove_insert(mid, k as int, (u, traph));
        }
        self.traphs.insert(k, (u, traph));
        proof {
            assert(self.traphs@ == mid.update(k as int, (u, traph)));
            assert forall|i: int| 0 <= i < self.spec_traphs().len() implies {
                let (v, tt) = #[trigger] self.spec_traphs()[i];
                &&& tt.wf()
                &&& tt.spec_elements().len() == self.spec_no_ports().0
                &&& v == tt.spec_base_tree_id().spec_uuid()
            } by {
                if i != k {
                    assert(self.spec_traphs()[i] == mid[i]);
                }
            }
        }
        file(&mut self.tree_map, new_tree_id.get_uuid(), base_tree_id.get_uuid());
        file(&mut self.tree_id_map, new_tree_id.get_uuid(), new_tree_id.clone());
        out.push(CaToCm::Entry(entry));
        proof {
            assert(out@.skip(out0.len() as int) =~= seq![CaToCm::Entry(entry)]);
            assert(out@.take(out0.len() as int) =~= out0);
            assert(tree_stacked(t, traph, tr));
            assert(tree_stacked_in(s0, *self, t, parent_entry, *new_tree_id, *parent_tree_id, base_tree_id, *gvm_eqn,
                gvm_recv, gvm_send, Ok(Some(entry)), out@.skip(out0.len() as int)));
        }
        Ok(Some(entry))
    }
}

/// The trees whose saved stack-tree messages go out when a child joins a
/// traph: each stacked tree, followed by the trees stacked on it.
pub open spec fn forward_ids(stacked: Seq<(Uuid, Tree)>) -> Seq<TreeID>
    decreases stacked.len(),
{
    if stacked.len() == 0 {
        Seq::empty()
    } else {
        forward_ids(stacked.drop_last()) + seq![stacked.last().1.spec_port_tree_id()] + stacked.last().1.spec_stacked_tree_ids()
    }
}

/// The saved stack-tree messages of the trees, tree after tree.
pub open spec fn saved_stacks(a: CellAgent, ids: Seq<TreeID>) -> Seq<StackTreeMsg>
    decreases ids.len(),
{
    if ids.len() == 0 {
        Seq::empty()
    } else {
        saved_stacks(a, ids.drop_last()) + list_of(a.spec_saved_stack(), ids.last())
    }
}

/// Each message sent on the connected-ports tree through the mask's ports, in order.
pub open spec fn stacks_sent(sent: Seq<CaToCm>, a: CellAgent, msgs: Seq<StackTreeMsg>, mask: u16) -> bool {
    &&& sent.len() == msgs.len()
    &&& forall|i: int|
        0 <= i < sent.len() ==> (#[trigger] sent[i] matches CaToCm::Msg { tree_id: t, is_ait, is_blocking, mask: m, msg: CaMsg::StackTree(d) }
            && t == a.spec_connected_tree_id() && is_ait == msgs[i].spec_header().spec_ait() && is_blocking && m@ == mask
            && d.same(&msgs[i]))
}

/// Sending messages on the connected-ports tree works when the agent knows
/// that tree, or when there is nothing to send.
pub open spec fn can_send_all(a: CellAgent, n: nat) -> bool {
    lookup(a.spec_tree_map(), a.spec_connected_tree_id().spec_uuid()) is Some || n == 0
}

proof fn lemma_saved_stacks_push(a: CellAgent, ids: Seq<TreeID>, id: TreeID)
    ensures
        saved_stacks(a, ids.push(id)) == saved_stacks(a, ids) + list_of(a.spec_saved_stack(), id),
{
    assert(ids.push(id).drop_last() =~= ids);
}

impl CellAgent {
    /// Sends the stack-tree messages saved for the tree through the mask's
    /// ports on the connected-ports tree.
    fn forward_stack_tree(&self, tree_id: &TreeID, mask: Mask, out: &mut Vec<CaToCm>) -> (r: Result<(), CellagentError>)
        requires
            self.wf(),
        ensures
            can_send_all(*self, list_of(self.spec_saved_stack(), *tree_id).len()) ==> (r is Ok && final(out)@.len()
                >= old(out)@.len() && final(out)@.take(old(out)@.len() as int) == old(out)@ && stacks_sent(
                final(out)@.skip(old(out)@.len() as int),
                *self,
                list_of(self.spec_saved_stack(), *tree_id),
                mask@,
            )),
            !can_send_all(*self, list_of(self.spec_saved_stack(), *tree_id).len()) ==> (r matches Err(
                CellagentError::Tree { func_name, cell_id, tree_uuid },
            ) && func_name == "send_bytes" && final(out)@ == old(out)@),
    {
        let ghost out0 = out@;
        let saved = self.get_saved_stack_tree(tree_id);
        let ghost msgs = list_of(self.spec_saved_stack(), *tree_id);
        let connected = self.connected_tree_id.clone();
        let mut i: usize = 0;
        while i < saved.len()
            invariant
                self.wf(),
                out0 == old(out)@,
                connected == self.spec_connected_tree_id(),
                msgs == list_of(self.spec_saved_stack(), *tree_id),
                saved@.len() == msgs.len(),
                forall|j: int| 0 <= j < saved@.len() ==> (#[trigger] saved@[j]).same(&msgs[j]),
                i <= saved@.len(),
                i > 0 ==> lookup(self.spec_tree_map(), self.spec_connected_tree_id().spec_uuid()) is Some,
                out@.len() == out0.len() + i,
                out@.take(out0.len() as int) == out0,
                forall|j: int|
                    0 <= j < i ==> (#[trigger] out@[out0.len() + j] matches CaToCm::Msg {
                        tree_id: t,
                        is_ait,
                        is_blocking,
                        mask: m,
                        msg: CaMsg::StackTree(d),
                    } && t == self.spec_connected_tree_id() && is_ait == msgs[j].spec_header().spec_ait() && is_blocking
                        && m@ == mask@ && d.same(&msgs[j])),
            decreases saved@.len() - i,
        {
            let ghost before = out@;
            let m = saved[i].clone();
            match self.send_msg(&connected, CaMsg::StackTree(m), mask, out) {
                Ok(()) => {},
                Err(e) => {
                    proof {
                        assert(i == 0);
                        assert(out@ =~= out0);
                        assert(lookup(self.spec_tree_map(), self.spec_connected_tree_id().spec_uuid()) is None);
                        assert(msgs.len() > 0);
                    }
                    return Err(e);
                },
            }
            proof {
                assert forall|j: int|
                    0 <= j < i + 1 implies (#[trigger] out@[out0.len() + j] matches CaToCm::Msg {
                    tree_id: t,
                    is_ait,
                    is_blocking,
                    mask: mm,
                    msg: CaMsg::StackTree(d),
                } && t == self.spec_connected_tree_id() && is_ait == msgs[j].spec_header().spec_ait() && is_blocking
                    && mm@ == mask@ && d.same(&msgs[j])) by {
                    if j < i {
                        assert(out@[out0.len() + j] == before[out0.len() + j]);
                    }
                }
                assert(out@.take(out0.len() as int) =~= before.take(out0.len() as int));
            }
            i = i + 1;
        }
        proof {
            let sent = out@.skip(out0.len() as int);
            assert forall|j: int| 0 <= j < sent.len() implies (#[trigger] sent[j] matches CaToCm::Msg {
                tree_id: t,
                is_ait,
                is_blocking,
                mask: m,
                msg: CaMsg::StackTree(d),
            } && t == self.spec_connected_tree_id() && is_ait == msgs[j].spec_header().spec_ait() && is_blocking
                && m@ == mask@ && d.same(&msgs[j])) by {
                assert(sent[j] == out@[out0.len() + j]);
            }
        }
        Ok(())
    }

    /// Sends the saved stack-tree messages of every tree stacked on the
    /// tree's traph, and of the trees stacked on those, through the mask's
    /// ports, so that a new child learns them.
    fn forward_stacked_trees(&self, tree_id: &TreeID, mask: Mask, out: &mut Vec<CaToCm>) -> (r: Result<(), CellagentError>)
        requires
            self.wf(),
        ensures
            self.traph_for_tree(*tree_id) is None ==> (r matches Err(CellagentError::Chain { func_name, comment })
                && func_name == "forward_stacked_trees" && final(out)@ == old(out)@),
            self.traph_for_tree(*tree_id) matches Some(t) ==> forwarded_all(
                *self,
                saved_stacks(*self, forward_ids(t.spec_stacked())),
                mask@,
                r,
                old(out)@,
                final(out)@,
            ),
    {
        let ghost out0 = out@;
        let traph = match self.get_traph(tree_id) {
            Ok(t) => t,
            Err(_) => {
                return Err(CellagentError::Chain { func_name: "forward_stacked_trees", comment: "" });
            },
        };
        let trees = traph.get_stacked_trees();
        let ghost all = saved_stacks(*self, forward_ids(trees@));
        assert(self.traph_for_tree(*tree_id) == Some(*traph));
        proof {
            assert(trees@.take(0) =~= Seq::<(Uuid, Tree)>::empty());
            assert(out@.skip(out0.len() as int) =~= Seq::<CaToCm>::empty());
            assert(out@.take(out0.len() as int) =~= out0);
        }
        let mut i: usize = 0;
        while i < trees.len()
            invariant
                self.wf(),
                out0 == old(out)@,
                self.traph_for_tree(*tree_id) == Some(*traph),
                trees@ == traph.spec_stacked(),
                all == saved_stacks(*self, forward_ids(trees@)),
                i <= trees@.len(),
                forwarded_ok(*self, saved_stacks(*self, forward_ids(trees@.take(i as int))), mask@, out0, out@),
            decreases trees@.len() - i,
        {
            let tree = &trees[i].1;
            let ghost before_ids = forward_ids(trees@.take(i as int));
            proof {
                lemma_forward_ids_step(trees@, i as int);
                lemma_forward_ids_split(trees@, i as int);
            }
            let ghost out_a = out@;
            let ghost pt = tree.spec_port_tree_id();
            match self.forward_stack_tree(tree.get_port_tree_id(), mask, out) {
                Ok(()) => {},
                Err(e) => {
                    proof {
                        lemma_saved_stacks_append(*self, before_ids, seq![pt] + (tree.spec_stacked_tree_ids() + forward_ids(trees@.skip(i + 1))));
                        lemma_saved_stacks_append(*self, seq![pt], tree.spec_stacked_tree_ids() + forward_ids(trees@.skip(i + 1)));
                        lemma_saved_stacks_one(*self, pt);
                        assert(before_ids + (seq![pt] + (tree.spec_stacked_tree_ids() + forward_ids(trees@.skip(i + 1))))
                            =~= forward_ids(trees@));
                    }
                    return Err(e);
                },
            }
            proof {
                lemma_forwarded_step(*self, saved_stacks(*self, before_ids), list_of(self.spec_saved_stack(), pt), mask@, out0, out_a, out@);
                lemma_saved_stacks_push(*self, before_ids, pt);
            }
            let ids = tree.get_stacked_tree_ids();
            let mut j: usize = 0;
            proof {
                assert(ids@.take(0) =~= Seq::<TreeID>::empty());
                assert(before_ids.push(pt) + ids@.take(0) =~= before_ids.push(pt));
            }
            while j < ids.len()
                invariant
                    self.wf(),
                    out0 == old(out)@,
                    self.traph_for_tree(*tree_id) == Some(*traph),
                    trees@ == traph.spec_stacked(),
                    all == saved_stacks(*self, forward_ids(trees@)),
                    j <= ids@.len(),
                    ids@ == tree.spec_stacked_tree_ids(),
                    forward_ids(trees@) == before_ids + (seq![pt] + (ids@ + forward_ids(trees@.skip(i + 1)))),
                    forwarded_ok(*self, saved_stacks(*self, before_ids.push(pt) + ids@.take(j as int)), mask@, out0, out@),
                decreases ids@.len() - j,
            {
                let ghost out_b = out@;
                let ghost done = before_ids.push(pt) + ids@.take(j as int);
                match self.forward_stack_tree(&ids[j], mask, out) {
                    Ok(()) => {},
                    Err(e) => {
                        proof {
                            let rest = ids@.skip(j + 1) + forward_ids(trees@.skip(i + 1));
                            assert(done + (seq![ids@[j as int]] + rest) =~= forward_ids(trees@));
                            lemma_saved_stacks_append(*self, done, seq![ids@[j as int]] + rest);
                            lemma_saved_stacks_append(*self, seq![ids@[j as int]], rest);
                            lemma_saved_stacks_one(*self, ids@[j as int]);
                        }
                        return Err(e);
                    },
                }
                proof {
                    lemma_forwarded_step(*self, saved_stacks(*self, done), list_of(self.spec_saved_stack(), ids@[j as int]), mask@, out0, out_b, out@);
                    lemma_saved_stacks_push(*self, done, ids@[j as int]);
                    assert(done.push(ids@[j as int]) =~= before_ids.push(pt) + ids@.take(j + 1));
                }
                j = j + 1;
            }
            proof {
                assert(before_ids.push(pt) + ids@.take(ids@.len() as int) =~= forward_ids(trees@.take(i + 1)));
            }
            i = i + 1;
        }
        proof {
            assert(trees@.take(trees@.len() as int) =~= trees@);
        }
        Ok(())
    }
}

/// Sending the messages: all sent in order when that can work, and an
/// error with nothing sent when it cannot.
pub open spec fn forwarded_all(a: CellAgent, msgs: Seq<StackTreeMsg>, mask: u16, r: Result<(), CellagentError>, out0: Seq<CaToCm>, out1: Seq<CaToCm>) -> bool {
    &&& can_send_all(a, msgs.len()) ==> (r is Ok && forwarded_ok(a, msgs, mask, out0, out1))
    &&& !can_send_all(a, msgs.len()) ==> (r matches Err(CellagentError::Tree { func_name, cell_id, tree_uuid })
        && func_name == "send_bytes" && out1 == out0)
}

/// The messages sent after `out0`, or nothing at all where none can be sent.
pub open spec fn forwarded_ok(a: CellAgent, msgs: Seq<StackTreeMsg>, mask: u16, out0: Seq<CaToCm>, out1: Seq<CaToCm>) -> bool {
    &&& out1.len() >= out0.len()
    &&& out1.take(out0.len() as int) == out0
    &&& lookup(a.spec_tree_map(), a.spec_connected_tree_id().spec_uuid()) is Some ==> stacks_sent(out1.skip(out0.len() as int), a, msgs, mask)
    &&& lookup(a.spec_tree_map(), a.spec_connected_tree_id().spec_uuid()) is None ==> msgs.len() == 0 && out1 == out0
}

proof fn lemma_forwarded_step(
    a: CellAgent,
    m1: Seq<StackTreeMsg>,
    m2: Seq<StackTreeMsg>,
    mask: u16,
    out0: Seq<CaToCm>,
    out_a: Seq<CaToCm>,
    out_b: Seq<CaToCm>,
)
    requires
        forwarded_ok(a, m1, mask, out0, out_a),
        can_send_all(a, m2.len()) ==> (out_b.len() >= out_a.len() && out_b.take(out_a.len() as int) == out_a && stacks_sent(
            out_b.skip(out_a.len() as int),
            a,
            m2,
            mask,
        )),
        !can_send_all(a, m2.len()) ==> false,
    ensures
        forwarded_ok(a, m1 + m2, mask, out0, out_b),
{
    let s1 = out_a.skip(out0.len() as int);
    let s2 = out_b.skip(out_a.len() as int);
    assert(out_b.take(out0.len() as int) =~= out_a.take(out0.len() as int));
    assert(out_b.skip(out0.len() as int) =~= s1 + s2);
    if lookup(a.spec_tree_map(), a.spec_connected_tree_id().spec_uuid()) is Some {
        let m = m1 + m2;
        let s = s1 + s2;
        assert forall|i: int| 0 <= i < s.len() implies (#[trigger] s[i] matches CaToCm::Msg {
            tree_id: t,
            is_ait,
            is_blocking,
            mask: mm,
            msg: CaMsg::StackTree(d),
        } && t == a.spec_connected_tree_id() && is_ait == m[i].spec_header().spec_ait() && is_blocking && mm@ == mask
            && d.same(&m[i])) by {
            if i < s1.len() {
                assert(s[i] == s1[i]);
            } else {
                assert(s[i] == s2[i - s1.len()]);
            }
        }
    } else {
        assert(m2.len() == 0);
        assert(out_b =~= out_a);
        assert(m1 + m2 =~= m1);
    }
}

/// What was sent after a prefix, seen on its own.
proof fn lemma_forwarded_shift(
    a: CellAgent,
    msgs: Seq<StackTreeMsg>,
    mask: u16,
    r: Result<(), CellagentError>,
    out0: Seq<CaToCm>,
    out1: Seq<CaToCm>,
)
    requires
        forwarded_all(a, msgs, mask, r, out0, out1),
    ensures
        forwarded_all(a, msgs, mask, r, Seq::empty(), out1.skip(out0.len() as int)),
{
    let s = out1.skip(out0.len() as int);
    assert(s.take(0) =~= Seq::<CaToCm>::empty());
    assert(s.skip(0) =~= s);
    if out1 == out0 {
        assert(s =~= Seq::<CaToCm>::empty());
    }
}

proof fn lemma_forward_ids_step(trees: Seq<(Uuid, Tree)>, i: int)
    requires
        0 <= i < trees.len(),
    ensures
        forward_ids(trees.take(i + 1)) == forward_ids(trees.take(i)) + seq![trees[i].1.spec_port_tree_id()]
            + trees[i].1.spec_stacked_tree_ids(),
{
    assert(trees.take(i + 1).drop_last() =~= trees.take(i));
}

proof fn lemma_forward_ids_append(s1: Seq<(Uuid, Tree)>, s2: Seq<(Uuid, Tree)>)
    ensures
        forward_ids(s1 + s2) == forward_ids(s1) + forward_ids(s2),
    decreases s2.len(),
{
    if s2.len() == 0 {
        assert(s1 + s2 =~= s1);
        assert(forward_ids(s1) + forward_ids(s2) =~= forward_ids(s1));
    } else {
        lemma_forward_ids_append(s1, s2.drop_last());
        assert((s1 + s2).drop_last() =~= s1 + s2.drop_last());
        assert(forward_ids(s1 + s2) =~= forward_ids(s1) + forward_ids(s2));
    }
}

/// The trees from a position on: the tree there, then the rest.
proof fn lemma_forward_ids_split(trees: Seq<(Uuid, Tree)>, i: int)
    requires
        0 <= i < trees.len(),
    ensures
        forward_ids(trees) == forward_ids(trees.take(i)) + (seq![trees[i].1.spec_port_tree_id()] + (
        trees[i].1.spec_stacked_tree_ids() + forward_ids(trees.skip(i + 1)))),
{
    assert(trees =~= trees.take(i + 1) + trees.skip(i + 1));
    lemma_forward_ids_append(trees.take(i + 1), trees.skip(i + 1));
    lemma_forward_ids_step(trees, i);
    assert(forward_ids(trees) =~= forward_ids(trees.take(i)) + (seq![trees[i].1.spec_port_tree_id()] + (
    trees[i].1.spec_stacked_tree_ids() + forward_ids(trees.skip(i + 1)))));
}

proof fn lemma_saved_stacks_append(a: CellAgent, ids1: Seq<TreeID>, ids2: Seq<TreeID>)
    ensures
        saved_stacks(a, ids1 + ids2) == saved_stacks(a, ids1) + saved_stacks(a, ids2),
    decreases ids2.len(),
{
    if ids2.len() == 0 {
        assert(ids1 + ids2 =~= ids1);
        assert(saved_stacks(a, ids1) + saved_stacks(a, ids2) =~= saved_stacks(a, ids1));
    } else {
        lemma_saved_stacks_append(a, ids1, ids2.drop_last());
        assert((ids1 + ids2).drop_last() =~= ids1 + ids2.drop_last());
        assert(saved_stacks(a, ids1 + ids2) =~= saved_stacks(a, ids1) + saved_stacks(a, ids2));
    }
}

proof fn lemma_saved_stacks_one(a: CellAgent, id: TreeID)
    ensures
        saved_stacks(a, seq![id]) == list_of(a.spec_saved_stack(), id),
{
    assert(seq![id].drop_last() =~= Seq::<TreeID>::empty());
    assert(saved_stacks(a, Seq::<TreeID>::empty()) == Seq::<StackTreeMsg>::empty());
    assert(seq![id].last() == id);
    assert(Seq::<StackTreeMsg>::empty() + list_of(a.spec_saved_stack(), id) =~= list_of(a.spec_saved_stack(), id));
}

/// After the traph update for a new child: the saved stack-tree messages
/// of the trees on the traph sent to the child, then the port unblocked.
pub open spec fn child_welcomed(
    s1: CellAgent,
    tree_id: TreeID,
    port_no: PortNo,
    r: Result<(), CellagentError>,
    sent: Seq<CaToCm>,
) -> bool {
    match s1.traph_for_tree(tree_id) {
        None => sent.len() == 0 && (r matches Err(CellagentError::Chain { func_name, comment }) && func_name
            == "forward_stacked_trees"),
        Some(t) => exists|rf: Result<(), CellagentError>, k: int|
            {
                &&& 0 <= k <= sent.len()
                &&& #[trigger] forwarded_all(
                    s1,
                    saved_stacks(s1, forward_ids(t.spec_stacked())),
                    port_mask_value(port_no.0),
                    rf,
                    Seq::empty(),
                    sent.take(k),
                )
                &&& match rf {
                    Err(e) => r == Err::<(), CellagentError>(e) && k == sent.len(),
                    Ok(_) => r is Ok && sent.len() == k + 1 && sent[k] == CaToCm::Unblock,
                }
            },
    }
}

/// What `process_discover_d_msg` does.
pub open spec fn discover_d_processed(
    a: CellAgent,
    b: CellAgent,
    port_no: PortNo,
    msg: DiscoverDMsg,
    r: Result<(), CellagentError>,
    sent: Seq<CaToCm>,
) -> bool {
    let tree_id = msg.spec_payload().spec_tree_id();
    if port_no.0 > a.spec_no_ports().0 {
        b == a && sent.len() == 0 && (r matches Err(CellagentError::Chain { func_name, comment }) && func_name == "process_ca"
            && comment == "DiscoverDMsg")
    } else {
        exists|s1: CellAgent, r1: Result<RoutingTableEntry, CellagentError>, g: GvmEquation, kids: Seq<PortNumber>, k: int|
            {
                &&& 0 <= k <= sent.len()
                &&& fixed_eqn(g, bool_text(true), bool_text(true), bool_text(false), bool_text(false))
                &&& #[trigger] traph_updated_in(
                    a,
                    s1,
                    tree_id,
                    PortNumber { port_no },
                    PortStatus::Child,
                    g,
                    seq![PortNumber { port_no }],
                    kids,
                    no_hops(),
                    Path::spec_new0(),
                    r1,
                    sent.take(k),
                )
                &&& b == s1
                &&& match r1 {
                    Err(e) => r == Err::<(), CellagentError>(e) && k == sent.len(),
                    Ok(_) => child_welcomed(s1, tree_id, port_no, r, sent.skip(k)),
                }
            }
    }
}

/// A neighbour that answers a discover message joins the tree as a child:
/// when the cell handles the answer successfully, the first thing it sends
/// is the tree's entry, in use, selecting the answering port; the last is
/// the port's unblock.
pub proof fn law_discover_d_adds_child(
    a: CellAgent,
    b: CellAgent,
    port_no: PortNo,
    msg: DiscoverDMsg,
    r: Result<(), CellagentError>,
    sent: Seq<CaToCm>,
)
    requires
        discover_d_processed(a, b, port_no, msg, r, sent),
        r is Ok,
    ensures
        sent.len() >= 2,
        sent[0] matches CaToCm::Entry(e) && e.spec_uuid() == msg.spec_payload().spec_tree_id().spec_uuid() && e.spec_inuse()
            && port_bit(e.spec_mask(), (port_no.0 % 16) as u16),
        sent.last() == CaToCm::Unblock,
{
    let tree_id = msg.spec_payload().spec_tree_id();
    let (s1, r1, g, kids, k) = choose|s1: CellAgent, r1: Result<RoutingTableEntry, CellagentError>, g: GvmEquation, kids: Seq<PortNumber>, k: int|
        {
            &&& 0 <= k <= sent.len()
            &&& fixed_eqn(g, bool_text(true), bool_text(true), bool_text(false), bool_text(false))
            &&& #[trigger] traph_updated_in(
                a,
                s1,
                tree_id,
                PortNumber { port_no },
                PortStatus::Child,
                g,
                seq![PortNumber { port_no }],
                kids,
                no_hops(),
                Path::spec_new0(),
                r1,
                sent.take(k),
            )
            &&& b == s1
            &&& match r1 {
                Err(e) => r == Err::<(), CellagentError>(e) && k == sent.len(),
                Ok(_) => child_welcomed(s1, tree_id, port_no, r, sent.skip(k)),
            }
        };
    assert(r1 is Ok);
    let u = tree_id.spec_uuid();
    let t0 = choose|t0: Traph|
        {
            &&& #[trigger] traph_start(a.traph_of(u), t0, a.spec_cell_id(), a.spec_no_ports(), tree_id)
            &&& s1.traph_of(u) is Some
            &&& traph_update(t0, s1.traph_of(u)->0, tree_id, PortNumber { port_no }, PortStatus::Child, g,
                seq![PortNumber { port_no }], kids, no_hops(), Path::spec_new0(), r1, sent.take(k))
        };
    law_traph_update_entry(t0, s1.traph_of(u)->0, tree_id, PortNumber { port_no }, PortStatus::Child, g,
        seq![PortNumber { port_no }], kids, no_hops(), Path::spec_new0(), r1, sent.take(k));
    assert(seq![PortNumber { port_no }][0] == PortNumber { port_no });
    assert(sent[0] == sent.take(k)[0]);
    let t = s1.traph_for_tree(tree_id)->0;
    let rest = sent.skip(k);
    assert(s1.traph_for_tree(tree_id) is Some);
    let (rf, j) = choose|rf: Result<(), CellagentError>, j: int|
        {
            &&& 0 <= j <= rest.len()
            &&& #[trigger] forwarded_all(
                s1,
                saved_stacks(s1, forward_ids(t.spec_stacked())),
                port_mask_value(port_no.0),
                rf,
                Seq::empty(),
                rest.take(j),
            )
            &&& match rf {
                Err(e) => r == Err::<(), CellagentError>(e) && j == rest.len(),
                Ok(_) => r is Ok && rest.len() == j + 1 && rest[j] == CaToCm::Unblock,
            }
        };
    assert(sent.last() == rest[j]);
}

impl CellAgent {
    /// A neighbour joined a tree through the port: the port becomes a
    /// child of the tree, the neighbour gets the stack-tree messages of the
    /// trees built on it, and the port is unblocked.
    pub fn process_discover_d_msg(&mut self, msg: &DiscoverDMsg, port_no: PortNo, out: &mut Vec<CaToCm>) -> (r: Result<
        (),
        CellagentError,
    >)
        requires
            old(self).wf(),
            port_no.0 != old(self).spec_no_ports().0,
        ensures
            final(self).wf(),
            final(out)@.len() >= old(out)@.len(),
            final(out)@.take(old(out)@.len() as int) == old(out)@,
            discover_d_processed(*old(self), *final(self), port_no, *msg, r, final(out)@.skip(old(out)@.len() as int)),
    {
        let ghost out0 = out@;
        proof {
            assert(out@.skip(out0.len() as int) =~= Seq::<CaToCm>::empty());
            assert(out@.take(out0.len() as int) =~= out0);
            reveal_strlit("true");
            reveal_strlit("false");
            assert("true"@ =~= seq!['t', 'r', 'u', 'e']);
            assert("false"@ =~= seq!['f', 'a', 'l', 's', 'e']);
        }
        let tree_id = msg.get_payload().get_tree_id();
        let port_number = match port_no.make_port_number(self.no_ports) {
            Ok(p) => p,
            Err(_) => {
                return Err(CellagentError::Chain { func_name: "process_ca", comment: "DiscoverDMsg" });
            },
        };
        let mut children: Vec<PortNumber> = Vec::new();
        children.push(port_number);
        proof {
            assert(children@ =~= seq![PortNumber { port_no }]);
        }
        let gvm_eqn = equation_of("true", "true", "false", "false");
        let r1 = self.update_traph(tree_id, port_number, PortStatus::Child, &gvm_eqn, &mut children, PathLength(CellQty(0)),
            Path::new0(), out);
        let ghost s1 = *self;
        let ghost k = out@.len() - out0.len();
        let ghost out1 = out@;
        proof {
            assert(traph_updated_in(*old(self), s1, *tree_id, PortNumber { port_no }, PortStatus::Child, gvm_eqn,
                seq![PortNumber { port_no }], children@, no_hops(), Path::spec_new0(), r1, out@.skip(out0.len() as int)));
            assert(out@.skip(out0.len() as int).take(k) =~= out@.skip(out0.len() as int));
        }
        match r1 {
            Ok(_) => {},
            Err(e) => {
                return Err(e);
            },
        }
        let mask = Mask::new(port_number);
        let rf = self.forward_stacked_trees(tree_id, mask, out);
        let ghost out2 = out@;
        proof {
            let sent = out@.skip(out0.len() as int);
            assert(sent.take(k) =~= out1.skip(out0.len() as int));
            match s1.traph_for_tree(*tree_id) {
                None => {
                    assert(sent.skip(k) =~= Seq::<CaToCm>::empty());
                },
                Some(t) => {
                    let msgs = saved_stacks(s1, forward_ids(t.spec_stacked()));
                    assert(out2.skip(out1.len() as int) =~= sent.skip(k));
                    lemma_forwarded_shift(s1, msgs, mask@, rf, out1, out2);
                    assert(sent.skip(k).take(sent.skip(k).len() as int) =~= sent.skip(k));
                    assert(forwarded_all(s1, msgs, mask@, rf, Seq::empty(), sent.skip(k).take(sent.skip(k).len() as int)));
                },
            }
        }
        match rf {
            Ok(()) => {},
            Err(e) => {
                proof {
                    let sent = out@.skip(out0.len() as int);
                    assert(child_welcomed(s1, *tree_id, port_no, Err(e), sent.skip(k)));
                }
                return Err(e);
            },
        }
        out.push(CaToCm::Unblock);
        proof {
            let sent = out@.skip(out0.len() as int);
            assert(sent.take(k) =~= out1.skip(out0.len() as int));
            let t = s1.traph_for_tree(*tree_id)->0;
            let msgs = saved_stacks(s1, forward_ids(t.spec_stacked()));
            let kk = out2.len() - out1.len();
            assert(sent.skip(k).take(kk) =~= out2.skip(out1.len() as int));
            lemma_forwarded_shift(s1, msgs, mask@, Ok(()), out1, out2);
            assert(forwarded_all(s1, msgs, port_mask_value(port_no.0), Ok(()), Seq::empty(), sent.skip(k).take(kk)));
            assert(child_welcomed(s1, *tree_id, port_no, Ok(()), sent.skip(k)));
            assert(out@.take(out0.len() as int) =~= out0);
        }
        Ok(())
    }
}

/// The saved messages one by one: each entry's application message, then
/// its manifest message.
pub open spec fn saved_flat(list: Seq<SavedMsg>) -> Seq<SavedMsg>
    decreases list.len(),
{
    if list.len() == 0 {
        Seq::empty()
    } else {
        let m = list.last();
        saved_flat(list.drop_last()) + (match m.0 {
            Some(x) => seq![(Some(x), None::<ManifestMsg>)],
            None => Seq::empty(),
        }) + (match m.1 {
            Some(y) => seq![(None::<ApplicationMsg>, Some(y))],
            None => Seq::empty(),
        })
    }
}

/// The sent message is the saved one, on the tree through the mask's ports.
pub open spec fn saved_one_sent(x: CaToCm, tree_id: TreeID, m: SavedMsg, mask: u16) -> bool {
    match m.0 {
        Some(app) => x matches CaToCm::Msg { tree_id: t, is_ait, is_blocking, mask: mm, msg: CaMsg::Application(d) } && t
            == tree_id && is_ait == app.spec_header().spec_ait() && !is_blocking && mm@ == mask && d.same(&app),
        None => match m.1 {
            Some(man) => x matches CaToCm::Msg { tree_id: t, is_ait, is_blocking, mask: mm, msg: CaMsg::Manifest(d) } && t
                == tree_id && is_ait == man.spec_header().spec_ait() && !is_blocking && mm@ == mask && d.same(&man),
            None => false,
        },
    }
}

/// The saved messages of the tree sent again on it, in order, when that
/// can work, or an error with nothing sent when it cannot.
pub open spec fn saved_forwarded(a: CellAgent, tree_id: TreeID, mask: u16, r: Result<(), CellagentError>, sent: Seq<CaToCm>) -> bool {
    let flat = saved_flat(list_of(a.spec_saved_msgs(), tree_id));
    if lookup(a.spec_tree_map(), tree_id.spec_uuid()) is Some || flat.len() == 0 {
        &&& r is Ok
        &&& sent.len() == flat.len()
        &&& forall|i: int| 0 <= i < sent.len() ==> #[trigger] saved_one_sent(sent[i], tree_id, flat[i], mask)
    } else {
        sent.len() == 0 && (r matches Err(CellagentError::Tree { func_name, cell_id, tree_uuid }) && func_name == "send_bytes")
    }
}

proof fn lemma_saved_flat_step(list: Seq<SavedMsg>, i: int)
    requires
        0 <= i < list.len(),
    ensures
        saved_flat(list.take(i + 1)) == saved_flat(list.take(i)) + (match list[i].0 {
            Some(x) => seq![(Some(x), None::<ManifestMsg>)],
            None => Seq::empty(),
        }) + (match list[i].1 {
            Some(y) => seq![(None::<ApplicationMsg>, Some(y))],
            None => Seq::empty(),
        }),
{
    assert(list.take(i + 1).drop_last() =~= list.take(i));
}

impl CellAgent {
    /// Sends the application and manifest messages saved for the tree on
    /// it again, through the mask's ports, so that a new child gets them.
    #[verifier::spinoff_prover]
    #[verifier::rlimit(30)]
    fn forward_saved(&self, tree_id: &TreeID, mask: Mask, out: &mut Vec<CaToCm>) -> (r: Result<(), CellagentError>)
        requires
            self.wf(),
        ensures
            final(out)@.len() >= old(out)@.len(),
            final(out)@.take(old(out)@.len() as int) == old(out)@,
            saved_forwarded(*self, *tree_id, mask@, r, final(out)@.skip(old(out)@.len() as int)),
    {
        let ghost out0 = out@;
        let saved_msgs = self.get_saved_msgs(tree_id);
        let ghost list = list_of(self.spec_saved_msgs(), *tree_id);
        let ghost can = lookup(self.spec_tree_map(), tree_id.spec_uuid()) is Some;
        proof {
            assert(list.take(0) =~= Seq::<SavedMsg>::empty());
            assert(out@.skip(out0.len() as int) =~= Seq::<CaToCm>::empty());
            assert(out@.take(out0.len() as int) =~= out0);
        }
        let mut i: usize = 0;
        while i < saved_msgs.len()
            invariant
                self.wf(),
                out0 == old(out)@,
                list == list_of(self.spec_saved_msgs(), *tree_id),
                can == (lookup(self.spec_tree_map(), tree_id.spec_uuid()) is Some),
                saved_msgs@.len() == list.len(),
                forall|j: int| 0 <= j < list.len() ==> same_saved(#[trigger] saved_msgs@[j], list[j]),
                i <= list.len(),
                out@.len() >= out0.len(),
                out@.take(out0.len() as int) == out0,
                !can ==> saved_flat(list.take(i as int)).len() == 0 && out@ == out0,
                can ==> out@.len() - out0.len() == saved_flat(list.take(i as int)).len() && forall|j: int|
                    0 <= j < out@.len() - out0.len() ==> #[trigger] saved_one_sent(
                        out@[out0.len() + j],
                        *tree_id,
                        saved_flat(list.take(i as int))[j],
                        mask@,
                    ),
            decreases list.len() - i,
        {
            proof {
                lemma_saved_flat_step(list, i as int);
            }
            let ghost out_a = out@;
            let ghost flat_a = saved_flat(list.take(i as int));
            match &saved_msgs[i].0 {
                Some(msg) => {
                    match self.send_msg(tree_id, CaMsg::Application(msg.clone()), mask, out) {
                        Ok(()) => {},
                        Err(e) => {
                            proof {
                                lemma_saved_flat_suffix(list, i as int);
                            }
                            return Err(e);
                        },
                    }
                },
                None => {},
            }
            let ghost out_b = out@;
            match &saved_msgs[i].1 {
                Some(msg) => {
                    match self.send_msg(tree_id, CaMsg::Manifest(msg.clone()), mask, out) {
                        Ok(()) => {},
                        Err(e) => {
                            proof {
                                lemma_saved_flat_suffix(list, i as int);
                            }
                            return Err(e);
                        },
                    }
                },
                None => {},
            }
            proof {
                let flat_b = saved_flat(list.take(i + 1));
                if can {
                    assert forall|j: int| 0 <= j < out@.len() - out0.len() implies #[trigger] saved_one_sent(
                        out@[out0.len() + j],
                        *tree_id,
                        flat_b[j],
                        mask@,
                    ) by {
                        if j < flat_a.len() {
                            assert(out@[out0.len() + j] == out_a[out0.len() + j]);
                            assert(flat_b[j] == flat_a[j]);
                        }
                    }
                }
                assert(out@.take(out0.len() as int) =~= out0) by {
                    assert(out@.take(out0.len() as int) =~= out_a.take(out0.len() as int));
                }
            }
            i = i + 1;
        }
        proof {
            assert(list.take(list.len() as int) =~= list);
            let sent = out@.skip(out0.len() as int);
            if can {
                assert forall|j: int| 0 <= j < sent.len() implies #[trigger] saved_one_sent(
                    sent[j],
                    *tree_id,
                    saved_flat(list)[j],
                    mask@,
                ) by {
                    assert(sent[j] == out@[out0.len() + j]);
                }
            } else {
                assert(sent =~= Seq::<CaToCm>::empty());
            }
        }
        Ok(())
    }
}

/// The whole list's messages include those from a position on.
proof fn lemma_saved_flat_suffix(list: Seq<SavedMsg>, i: int)
    requires
        0 <= i < list.len(),
    ensures
        saved_flat(list).len() >= saved_flat(list.take(i + 1)).len(),
    decreases list.len() - i,
{
    if i + 1 < list.len() {
        lemma_saved_flat_suffix(list, i + 1);
        lemma_saved_flat_step(list, i + 1);
    } else {
        assert(list.take(i + 1) =~= list);
    }
}

/// The error `get_traph` reports for a tree without a traph.
pub open spec fn traph_missing(a: CellAgent, tree_id: TreeID, r: Result<(), CellagentError>) -> bool {
    match a.base_tree_of(tree_id) {
        None => r matches Err(CellagentError::Chain { func_name, comment }) && func_name == "get_traph",
        Some(bt) => r matches Err(CellagentError::NoTraph { cell_id, func_name, tree_uuid }) && func_name == "stack_tree"
            && tree_uuid == bt.spec_uuid(),
    }
}

/// After the entry update: the saved messages of the tree sent to the new
/// child, then the port unblocked.
pub open spec fn saved_then_unblock(a: CellAgent, tree_id: TreeID, mask: u16, r: Result<(), CellagentError>, sent: Seq<CaToCm>) -> bool {
    exists|rf: Result<(), CellagentError>, k: int|
        {
            &&& 0 <= k <= sent.len()
            &&& #[trigger] saved_forwarded(a, tree_id, mask, rf, sent.take(k))
            &&& match rf {
                Err(e) => r == Err::<(), CellagentError>(e) && k == sent.len(),
                Ok(_) => r is Ok && sent.len() == k + 1 && sent[k] == CaToCm::Unblock,
            }
        }
}

/// What `process_stack_tree_d_msg` does: the child's port joins the tree's
/// entry, kept in the traph and sent; the saved messages go to the child.
pub open spec fn stack_tree_d_processed(
    a: CellAgent,
    b: CellAgent,
    port_no: PortNo,
    tree_id: TreeID,
    r: Result<(), CellagentError>,
    sent: Seq<CaToCm>,
) -> bool {
    let mask = port_mask_value(port_no.0);
    if port_no.0 > a.spec_no_ports().0 {
        b == a && sent.len() == 0 && r matches Err(CellagentError::Utility(_))
    } else {
        match a.traph_for_tree(tree_id) {
            None => b == a && sent.len() == 0 && traph_missing(a, tree_id, r),
            Some(t) => match tree_entry_in(t, tree_id.spec_uuid()) {
                None => b == a && sent.len() == 0 && (r matches Err(CellagentError::Traph(TraphError::Chain { func_name, comment }))
                    && func_name == "get_tree_entry"),
                Some(e) => {
                    let tu = a.base_tree_of(tree_id)->0.spec_uuid();
                    &&& b.wf()
                    &&& b@ == (CaView { traphs: b@.traphs, ..a@ })
                    &&& sent.len() >= 1
                    &&& sent[0] matches CaToCm::Entry(e2) && e.with_mask(e2, e.spec_mask() | mask) && (b.traph_of(tu) matches Some(t2)
                        && entry_set(t, t2, tree_id.spec_uuid(), e2, Ok(())))
                    &&& forall|v: Uuid| v != tu ==> #[trigger] b.traph_of(v) == a.traph_of(v)
                    &&& saved_then_unblock(b, tree_id, mask, r, sent.skip(1))
                },
            },
        }
    }
}

/// A child that answers a stack-tree message joins the stacked tree: when
/// the cell handles the answer successfully, it first sends the tree's entry
/// as it was, with the answering port added to its children and nothing else
/// changed, and it ends by unblocking the port.
pub proof fn law_stack_tree_d_adds_child(
    a: CellAgent,
    b: CellAgent,
    port_no: PortNo,
    tree_id: TreeID,
    r: Result<(), CellagentError>,
    sent: Seq<CaToCm>,
)
    requires
        stack_tree_d_processed(a, b, port_no, tree_id, r, sent),
        r is Ok,
    ensures
        sent.len() >= 2,
        a.traph_for_tree(tree_id) matches Some(t) && tree_entry_in(t, tree_id.spec_uuid()) matches Some(e) && sent[0] matches CaToCm::Entry(
            e2,
        ) && e2.spec_uuid() == e.spec_uuid() && e2.spec_parent() == e.spec_parent() && e2.spec_inuse() == e.spec_inuse()
            && e2.spec_may_send() == e.spec_may_send() && forall|q: u16|
            q < 16 ==> (#[trigger] port_bit(e2.spec_mask(), q) <==> (port_bit(e.spec_mask(), q) || q == (port_no.0 % 16) as u16)),
        sent.last() == CaToCm::Unblock,
{
    let mask = port_mask_value(port_no.0);
    let t = a.traph_for_tree(tree_id)->0;
    let e = tree_entry_in(t, tree_id.spec_uuid())->0;
    let rest = sent.skip(1);
    let (rf, k) = choose|rf: Result<(), CellagentError>, k: int|
        {
            &&& 0 <= k <= rest.len()
            &&& #[trigger] saved_forwarded(b, tree_id, mask, rf, rest.take(k))
            &&& match rf {
                Err(e) => r == Err::<(), CellagentError>(e) && k == rest.len(),
                Ok(_) => r is Ok && rest.len() == k + 1 && rest[k] == CaToCm::Unblock,
            }
        };
    assert(sent.last() == rest[k]);
    assert forall|q: u16| q < 16 implies (port_bit(e.spec_mask() | mask, q) <==> (port_bit(e.spec_mask(), q) || q == (port_no.0
        % 16) as u16)) by {
        lemma_mask_set_algebra(e.spec_mask(), mask, q);
        lemma_port_mask_bit(port_no.0, q);
    }
}

impl CellAgent {
    /// A neighbour stacked a tree: its port joins the tree's entry, and the
    /// messages saved for the tree go to it.
    pub fn process_stack_tree_d_msg(&mut self, msg: &StackTreeDMsg, port_no: PortNo, out: &mut Vec<CaToCm>) -> (r: Result<
        (),
        CellagentError,
    >)
        requires
            old(self).wf(),
        ensures
            final(self).wf(),
            final(out)@.len() >= old(out)@.len(),
            final(out)@.take(old(out)@.len() as int) == old(out)@,
            stack_tree_d_processed(*old(self), *final(self), port_no, msg.spec_payload().spec_tree_id(), r, final(out)@.skip(
                old(out)@.len() as int,
            )),
    {
        let ghost out0 = out@;
        proof {
            assert(out@.skip(out0.len() as int) =~= Seq::<CaToCm>::empty());
            assert(out@.take(out0.len() as int) =~= out0);
        }
        let port_number = match port_no.make_port_number(self.no_ports) {
            Ok(p) => p,
            Err(e) => {
                return Err(CellagentError::Utility(e));
            },
        };
        let tree_id = msg.get_payload().get_tree_id();
        let tree_uuid = tree_id.get_uuid();
        match self.get_traph(tree_id) {
            Ok(_) => {},
            Err(e) => {
                return Err(e);
            },
        }
        let mut entry = match self.get_tree_entry(tree_id) {
            Ok(e) => e,
            Err(e) => {
                return Err(e);
            },
        };
        let ghost e0 = entry;
        let user_mask = Mask::new(port_number);
        let mask = entry.get_mask().or(user_mask);
        entry.set_mask(mask);
        let base = match self.get_base_tree_id(tree_id) {
            Ok(b) => b,
            Err(_) => {
                return Err(CellagentError::Chain { func_name: "process_stack_tree_d_msg", comment: "" });
            },
        };
        let k = match find(&self.traphs, &base.get_uuid()) {
            Some(k) => k,
            None => {
                return Err(CellagentError::Chain { func_name: "process_stack_tree_d_msg", comment: "" });
            },
        };
        proof {
            lemma_lookup_at(self.traphs@, k as int);
        }
        let ghost mid = self.traphs@;
        let ghost t = mid[k as int].1;
        let (u, mut traph) = self.traphs.remove(k);
        let rs = traph.set_tree_entry(&tree_uuid, entry);
        proof {
            lemma_has_stacked(t, tree_uuid);
            lemma_lookup_update(mid, k as int, u, traph);
            lemma_remove_insert(mid, k as int, (u, traph));
        }
        self.traphs.insert(k, (u, traph));
        proof {
            assert(self.traphs@ == mid.update(k as int, (u, traph)));
            assert forall|i: int| 0 <= i < self.spec_traphs().len() implies {
                let (v, tt) = #[trigger] self.spec_traphs()[i];
                &&& tt.wf()
                &&& tt.spec_elements().len() == self.spec_no_ports().0
                &&& v == tt.spec_base_tree_id().spec_uuid()
            } by {
                if i != k {
                    assert(self.spec_traphs()[i] == mid[i]);
                }
            }
            assert(rs is Ok);
        }
        out.push(CaToCm::Entry(entry));
        let ghost out1 = out@;
        proof {
            assert(out1.take(out0.len() as int) =~= out0);
            assert(out1.skip(out0.len() as int)[0] == CaToCm::Entry(entry));
        }
        let rf = self.forward_saved(tree_id, user_mask, out);
        let ghost out2 = out@;
        proof {
            assert(out2.take(out0.len() as int) =~= out1.take(out0.len() as int));
            assert(out2.skip(out0.len() as int)[0] == out1.skip(out0.len() as int)[0]);
        }
        match rf {
            Ok(()) => {},
            Err(e) => {
                proof {
                    let sent = out@.skip(out0.len() as int);
                    assert(sent.skip(1) =~= out2.skip(out1.len() as int));
                    assert(sent.skip(1).take(sent.skip(1).len() as int) =~= sent.skip(1));
                    assert(saved_then_unblock(*self, *tree_id, user_mask@, Err(e), sent.skip(1)));
                }
                return Err(e);
            },
        }
        out.push(CaToCm::Unblock);
        proof {
            let sent = out@.skip(out0.len() as int);
            let kk = out2.len() - out1.len();
            assert(sent.skip(1).take(kk) =~= out2.skip(out1.len() as int));
            assert(saved_then_unblock(*self, *tree_id, user_mask@, Ok(()), sent.skip(1)));
            assert(out@.take(out0.len() as int) =~= out2.take(out0.len() as int));
            assert(sent[0] == out2.skip(out0.len() as int)[0]);
        }
        Ok(())
    }

    /// A neighbour said hello: the cell records which cell and port are at
    /// the other end of the port's link.
    pub fn process_hello_msg(&mut self, msg: &HelloMsg, port_no: PortNo) -> (r: Result<(), CellagentError>)
        requires
            old(self).wf(),
        ensures
            final(self).wf(),
            r is Ok,
            final(self)@ == (CaView { neighbors: final(self)@.neighbors, ..old(self)@ }),
            forall|p: PortNo| #[trigger]
                lookup(final(self).spec_neighbors(), p) == if p == port_no {
                    Some((msg.spec_payload().spec_cell_id(), msg.spec_payload().spec_port_no()))
                } else {
                    lookup(old(self).spec_neighbors(), p)
                },
    {
        let payload = msg.get_payload();
        let neighbor_cell_id = payload.get_cell_id().clone();
        let neighbor_port_no = payload.get_port_no();
        file(&mut self.neighbors, port_no, (neighbor_cell_id, neighbor_port_no));
        Ok(())
    }
}

/// The stack-tree message passed on to the children of the parent tree.
pub open spec fn stack_tree_passed(x: CaToCm, a: CellAgent, msg: StackTreeMsg, mask: u16) -> bool {
    x matches CaToCm::Msg { tree_id: t, is_ait, is_blocking, mask: m, msg: CaMsg::StackTree(d) } && t == a.spec_connected_tree_id()
        && is_ait == msg.spec_header().spec_ait() && is_blocking && m@ == mask && d.same(&msg)
}

/// The answer to a stack-tree message, back through its port.
pub open spec fn stack_tree_d_sent(x: CaToCm, a: CellAgent, port_no: PortNo, sender_id: SenderID, tree_id: TreeID) -> bool {
    x matches CaToCm::Msg { tree_id: t, is_ait, is_blocking, mask, msg: CaMsg::StackTreeD(d) } && t
        == a.spec_connected_tree_id() && is_ait && is_blocking && mask@ == port_mask_value(port_no.0)
        && d.spec_header().spec_msg_type() == MsgType::StackTreeD && d.spec_header().spec_sender_id() == sender_id
        && d.spec_payload().spec_tree_id() == tree_id
}

/// The failure of a step of `process_stack_tree_msg`: nothing more happens.
pub open spec fn stopped_with(b: CellAgent, s: CellAgent, r: Result<(), CellagentError>, sent: Seq<CaToCm>) -> bool {
    b == s && r is Err && sent.len() == 0
}

/// The rest of `process_stack_tree_msg` once the tree is stacked with the
/// entry: the message passed on to the parent tree's children, the entry
/// sent, the answer sent back, the parent's base tree recorded again, and
/// the message saved where the parent tree saves for late joiners; then
/// the port unblocked.
pub open spec fn stacked_tree_spread(
    s1: CellAgent,
    b: CellAgent,
    port_no: PortNo,
    msg: StackTreeMsg,
    entry: RoutingTableEntry,
    r: Result<(), CellagentError>,
    sent: Seq<CaToCm>,
) -> bool {
    let p = msg.spec_payload();
    let parent = p.spec_parent_tree_id();
    let can = lookup(s1.spec_tree_map(), s1.spec_connected_tree_id().spec_uuid()) is Some;
    if port_no.0 > s1.spec_no_ports().0 {
        b == s1 && sent.len() == 0 && r matches Err(CellagentError::Utility(_))
    } else if s1.traph_for_tree(p.spec_new_tree_id()) is None {
        b == s1 && sent.len() == 0 && r is Err
    } else {
        match s1.traph_for_tree(parent) {
            None => b == s1 && sent.len() == 0 && r is Err,
            Some(t) => match tree_entry_in(t, parent.spec_uuid()) {
                None => b == s1 && sent.len() == 0 && r is Err,
                Some(pe) => if !can {
                    b == s1 && sent.len() == 0 && r is Err
                } else {
                    &&& sent.len() >= 3
                    &&& stack_tree_passed(sent[0], s1, msg, pe.spec_mask() & 254u16)
                    &&& sent[1] == CaToCm::Entry(entry)
                    &&& stack_tree_d_sent(sent[2], s1, port_no, msg.spec_header().spec_sender_id(), p.spec_new_tree_id())
                    &&& match s1.base_tree_of(parent) {
                        None => b == s1 && sent.len() == 3 && r is Err,
                        Some(bt) => exists|s2: CellAgent|
                            {
                                &&& #[trigger] base_tree_mapped(s1, s2, parent, bt)
                                &&& match s2.traph_of(bt.spec_uuid()) {
                                    None => b == s2 && sent.len() == 3 && r is Err,
                                    Some(t2) => {
                                        let vars = p.spec_gvm_eqn().spec_variables();
                                        let save = traph_eval(t2, vars, p.spec_gvm_eqn().spec_save());
                                        let xtnd = traph_eval(t2, vars, p.spec_gvm_eqn().spec_xtnd());
                                        if save is None || xtnd is None {
                                            b == s2 && sent.len() == 3 && r is Err
                                        } else {
                                            &&& r is Ok
                                            &&& sent.len() == 4
                                            &&& sent[3] == CaToCm::Unblock
                                            &&& (save->0 && xtnd->0) ==> (b@ == (CaView { saved_stack: b@.saved_stack, ..s2@ })
                                                && list_of(b.spec_saved_stack(), parent).drop_last() == list_of(s2.spec_saved_stack(), parent)
                                                && list_of(b.spec_saved_stack(), parent).len() == list_of(s2.spec_saved_stack(), parent).len() + 1
                                                && list_of(b.spec_saved_stack(), parent).last().same(&msg)
                                                && forall|tt: TreeID| tt.key_of() != parent.key_of() ==> #[trigger] list_of(b.spec_saved_stack(), tt)
                                                    == list_of(s2.spec_saved_stack(), tt))
                                            &&& !(save->0 && xtnd->0) ==> b == s2
                                        }
                                    },
                                }
                            },
                    }
                },
            },
        }
    }
}

/// What `process_stack_tree_msg` does: the tree stacked as `stack_tree`
/// says; for a newly stacked tree, the rest spread; the port unblocked.
pub open spec fn stack_tree_processed(
    a: CellAgent,
    b: CellAgent,
    port_no: PortNo,
    msg: StackTreeMsg,
    r: Result<(), CellagentError>,
    sent: Seq<CaToCm>,
) -> bool {
    let p = msg.spec_payload();
    exists|s0: CellAgent, s1: CellAgent, r1: Result<Option<RoutingTableEntry>, CellagentError>, k: int|
        {
            &&& 0 <= k <= sent.len()
            &&& #[trigger] stack_maps_updated(
                a,
                s0,
                msg.spec_header().spec_sender_id(),
                p.spec_allowed_tree().spec_name(),
                p.spec_new_tree_id(),
                p.spec_parent_tree_id(),
                stack_base(a, p.spec_parent_tree_id()),
            )
            &&& #[trigger] stacked_from(
                s0,
                s1,
                p.spec_new_tree_id(),
                p.spec_parent_tree_id(),
                stack_base(a, p.spec_parent_tree_id()),
                p.spec_gvm_eqn(),
                r1,
                sent.take(k),
            )
            &&& match r1 {
                Err(e) => b == s1 && r == Err::<(), CellagentError>(e) && k == sent.len(),
                Ok(None) => b == s1 && r is Ok && sent.len() == k + 1 && sent[k] == CaToCm::Unblock,
                Ok(Some(entry)) => stacked_tree_spread(s1, b, port_no, msg, entry, r, sent.skip(k)),
            }
        }
}

/// A traph a well-formed agent keeps is well formed.
proof fn lemma_kept_traph_wf(a: CellAgent, u: Uuid)
    requires
        a.wf(),
        a.traph_of(u) is Some,
    ensures
        a.traph_of(u)->0.wf(),
{
    let s = a.spec_traphs();
    let i = choose|i: int| 0 <= i < s.len() && (#[trigger] s[i].0.key_of()) == u;
    assert(a.traph_of(u) == Some(s[i].1));
    let (v, t) = s[i];
    assert(t.wf());
}

/// A cell that stacks a new tree on a parent tree from a stack-tree message
/// passes the message on to exactly the parent tree's children other than
/// the cell itself: the ports its entry for the parent tree selects, less
/// port 0 (for a new tree other than the parent).
pub proof fn law_stack_tree_passed_to_children(
    a: CellAgent,
    b: CellAgent,
    port_no: PortNo,
    msg: StackTreeMsg,
    r: Result<(), CellagentError>,
    sent: Seq<CaToCm>,
)
    requires
        a.wf(),
        stack_tree_processed(a, b, port_no, msg, r, sent),
        r is Ok,
        sent.len() != 1,
        msg.spec_payload().spec_new_tree_id().key_of() != msg.spec_payload().spec_parent_tree_id().key_of(),
        msg.spec_payload().spec_new_tree_id().spec_uuid() != msg.spec_payload().spec_parent_tree_id().spec_uuid(),
    ensures
        a.traph_for_tree(msg.spec_payload().spec_parent_tree_id()) matches Some(t) && tree_entry_in(
            t,
            msg.spec_payload().spec_parent_tree_id().spec_uuid(),
        ) matches Some(pe) && sent[1] matches CaToCm::Msg { msg: CaMsg::StackTree(d), mask, .. } && mask@ == pe.spec_mask()
            & 254u16,
{
    let p = msg.spec_payload();
    let parent = p.spec_parent_tree_id();
    let new_id = p.spec_new_tree_id();
    let base = stack_base(a, parent);
    let (s0, s1, r1, k) = choose|s0: CellAgent, s1: CellAgent, r1: Result<Option<RoutingTableEntry>, CellagentError>, k: int|
        {
            &&& 0 <= k <= sent.len()
            &&& #[trigger] stack_maps_updated(a, s0, msg.spec_header().spec_sender_id(), p.spec_allowed_tree().spec_name(), new_id,
                parent, base)
            &&& #[trigger] stacked_from(s0, s1, new_id, parent, base, p.spec_gvm_eqn(), r1, sent.take(k))
            &&& match r1 {
                Err(e) => b == s1 && r == Err::<(), CellagentError>(e) && k == sent.len(),
                Ok(None) => b == s1 && r is Ok && sent.len() == k + 1 && sent[k] == CaToCm::Unblock,
                Ok(Some(entry)) => stacked_tree_spread(s1, b, port_no, msg, entry, r, sent.skip(k)),
            }
        };
    assert(r1 matches Ok(Some(_)));
    let (sa, sb) = choose|sa: CellAgent, sb: CellAgent|
        {
            &&& a.base_tree_of(parent) is None ==> base_tree_mapped(a, sa, new_id, parent)
            &&& a.base_tree_of(parent) is Some ==> sa == a
            &&& #[trigger] tree_named_for(sa, sb, msg.spec_header().spec_sender_id(), p.spec_allowed_tree().spec_name(), new_id)
            &&& base_tree_mapped(sb, s0, new_id, base)
        };
    assert(sa.base_tree_of(parent) == a.base_tree_of(parent));
    assert(sb.base_tree_of(parent) == sa.base_tree_of(parent));
    assert(s0.base_tree_of(parent) == sb.base_tree_of(parent));
    assert(s0.spec_traphs() == a.spec_traphs());
    assert(s0.traph_for_tree(parent) == a.traph_for_tree(parent));
    let t = s0.traph_for_tree(parent)->0;
    let pe = tree_entry_in(t, parent.spec_uuid())->0;
    let tu = s0.base_tree_of(parent)->0.spec_uuid();
    lemma_kept_traph_wf(s0, tu);
    let (tree, t1) = choose|tree: Tree, t1: Traph|
        {
            &&& r1 matches Ok(Some(e)) && stacked_entry(pe, e, new_id, traph_eval(t, p.spec_gvm_eqn().spec_variables(),
                p.spec_gvm_eqn().spec_recv())->0, traph_eval(t, p.spec_gvm_eqn().spec_variables(), p.spec_gvm_eqn().spec_send())->0)
            &&& tree.spec_port_tree_id() == new_id
            &&& tree.spec_base_tree_id() == base
            &&& tree.spec_parent_tree_id() == parent
            &&& tree.spec_stacked_tree_ids().len() == 0
            &&& tree.spec_entry() == r1->Ok_0->Some_0
            &&& tree.spec_gvm_eqn().spec_recv() == p.spec_gvm_eqn().spec_recv()
            &&& tree.spec_gvm_eqn().spec_send() == p.spec_gvm_eqn().spec_send()
            &&& tree.spec_gvm_eqn().spec_xtnd() == p.spec_gvm_eqn().spec_xtnd()
            &&& tree.spec_gvm_eqn().spec_save() == p.spec_gvm_eqn().spec_save()
            &&& #[trigger] tree_stacked(t, t1, tree)
            &&& s1.wf()
            &&& s1@ == (CaView { traphs: s1@.traphs, tree_map: s1@.tree_map, tree_id_map: s1@.tree_id_map, ..s0@ })
            &&& forall|v: Uuid| #[trigger]
                s1.traph_of(v) == if v == tu {
                    Some(t1)
                } else {
                    s0.traph_of(v)
                }
            &&& forall|v: Uuid| #[trigger]
                lookup(s1.spec_tree_map(), v) == if v == new_id.spec_uuid() {
                    Some(base.spec_uuid())
                } else {
                    lookup(s0.spec_tree_map(), v)
                }
            &&& forall|v: Uuid| #[trigger]
                lookup(s1.spec_tree_id_map(), v) == if v == new_id.spec_uuid() {
                    Some(new_id)
                } else {
                    lookup(s0.spec_tree_id_map(), v)
                }
            &&& sent.take(k) == seq![CaToCm::Entry(r1->Ok_0->Some_0)]
        };
    law_stacked_tree_found(t, t1, tree);
    assert(s1.base_tree_of(parent) == s0.base_tree_of(parent));
    assert(s1.traph_for_tree(parent) == Some(t1));
    assert(tree_entry_in(t1, parent.spec_uuid()) == Some(pe));
    assert(sent.take(k).len() == k);
    assert(k == 1);
    assert(sent.skip(k)[0] == sent[1]);
}

/// A cell that handles a stack-tree message successfully ends by
/// unblocking the port. For a tree it had not stacked yet, it sends, in
/// order: the new tree's entry, the message passed on to the parent tree's
/// children (never to the cell itself), the entry again, the answer for the
/// new tree back through the arrival port alone, and the unblock.
pub proof fn law_stack_tree_answered(
    a: CellAgent,
    b: CellAgent,
    port_no: PortNo,
    msg: StackTreeMsg,
    r: Result<(), CellagentError>,
    sent: Seq<CaToCm>,
)
    requires
        stack_tree_processed(a, b, port_no, msg, r, sent),
        r is Ok,
    ensures
        sent.len() >= 1,
        sent.last() == CaToCm::Unblock,
        sent.len() != 1 ==> {
            &&& sent.len() == 5
            &&& sent[0] is Entry
            &&& sent[1] matches CaToCm::Msg { msg: CaMsg::StackTree(d), mask, .. } && d.same(&msg) && !port_bit(mask@, 0)
            &&& sent[2] == sent[0]
            &&& sent[3] matches CaToCm::Msg { msg: CaMsg::StackTreeD(d), mask, .. } && d.spec_payload().spec_tree_id()
                == msg.spec_payload().spec_new_tree_id() && forall|q: u16|
                q < 16 ==> (port_bit(mask@, q) <==> q == (port_no.0 % 16) as u16)
        },
{
    let p = msg.spec_payload();
    let (s0, s1, r1, k) = choose|s0: CellAgent, s1: CellAgent, r1: Result<Option<RoutingTableEntry>, CellagentError>, k: int|
        {
            &&& 0 <= k <= sent.len()
            &&& #[trigger] stack_maps_updated(
                a,
                s0,
                msg.spec_header().spec_sender_id(),
                p.spec_allowed_tree().spec_name(),
                p.spec_new_tree_id(),
                p.spec_parent_tree_id(),
                stack_base(a, p.spec_parent_tree_id()),
            )
            &&& #[trigger] stacked_from(
                s0,
                s1,
                p.spec_new_tree_id(),
                p.spec_parent_tree_id(),
                stack_base(a, p.spec_parent_tree_id()),
                p.spec_gvm_eqn(),
                r1,
                sent.take(k),
            )
            &&& match r1 {
                Err(e) => b == s1 && r == Err::<(), CellagentError>(e) && k == sent.len(),
                Ok(None) => b == s1 && r is Ok && sent.len() == k + 1 && sent[k] == CaToCm::Unblock,
                Ok(Some(entry)) => stacked_tree_spread(s1, b, port_no, msg, entry, r, sent.skip(k)),
            }
        };
    match r1 {
        Ok(None) => {
            assert(sent.take(k).len() == 0);
            assert(sent.last() == sent[k]);
        },
        Ok(Some(entry)) => {
            let rest = sent.skip(k);
            assert(sent.take(k) == seq![CaToCm::Entry(entry)]);
            assert(k == 1);
            assert(sent[0] == sent.take(k)[0]);
            assert(rest[0] == sent[1] && rest[1] == sent[2] && rest[2] == sent[3] && rest[3] == sent[4]);
            lemma_port_mask_bit(port_no.0, 0);
            assert forall|q: u16| q < 16 implies (port_bit(port_mask_value(port_no.0), q) <==> q == (port_no.0 % 16) as u16) by {
                lemma_port_mask_bit(port_no.0, q);
            }
            assert forall|y: u16| !#[trigger] port_bit(y & 254u16, 0) by {
                assert(!port_bit(y & 254u16, 0)) by (bit_vector);
            }
        },
        Err(_) => {},
    }
}

impl CellAgent {
    /// A parent stacked a tree: the cell stacks it too, passes the message
    /// on to its own children on the parent tree, answers, and saves the
    /// message where the parent tree saves messages for late joiners.
    pub fn process_stack_tree_msg(&mut self, msg: &StackTreeMsg, port_no: PortNo, _msg_tree_id: &TreeID, out: &mut Vec<CaToCm>) -> (r: Result<
        (),
        CellagentError,
    >)
        requires
            old(self).wf(),
            old(self).spec_no_ports().0 >= 1,
        ensures
            final(self).wf(),
            final(out)@.len() >= old(out)@.len(),
            final(out)@.take(old(out)@.len() as int) == old(out)@,
            stack_tree_processed(*old(self), *final(self), port_no, *msg, r, final(out)@.skip(old(out)@.len() as int)),
    {
        let ghost out0 = out@;
        let payload = msg.get_payload();
        let allowed_tree = payload.get_allowed_tree();
        let parent_tree_id = payload.get_parent_tree_id();
        let new_tree_id = payload.get_new_tree_id();
        let sender_id = msg.get_header().get_sender_id();
        let gvm_eqn = payload.get_gvm_eqn();
        let r1 = self.stack_tree(sender_id, allowed_tree, new_tree_id, parent_tree_id, gvm_eqn, out);
        let ghost s1 = *self;
        let ghost out1 = out@;
        let ghost k = out1.len() - out0.len();
        proof {
            assert(out@.skip(out0.len() as int).take(k) =~= out1.skip(out0.len() as int));
        }
        let entry = match r1 {
            Err(e) => {
                proof {
                    assert(out@.skip(out0.len() as int).take(k) =~= out@.skip(out0.len() as int));
                }
                return Err(e);
            },
            Ok(None) => {
                out.push(CaToCm::Unblock);
                proof {
                    let sent = out@.skip(out0.len() as int);
                    assert(sent.take(k) =~= out1.skip(out0.len() as int));
                    assert(sent[k] == CaToCm::Unblock);
                    assert(out@.take(out0.len() as int) =~= out0) by {
                        assert(out@.take(out0.len() as int) =~= out1.take(out0.len() as int));
                    }
                }
                return Ok(());
            },
            Ok(Some(e)) => e,
        };
        proof {
            assert(out@.skip(out0.len() as int).skip(k) =~= Seq::<CaToCm>::empty());
        }
        let port_number = match port_no.make_port_number(self.no_ports) {
            Ok(p) => p,
            Err(e) => {
                return Err(CellagentError::Utility(e));
            },
        };
        match self.get_traph(new_tree_id) {
            Ok(_) => {},
            Err(e) => {
                return Err(e);
            },
        }
        let parent_entry = match self.get_tree_entry(parent_tree_id) {
            Ok(e) => e,
            Err(e) => {
                return Err(e);
            },
        };
        assert(self.traph_for_tree(*parent_tree_id) is Some);
        let parent_mask = parent_entry.get_mask().and(default_user_mask());
        let connected = self.connected_tree_id.clone();
        match self.send_msg(&connected, CaMsg::StackTree(msg.clone()), parent_mask, out) {
            Ok(()) => {},
            Err(e) => {
                return Err(e);
            },
        }
        out.push(CaToCm::Entry(entry));
        let new_msg = StackTreeDMsg::new(sender_id, new_tree_id);
        match self.send_msg(&connected, CaMsg::StackTreeD(new_msg), Mask::new(port_number), out) {
            Ok(()) => {},
            Err(e) => {
                proof {
                    assert(false);
                }
                return Err(e);
            },
        }
        let ghost out2 = out@;
        proof {
            let sent = out@.skip(out0.len() as int).skip(k);
            assert(sent =~= out2.skip(out1.len() as int));
            assert(sent.len() == 3);
        }
        let base_tree_id = match self.get_base_tree_id(parent_tree_id) {
            Ok(b) => b,
            Err(_) => {
                proof {
                    assert(self.traph_for_tree(*parent_tree_id) is Some);
                }
                return Err(CellagentError::Chain { func_name: "process_stack_tree_msg", comment: "" });
            },
        };
        self.update_base_tree_map(parent_tree_id, &base_tree_id);
        let ghost s2 = *self;
        let save = match self.gvm_eval_save(parent_tree_id, gvm_eqn) {
            Ok(b) => b,
            Err(_) => {
                proof {
                    assert(base_tree_mapped(s1, s2, *parent_tree_id, base_tree_id));
                    assert(s2.base_tree_of(*parent_tree_id) == Some(base_tree_id));
                    assert(out@.skip(out0.len() as int).take(k) =~= out1.skip(out0.len() as int));
                    assert(out@.skip(out0.len() as int).skip(k) =~= out2.skip(out1.len() as int));
                    assert(out@.take(out0.len() as int) =~= out0) by {
                        assert(out@.take(out0.len() as int) =~= out1.take(out0.len() as int));
                    }
                }
                return Err(CellagentError::Chain { func_name: "process_stack_tree_msg", comment: "" });
            },
        };
        if save {
            self.add_saved_stack_tree(parent_tree_id, msg);
        }
        out.push(CaToCm::Unblock);
        proof {
            let sent = out@.skip(out0.len() as int);
            assert(sent.take(k) =~= out1.skip(out0.len() as int));
            assert(sent.skip(k) =~= out@.skip(out1.len() as int));
            assert(base_tree_mapped(s1, s2, *parent_tree_id, base_tree_id));
            assert(out@.take(out0.len() as int) =~= out0) by {
                assert(out@.take(out0.len() as int) =~= out1.take(out0.len() as int));
            }
        }
        Ok(())
    }
}

/// A copy of a tree map, entry by entry.
fn copy_tree_map(m: &Vec<(String, TreeID)>) -> (r: Vec<(String, TreeID)>)
    ensures
        r@.len() == m@.len(),
        forall|i: int| 0 <= i < m@.len() ==> (#[trigger] r@[i]).0@ == m@[i].0@ && r@[i].1 == m@[i].1,
        tree_map_view(r@) == tree_map_view(m@),
{
    let mut r: Vec<(String, TreeID)> = Vec::new();
    let mut i: usize = 0;
    while i < m.len()
        invariant
            i <= m@.len(),
            r@.len() == i,
            forall|k: int| 0 <= k < i ==> (#[trigger] r@[k]).0@ == m@[k].0@ && r@[k].1 == m@[k].1,
        decreases m@.len() - i,
    {
        r.push((m[i].0.clone(), m[i].1.clone()));
        i = i + 1;
    }
    assert(tree_map_view(r@) =~= tree_map_view(m@));
    r
}

/// The application message sent for an outside partner on a tree.
pub open spec fn application_sent(
    x: CaToCm,
    tree_id: TreeID,
    sender_id: SenderID,
    direction: MsgDirection,
    body: Seq<u8>,
) -> bool {
    x matches CaToCm::Msg { tree_id: t, is_ait, is_blocking, mask, msg: CaMsg::Application(m) } && t == tree_id && !is_ait
        && !is_blocking && mask@ == 254u16 && m.spec_header().spec_msg_type() == MsgType::Application
        && !m.spec_header().spec_ait() && m.spec_header().spec_sender_id() == sender_id && m.spec_header().spec_direction()
        == direction && m.spec_payload().spec_tree_id() == tree_id && m.spec_payload().spec_body() == body
}

/// What `tcp_application` does.
pub open spec fn tcp_application_done(
    a: CellAgent,
    b: CellAgent,
    sender_id: SenderID,
    allowed_tree: AllowedTree,
    body: Seq<u8>,
    direction: MsgDirection,
    tree_map: Seq<(String, TreeID)>,
    r: Result<Vec<(String, TreeID)>, CellagentError>,
    sent: Seq<CaToCm>,
) -> bool {
    match lookup(tree_map, allowed_tree.spec_name()) {
        None => b == a && sent.len() == 0 && (r matches Err(CellagentError::TreeMap { func_name, cell_id, tree_name })
            && func_name == "tcp_application" && tree_name.spec_name() == allowed_tree.spec_name()),
        Some(tid) => match a.traph_for_tree(tid) {
            None => b == a && sent.len() == 0 && r is Err,
            Some(t) => match tree_entry_in(t, tid.spec_uuid()) {
                None => b == a && sent.len() == 0 && r is Err,
                Some(e) => if !e.spec_may_send() {
                    b == a && sent.len() == 0 && (r matches Err(CellagentError::MayNotSend { cell_id, func_name, tree_id })
                        && func_name == "tcp_application" && tree_id == tid)
                } else if lookup(a.spec_tree_map(), tid.spec_uuid()) is None {
                    b == a && sent.len() == 0 && (r matches Err(CellagentError::Tree { func_name, cell_id, tree_uuid })
                        && func_name == "send_bytes")
                } else {
                    &&& sent.len() == 1
                    &&& application_sent(sent[0], tid, sender_id, direction, body)
                    &&& r matches Ok(m) && tree_map_view(m@) == tree_map_view(tree_map)
                    &&& direction == MsgDirection::Rootward ==> b == a
                    &&& direction == MsgDirection::Leafward ==> (b.wf() && b@ == (CaView { saved_msgs: b@.saved_msgs, ..a@ })
                        && list_of(b.spec_saved_msgs(), tid).drop_last() == list_of(a.spec_saved_msgs(), tid) && list_of(
                        b.spec_saved_msgs(),
                        tid,
                    ).len() == list_of(a.spec_saved_msgs(), tid).len() + 1 && (sent[0] matches CaToCm::Msg {
                        msg: CaMsg::Application(m),
                        ..
                    } && list_of(b.spec_saved_msgs(), tid).last() matches (Some(x), None) && x.same(&m)) && forall|tt: TreeID|
                        tt.key_of() != tid.key_of() ==> #[trigger] list_of(b.spec_saved_msgs(), tt) == list_of(
                            a.spec_saved_msgs(),
                            tt,
                        ))
                },
            },
        },
    }
}

impl CellAgent {
    /// The value of a parameter of a request from outside.
    fn get_msg_params(&self, msg: &Vec<(String, String)>, param: &str) -> (r: Result<String, CellagentError>)
        requires
            keys_distinct(msg@),
        ensures
            lookup(msg@, param@) matches Some(v) ==> (r matches Ok(p) && p@ == v@),
            lookup(msg@, param@) is None ==> (r matches Err(CellagentError::Message { func_name, cell_id, msg: m })
                && func_name == "get_param" && cell_id == self.spec_cell_id() && m@.len() == msg@.len()),
    {
        let key = String::from_str(param);
        match find(msg, &key) {
            Some(i) => {
                proof {
                    lemma_lookup_at(msg@, i as int);
                }
                Ok(msg[i].1.clone())
            },
            None => {
                let mut copy: Vec<(String, String)> = Vec::new();
                let mut i: usize = 0;
                while i < msg.len()
                    invariant
                        i <= msg@.len(),
                        copy@.len() == i,
                    decreases msg@.len() - i,
                {
                    copy.push((msg[i].0.clone(), msg[i].1.clone()));
                    i = i + 1;
                }
                Err(CellagentError::Message { func_name: "get_param", cell_id: self.cell_id.clone(), msg: copy })
            },
        }
    }

    /// An application's message from outside, on a tree it may use by
    /// name: sent on the tree through every port but 0 when the tree's
    /// entry allows sending, and saved for late joiners when it goes
    /// leafward. The sender's tree map comes back unchanged.
    fn tcp_application(
        &mut self,
        sender_id: &SenderID,
        _is_ait: bool,
        allowed_tree: &AllowedTree,
        serialized: &str,
        direction: MsgDirection,
        tree_map: &Vec<(String, TreeID)>,
        out: &mut Vec<CaToCm>,
    ) -> (r: Result<Vec<(String, TreeID)>, CellagentError>)
        requires
            old(self).wf(),
            keys_distinct(tree_map@),
        ensures
            final(self).wf(),
            final(out)@.len() >= old(out)@.len(),
            final(out)@.take(old(out)@.len() as int) == old(out)@,
            tcp_application_done(
                *old(self),
                *final(self),
                *sender_id,
                *allowed_tree,
                serialized.spec_bytes(),
                direction,
                tree_map@,
                r,
                final(out)@.skip(old(out)@.len() as int),
            ),
    {
        let ghost out0 = out@;
        proof {
            assert(out@.skip(out0.len() as int) =~= Seq::<CaToCm>::empty());
            assert(out@.take(out0.len() as int) =~= out0);
        }
        let tree_id = match find(tree_map, allowed_tree.get_name()) {
            Some(i) => {
                proof {
                    lemma_lookup_at(tree_map@, i as int);
                }
                &tree_map[i].1
            },
            None => {
                return Err(
                    CellagentError::TreeMap {
                        func_name: "tcp_application",
                        cell_id: self.cell_id.clone(),
                        tree_name: allowed_tree.clone(),
                    },
                );
            },
        };
        match self.may_send(tree_id) {
            Ok(true) => {},
            Ok(false) => {
                return Err(
                    CellagentError::MayNotSend { func_name: "tcp_application", cell_id: self.cell_id.clone(), tree_id: tree_id.clone() },
                );
            },
            Err(e) => {
                return Err(e);
            },
        }
        let msg = ApplicationMsg::new(sender_id, false, tree_id, direction, serialized);
        let leafward = msg.is_leafward();
        let copy = msg.clone();
        match self.send_msg(tree_id, CaMsg::Application(msg), default_user_mask(), out) {
            Ok(()) => {},
            Err(e) => {
                return Err(e);
            },
        }
        if leafward {
            self.add_saved_msg(tree_id, default_user_mask(), (Some(copy), None));
        }
        proof {
            assert(out@.take(out0.len() as int) =~= out0);
            assert(out@.skip(out0.len() as int) =~= seq![out@[out0.len() as int]]);
            let sent = out@.skip(out0.len() as int);
            assert(application_sent(sent[0], *tree_id, *sender_id, direction, serialized.spec_bytes()));
            assert(lookup(tree_map@, allowed_tree.spec_name()) == Some(*tree_id));
        }
        let result = copy_tree_map(tree_map);
        proof {
            let sent = out@.skip(out0.len() as int);
            let t = old(self).traph_for_tree(*tree_id)->0;
            assert(old(self).traph_for_tree(*tree_id) is Some);
            assert(tree_entry_in(t, tree_id.spec_uuid()) is Some);
            assert(tree_entry_in(t, tree_id.spec_uuid())->0.spec_may_send());
            assert(lookup(old(self).spec_tree_map(), tree_id.spec_uuid()) is Some);
            assert(tree_map_view(result@) == tree_map_view(tree_map@));
            if direction == MsgDirection::Rootward {
                assert(*self == *old(self));
            } else {
                assert(list_of(self.spec_saved_msgs(), *tree_id).last() == (Some(copy), None::<ManifestMsg>));
                assert(list_of(self.spec_saved_msgs(), *tree_id).drop_last() =~= list_of(old(self).spec_saved_msgs(), *tree_id));
            }
            assert(tcp_application_done(*old(self), *self, *sender_id, *allowed_tree, serialized.spec_bytes(), direction,
                tree_map@, Ok(result), sent));
        }
        Ok(result)
    }

    /// Deleting a tree from outside is not offered.
    fn tcp_delete_tree(&self, _sender_id: &SenderID, _serialized: &str, _direction: MsgDirection,
        _tree_map: &Vec<(String, TreeID)>) -> (r: Result<Vec<(String, TreeID)>, CellagentError>)
        ensures
            r matches Err(CellagentError::Utility(UtilityError::Unimplemented { feature, func_name })) && func_name
                == "tcp_delete_tree" && feature@ == "TcpMsgType::Application"@,
    {
        Err(CellagentError::Utility(UtilityError::Unimplemented { func_name: "tcp_delete_tree", feature: String::from_str("TcpMsgType::Application") }))
    }

    /// Queries from outside are not offered.
    fn tcp_query(&self, _sender_id: &SenderID, _serialized: &str, _direction: MsgDirection,
        _tree_map: &Vec<(String, TreeID)>) -> (r: Result<Vec<(String, TreeID)>, CellagentError>)
        ensures
            r matches Err(CellagentError::Utility(UtilityError::Unimplemented { feature, func_name })) && func_name
                == "tcp_query" && feature@ == "TcpMsgType::Application"@,
    {
        Err(CellagentError::Utility(UtilityError::Unimplemented { func_name: "tcp_query", feature: String::from_str("TcpMsgType::Application") }))
    }

    /// Tree names come from the cell, never to it.
    fn tcp_tree_name(&self, _sender_id: &SenderID, _serialized: &str, _direction: MsgDirection,
        _tree_map: &Vec<(String, TreeID)>) -> (r: Result<Vec<(String, TreeID)>, CellagentError>)
        ensures
            r matches Err(CellagentError::TcpMessageType { func_name, cell_id, msg }) && func_name == "tcp_tree_name"
                && cell_id == self.spec_cell_id() && msg == TcpMsgType::TreeName,
    {
        Err(CellagentError::TcpMessageType { func_name: "tcp_tree_name", cell_id: self.cell_id.clone(), msg: TcpMsgType::TreeName })
    }
}

pub open spec fn param_name(which: int) -> Seq<char> {
    if which == 0 {
        seq!['p', 'a', 'r', 'e', 'n', 't', '_', 't', 'r', 'e', 'e', '_', 'n', 'a', 'm', 'e']
    } else if which == 1 {
        seq!['n', 'e', 'w', '_', 't', 'r', 'e', 'e', '_', 'n', 'a', 'm', 'e']
    } else {
        seq!['g', 'v', 'm', '_', 'e', 'q', 'n']
    }
}

/// A tree map with one more name for a tree.
pub open spec fn named_in(before: Seq<(String, TreeID)>, after: Seq<(String, TreeID)>, name: Seq<char>, tree_id: TreeID) -> bool {
    &&& keys_distinct(after)
    &&& forall|n: Seq<char>| #[trigger]
        lookup(after, n) == if n == name {
            Some(tree_id)
        } else {
            lookup(before, n)
        }
}

/// The rest of `tcp_stack_tree` once the new tree is stacked with the
/// entry: the sender's tree map names the new tree; when the parent tree
/// extends, the stack-tree message goes to the parent tree's children and
/// is saved on the cell's own tree.
pub open spec fn tcp_stacked_spread(
    s1: CellAgent,
    b: CellAgent,
    sender_id: SenderID,
    new_name: Seq<char>,
    new_tree_id: TreeID,
    parent_tree_id: TreeID,
    direction: MsgDirection,
    gvm: GvmEquation,
    tree_map: Seq<(String, TreeID)>,
    r: Result<Vec<(String, TreeID)>, CellagentError>,
    sent: Seq<CaToCm>,
) -> bool {
    match s1.traph_for_tree(parent_tree_id) {
        None => b == s1 && sent.len() == 0 && r is Err,
        Some(t) => match tree_entry_in(t, parent_tree_id.spec_uuid()) {
            None => b == s1 && sent.len() == 0 && r is Err,
            Some(pe) => {
                let vars = gvm.spec_variables();
                let xtnd = traph_eval(t, vars, gvm.spec_xtnd());
                if xtnd is None {
                    b == s1 && sent.len() == 0 && r is Err
                } else if !xtnd->0 {
                    b == s1 && sent.len() == 0 && (r matches Ok(m) && named_in(tree_map, m@, new_name, new_tree_id))
                } else if lookup(s1.spec_tree_map(), s1.spec_connected_tree_id().spec_uuid()) is None {
                    b == s1 && sent.len() == 0 && r is Err
                } else {
                    &&& sent.len() == 1
                    &&& sent[0] matches CaToCm::Msg { tree_id: tt, is_ait, is_blocking, mask, msg: CaMsg::StackTree(d) } && tt
                        == s1.spec_connected_tree_id() && is_ait && is_blocking && mask@ == pe.spec_mask() & 254u16
                        && d.spec_header().spec_sender_id() == sender_id && d.spec_header().spec_direction() == direction
                        && d.spec_header().spec_msg_type() == MsgType::StackTree && d.spec_payload().spec_allowed_tree().spec_name()
                        == new_name && d.spec_payload().spec_new_tree_id() == new_tree_id && d.spec_payload().spec_parent_tree_id()
                        == parent_tree_id && same_equation(d.spec_payload().spec_gvm_eqn(), gvm) && list_of(
                        b.spec_saved_stack(),
                        s1.spec_my_tree_id(),
                    ).len() == list_of(s1.spec_saved_stack(), s1.spec_my_tree_id()).len() + 1 && list_of(
                        b.spec_saved_stack(),
                        s1.spec_my_tree_id(),
                    ).last().same(&d)
                    &&& b.wf()
                    &&& b@ == (CaView { saved_stack: b@.saved_stack, ..s1@ })
                    &&& list_of(b.spec_saved_stack(), s1.spec_my_tree_id()).drop_last() == list_of(
                        s1.spec_saved_stack(),
                        s1.spec_my_tree_id(),
                    )
                    &&& forall|tt: TreeID| tt.key_of() != s1.spec_my_tree_id().key_of() ==> #[trigger] list_of(
                        b.spec_saved_stack(),
                        tt,
                    ) == list_of(s1.spec_saved_stack(), tt)
                    &&& r matches Ok(m) && named_in(tree_map, m@, new_name, new_tree_id)
                }
            },
        },
    }
}

/// `tcp_stack_tree` from the stacking of the new tree on, through the
/// states `s0` (maps updated) and `s1` (tree stacked), where stacking gave
/// `r1` and sent the first `k` messages.
pub open spec fn tcp_stacking_via(
    a: CellAgent,
    b: CellAgent,
    sender_id: SenderID,
    new_name: Seq<char>,
    new_tree_id: TreeID,
    parent_tree_id: TreeID,
    direction: MsgDirection,
    gvm: GvmEquation,
    tree_map: Seq<(String, TreeID)>,
    r: Result<Vec<(String, TreeID)>, CellagentError>,
    sent: Seq<CaToCm>,
    s0: CellAgent,
    s1: CellAgent,
    r1: Result<Option<RoutingTableEntry>, CellagentError>,
    k: int,
) -> bool {
    &&& 0 <= k <= sent.len()
    &&& stack_maps_updated(a, s0, sender_id, new_name, new_tree_id, parent_tree_id, stack_base(a, parent_tree_id))
    &&& stacked_from(s0, s1, new_tree_id, parent_tree_id, stack_base(a, parent_tree_id), gvm, r1, sent.take(k))
    &&& match r1 {
        Err(e) => b == s1 && r == Err::<Vec<(String, TreeID)>, CellagentError>(e) && k == sent.len(),
        Ok(None) => b == s1 && k == sent.len() && (r matches Err(CellagentError::StackTree { func_name, tree_id, cell_id })
            && func_name == "tcp_stack_tree" && tree_id == new_tree_id),
        Ok(Some(_)) => tcp_stacked_spread(s1, b, sender_id, new_name, new_tree_id, parent_tree_id, direction, gvm, tree_map, r, sent.skip(k)),
    }
}

/// `tcp_stack_tree` from the stacking of the new tree on.
pub open spec fn tcp_stacking(
    a: CellAgent,
    b: CellAgent,
    sender_id: SenderID,
    new_name: Seq<char>,
    new_tree_id: TreeID,
    parent_tree_id: TreeID,
    direction: MsgDirection,
    gvm: GvmEquation,
    tree_map: Seq<(String, TreeID)>,
    r: Result<Vec<(String, TreeID)>, CellagentError>,
    sent: Seq<CaToCm>,
) -> bool {
    exists|s0: CellAgent, s1: CellAgent, r1: Result<Option<RoutingTableEntry>, CellagentError>, k: int| #[trigger]
        tcp_stacking_via(a, b, sender_id, new_name, new_tree_id, parent_tree_id, direction, gvm, tree_map, r, sent, s0, s1, r1, k)
}

/// `tcp_stack_tree` once the parent tree is known and may be sent on,
/// with `new_tree_id` the id it makes for the new tree: the new tree's name
/// is read and checked, the equation is read, and the new tree is stacked.
pub open spec fn tcp_stack_named_as(
    a: CellAgent,
    b: CellAgent,
    sender_id: SenderID,
    tcp_msg: Seq<(String, String)>,
    gvm: Option<GvmEquation>,
    direction: MsgDirection,
    tree_map: Seq<(String, TreeID)>,
    parent: TreeID,
    r: Result<Vec<(String, TreeID)>, CellagentError>,
    sent: Seq<CaToCm>,
    new_tree_id: TreeID,
) -> bool {
    let unchanged = b == a && sent.len() == 0;
    match lookup(tcp_msg, param_name(1)) {
        None => unchanged && (r matches Err(CellagentError::Message { func_name, .. }) && func_name == "get_param"),
        Some(new_name) => {
            let full = a.spec_my_tree_id().spec_name() + seq!['+'] + new_name@;
            if new_name@.contains(' ') || full.contains(' ') {
                unchanged && (r matches Err(CellagentError::Chain { func_name, comment }) && func_name == "tcp_stack_tree"
                    && comment == "new_tree_id")
            } else if lookup(tcp_msg, param_name(2)) is None {
                unchanged && (r matches Err(CellagentError::Message { func_name, .. }) && func_name == "get_param")
            } else {
                match gvm {
                    None => unchanged && (r matches Err(CellagentError::Chain { func_name, comment }) && func_name
                        == "tcp_stack_tree" && comment == "gvm"),
                    Some(g) => new_tree_id.spec_name() == full && tcp_stacking(
                        a,
                        b,
                        sender_id,
                        new_name@,
                        new_tree_id,
                        parent,
                        direction,
                        g,
                        tree_map,
                        r,
                        sent,
                    ),
                }
            }
        },
    }
}

/// What `tcp_stack_tree` does.
pub open spec fn tcp_stack_tree_done(
    a: CellAgent,
    b: CellAgent,
    sender_id: SenderID,
    tcp_msg: Seq<(String, String)>,
    gvm: Option<GvmEquation>,
    direction: MsgDirection,
    tree_map: Seq<(String, TreeID)>,
    r: Result<Vec<(String, TreeID)>, CellagentError>,
    sent: Seq<CaToCm>,
) -> bool {
    let unchanged = b == a && sent.len() == 0;
    match lookup(tcp_msg, param_name(0)) {
        None => unchanged && (r matches Err(CellagentError::Message { func_name, .. }) && func_name == "get_param"),
        Some(parent_name) => match lookup(tree_map, parent_name@) {
            None => unchanged && (r matches Err(CellagentError::TreeMap { func_name, cell_id, tree_name }) && func_name
                == "tcp_stack_tree" && tree_name.spec_name() == parent_name@),
            Some(parent) => match a.traph_for_tree(parent) {
                None => unchanged && r is Err,
                Some(t) => match tree_entry_in(t, parent.spec_uuid()) {
                    None => unchanged && r is Err,
                    Some(e) => if !e.spec_may_send() {
                        unchanged && (r matches Err(CellagentError::MayNotSend { cell_id, func_name, tree_id }) && func_name
                            == "tcp_stack_tree" && tree_id == parent)
                    } else {
                        exists|new_tree_id: TreeID| #[trigger]
                            tcp_stack_named_as(a, b, sender_id, tcp_msg, gvm, direction, tree_map, parent, r, sent, new_tree_id)
                    },
                },
            },
        },
    }
}

/// An outside partner's request to stack a tree, when it succeeds, gives
/// the partner's tree map with the requested name added for the new tree,
/// named as the cell's own tree plus that name, and every other name kept.
/// The cell sends the new tree's entry, then at most the stack-tree message
/// for the new tree, which never goes to the cell itself.
pub proof fn law_tcp_stack_tree_named(
    a: CellAgent,
    b: CellAgent,
    sender_id: SenderID,
    tcp_msg: Seq<(String, String)>,
    gvm: Option<GvmEquation>,
    direction: MsgDirection,
    tree_map: Seq<(String, TreeID)>,
    r: Result<Vec<(String, TreeID)>, CellagentError>,
    sent: Seq<CaToCm>,
)
    requires
        tcp_stack_tree_done(a, b, sender_id, tcp_msg, gvm, direction, tree_map, r, sent),
        r is Ok,
    ensures
        lookup(tcp_msg, param_name(1)) matches Some(nn) && lookup(r->Ok_0@, nn@) matches Some(id) && id.spec_name()
            == a.spec_my_tree_id().spec_name() + seq!['+'] + nn@ && forall|n: Seq<char>|
            n != nn@ ==> #[trigger] lookup(r->Ok_0@, n) == lookup(tree_map, n),
        1 <= sent.len() <= 2,
        sent[0] is Entry,
        sent.len() == 2 ==> (sent[1] matches CaToCm::Msg { msg: CaMsg::StackTree(d), mask, .. } && !port_bit(mask@, 0)
            && lookup(r->Ok_0@, d.spec_payload().spec_allowed_tree().spec_name()) == Some(d.spec_payload().spec_new_tree_id())),
{
    let parent_name = lookup(tcp_msg, param_name(0))->0;
    let parent = lookup(tree_map, parent_name@)->0;
    let new_tree_id = choose|new_tree_id: TreeID| #[trigger]
        tcp_stack_named_as(a, b, sender_id, tcp_msg, gvm, direction, tree_map, parent, r, sent, new_tree_id);
    let new_name = lookup(tcp_msg, param_name(1))->0;
    let g = gvm->0;
    let (s0, s1, r1, k) = choose|s0: CellAgent, s1: CellAgent, r1: Result<Option<RoutingTableEntry>, CellagentError>, k: int|
        #[trigger] tcp_stacking_via(a, b, sender_id, new_name@, new_tree_id, parent, direction, g, tree_map, r, sent, s0, s1, r1, k);
    assert(r1 matches Ok(Some(_)));
    assert(sent.take(k) == seq![CaToCm::Entry(r1->Ok_0->Some_0)]);
    assert(sent[0] == sent.take(k)[0]);
    let rest = sent.skip(k);
    assert(rest.len() <= 1);
    assert forall|y: u16| !#[trigger] port_bit(y & 254u16, 0) by {
        assert(!port_bit(y & 254u16, 0)) by (bit_vector);
    }
    if sent.len() == 2 {
        assert(rest[0] == sent[1]);
    }
}

impl CellAgent {
    /// An outside partner asks to stack a new tree, named by it, on a tree
    /// it may use: the cell stacks the tree (named as its own tree plus the
    /// new name), adds the name to the partner's tree map, and, when the
    /// parent tree extends, sends the stack-tree message to the parent
    /// tree's children and saves it. `gvm_eqn` is the equation the request
    /// carries, read by the caller; `None` where it could not be read.
    #[verifier::spinoff_prover]
    #[verifier::rlimit(40)]
    pub fn tcp_stack_tree(
        &mut self,
        sender_id: &SenderID,
        tcp_msg: &Vec<(String, String)>,
        gvm_eqn: Option<&GvmEquation>,
        direction: MsgDirection,
        tree_map: &Vec<(String, TreeID)>,
        out: &mut Vec<CaToCm>,
    ) -> (r: Result<Vec<(String, TreeID)>, CellagentError>)
        requires
            old(self).wf(),
            old(self).spec_no_ports().0 >= 1,
            keys_distinct(tcp_msg@),
            keys_distinct(tree_map@),
        ensures
            final(self).wf(),
            final(out)@.len() >= old(out)@.len(),
            final(out)@.take(old(out)@.len() as int) == old(out)@,
            tcp_stack_tree_done(
                *old(self),
                *final(self),
                *sender_id,
                tcp_msg@,
                match gvm_eqn {
                    Some(g) => Some(*g),
                    None => None,
                },
                direction,
                tree_map@,
                r,
                final(out)@.skip(old(out)@.len() as int),
            ),
    {
        let ghost out0 = out@;
        let ghost g_opt = match gvm_eqn {
            Some(g) => Some(*g),
            None => None,
        };
        proof {
            assert(out@.skip(out0.len() as int) =~= Seq::<CaToCm>::empty());
            assert(out@.take(out0.len() as int) =~= out0);
            reveal_strlit("parent_tree_name");
            reveal_strlit("new_tree_name");
            reveal_strlit("gvm_eqn");
            assert("parent_tree_name"@ =~= param_name(0));
            assert("new_tree_name"@ =~= param_name(1));
            assert("gvm_eqn"@ =~= param_name(2));
        }
        let parent_tree_str = match self.get_msg_params(tcp_msg, "parent_tree_name") {
            Ok(p) => p,
            Err(e) => {
                return Err(e);
            },
        };
        let parent_tree_name = AllowedTree::new(parent_tree_str.as_str());
        let parent_tree_id = match find(tree_map, parent_tree_name.get_name()) {
            Some(i) => {
                proof {
                    lemma_lookup_at(tree_map@, i as int);
                }
                tree_map[i].1.clone()
            },
            None => {
                return Err(
                    CellagentError::TreeMap { func_name: "tcp_stack_tree", cell_id: self.cell_id.clone(), tree_name: parent_tree_name },
                );
            },
        };
        match self.may_send(&parent_tree_id) {
            Ok(true) => {},
            Ok(false) => {
                return Err(
                    CellagentError::MayNotSend { func_name: "tcp_stack_tree", cell_id: self.cell_id.clone(), tree_id: parent_tree_id },
                );
            },
            Err(e) => {
                return Err(e);
            },
        }
        let new_tree_name = match self.get_msg_params(tcp_msg, "new_tree_name") {
            Ok(p) => p,
            Err(e) => {
                proof {
                    assert(tcp_stack_named_as(*old(self), *self, *sender_id, tcp_msg@, g_opt, direction, tree_map@,
                        parent_tree_id, Err(e), out@.skip(out0.len() as int), parent_tree_id));
                }
                return Err(e);
            },
        };
        let new_tree_id = match self.my_tree_id.add_component(new_tree_name.as_str()) {
            Ok(t) => t,
            Err(_) => {
                let err = CellagentError::Chain { func_name: "tcp_stack_tree", comment: "new_tree_id" };
                proof {
                    assert(tcp_stack_named_as(*old(self), *self, *sender_id, tcp_msg@, g_opt, direction, tree_map@,
                        parent_tree_id, Err(err), out@.skip(out0.len() as int), parent_tree_id));
                }
                return Err(err);
            },
        };
        match self.get_msg_params(tcp_msg, "gvm_eqn") {
            Ok(_) => {},
            Err(e) => {
                proof {
                    assert(tcp_stack_named_as(*old(self), *self, *sender_id, tcp_msg@, g_opt, direction, tree_map@,
                        parent_tree_id, Err(e), out@.skip(out0.len() as int), parent_tree_id));
                }
                return Err(e);
            },
        }
        let gvm_eqn = match gvm_eqn {
            Some(g) => g,
            None => {
                let err = CellagentError::Chain { func_name: "tcp_stack_tree", comment: "gvm" };
                proof {
                    assert(tcp_stack_named_as(*old(self), *self, *sender_id, tcp_msg@, g_opt, direction, tree_map@,
                        parent_tree_id, Err(err), out@.skip(out0.len() as int), parent_tree_id));
                }
                return Err(err);
            },
        };
        let r = self.stack_new_tree(sender_id, &new_tree_name, &new_tree_id, &parent_tree_id, gvm_eqn, direction, tree_map, out);
        proof {
            let full = old(self).spec_my_tree_id().spec_name() + seq!['+'] + new_tree_name@;
            assert(new_tree_id.spec_name() == full);
            assert(lookup(tcp_msg@, param_name(0))->0@ == parent_tree_str@);
            assert(lookup(tree_map@, parent_tree_str@) == Some(parent_tree_id));
            assert(lookup(tcp_msg@, param_name(1))->0@ == new_tree_name@);
            assert(lookup(tcp_msg@, param_name(2)) is Some);
            assert(!new_tree_name@.contains(' ') && !full.contains(' '));
            assert(old(self).traph_for_tree(parent_tree_id) matches Some(t) && tree_entry_in(t, parent_tree_id.spec_uuid())
                matches Some(e) && e.spec_may_send());
            assert(tcp_stacking(*old(self), *self, *sender_id, new_tree_name@, new_tree_id, parent_tree_id, direction,
                *gvm_eqn, tree_map@, r, out@.skip(out0.len() as int)));
            assert(tcp_stack_named_as(*old(self), *self, *sender_id, tcp_msg@, Some(*gvm_eqn), direction, tree_map@,
                parent_tree_id, r, out@.skip(out0.len() as int), new_tree_id));
            assert(tcp_stack_tree_done(*old(self), *self, *sender_id, tcp_msg@, Some(*gvm_eqn), direction, tree_map@, r,
                out@.skip(out0.len() as int)));
        }
        r
    }

    /// `tcp_stack_tree` from the stacking on: see `tcp_stacking`.
    #[verifier::spinoff_prover]
    #[verifier::rlimit(40)]
    fn stack_new_tree(
        &mut self,
        sender_id: &SenderID,
        new_tree_name: &String,
        new_tree_id: &TreeID,
        parent_tree_id: &TreeID,
        gvm_eqn: &GvmEquation,
        direction: MsgDirection,
        tree_map: &Vec<(String, TreeID)>,
        out: &mut Vec<CaToCm>,
    ) -> (r: Result<Vec<(String, TreeID)>, CellagentError>)
        requires
            old(self).wf(),
            old(self).spec_no_ports().0 >= 1,
            keys_distinct(tree_map@),
        ensures
            final(self).wf(),
            final(out)@.len() >= old(out)@.len(),
            final(out)@.take(old(out)@.len() as int) == old(out)@,
            tcp_stacking(
                *old(self),
                *final(self),
                *sender_id,
                new_tree_name@,
                *new_tree_id,
                *parent_tree_id,
                direction,
                *gvm_eqn,
                tree_map@,
                r,
                final(out)@.skip(old(out)@.len() as int),
            ),
    {
        let ghost out0 = out@;
        let allowed_tree = AllowedTree::new(new_tree_name.as_str());
        let r1 = self.stack_tree(sender_id, &allowed_tree, new_tree_id, parent_tree_id, gvm_eqn, out);
        let ghost s1 = *self;
        let ghost out1 = out@;
        let ghost k = out1.len() - out0.len();
        let ghost base = stack_base(*old(self), *parent_tree_id);
        let ghost s0 = choose|s0: CellAgent|
            stack_maps_updated(*old(self), s0, *sender_id, allowed_tree.spec_name(), *new_tree_id, *parent_tree_id, base)
                && stacked_from(s0, s1, *new_tree_id, *parent_tree_id, base, *gvm_eqn, r1, out1.skip(out0.len() as int));
        proof {
            assert(allowed_tree.spec_name() == new_tree_name@);
            assert(out@.skip(out0.len() as int).take(k) =~= out1.skip(out0.len() as int));
        }
        let ghost ntid = *new_tree_id;
        match r1 {
            Err(e) => {
                proof {
                    assert(out@.take(out0.len() as int) =~= out0) by {
                        assert(out@.take(out0.len() as int) =~= out1.take(out0.len() as int));
                    }
                    assert(out@.skip(out0.len() as int).take(k) =~= out@.skip(out0.len() as int));
                    assert(tcp_stacking_via(*old(self), *self, *sender_id, new_tree_name@, ntid, *parent_tree_id, direction,
                        *gvm_eqn, tree_map@, Err(e), out@.skip(out0.len() as int), s0, s1, r1, k));
                }
                return Err(e);
            },
            Ok(None) => {
                let err = CellagentError::StackTree { func_name: "tcp_stack_tree", cell_id: self.cell_id.clone(), tree_id: new_tree_id.clone() };
                proof {
                    assert(out@.take(out0.len() as int) =~= out0) by {
                        assert(out@.take(out0.len() as int) =~= out1.take(out0.len() as int));
                    }
                    assert(out@.skip(out0.len() as int).take(k) =~= out@.skip(out0.len() as int));
                    assert(tcp_stacking_via(*old(self), *self, *sender_id, new_tree_name@, ntid, *parent_tree_id, direction,
                        *gvm_eqn, tree_map@, Err(err), out@.skip(out0.len() as int), s0, s1, r1, k));
                }
                return Err(err);
            },
            Ok(Some(_)) => {},
        }
        let r = self.spread_stacked_tree(sender_id, &allowed_tree, new_tree_name, new_tree_id, parent_tree_id, gvm_eqn, direction,
            tree_map, out);
        proof {
            assert(out@.take(out0.len() as int) =~= out0) by {
                assert(out@.take(out0.len() as int) =~= out1.take(out0.len() as int));
                assert(out@.take(out1.len() as int) =~= out1);
            }
            assert(out@.skip(out0.len() as int).take(k) =~= out1.skip(out0.len() as int)) by {
                assert(out@.take(out1.len() as int) =~= out1);
            }
            assert(out@.skip(out0.len() as int).skip(k) =~= out@.skip(out1.len() as int));
            assert(tcp_stacking_via(*old(self), *self, *sender_id, new_tree_name@, ntid, *parent_tree_id, direction,
                *gvm_eqn, tree_map@, r, out@.skip(out0.len() as int), s0, s1, r1, k));
        }
        r
    }

    /// Once the new tree is stacked: see `tcp_stacked_spread`.
    #[verifier::spinoff_prover]
    fn spread_stacked_tree(
        &mut self,
        sender_id: &SenderID,
        allowed_tree: &AllowedTree,
        new_tree_name: &String,
        new_tree_id: &TreeID,
        parent_tree_id: &TreeID,
        gvm_eqn: &GvmEquation,
        direction: MsgDirection,
        tree_map: &Vec<(String, TreeID)>,
        out: &mut Vec<CaToCm>,
    ) -> (r: Result<Vec<(String, TreeID)>, CellagentError>)
        requires
            old(self).wf(),
            keys_distinct(tree_map@),
            allowed_tree.spec_name() == new_tree_name@,
        ensures
            final(out)@.len() >= old(out)@.len(),
            final(out)@.take(old(out)@.len() as int) == old(out)@,
            tcp_stacked_spread(
                *old(self),
                *final(self),
                *sender_id,
                new_tree_name@,
                *new_tree_id,
                *parent_tree_id,
                direction,
                *gvm_eqn,
                tree_map@,
                r,
                final(out)@.skip(old(out)@.len() as int),
            ),
    {
        let ghost out0 = out@;
        proof {
            assert(out@.skip(out0.len() as int) =~= Seq::<CaToCm>::empty());
            assert(out@.take(out0.len() as int) =~= out0);
        }
        let stack_tree_msg = StackTreeMsg::new(sender_id, allowed_tree, new_tree_id, parent_tree_id, direction, gvm_eqn);
        let mut tree_map_clone = copy_tree_map(tree_map);
        proof {
            lemma_copied_map(tree_map@, tree_map_clone@);
        }
        file(&mut tree_map_clone, new_tree_name.clone(), new_tree_id.clone());
        let parent_entry = match self.get_tree_entry(parent_tree_id) {
            Ok(e) => e,
            Err(_) => {
                return Err(CellagentError::Chain { func_name: "tcp_stack_tree", comment: "get parent_entry" });
            },
        };
        let parent_mask = parent_entry.get_mask().and(default_user_mask());
        let traph = match self.get_traph(parent_tree_id) {
            Ok(t) => t,
            Err(_) => {
                return Err(CellagentError::Chain { func_name: "tcp_stack_tree", comment: "" });
            },
        };
        let params = match Self::params_for(traph, gvm_eqn) {
            Ok(p) => p,
            Err(e) => {
                return Err(CellagentError::Traph(e));
            },
        };
        let rx = gvm_eqn.eval_xtnd(params.as_slice());
        proof {
            lemma_eval_params(*traph, gvm_eqn.spec_variables(), params@, gvm_eqn.spec_xtnd(), rx);
        }
        let gvm_xtnd = match rx {
            Ok(b) => b,
            Err(e) => {
                return Err(CellagentError::Gvm(e));
            },
        };
        if gvm_xtnd {
            let copy = stack_tree_msg.clone();
            let connected = self.connected_tree_id.clone();
            match self.send_msg(&connected, CaMsg::StackTree(stack_tree_msg), parent_mask, out) {
                Ok(()) => {},
                Err(e) => {
                    return Err(e);
                },
            }
            let my_tree_id = self.my_tree_id.clone();
            self.add_saved_stack_tree(&my_tree_id, &copy);
            proof {
                assert(out@.skip(out0.len() as int) =~= seq![out@[out0.len() as int]]);
                assert(out@.take(out0.len() as int) =~= out0);
            }
        }
        Ok(tree_map_clone)
    }
}

/// What `process_failover_d_msg` does: the neighbour that took over as
/// parent for the port tree answered; the updated entry of the port tree,
/// with the port as parent, is filed in the traph of the tree's base tree.
/// The traph's element for the port is left as it was.
pub open spec fn failover_d_processed(
    a: CellAgent,
    b: CellAgent,
    port_no: PortNo,
    port_tree_id: TreeID,
    r: Result<(), CellagentError>,
) -> bool {
    exists|e: RoutingTableEntry| #[trigger] failover_d_filed(a, b, port_no, port_tree_id, r, e)
}

/// `process_failover_d_msg` with `e` the entry it files, when it files one.
pub open spec fn failover_d_filed(
    a: CellAgent,
    b: CellAgent,
    port_no: PortNo,
    port_tree_id: TreeID,
    r: Result<(), CellagentError>,
    e: RoutingTableEntry,
) -> bool {
    if port_no.0 > a.spec_no_ports().0 {
        b == a && r matches Err(CellagentError::Utility(_))
    } else {
        match a.traph_for_tree(port_tree_id) {
            None => b == a && traph_missing(a, port_tree_id, r),
            Some(t) => {
                let tu = a.base_tree_of(port_tree_id)->0.spec_uuid();
                if !t.has_stacked(strip_port(port_tree_id.spec_uuid())) {
                    b == a && (r matches Err(CellagentError::Traph(TraphError::Tree { func_name, cell_id, tree_uuid }))
                        && func_name == "update_element" && tree_uuid == port_tree_id.spec_uuid())
                } else {
                    &&& r is Ok
                    &&& b.wf()
                    &&& b@ == (CaView { traphs: b@.traphs, ..a@ })
                    &&& b.traph_of(tu) matches Some(t2) && entry_filed(t, t2, port_tree_id, PortNumber { port_no }, PortState::Parent,
                        Seq::empty(), e)
                    &&& forall|v: Uuid| v != tu ==> #[trigger] b.traph_of(v) == a.traph_of(v)
                }
            },
        }
    }
}

impl CellAgent {
    /// The neighbour on the port became the parent for the port tree the
    /// message names: its entry, with the port as parent, is filed.
    #[verifier::spinoff_prover]
    pub fn process_failover_d_msg(&mut self, msg: &FailoverDMsg, port_no: PortNo) -> (r: Result<(), CellagentError>)
        requires
            old(self).wf(),
            port_no.0 != old(self).spec_no_ports().0,
        ensures
            final(self).wf(),
            failover_d_processed(*old(self), *final(self), port_no, msg.spec_payload().spec_port_tree_id(), r),
    {
        let ghost e0 = self.my_entry;
        let port_tree_id = msg.get_payload().get_port_tree_id();
        let port_number = match port_no.make_port_number(self.no_ports) {
            Ok(p) => p,
            Err(e) => {
                let err = CellagentError::Utility(e);
                proof {
                    assert(failover_d_filed(*old(self), *self, port_no, *port_tree_id, Err(err), e0));
                }
                return Err(err);
            },
        };
        match self.get_traph(port_tree_id) {
            Ok(_) => {},
            Err(e) => {
                let err = e;
                proof {
                    assert(failover_d_filed(*old(self), *self, port_no, *port_tree_id, Err(err), e0));
                }
                return Err(err);
            },
        }
        let base = match self.get_base_tree_id(port_tree_id) {
            Ok(b) => b,
            Err(_) => {
                let err = CellagentError::Chain { func_name: "process_failover_d_msg", comment: "" };
                proof {
                    assert(failover_d_filed(*old(self), *self, port_no, *port_tree_id, Err(err), e0));
                }
                return Err(err);
            },
        };
        let k = match find(&self.traphs, &base.get_uuid()) {
            Some(k) => k,
            None => {
                let err = CellagentError::Chain { func_name: "process_failover_d_msg", comment: "" };
                proof {
                    assert(failover_d_filed(*old(self), *self, port_no, *port_tree_id, Err(err), e0));
                }
                return Err(err);
            },
        };
        proof {
            lemma_lookup_at(self.traphs@, k as int);
        }
        let filed_under = port_tree_id.without_root_port_number();
        match self.traphs[k].1.get_tree(&filed_under.get_uuid()) {
            Ok(_) => {},
            Err(_) => {
                let err = CellagentError::Traph(
                    TraphError::Tree { func_name: "update_element", cell_id: self.cell_id.clone(), tree_uuid: port_tree_id.get_uuid() },
                );
                proof {
                    assert(failover_d_filed(*old(self), *self, port_no, *port_tree_id, Err(err), e0));
                }
                return Err(err);
            },
        }
        let ghost mid = self.traphs@;
        let ghost t = mid[k as int].1;
        let (u, mut traph) = self.traphs.remove(k);
        let no_children: Vec<PortNumber> = Vec::new();
        let rf = traph.file_port_entry(port_tree_id, port_number, PortState::Parent, &no_children);
        proof {
            assert(no_children@ =~= Seq::<PortNumber>::empty());
            lemma_lookup_update(mid, k as int, u, traph);
            lemma_remove_insert(mid, k as int, (u, traph));
        }
        self.traphs.insert(k, (u, traph));
        proof {
            assert(self.traphs@ == mid.update(k as int, (u, traph)));
            assert forall|i: int| 0 <= i < self.spec_traphs().len() implies {
                let (v, tt) = #[trigger] self.spec_traphs()[i];
                &&& tt.wf()
                &&& tt.spec_elements().len() == self.spec_no_ports().0
                &&& v == tt.spec_base_tree_id().spec_uuid()
            } by {
                if i != k {
                    assert(self.spec_traphs()[i] == mid[i]);
                }
            }
        }
        match rf {
            Ok(e) => {
                proof {
                    assert(entry_filed(t, traph, *port_tree_id, port_number, PortState::Parent, Seq::empty(), e));
                    assert(self.traph_of(base.spec_uuid()) == Some(traph));
                    assert(PortNumber { port_no } == port_number);
                    assert(old(self).base_tree_of(*port_tree_id) == Some(base));
                    assert(old(self).traph_for_tree(*port_tree_id) == Some(t));
                    assert(!(port_no.0 > old(self).spec_no_ports().0));
                    assert(t.has_stacked(strip_port(port_tree_id.spec_uuid())));
                    assert(self@ == (CaView { traphs: self@.traphs, ..old(self)@ }));
                    assert(forall|v: Uuid| v != base.spec_uuid() ==> #[trigger] self.traph_of(v) == old(self).traph_of(v));
                    assert(failover_d_filed(*old(self), *self, port_no, *port_tree_id, Ok(()), e));
                }
                Ok(())
            },
            Err(e) => {
                proof {
                    assert(false);
                }
                Err(CellagentError::Traph(e))
            },
        }
    }
}

/// The element of the traph's first parent port.
pub open spec fn first_parent_element(t: Traph) -> TraphElement {
    t.spec_elements()[choose|i: int| t.is_first_parent(i)]
}

proof fn lemma_first_parent_element(t: Traph, i: int)
    requires
        t.is_first_parent(i),
    ensures
        first_parent_element(t) == t.spec_elements()[i],
{
    let j = choose|j: int| t.is_first_parent(j);
    assert(t.is_first_parent(j));
    if j < i {
        assert(t.spec_elements()[j].spec_state() != PortState::Parent);
    } else if i < j {
        assert(t.spec_elements()[i].spec_state() != PortState::Parent);
    }
}

/// An entry that is `e` with the port added to its children.
pub open spec fn child_added(e: RoutingTableEntry, e2: RoutingTableEntry, port_no: PortNo) -> bool {
    &&& e2.spec_uuid() == e.spec_uuid()
    &&& e2.spec_inuse() == e.spec_inuse()
    &&& e2.spec_parent() == e.spec_parent()
    &&& e2.spec_may_send() == e.spec_may_send()
    &&& forall|i: u16| i < 16 ==> (port_bit(e2.spec_mask(), i) <==> (port_bit(e.spec_mask(), i) || port_no.0 % 16 == i))
}

/// The answer to a failover request: through the port it came on, on the
/// connected-ports tree, the rootward tree's id with one hop more than the
/// parent port has and the parent port's path.
pub open spec fn failover_d_sent(x: CaToCm, a: CellAgent, port_no: PortNo, rw: TreeID, pe: TraphElement) -> bool {
    x matches CaToCm::Msg { tree_id: t, is_ait, is_blocking, mask, msg: CaMsg::FailoverD(m) } && t == a.spec_connected_tree_id()
        && is_ait && !is_blocking && mask@ == port_mask_value(port_no.0) && m.spec_header().spec_msg_type() == MsgType::FailoverD
        && agent_sender(m.spec_header().spec_sender_id(), a.spec_cell_id()) && m.spec_payload().spec_port_tree_id() == rw
        && m.spec_payload().spec_hops() == PathLength(CellQty((pe.spec_hops().0.0 + 1) as usize))
        && m.spec_payload().spec_path() == pe.spec_path()
}

/// `process_failover_msg` once the parent element `pe` is known to lie off
/// the broken path, with `pt` the port tree for the broken path's port and
/// `e` the entry filed for it.
pub open spec fn failover_filed(
    a: CellAgent,
    b: CellAgent,
    port_no: PortNo,
    rw: TreeID,
    broken: Path,
    pe: TraphElement,
    r: Result<(), CellagentError>,
    sent: Seq<CaToCm>,
    pt: TreeID,
    e: RoutingTableEntry,
) -> bool {
    let t = a.traph_for_tree(rw)->0;
    let tu = a.base_tree_of(rw)->0.spec_uuid();
    &&& pt.spec_name() == rw.spec_name()
    &&& pt.spec_uuid().spec_port_byte() == broken.spec_port_number().port_no.0
    &&& pt.spec_uuid().spec_code() == rw.spec_uuid().spec_code()
    &&& pt.spec_uuid().spec_rest() == rw.spec_uuid().spec_rest()
    &&& if !t.has_stacked(strip_port(rw.spec_uuid())) {
        b == a && sent.len() == 0 && (r matches Err(CellagentError::Traph(TraphError::Tree { func_name, cell_id, tree_uuid }))
            && func_name == "update_element" && tree_uuid == pt.spec_uuid())
    } else {
        &&& b.wf()
        &&& b@ == (CaView { traphs: b@.traphs, ..a@ })
        &&& b.traph_of(tu) matches Some(t2) && entry_filed(t, t2, pt, PortNumber { port_no: pe.spec_port_no() }, PortState::Parent,
            Seq::empty(), e)
        &&& forall|v: Uuid| v != tu ==> #[trigger] b.traph_of(v) == a.traph_of(v)
        &&& if port_no.0 > a.spec_no_ports().0 {
            sent.len() == 0 && r matches Err(CellagentError::Utility(_))
        } else {
            &&& sent.len() >= 1
            &&& sent[0] matches CaToCm::Entry(e2) && child_added(e, e2, port_no)
            &&& if lookup(a.spec_tree_map(), a.spec_connected_tree_id().spec_uuid()) is None {
                sent.len() == 1 && (r matches Err(CellagentError::Tree { func_name, cell_id, tree_uuid }) && func_name == "send_bytes")
            } else {
                sent.len() == 2 && failover_d_sent(sent[1], a, port_no, rw, pe) && r is Ok
            }
        }
    }
}

/// What `process_failover_msg` does. A neighbour whose parent link broke
/// asks this cell to become its parent for the rootward tree. When this
/// cell's own parent element does not lie on the broken path, the cell
/// files an entry for the port tree of the broken path with its parent
/// port as parent, adds the asking port as a child, sends the entry and
/// answers through the port; otherwise it does nothing.
pub open spec fn failover_processed(
    a: CellAgent,
    b: CellAgent,
    port_no: PortNo,
    rw: TreeID,
    broken: Path,
    r: Result<(), CellagentError>,
    sent: Seq<CaToCm>,
) -> bool {
    let unchanged = b == a && sent.len() == 0;
    match a.traph_for_tree(rw) {
        None => unchanged && traph_missing(a, rw, r),
        Some(t) => if !t.has_parent() {
            unchanged && (r matches Err(CellagentError::Traph(TraphError::ParentElement { func_name, .. })) && func_name
                == "get_parent_element")
        } else {
            let pe = first_parent_element(t);
            if pe.spec_path() == broken {
                unchanged && r is Ok
            } else if pe.spec_port_no().0 > a.spec_no_ports().0 {
                unchanged && r matches Err(CellagentError::Utility(_))
            } else {
                exists|pt: TreeID, e: RoutingTableEntry| #[trigger]
                    failover_filed(a, b, port_no, rw, broken, pe, r, sent, pt, e)
            }
        },
    }
}

/// A cell asked to take over as parent for a tree whose own parent lies on
/// the broken path declines: nothing changes and nothing is sent. When it
/// takes over, it sends the new entry, which adds the asking port as a child,
/// and then its answer through that port alone, offering its own parent's
/// path, which is not the broken one, one hop further.
pub proof fn law_failover_takes_over(
    a: CellAgent,
    b: CellAgent,
    port_no: PortNo,
    rw: TreeID,
    broken: Path,
    r: Result<(), CellagentError>,
    sent: Seq<CaToCm>,
)
    requires
        failover_processed(a, b, port_no, rw, broken, r, sent),
    ensures
        a.traph_for_tree(rw) matches Some(t) && t.has_parent() && first_parent_element(t).spec_path() == broken ==> b == a
            && sent.len() == 0 && r is Ok,
        r is Ok && sent.len() > 0 ==> {
            &&& sent.len() == 2
            &&& sent[0] matches CaToCm::Entry(e2) && port_bit(e2.spec_mask(), (port_no.0 % 16) as u16)
            &&& sent[1] matches CaToCm::Msg { msg: CaMsg::FailoverD(m), mask, .. } && m.spec_payload().spec_port_tree_id() == rw
                && m.spec_payload().spec_path() != broken && forall|q: u16|
                q < 16 ==> (port_bit(mask@, q) <==> q == (port_no.0 % 16) as u16)
        },
{
    if r is Ok && sent.len() > 0 {
        let t = a.traph_for_tree(rw)->0;
        let pe = first_parent_element(t);
        let (pt, e) = choose|pt: TreeID, e: RoutingTableEntry| #[trigger]
            failover_filed(a, b, port_no, rw, broken, pe, r, sent, pt, e);
        assert(failover_filed(a, b, port_no, rw, broken, pe, r, sent, pt, e));
        assert(sent[0] matches CaToCm::Entry(e2) && child_added(e, e2, port_no));
        let p = (port_no.0 % 16) as u16;
        assert(p < 16);
        assert forall|q: u16| q < 16 implies (port_bit(port_mask_value(port_no.0), q) <==> q == p) by {
            lemma_port_mask_bit(port_no.0, q);
        }
    }
}

impl CellAgent {
    /// A neighbour lost its parent link and asks this cell, through the
    /// port, to take over as parent for the rootward tree: see
    /// `failover_processed`.
    #[verifier::spinoff_prover]
    pub fn process_failover_msg(&mut self, msg: &FailoverMsg, port_no: PortNo, out: &mut Vec<CaToCm>) -> (r: Result<
        (),
        CellagentError,
    >)
        requires
            old(self).wf(),
            old(self).traph_for_tree(msg.spec_payload().spec_rootward_tree_id()) matches Some(t) ==> forall|i: int|
                t.is_first_parent(i) ==> t.spec_elements()[i].spec_hops().0.0 < usize::MAX,
        ensures
            final(self).wf(),
            final(out)@.len() >= old(out)@.len(),
            final(out)@.take(old(out)@.len() as int) == old(out)@,
            failover_processed(
                *old(self),
                *final(self),
                port_no,
                msg.spec_payload().spec_rootward_tree_id(),
                msg.spec_payload().spec_path(),
                r,
                final(out)@.skip(old(out)@.len() as int),
            ),
    {
        let ghost out0 = out@;
        proof {
            assert(out@.skip(out0.len() as int) =~= Seq::<CaToCm>::empty());
            assert(out@.take(out0.len() as int) =~= out0);
        }
        let rootward_tree_id = msg.get_payload().get_rootward_tree_id();
        let broken_path = msg.get_payload().get_path();
        let traph = match self.get_traph(rootward_tree_id) {
            Ok(t) => t,
            Err(e) => {
                return Err(e);
            },
        };
        let parent_element = match traph.get_parent_element() {
            Ok(p) => p,
            Err(e) => {
                return Err(CellagentError::Traph(e));
            },
        };
        let ghost t = *traph;
        proof {
            let i = choose|i: int| t.is_first_parent(i) && t.spec_elements()[i] == parent_element;
            lemma_first_parent_element(t, i);
        }
        let parent_element_path = parent_element.get_path();
        let parent_element_hops = parent_element.get_hops();
        if parent_element_path == broken_path {
            return Ok(());
        }
        let port_tree_id = rootward_tree_id.with_root_port_number(&broken_path.get_port_number());
        let parent_port_no = parent_element.get_port_no();
        let parent_port_number = match parent_port_no.make_port_number(self.no_ports) {
            Ok(p) => p,
            Err(e) => {
                return Err(CellagentError::Utility(e));
            },
        };
        let base = match self.get_base_tree_id(rootward_tree_id) {
            Ok(b) => b,
            Err(_) => {
                return Err(CellagentError::Chain { func_name: "process_failover_msg", comment: "" });
            },
        };
        let k = match find(&self.traphs, &base.get_uuid()) {
            Some(k) => k,
            None => {
                return Err(CellagentError::Chain { func_name: "process_failover_msg", comment: "" });
            },
        };
        proof {
            lemma_lookup_at(self.traphs@, k as int);
        }
        let filed_under = port_tree_id.without_root_port_number();
        match self.traphs[k].1.get_tree(&filed_under.get_uuid()) {
            Ok(_) => {},
            Err(_) => {
                let err = CellagentError::Traph(
                    TraphError::Tree { func_name: "update_element", cell_id: self.cell_id.clone(), tree_uuid: port_tree_id.get_uuid() },
                );
                proof {
                    assert(failover_filed(*old(self), *self, port_no, *rootward_tree_id, broken_path, parent_element, Err(err),
                        out@.skip(out0.len() as int), port_tree_id, self.my_entry));
                }
                return Err(err);
            },
        }
        let ghost mid = self.traphs@;
        let (u, mut traph) = self.traphs.remove(k);
        let no_children: Vec<PortNumber> = Vec::new();
        let rf = traph.file_port_entry(&port_tree_id, parent_port_number, PortState::Parent, &no_children);
        proof {
            assert(no_children@ =~= Seq::<PortNumber>::empty());
            lemma_lookup_update(mid, k as int, u, traph);
            lemma_remove_insert(mid, k as int, (u, traph));
        }
        self.traphs.insert(k, (u, traph));
        proof {
            assert(self.traphs@ == mid.update(k as int, (u, traph)));
            assert forall|i: int| 0 <= i < self.spec_traphs().len() implies {
                let (v, tt) = #[trigger] self.spec_traphs()[i];
                &&& tt.wf()
                &&& tt.spec_elements().len() == self.spec_no_ports().0
                &&& v == tt.spec_base_tree_id().spec_uuid()
            } by {
                if i != k {
                    assert(self.spec_traphs()[i] == mid[i]);
                }
            }
        }
        let mut new_parent_entry = match rf {
            Ok(e) => e,
            Err(e) => {
                proof {
                    assert(false);
                }
                return Err(CellagentError::Traph(e));
            },
        };
        let ghost e = new_parent_entry;
        proof {
            assert(entry_filed(t, traph, port_tree_id, parent_port_number, PortState::Parent, Seq::empty(), e));
            assert(self.traph_of(base.spec_uuid()) == Some(traph));
            assert(PortNumber { port_no: parent_element.spec_port_no() } == parent_port_number);
        }
        let child = match port_no.make_port_number(self.no_ports) {
            Ok(p) => p,
            Err(ue) => {
                let err = CellagentError::Utility(ue);
                proof {
                    assert(failover_filed(*old(self), *self, port_no, *rootward_tree_id, broken_path, parent_element, Err(err),
                        out@.skip(out0.len() as int), port_tree_id, e));
                }
                return Err(err);
            },
        };
        let mut children: Vec<PortNumber> = Vec::new();
        children.push(child);
        new_parent_entry.add_children(&children);
        proof {
            assert(child_added(e, new_parent_entry, port_no)) by {
                assert forall|i: u16| i < 16 implies (port_bit(new_parent_entry.spec_mask(), i) <==> (port_bit(e.spec_mask(), i)
                    || port_no.0 % 16 == i)) by {
                    if port_no.0 % 16 == i {
                        assert(children@[0].port_no.0 % 16 == i);
                    }
                }
            }
        }
        out.push(CaToCm::Entry(new_parent_entry));
        let ghost out1 = out@;
        proof {
            assert(out1.take(out0.len() as int) =~= out0);
            assert(out1.skip(out0.len() as int) =~= seq![CaToCm::Entry(new_parent_entry)]);
        }
        let sender_id = match SenderID::new(&self.cell_id, "CellAgent") {
            Ok(s) => s,
            Err(e) => {
                return Err(CellagentError::Name(e));
            },
        };
        proof {
            reveal_strlit("CellAgent");
            assert("CellAgent"@ =~= seq!['C', 'e', 'l', 'l', 'A', 'g', 'e', 'n', 't']);
            assert(agent_sender(sender_id, self.spec_cell_id()));
            let i = choose|i: int| t.is_first_parent(i) && t.spec_elements()[i] == parent_element;
            assert(t.is_first_parent(i));
        }
        let hops = PathLength(CellQty(parent_element_hops.0.0 + 1));
        let failover_d_msg = FailoverDMsg::new(&sender_id, rootward_tree_id, hops, parent_element_path);
        let mask = Mask::new(child);
        let connected = self.connected_tree_id.clone();
        let rs = self.send_msg(&connected, CaMsg::FailoverD(failover_d_msg), mask, out);
        proof {
            assert(out@.take(out0.len() as int) =~= out0);
            assert(out@.skip(out0.len() as int)[0] == CaToCm::Entry(new_parent_entry));
            assert(failover_filed(*old(self), *self, port_no, *rootward_tree_id, broken_path, parent_element, rs,
                out@.skip(out0.len() as int), port_tree_id, e));
        }
        rs
    }
}

/// The traph with the element at index `p` marked broken.
pub open spec fn port_broken(before: Traph, after: Traph, p: int) -> bool {
    let e = before.spec_elements()[p];
    &&& before.same_but_elements(&after)
    &&& after.spec_elements().len() == before.spec_elements().len()
    &&& after.spec_elements()[p].is(e.spec_port_no(), e.spec_is_connected(), true, e.spec_state(), e.spec_hops(), e.spec_path())
    &&& forall|k: int| 0 <= k < before.spec_elements().len() && k != p ==> after.spec_elements()[k] == before.spec_elements()[k]
}

/// A traph whose parent port is broken and one hop from the tree's root:
/// the traph of a tree rooted at the neighbour across the broken link.
pub open spec fn rootward(t: Traph) -> bool {
    &&& exists|i: int| t.is_first_parent(i) && t.spec_elements()[i].spec_is_broken()
    &&& exists|i: int| t.is_first_parent(i) && hops_of(t.spec_elements()[i]) == 1
}

/// The first `n` traphs in order have the element at `p` marked broken,
/// the rest are unchanged, and none of the first `n - 1` is rootward.
pub open spec fn broken_through(before: Seq<(Uuid, Traph)>, after: Seq<(Uuid, Traph)>, p: int, n: int) -> bool {
    &&& after.len() == before.len()
    &&& 0 <= n <= before.len()
    &&& forall|i: int| 0 <= i < before.len() ==> (#[trigger] after[i]).0 == before[i].0
    &&& forall|i: int| 0 <= i < n ==> port_broken(before[i].1, #[trigger] after[i].1, p)
    &&& forall|i: int| n <= i < before.len() ==> #[trigger] after[i] == before[i]
    &&& forall|i: int| 0 <= i < n - 1 ==> !rootward(#[trigger] after[i].1)
}

/// `t1` is `t` with the port tried for the tree `rw`, as far as the choice
/// of a new parent goes.
pub open spec fn tried_with(t: Traph, t1: Traph, rw: TreeID, port_no: PortNo) -> bool {
    &&& t1.spec_elements() == t.spec_elements()
    &&& forall|k: (Seq<char>, Uuid), p: PortNo|
        was_tried(t1.spec_tried(), k, p) <==> (was_tried(t.spec_tried(), k, p) || (k == key(rw) && p == port_no))
}

/// A failover request through the port on the connected-ports tree for the
/// rootward tree, naming the path of the broken parent.
pub open spec fn failover_sent(x: CaToCm, a: CellAgent, port_no: PortNo, rw: TreeID, path: Path) -> bool {
    x matches CaToCm::Msg { tree_id: t, is_ait, is_blocking, mask, msg: CaMsg::Failover(m) } && t == a.spec_connected_tree_id()
        && is_ait && !is_blocking && mask@ == port_mask_value(port_no.0) && m.spec_header().spec_msg_type() == MsgType::Failover
        && agent_sender(m.spec_header().spec_sender_id(), a.spec_cell_id()) && m.spec_payload().spec_rootward_tree_id() == rw
        && m.spec_payload().spec_path() == path
}

/// For the rootward traph `t` of agent `b`: a new parent port is chosen as
/// the traph chooses one with the broken port tried, avoiding the broken
/// parent's path; a failover request goes through it.
pub open spec fn parent_sought(b: CellAgent, t: Traph, port_no: PortNo, r: Result<(), CellagentError>, sent: Seq<CaToCm>) -> bool {
    let rw = t.spec_base_tree_id();
    let pe = first_parent_element(t);
    exists|t1: Traph, p1: Option<TraphElement>, p2: Option<TraphElement>, p3: Option<TraphElement>|
        #![trigger tried_with(t, t1, rw, port_no), fewer_hops(fewer_hops(p1, p2), p3)]
        {
            &&& tried_with(t, t1, rw, port_no)
            &&& t1.parent_candidate(p1, key(rw), pe.spec_path())
            &&& t1.pruned_candidate(p2, key(rw), pe.spec_path())
            &&& t1.child_candidate(p3, key(rw))
            &&& match fewer_hops(fewer_hops(p1, p2), p3) {
                None => r is Ok && sent.len() == 0,
                Some(c) => if c.spec_port_no().0 > b.spec_no_ports().0 {
                    sent.len() == 0 && r matches Err(CellagentError::Utility(_))
                } else if lookup(b.spec_tree_map(), b.spec_connected_tree_id().spec_uuid()) is None {
                    sent.len() == 0 && (r matches Err(CellagentError::Tree { func_name, cell_id, tree_uuid }) && func_name
                        == "send_bytes")
                } else {
                    sent.len() == 1 && failover_sent(sent[0], b, c.spec_port_no(), rw, pe.spec_path()) && r is Ok
                },
            }
        }
}

/// `port_disconnected` where the first `n` traphs were marked broken.
pub open spec fn disconnected_through(
    a: CellAgent,
    b: CellAgent,
    port_no: PortNo,
    r: Result<(), CellagentError>,
    sent: Seq<CaToCm>,
    n: int,
) -> bool {
    let found = n >= 1 && rootward(b.spec_traphs()[n - 1].1);
    &&& b.wf()
    &&& b@ == (CaView { connected_tree_entry: b@.connected_tree_entry, traphs: b@.traphs, ..a@ })
    &&& a.spec_connected_tree_entry().with_mask(
        b.spec_connected_tree_entry(),
        a.spec_connected_tree_entry().spec_mask() & !port_mask_value(port_no.0),
    )
    &&& broken_through(a.spec_traphs(), b.spec_traphs(), port_no.0 as int, n)
    &&& sent.len() >= 1
    &&& sent[0] == CaToCm::Entry(b.spec_connected_tree_entry())
    &&& if found {
        parent_sought(b, b.spec_traphs()[n - 1].1, port_no, r, sent.skip(1))
    } else {
        n == a.spec_traphs().len() && r is Ok && sent.len() == 1
    }
}

/// What `port_disconnected` does. The port leaves the connected-ports
/// tree's entry, which is sent. Then the traphs, in order, get the port's
/// element marked broken until one is rootward (its broken parent one hop
/// from the root). For that traph a new parent port is sought and asked
/// to take over.
pub open spec fn disconnected(a: CellAgent, b: CellAgent, port_no: PortNo, r: Result<(), CellagentError>, sent: Seq<CaToCm>) -> bool {
    if port_no.0 > a.spec_no_ports().0 {
        b == a && sent.len() == 0 && r matches Err(CellagentError::Utility(_))
    } else {
        exists|n: int| #[trigger] disconnected_through(a, b, port_no, r, sent, n)
    }
}

impl CellAgent {
    /// A port went down: see `disconnected`.
    #[verifier::spinoff_prover]
    pub fn port_disconnected(&mut self, port_no: PortNo, out: &mut Vec<CaToCm>) -> (r: Result<(), CellagentError>)
        requires
            old(self).wf(),
            port_no.0 != old(self).spec_no_ports().0,
        ensures
            final(self).wf(),
            final(out)@.len() >= old(out)@.len(),
            final(out)@.take(old(out)@.len() as int) == old(out)@,
            disconnected(*old(self), *final(self), port_no, r, final(out)@.skip(old(out)@.len() as int)),
    {
        let ghost out0 = out@;
        let port_number = match port_no.make_port_number(self.no_ports) {
            Ok(p) => p,
            Err(e) => {
                proof {
                    assert(out@.skip(out0.len() as int) =~= Seq::<CaToCm>::empty());
                    assert(out@.take(out0.len() as int) =~= out0);
                }
                return Err(CellagentError::Utility(e));
            },
        };
        let port_no_mask = Mask::new(port_number);
        self.connected_tree_entry.and_with_mask(port_no_mask.not());
        out.push(CaToCm::Entry(self.connected_tree_entry));
        let ghost out1 = out@;
        let ghost s1 = *self;
        proof {
            assert(out1.take(out0.len() as int) =~= out0);
        }
        let mut i: usize = 0;
        let mut found = false;
        while i < self.traphs.len()
            invariant_except_break
                !found,
            invariant
                self.wf(),
                i <= self.traphs@.len(),
                port_no.0 < self.spec_no_ports().0,
                port_number.port_no == port_no,
                self@ == (CaView { traphs: self@.traphs, ..s1@ }),
                broken_through(s1.spec_traphs(), self.spec_traphs(), port_no.0 as int, i as int),
                i >= 1 ==> (found <==> rootward(self.spec_traphs()[i - 1].1)),
                i == 0 ==> !found,
            ensures
                self.wf(),
                self@ == (CaView { traphs: self@.traphs, ..s1@ }),
                broken_through(s1.spec_traphs(), self.spec_traphs(), port_no.0 as int, i as int),
                i >= 1 ==> (found <==> rootward(self.spec_traphs()[i - 1].1)),
                i == 0 ==> !found,
                !found ==> i == self.traphs@.len(),
                i <= self.traphs@.len(),
            decreases self.traphs@.len() - i,
        {
            let ghost mid = self.traphs@;
            let (u, mut traph) = self.traphs.remove(i);
            let ghost t0 = traph;
            traph.set_broken(port_number);
            let hit = traph.has_broken_parent() && traph.is_one_hop();
            proof {
                lemma_remove_insert(mid, i as int, (u, traph));
                if hit {
                    assert(rootward(traph));
                } else {
                    assert(!rootward(traph));
                }
            }
            self.traphs.insert(i, (u, traph));
            proof {
                assert(self.traphs@ == mid.update(i as int, (u, traph)));
                assert(keys_distinct(self.spec_traphs())) by {
                    assert forall|x: int, y: int| 0 <= x < y < self.spec_traphs().len() implies (#[trigger] self.spec_traphs()[x].0.key_of())
                        != (#[trigger] self.spec_traphs()[y].0.key_of()) by {
                        assert(self.spec_traphs()[x].0 == mid[x].0);
                        assert(self.spec_traphs()[y].0 == mid[y].0);
                    }
                }
                assert forall|k: int| 0 <= k < self.spec_traphs().len() implies {
                    let (v, tt) = #[trigger] self.spec_traphs()[k];
                    &&& tt.wf()
                    &&& tt.spec_elements().len() == self.spec_no_ports().0
                    &&& v == tt.spec_base_tree_id().spec_uuid()
                } by {
                    if k != i {
                        assert(self.spec_traphs()[k] == mid[k]);
                    }
                }
                assert(port_broken(t0, traph, port_no.0 as int));
            }
            i = i + 1;
            if hit {
                found = true;
                break;
            }
        }
        let ghost s2 = *self;
        let ghost n = i as int;
        if !found {
            proof {
                assert(out@.skip(out0.len() as int) =~= seq![CaToCm::Entry(self.connected_tree_entry)]);
                assert(disconnected_through(*old(self), *self, port_no, Ok(()), out@.skip(out0.len() as int), n));
            }
            return Ok(());
        }
        let k = i - 1;
        let mut rootward_traph = self.traphs[k].1.clone();
        let ghost t = self.spec_traphs()[k as int].1;
        let rootward_tree_id = rootward_traph.get_base_tree_id().clone();
        let parent_element = match rootward_traph.get_parent_element() {
            Ok(p) => p,
            Err(e) => {
                proof {
                    assert(false);
                }
                return Err(CellagentError::Traph(e));
            },
        };
        proof {
            let j = choose|j: int| t.is_first_parent(j) && t.spec_elements()[j] == parent_element;
            assert(rootward_traph.is_first_parent(j));
            lemma_first_parent_element(t, j);
        }
        let path = parent_element.get_path();
        rootward_traph.add_tried_port(&rootward_tree_id, port_no);
        let ghost t1 = rootward_traph;
        let trial = rootward_traph.find_new_parent_port(&rootward_tree_id, path);
        proof {
            assert(tried_with(t, t1, rootward_tree_id, port_no));
        }
        let trial_parent_port = match trial {
            Some(p) => p,
            None => {
                proof {
                    assert(out@.skip(out0.len() as int) =~= seq![CaToCm::Entry(self.connected_tree_entry)]);
                    assert(out@.skip(out0.len() as int).skip(1) =~= Seq::<CaToCm>::empty());
                    assert(parent_sought(*self, t, port_no, Ok(()), out@.skip(out0.len() as int).skip(1)));
                    assert(disconnected_through(*old(self), *self, port_no, Ok(()), out@.skip(out0.len() as int), n));
                }
                return Ok(());
            },
        };
        let sender_id = match SenderID::new(&self.cell_id, "CellAgent") {
            Ok(s) => s,
            Err(e) => {
                return Err(CellagentError::Name(e));
            },
        };
        proof {
            reveal_strlit("CellAgent");
            assert("CellAgent"@ =~= seq!['C', 'e', 'l', 'l', 'A', 'g', 'e', 'n', 't']);
            assert(agent_sender(sender_id, self.spec_cell_id()));
        }
        let trial_number = match trial_parent_port.make_port_number(self.no_ports) {
            Ok(p) => p,
            Err(e) => {
                let err = CellagentError::Utility(e);
                proof {
                    assert(out@.skip(out0.len() as int) =~= seq![CaToCm::Entry(self.connected_tree_entry)]);
                    assert(out@.skip(out0.len() as int).skip(1) =~= Seq::<CaToCm>::empty());
                    assert(parent_sought(*self, t, port_no, Err(err), out@.skip(out0.len() as int).skip(1)));
                    assert(disconnected_through(*old(self), *self, port_no, Err(err), out@.skip(out0.len() as int), n));
                }
                return Err(err);
            },
        };
        let mask = Mask::new(trial_number);
        let failover_msg = FailoverMsg::new(&sender_id, &rootward_tree_id, path);
        let connected = self.connected_tree_id.clone();
        let rs = self.send_msg(&connected, CaMsg::Failover(failover_msg), mask, out);
        proof {
            assert(out@.take(out0.len() as int) =~= out0);
            assert(out@.skip(out0.len() as int)[0] == CaToCm::Entry(self.connected_tree_entry));
            assert(out@.skip(out0.len() as int).skip(1) =~= out@.skip(out1.len() as int));
            assert(parent_sought(*self, t, port_no, rs, out@.skip(out0.len() as int).skip(1)));
            assert(disconnected_through(*old(self), *self, port_no, rs, out@.skip(out0.len() as int), n));
        }
        rs
    }
}

/// A copy of a tree map keeps its keys distinct and its lookups.
proof fn lemma_copied_map(m: Seq<(String, TreeID)>, r: Seq<(String, TreeID)>)
    requires
        keys_distinct(m),
        r.len() == m.len(),
        forall|i: int| 0 <= i < m.len() ==> (#[trigger] r[i]).0@ == m[i].0@ && r[i].1 == m[i].1,
    ensures
        keys_distinct(r),
        forall|n: Seq<char>| #[trigger] lookup(r, n) == lookup(m, n),
{
    assert forall|i: int, j: int| 0 <= i < j < r.len() implies (#[trigger] r[i].0.key_of()) != (#[trigger] r[j].0.key_of()) by {
        assert(m[i].0.key_of() != m[j].0.key_of());
    }
    assert forall|n: Seq<char>| #[trigger] lookup(r, n) == lookup(m, n) by {
        if has_key(m, n) {
            let i = choose|i: int| 0 <= i < m.len() && (#[trigger] m[i].0.key_of()) == n;
            lemma_lookup_at(m, i);
            lemma_lookup_at(r, i);
        } else if has_key(r, n) {
            let i = choose|i: int| 0 <= i < r.len() && (#[trigger] r[i].0.key_of()) == n;
            assert(m[i].0.key_of() == n);
        }
    }
}

/// The tree map a deployment gives the VMs: the sender's map, with each
/// tree the manifest allows taken from the message's map, and the cell's
/// own tree as `Base`.
pub open spec fn deploy_tree_map(
    a: CellAgent,
    sender_id: SenderID,
    msg_tree_map: Seq<(String, TreeID)>,
    names: Seq<Seq<char>>,
    r: Result<Vec<(String, TreeID)>, CellagentError>,
) -> bool {
    match lookup(a.spec_tree_name_map(), sender_id.key_of()) {
        None => r matches Err(CellagentError::TreeNameMap { func_name, cell_id, sender_id: s }) && func_name == "deploy"
            && s == sender_id,
        Some(m) => if exists|i: int| 0 <= i < names.len() && !has_key(msg_tree_map, #[trigger] names[i]) {
            r matches Err(CellagentError::TreeMap { func_name, cell_id, tree_name }) && func_name == "deploy" && exists|i: int|
                #![trigger names[i]]
                0 <= i < names.len() && names[i] == tree_name.spec_name() && !has_key(msg_tree_map, names[i]) && forall|j: int|
                    0 <= j < i ==> has_key(msg_tree_map, #[trigger] names[j])
        } else {
            r matches Ok(t) && keys_distinct(t@) && forall|n: Seq<char>| #[trigger]
                lookup(t@, n) == if n == base_name() {
                    Some(a.spec_my_tree_id())
                } else if names.contains(n) {
                    lookup(msg_tree_map, n)
                } else {
                    lookup(m@, n)
                }
        },
    }
}

/// The VMs filed for the tree with the key.
pub open spec fn vms_on(m: Seq<(TreeID, Vec<VmID>)>, k: (Seq<char>, Uuid)) -> Option<Seq<VmID>> {
    match lookup(m, k) {
        Some(v) => Some(v@),
        None => None,
    }
}

/// The VMs filed for the trees: a tree that had VMs keeps its list; a tree
/// among `ids` that had none gets the one VM; the rest are unchanged.
pub open spec fn vm_filed(before: Seq<(TreeID, Vec<VmID>)>, after: Seq<(TreeID, Vec<VmID>)>, ids: Seq<TreeID>, vm_id: VmID) -> bool {
    &&& keys_distinct(after)
    &&& forall|k: (Seq<char>, Uuid)| #[trigger]
        vms_on(after, k) == if vms_on(before, k) is Some {
            vms_on(before, k)
        } else if exists|j: int| 0 <= j < ids.len() && (#[trigger] ids[j]).key_of() == k {
            Some(seq![vm_id])
        } else {
            None
        }
}

/// The names, for each of the two senders, named as in the tree map; no
/// other sender's names change.
pub open spec fn names_assigned(
    a: CellAgent,
    b: CellAgent,
    s1: SenderID,
    s2: SenderID,
    names: Seq<Seq<char>>,
    tree_map: Seq<(String, TreeID)>,
) -> bool {
    &&& b.wf()
    &&& b@ == (CaView { tree_name_map: b@.tree_name_map, tree_vm_map: b@.tree_vm_map, ..a@ })
    &&& forall|s: SenderID|
        (s.key_of() == s1.key_of() || s.key_of() == s2.key_of()) ==> forall|n: Seq<char>| #[trigger]
            lookup(b.names_of(s), n) == if names.contains(n) {
                lookup(tree_map, n)
            } else {
                lookup(a.names_of(s), n)
            }
    &&& forall|s: SenderID|
        s.key_of() != s1.key_of() && s.key_of() != s2.key_of() ==> #[trigger] lookup(b.spec_tree_name_map(), s.key_of())
            == lookup(a.spec_tree_name_map(), s.key_of())
}

impl CellAgent {
    /// The tree map of a deployment: see `deploy_tree_map`. Each VM of the
    /// manifest is then started by the caller and set up by `deploy_vm`.
    pub fn deploy(&self, sender_id: &SenderID, msg_tree_map: &Vec<(String, TreeID)>, manifest: &Manifest) -> (r: Result<
        Vec<(String, TreeID)>,
        CellagentError,
    >)
        requires
            self.wf(),
            keys_distinct(msg_tree_map@),
        ensures
            deploy_tree_map(*self, *sender_id, msg_tree_map@, manifest.spec_allowed_trees(), r),
    {
        let m = match find(&self.tree_name_map, sender_id) {
            Some(i) => {
                proof {
                    lemma_lookup_at(self.tree_name_map@, i as int);
                }
                &self.tree_name_map[i].1
            },
            None => {
                return Err(CellagentError::TreeNameMap { func_name: "deploy", cell_id: self.cell_id.clone(), sender_id: sender_id.clone() });
            },
        };
        let mut tree_map = copy_tree_map(m);
        proof {
            let k = choose|k: int| 0 <= k < self.tree_name_map@.len() && (#[trigger] self.tree_name_map@[k].0.key_of()) == sender_id.key_of();
            lemma_lookup_at(self.tree_name_map@, k);
            lemma_copied_map(m@, tree_map@);
        }
        let allowed = manifest.get_allowed_trees();
        let ghost names = manifest.spec_allowed_trees();
        proof {
            assert(names.take(0) =~= Seq::<Seq<char>>::empty());
        }
        let mut i: usize = 0;
        while i < allowed.len()
            invariant
                i <= allowed@.len(),
                names == tree_names(allowed@),
                names == manifest.spec_allowed_trees(),
                keys_distinct(tree_map@),
                keys_distinct(msg_tree_map@),
                lookup(self.spec_tree_name_map(), sender_id.key_of()) == Some(*m),
                forall|j: int| 0 <= j < i ==> has_key(msg_tree_map@, #[trigger] names[j]),
                forall|n: Seq<char>| #[trigger]
                    lookup(tree_map@, n) == if names.take(i as int).contains(n) {
                        lookup(msg_tree_map@, n)
                    } else {
                        lookup(m@, n)
                    },
            decreases allowed@.len() - i,
        {
            let name = allowed[i].get_name();
            proof {
                assert(names[i as int] == name@);
            }
            match find(msg_tree_map, name) {
                Some(k) => {
                    proof {
                        lemma_lookup_at(msg_tree_map@, k as int);
                    }
                    file(&mut tree_map, name.clone(), msg_tree_map[k].1.clone());
                    proof {
                        assert forall|n: Seq<char>| #[trigger]
                            lookup(tree_map@, n) == if names.take(i + 1).contains(n) {
                                lookup(msg_tree_map@, n)
                            } else {
                                lookup(m@, n)
                            } by {
                            assert(names.take(i + 1) =~= names.take(i as int).push(name@));
                            if n == name@ {
                                assert(names.take(i + 1)[i as int] == n);
                            } else {
                                let t1 = names.take(i + 1);
                                if t1.contains(n) {
                                    let q = choose|q: int| 0 <= q < t1.len() && #[trigger] t1[q] == n;
                                    assert(names.take(i as int)[q] == n);
                                }
                            }
                        }
                    }
                },
                None => {
                    let tree_name = allowed[i].clone();
                    proof {
                        assert(!has_key(msg_tree_map@, names[i as int]));
                        assert(tree_name.spec_name() == names[i as int]);
                        assert(lookup(self.spec_tree_name_map(), sender_id.key_of()) is Some);
                        let w = i as int;
                        assert(0 <= w < names.len() && !has_key(msg_tree_map@, names[w]));
                        assert(exists|q: int| 0 <= q < names.len() && !has_key(msg_tree_map@, #[trigger] names[q]));
                        assert(manifest.spec_allowed_trees()[w] == tree_name.spec_name());
                    }
                    return Err(CellagentError::TreeMap { func_name: "deploy", cell_id: self.cell_id.clone(), tree_name });
                },
            }
            i = i + 1;
        }
        proof {
            assert(names.take(allowed@.len() as int) =~= names);
            reveal_strlit("Base");
        }
        file(&mut tree_map, String::from_str("Base"), self.my_tree_id.clone());
        proof {
            assert("Base"@ =~= base_name());
            assert(!(exists|j: int| 0 <= j < names.len() && !has_key(msg_tree_map@, #[trigger] names[j])));
        }
        Ok(tree_map)
    }
}

/// Whether a tree of the list has the name.
pub open spec fn has_tree_named(trees: Seq<AllowedTree>, n: Seq<char>) -> bool {
    exists|k: int| 0 <= k < trees.len() && (#[trigger] trees[k]).spec_name() == n
}

/// The trees a VM listens on: the control tree and the allowed trees,
/// each once.
pub open spec fn vm_trees(trees: Seq<AllowedTree>, names: Seq<Seq<char>>) -> bool {
    &&& forall|n: Seq<char>| #[trigger] has_tree_named(trees, n) <==> (n == CONTROL_TREE_NAME@ || names.contains(n))
    &&& forall|i: int, j: int| 0 <= i < j < trees.len() ==> (#[trigger] trees[i]).spec_name() != (#[trigger] trees[j]).spec_name()
}

/// The trees of the names, by the tree map.
pub open spec fn ids_of(tree_map: Seq<(String, TreeID)>, names: Seq<Seq<char>>) -> Seq<TreeID> {
    names.map_values(|n: Seq<char>| lookup(tree_map, n)->0)
}

/// What `deploy_vm` does. Each tree the VM may use is looked up in the
/// deployment's tree map and named, for the deploying sender and for the
/// VM's own sender, as in that map; the VM is filed for each of those trees
/// that had no VM yet. A tree missing from the map stops this with the
/// trees before it named, and no VM filed.
pub open spec fn vm_deployed(
    a: CellAgent,
    b: CellAgent,
    sender_id: SenderID,
    vm_id: VmID,
    tree_map: Seq<(String, TreeID)>,
    names: Seq<Seq<char>>,
    r: Result<(SenderID, Vec<AllowedTree>), CellagentError>,
) -> bool {
    let vm_name = seq!['S', 'e', 'n', 'd', 'e', 'r', ':'] + a.spec_cell_id().spec_name() + seq!['+'] + vm_id.spec_name();
    if exists|i: int| 0 <= i < names.len() && !has_key(tree_map, #[trigger] names[i]) {
        exists|i: int, vm_sender: SenderID|
            #![trigger names[i], vm_sender.spec_name()]
            {
                &&& 0 <= i < names.len()
                &&& !has_key(tree_map, names[i])
                &&& forall|j: int| 0 <= j < i ==> has_key(tree_map, #[trigger] names[j])
                &&& vm_sender.spec_name() == vm_name
                &&& names_assigned(a, b, sender_id, vm_sender, names.take(i), tree_map)
                &&& b.spec_tree_vm_map() == a.spec_tree_vm_map()
                &&& r matches Err(CellagentError::TreeMap { func_name, cell_id, tree_name }) && func_name == "deploy(vm)"
                    && tree_name.spec_name() == names[i]
            }
    } else {
        r matches Ok((vm_sender, trees)) && {
            &&& vm_sender.spec_name() == vm_name
            &&& vm_trees(trees@, names)
            &&& names_assigned(a, b, sender_id, vm_sender, names, tree_map)
            &&& vm_filed(a.spec_tree_vm_map(), b.spec_tree_vm_map(), ids_of(tree_map, names), vm_id)
        }
    }
}

impl CellAgent {
    /// Sets up a VM of a deployment once it is started: see `vm_deployed`.
    /// Returns the VM's sender and the trees it listens on.
    #[verifier::spinoff_prover]
    pub fn deploy_vm(
        &mut self,
        sender_id: &SenderID,
        vm_id: &VmID,
        tree_map: &Vec<(String, TreeID)>,
        vm_spec: &VmSpec,
    ) -> (r: Result<(SenderID, Vec<AllowedTree>), CellagentError>)
        requires
            old(self).wf(),
            keys_distinct(tree_map@),
        ensures
            final(self).wf(),
            vm_deployed(*old(self), *final(self), *sender_id, *vm_id, tree_map@, vm_spec.spec_allowed_trees(), r),
    {
        let vm_sender_id = match SenderID::new(&self.cell_id, vm_id.get_name()) {
            Ok(s) => s,
            Err(e) => {
                return Err(CellagentError::Name(e));
            },
        };
        let mut trees: Vec<AllowedTree> = Vec::new();
        trees.push(AllowedTree::new(CONTROL_TREE_NAME));
        let mut vms = copy_vm_map(&self.tree_vm_map);
        let allowed = vm_spec.get_allowed_trees();
        let ghost names = vm_spec.spec_allowed_trees();
        let ghost s0 = *self;
        proof {
            assert(names.take(0) =~= Seq::<Seq<char>>::empty());
            assert(ids_of(tree_map@, names.take(0)) =~= Seq::<TreeID>::empty());
            assert forall|n: Seq<char>| #[trigger] has_tree_named(trees@, n) <==> (n == CONTROL_TREE_NAME@ || names.take(
                0,
            ).contains(n)) by {
                if n == CONTROL_TREE_NAME@ {
                    assert(trees@[0].spec_name() == n);
                }
            }
            assert forall|k: (Seq<char>, Uuid)| #[trigger]
                vms_on(vms@, k) == if vms_on(s0.spec_tree_vm_map(), k) is Some {
                    vms_on(s0.spec_tree_vm_map(), k)
                } else if exists|j: int| 0 <= j < ids_of(tree_map@, names.take(0)).len() && (#[trigger] ids_of(
                    tree_map@,
                    names.take(0),
                )[j]).key_of() == k {
                    Some(seq![*vm_id])
                } else {
                    None
                } by {}
        }
        let mut i: usize = 0;
        while i < allowed.len()
            invariant
                i <= allowed@.len(),
                names == tree_names(allowed@),
                names == vm_spec.spec_allowed_trees(),
                keys_distinct(tree_map@),
                self.wf(),
                s0 == *old(self),
                self.spec_cell_id() == s0.spec_cell_id(),
                self.spec_tree_vm_map() == s0.spec_tree_vm_map(),
                vm_sender_id.spec_name() == seq!['S', 'e', 'n', 'd', 'e', 'r', ':'] + s0.spec_cell_id().spec_name() + seq!['+']
                    + vm_id.spec_name(),
                forall|j: int| 0 <= j < i ==> has_key(tree_map@, #[trigger] names[j]),
                names_assigned(s0, *self, *sender_id, vm_sender_id, names.take(i as int), tree_map@),
                vm_filed(s0.spec_tree_vm_map(), vms@, ids_of(tree_map@, names.take(i as int)), *vm_id),
                vm_trees(trees@, names.take(i as int)),
            decreases allowed@.len() - i,
        {
            let tree = &allowed[i];
            let name = tree.get_name();
            let ghost s1 = *self;
            proof {
                assert(names[i as int] == name@);
                assert(names.take(i + 1) =~= names.take(i as int).push(name@));
            }
            let tree_id = match find(tree_map, name) {
                Some(k) => {
                    proof {
                        lemma_lookup_at(tree_map@, k as int);
                    }
                    tree_map[k].1.clone()
                },
                None => {
                    let tree_name = tree.clone();
                    proof {
                        let w = i as int;
                        assert(!has_key(tree_map@, names[w]));
                        assert(exists|q: int| 0 <= q < names.len() && !has_key(tree_map@, #[trigger] names[q]));
                        assert(vm_sender_id.spec_name() == seq!['S', 'e', 'n', 'd', 'e', 'r', ':'] + s0.spec_cell_id().spec_name()
                            + seq!['+'] + vm_id.spec_name());
                        assert(tree_name.spec_name() == names[w]);
                        assert(names_assigned(s0, *self, *sender_id, vm_sender_id, names.take(w), tree_map@));
                        assert(s0 == *old(self));
                    }
                    return Err(CellagentError::TreeMap { func_name: "deploy(vm)", cell_id: self.cell_id.clone(), tree_name });
                },
            };
            let ghost t0 = trees@;
            push_tree_once(&mut trees, tree);
            proof {
                let ot = names.take(i as int);
                let nt = names.take(i + 1);
                assert forall|n: Seq<char>| #[trigger] has_tree_named(trees@, n) <==> (n == CONTROL_TREE_NAME@ || nt.contains(n)) by {
                    assert(has_tree_named(t0, n) <==> (n == CONTROL_TREE_NAME@ || ot.contains(n)));
                    if nt.contains(n) && n != name@ {
                        let q = choose|q: int| 0 <= q < nt.len() && #[trigger] nt[q] == n;
                        assert(ot[q] == n);
                    }
                    if ot.contains(n) {
                        let q = choose|q: int| 0 <= q < ot.len() && #[trigger] ot[q] == n;
                        assert(nt[q] == n);
                    }
                    if n == name@ {
                        assert(nt[i as int] == n);
                    }
                }
            }
            self.add_tree_name_map_item(sender_id, tree, &tree_id);
            let ghost s2 = *self;
            self.add_tree_name_map_item(&vm_sender_id, tree, &tree_id);
            proof {
                let nt = names.take(i + 1);
                assert forall|s: SenderID|
                    (s.key_of() == sender_id.key_of() || s.key_of() == vm_sender_id.key_of()) implies forall|n: Seq<char>| #[trigger]
                        lookup(self.names_of(s), n) == if nt.contains(n) {
                            lookup(tree_map@, n)
                        } else {
                            lookup(s0.names_of(s), n)
                        } by {
                    assert forall|n: Seq<char>| #[trigger]
                        lookup(self.names_of(s), n) == if nt.contains(n) {
                            lookup(tree_map@, n)
                        } else {
                            lookup(s0.names_of(s), n)
                        } by {
                        let ot = names.take(i as int);
                        let k1 = sender_id.key_of();
                        let k2 = vm_sender_id.key_of();
                        assert(lookup(s1.names_of(s), n) == if ot.contains(n) {
                            lookup(tree_map@, n)
                        } else {
                            lookup(s0.names_of(s), n)
                        });
                        if n != name@ {
                            if nt.contains(n) {
                                let q = choose|q: int| 0 <= q < nt.len() && #[trigger] nt[q] == n;
                                assert(ot[q] == n);
                            }
                            if ot.contains(n) {
                                let q = choose|q: int| 0 <= q < ot.len() && #[trigger] ot[q] == n;
                                assert(nt[q] == n);
                            }
                        } else {
                            assert(nt[i as int] == n);
                        }
                        if s.key_of() == k2 {
                            assert(self.names_of(s) == self.names_of(vm_sender_id));
                            assert(s2.names_of(s) == s2.names_of(vm_sender_id));
                            assert(lookup(self.names_of(vm_sender_id), n) == if n == name@ {
                                Some(tree_id)
                            } else {
                                lookup(s2.names_of(vm_sender_id), n)
                            });
                            if k1 == k2 {
                                assert(s2.names_of(s) == s2.names_of(*sender_id));
                                assert(s1.names_of(s) == s1.names_of(*sender_id));
                                assert(lookup(s2.names_of(*sender_id), n) == if n == name@ {
                                    Some(tree_id)
                                } else {
                                    lookup(s1.names_of(*sender_id), n)
                                });
                            } else {
                                assert(lookup(s2.spec_tree_name_map(), s.key_of()) == lookup(s1.spec_tree_name_map(), s.key_of()));
                                assert(s2.names_of(s) == s1.names_of(s));
                            }
                        } else {
                            assert(s.key_of() == k1);
                            assert(lookup(self.spec_tree_name_map(), s.key_of()) == lookup(s2.spec_tree_name_map(), s.key_of()));
                            assert(self.names_of(s) == s2.names_of(s));
                            assert(s2.names_of(s) == s2.names_of(*sender_id));
                            assert(s1.names_of(s) == s1.names_of(*sender_id));
                            assert(lookup(s2.names_of(*sender_id), n) == if n == name@ {
                                Some(tree_id)
                            } else {
                                lookup(s1.names_of(*sender_id), n)
                            });
                        }
                    }
                }
                assert forall|s: SenderID|
                    s.key_of() != sender_id.key_of() && s.key_of() != vm_sender_id.key_of() implies #[trigger] lookup(
                        self.spec_tree_name_map(),
                        s.key_of(),
                    ) == lookup(s0.spec_tree_name_map(), s.key_of()) by {
                    assert(lookup(self.spec_tree_name_map(), s.key_of()) == lookup(s2.spec_tree_name_map(), s.key_of()));
                    assert(lookup(s2.spec_tree_name_map(), s.key_of()) == lookup(s1.spec_tree_name_map(), s.key_of()));
                }
            }
            let ghost before = vms@;
            match find(&vms, &tree_id) {
                Some(_) => {},
                None => {
                    let mut list: Vec<VmID> = Vec::new();
                    list.push(vm_id.clone());
                    file(&mut vms, tree_id.clone(), list);
                },
            }
            proof {
                let ids0 = ids_of(tree_map@, names.take(i as int));
                let ids1 = ids_of(tree_map@, names.take(i + 1));
                assert(ids1 =~= ids0.push(tree_id));
                assert forall|k: (Seq<char>, Uuid)| #[trigger]
                    vms_on(vms@, k) == if vms_on(s0.spec_tree_vm_map(), k) is Some {
                        vms_on(s0.spec_tree_vm_map(), k)
                    } else if exists|j: int| 0 <= j < ids1.len() && (#[trigger] ids1[j]).key_of() == k {
                        Some(seq![*vm_id])
                    } else {
                        None
                    } by {
                    assert(ids1[ids0.len() as int] == tree_id);
                    if k != tree_id.key_of() {
                        assert(vms_on(vms@, k) == vms_on(before, k));
                        if exists|j: int| 0 <= j < ids1.len() && (#[trigger] ids1[j]).key_of() == k {
                            let j = choose|j: int| 0 <= j < ids1.len() && (#[trigger] ids1[j]).key_of() == k;
                            assert(ids0[j] == ids1[j]);
                        }
                        if exists|j: int| 0 <= j < ids0.len() && (#[trigger] ids0[j]).key_of() == k {
                            let j = choose|j: int| 0 <= j < ids0.len() && (#[trigger] ids0[j]).key_of() == k;
                            assert(ids1[j] == ids0[j]);
                        }
                    } else {
                        if vms_on(before, k) is None {
                            assert(vms_on(vms@, k) == Some(seq![*vm_id]));
                        }
                    }
                }
            }
            i = i + 1;
        }
        proof {
            assert(names.take(allowed@.len() as int) =~= names);
        }
        let ghost s_pre = *self;
        self.tree_vm_map = vms;
        proof {
            assert(self@ == (CaView { tree_vm_map: self@.tree_vm_map, ..s_pre@ }));
            assert(names_assigned(*old(self), s_pre, *sender_id, vm_sender_id, names, tree_map@));
            assert(forall|s: SenderID| #[trigger] self.names_of(s) == s_pre.names_of(s));
            assert(forall|s: SenderID| #[trigger] lookup(self.spec_tree_name_map(), s.key_of()) == lookup(s_pre.spec_tree_name_map(), s.key_of()));
            assert(self.wf());
            assert(!(exists|q: int| 0 <= q < names.len() && !has_key(tree_map@, #[trigger] names[q])));
            assert(names_assigned(*old(self), *self, *sender_id, vm_sender_id, names, tree_map@));
        }
        Ok((vm_sender_id, trees))
    }
}

/// A copy of the VM lists.
fn copy_vm_map(m: &Vec<(TreeID, Vec<VmID>)>) -> (r: Vec<(TreeID, Vec<VmID>)>)
    requires
        keys_distinct(m@),
    ensures
        keys_distinct(r@),
        forall|k: (Seq<char>, Uuid)| #[trigger] vms_on(r@, k) == vms_on(m@, k),
{
    let mut r: Vec<(TreeID, Vec<VmID>)> = Vec::new();
    let mut i: usize = 0;
    while i < m.len()
        invariant
            i <= m@.len(),
            r@.len() == i,
            keys_distinct(m@),
            forall|k: int| 0 <= k < i ==> (#[trigger] r@[k]).0 == m@[k].0 && r@[k].1@ == m@[k].1@,
        decreases m@.len() - i,
    {
        let mut v: Vec<VmID> = Vec::new();
        let mut j: usize = 0;
        while j < m[i].1.len()
            invariant
                i < m@.len(),
                j <= m@[i as int].1@.len(),
                v@ == m@[i as int].1@.take(j as int),
            decreases m@[i as int].1@.len() - j,
        {
            v.push(m[i].1[j].clone());
            assert(v@ =~= m@[i as int].1@.take(j + 1));
            j = j + 1;
        }
        assert(m@[i as int].1@.take(m@[i as int].1@.len() as int) =~= m@[i as int].1@);
        r.push((m[i].0.clone(), v));
        i = i + 1;
    }
    proof {
        assert forall|x: int, y: int| 0 <= x < y < r@.len() implies (#[trigger] r@[x].0.key_of()) != (#[trigger] r@[y].0.key_of()) by {
            assert(m@[x].0.key_of() != m@[y].0.key_of());
        }
        assert forall|k: (Seq<char>, Uuid)| #[trigger] vms_on(r@, k) == vms_on(m@, k) by {
            if has_key(r@, k) {
                let q = choose|q: int| 0 <= q < r@.len() && (#[trigger] r@[q].0.key_of()) == k;
                lemma_lookup_at(r@, q);
                assert(m@[q].0.key_of() == k);
                lemma_lookup_at(m@, q);
            } else if has_key(m@, k) {
                let q = choose|q: int| 0 <= q < m@.len() && (#[trigger] m@[q].0.key_of()) == k;
                assert(r@[q].0.key_of() == k);
            }
        }
    }
    r
}

/// Adds the tree to the list unless a tree of that name is there.
fn push_tree_once(trees: &mut Vec<AllowedTree>, tree: &AllowedTree)
    requires
        forall|i: int, j: int|
            0 <= i < j < old(trees)@.len() ==> (#[trigger] old(trees)@[i]).spec_name() != (#[trigger] old(trees)@[j]).spec_name(),
    ensures
        forall|i: int, j: int|
            0 <= i < j < final(trees)@.len() ==> (#[trigger] final(trees)@[i]).spec_name() != (#[trigger] final(trees)@[j]).spec_name(),
        forall|n: Seq<char>| #[trigger]
            has_tree_named(final(trees)@, n) <==> (has_tree_named(old(trees)@, n) || n == tree.spec_name()),
{
    let mut i: usize = 0;
    while i < trees.len()
        invariant
            i <= trees@.len(),
            trees@ == old(trees)@,
            forall|a: int, b: int|
                0 <= a < b < old(trees)@.len() ==> (#[trigger] old(trees)@[a]).spec_name() != (#[trigger] old(trees)@[b]).spec_name(),
            forall|k: int| 0 <= k < i ==> (#[trigger] trees@[k]).spec_name() != tree.spec_name(),
        decreases trees@.len() - i,
    {
        if trees[i].get_name().same_key(tree.get_name()) {
            proof {
                assert(trees@[i as int].spec_name() == tree.spec_name());
            }
            return;
        }
        i = i + 1;
    }
    trees.push(tree.clone());
    proof {
        let t = trees@;
        assert forall|n: Seq<char>| #[trigger]
            has_tree_named(t, n) <==> (has_tree_named(old(trees)@, n) || n == tree.spec_name()) by {
            if n == tree.spec_name() {
                assert(t[t.len() - 1].spec_name() == n);
            }
            if exists|k: int| 0 <= k < old(trees)@.len() && (#[trigger] old(trees)@[k]).spec_name() == n {
                let k = choose|k: int| 0 <= k < old(trees)@.len() && (#[trigger] old(trees)@[k]).spec_name() == n;
                assert(t[k] == old(trees)@[k]);
            }
        }
    }
}

/// Equal variable lists give an expression the same value on a traph.
proof fn lemma_same_vars_eval(t: Traph, a: Seq<GvmVariable>, b: Seq<GvmVariable>, text: Seq<char>)
    requires
        same_variables(a, b),
    ensures
        traph_eval(t, a, text) == traph_eval(t, b, text),
{
    assert(all_hops(a) == all_hops(b)) by {
        if all_hops(a) {
            assert forall|k: int| 0 <= k < b.len() implies #[trigger] b[k].spec_var_name() == seq!['h', 'o', 'p', 's'] by {
                assert(a[k].spec_var_name() == b[k].spec_var_name());
            }
        }
        if all_hops(b) {
            assert forall|k: int| 0 <= k < a.len() implies #[trigger] a[k].spec_var_name() == seq!['h', 'o', 'p', 's'] by {
                assert(a[k].spec_var_name() == b[k].spec_var_name());
            }
        }
    }
}

/// A message body handed to the VM.
pub open spec fn delivered(x: CaToCm, vm: VmID, is_ait: bool, body: Seq<u8>) -> bool {
    x matches CaToCm::ToVm { vm_id, is_ait: ait, body: b } && vm_id == vm && ait == is_ait && b@ == body
}

/// The equation the agent keeps for the tree.
pub open spec fn stored_eqn(a: CellAgent, tree_id: TreeID) -> Option<GvmEquation> {
    match a.traph_for_tree(tree_id) {
        Some(t) => match lookup(t.spec_stacked(), tree_id.spec_uuid()) {
            Some(tree) => Some(tree.spec_gvm_eqn()),
            None => None,
        },
        None => None,
    }
}

/// Whether a message on the tree is saved, by the equation: both its save
/// and its extend expressions hold on the base tree's traph; `None` where
/// that cannot be told.
pub open spec fn save_of(a: CellAgent, tree_id: TreeID, g: GvmEquation) -> Option<bool> {
    match a.base_tree_of(tree_id) {
        None => Some(false),
        Some(bt) => match a.traph_of(bt.spec_uuid()) {
            None => None,
            Some(t) => match (traph_eval(t, g.spec_variables(), g.spec_save()), traph_eval(t, g.spec_variables(), g.spec_xtnd())) {
                (Some(sv), Some(x)) => Some(sv && x),
                _ => None,
            },
        },
    }
}

/// The message, saved for its tree when `save` holds and it goes leafward.
pub open spec fn application_saved(a: CellAgent, b: CellAgent, msg: ApplicationMsg, save: bool) -> bool {
    let tree_id = msg.spec_payload().spec_tree_id();
    if save && msg.spec_header().spec_direction() == MsgDirection::Leafward {
        &&& b.wf()
        &&& b@ == (CaView { saved_msgs: b@.saved_msgs, ..a@ })
        &&& list_of(b.spec_saved_msgs(), tree_id).len() == list_of(a.spec_saved_msgs(), tree_id).len() + 1
        &&& list_of(b.spec_saved_msgs(), tree_id).drop_last() == list_of(a.spec_saved_msgs(), tree_id)
        &&& list_of(b.spec_saved_msgs(), tree_id).last() matches (Some(m), None) && m.same(&msg)
        &&& forall|t: TreeID| t.key_of() != tree_id.key_of() ==> #[trigger] list_of(b.spec_saved_msgs(), t) == list_of(
            a.spec_saved_msgs(),
            t,
        )
    } else {
        b == a
    }
}

/// What `process_application_msg` does: the body goes to each VM on the
/// message's tree; then, when the tree's equation says so, a leafward
/// message is saved for the tree.
pub open spec fn application_processed(
    a: CellAgent,
    b: CellAgent,
    msg: ApplicationMsg,
    msg_tree_id: TreeID,
    is_ait: bool,
    r: Result<(), CellagentError>,
    sent: Seq<CaToCm>,
) -> bool {
    let tree_id = msg.spec_payload().spec_tree_id();
    match vms_on(a.spec_tree_vm_map(), tree_id.key_of()) {
        None => b == a && sent.len() == 0 && (r matches Err(CellagentError::Tree { func_name, cell_id, tree_uuid }) && func_name
            == "get_vm_senders" && tree_uuid == tree_id.spec_uuid()),
        Some(vms) => {
            &&& sent.len() == vms.len()
            &&& forall|k: int| 0 <= k < vms.len() ==> delivered(#[trigger] sent[k], vms[k], is_ait, msg.spec_payload().spec_body())
            &&& if a.traph_for_tree(tree_id) matches Some(t) && tree_entry_in(t, tree_id.spec_uuid()) is None {
                b == a && (r matches Err(CellagentError::Traph(TraphError::Chain { func_name, comment })) && func_name
                    == "get_tree_entry")
            } else {
                match stored_eqn(a, tree_id) {
                    None => b == a && r is Err,
                    Some(g) => match save_of(a, msg_tree_id, g) {
                        None => b == a && r is Err,
                        Some(save) => r is Ok && application_saved(a, b, msg, save),
                    },
                }
            }
        },
    }
}

/// An application message handled successfully reaches every VM on its
/// tree, in order, with its body and AIT flag; it is saved for the tree,
/// after the messages saved before, exactly when it goes leafward and the
/// tree's save and extend equations both hold, and otherwise the agent is
/// left as it was: a rootward message is never saved.
pub proof fn law_application_delivered_and_saved(
    a: CellAgent,
    b: CellAgent,
    msg: ApplicationMsg,
    msg_tree_id: TreeID,
    is_ait: bool,
    r: Result<(), CellagentError>,
    sent: Seq<CaToCm>,
)
    requires
        application_processed(a, b, msg, msg_tree_id, is_ait, r, sent),
        r is Ok,
    ensures
        vms_on(a.spec_tree_vm_map(), msg.spec_payload().spec_tree_id().key_of()) matches Some(vms) && sent.len() == vms.len()
            && forall|k: int|
            0 <= k < vms.len() ==> (#[trigger] sent[k] matches CaToCm::ToVm { vm_id, is_ait: ait, body } && vm_id == vms[k]
                && ait == is_ait && body@ == msg.spec_payload().spec_body()),
        msg.spec_header().spec_direction() != MsgDirection::Leafward ==> b == a,
        ({
            let tree_id = msg.spec_payload().spec_tree_id();
            let save = save_of(a, msg_tree_id, stored_eqn(a, tree_id)->0);
            let leafward = msg.spec_header().spec_direction() == MsgDirection::Leafward;
            &&& stored_eqn(a, tree_id) is Some
            &&& save is Some
            &&& save->0 && leafward ==> {
                &&& list_of(b.spec_saved_msgs(), tree_id).len() == list_of(a.spec_saved_msgs(), tree_id).len() + 1
                &&& list_of(b.spec_saved_msgs(), tree_id).last() matches (Some(m), None)
                &&& m.same(&msg)
            }
            &&& !(save->0 && leafward) ==> b == a
        }),
{
    let vms = vms_on(a.spec_tree_vm_map(), msg.spec_payload().spec_tree_id().key_of())->0;
    assert forall|k: int| 0 <= k < vms.len() implies (#[trigger] sent[k] matches CaToCm::ToVm { vm_id, is_ait: ait, body }
        && vm_id == vms[k] && ait == is_ait && body@ == msg.spec_payload().spec_body()) by {
        assert(delivered(sent[k], vms[k], is_ait, msg.spec_payload().spec_body()));
    }
}

impl CellAgent {
    /// An application message arrived: see `application_processed`.
    #[verifier::spinoff_prover]
    pub fn process_application_msg(
        &mut self,
        msg: &ApplicationMsg,
        _port_no: PortNo,
        msg_tree_id: &TreeID,
        is_ait: bool,
        out: &mut Vec<CaToCm>,
    ) -> (r: Result<(), CellagentError>)
        requires
            old(self).wf(),
        ensures
            final(self).wf(),
            final(out)@.len() >= old(out)@.len(),
            final(out)@.take(old(out)@.len() as int) == old(out)@,
            application_processed(*old(self), *final(self), *msg, *msg_tree_id, is_ait, r, final(out)@.skip(old(out)@.len() as int)),
    {
        let ghost out0 = out@;
        proof {
            assert(out@.skip(out0.len() as int) =~= Seq::<CaToCm>::empty());
            assert(out@.take(out0.len() as int) =~= out0);
        }
        let tree_id = msg.get_tree_id();
        let k = match find(&self.tree_vm_map, tree_id) {
            Some(k) => k,
            None => {
                return Err(CellagentError::Tree { func_name: "get_vm_senders", cell_id: self.cell_id.clone(), tree_uuid: tree_id.get_uuid() });
            },
        };
        proof {
            lemma_lookup_at(self.tree_vm_map@, k as int);
        }
        let ghost vms = self.tree_vm_map@[k as int].1@;
        let body = &msg.get_payload().get_body().0;
        let mut j: usize = 0;
        while j < self.tree_vm_map[k].1.len()
            invariant
                k < self.tree_vm_map@.len(),
                vms == self.tree_vm_map@[k as int].1@,
                j <= vms.len(),
                body@ == msg.spec_payload().spec_body(),
                out@.len() == out0.len() + j,
                out@.take(out0.len() as int) == out0,
                forall|q: int|
                    0 <= q < j ==> delivered(#[trigger] out@.skip(out0.len() as int)[q], vms[q], is_ait, msg.spec_payload().spec_body()),
            decreases vms.len() - j,
        {
            let ghost before = out@;
            out.push(CaToCm::ToVm { vm_id: self.tree_vm_map[k].1[j].clone(), is_ait, body: body.clone() });
            proof {
                assert(out@.take(out0.len() as int) =~= before.take(out0.len() as int));
                assert forall|q: int| 0 <= q < j + 1 implies delivered(
                    #[trigger] out@.skip(out0.len() as int)[q],
                    vms[q],
                    is_ait,
                    msg.spec_payload().spec_body(),
                ) by {
                    if q < j {
                        assert(out@.skip(out0.len() as int)[q] == before.skip(out0.len() as int)[q]);
                    }
                }
            }
            j = j + 1;
        }
        let ghost sent = out@.skip(out0.len() as int);
        let ghost s0 = *self;
        let user_mask = match self.get_mask(tree_id) {
            Ok(m) => m,
            Err(e) => {
                return Err(e);
            },
        };
        let gvm_eqn = match self.get_gvm_eqn(tree_id) {
            Ok(g) => g,
            Err(e) => {
                return Err(e);
            },
        };
        let rs = self.gvm_eval_save(msg_tree_id, &gvm_eqn);
        proof {
            let t = self.traph_for_tree(*tree_id)->0;
            let st = lookup(t.spec_stacked(), tree_id.spec_uuid())->0.spec_gvm_eqn();
            assert(stored_eqn(*self, *tree_id) == Some(st));
            if let Some(bt) = self.base_tree_of(*msg_tree_id) {
                if let Some(t2) = self.traph_of(bt.spec_uuid()) {
                    lemma_same_vars_eval(t2, gvm_eqn.spec_variables(), st.spec_variables(), st.spec_save());
                    lemma_same_vars_eval(t2, gvm_eqn.spec_variables(), st.spec_variables(), st.spec_xtnd());
                }
            }
        }
        let save = match rs {
            Ok(b) => b,
            Err(e) => {
                return Err(e);
            },
        };
        if save && msg.is_leafward() {
            let copy = msg.clone();
            self.add_saved_msg(tree_id, user_mask, (Some(copy), None));
            proof {
                let l = list_of(self.spec_saved_msgs(), *tree_id);
                assert(l.drop_last() =~= list_of(s0.spec_saved_msgs(), *tree_id));
                assert(application_saved(s0, *self, *msg, save));
            }
        }
        proof {
            assert(out@.skip(out0.len() as int) == sent);
            assert(application_processed(*old(self), *self, *msg, *msg_tree_id, is_ait, Ok(()), sent));
        }
        Ok(())
    }
}

/// What `process_manifest_msg` does once the manifest is deployed: when
/// the deployment tree's equation says so, the message is saved for the
/// tree.
pub open spec fn manifest_processed(a: CellAgent, b: CellAgent, msg: ManifestMsg, msg_tree_id: TreeID, r: Result<(), CellagentError>) -> bool {
    let tree_id = msg.spec_payload().spec_deploy_tree_id();
    match a.traph_for_tree(tree_id) {
        None => b == a && traph_missing(a, tree_id, r),
        Some(t) => if tree_entry_in(t, tree_id.spec_uuid()) is None {
            b == a && (r matches Err(CellagentError::Traph(TraphError::Chain { func_name, comment })) && func_name
                == "get_tree_entry")
        } else {
            match stored_eqn(a, tree_id) {
                None => b == a && r is Err,
                Some(g) => match save_of(a, msg_tree_id, g) {
                    None => b == a && r is Err,
                    Some(save) => r is Ok && if save {
                        &&& b.wf()
                        &&& b@ == (CaView { saved_msgs: b@.saved_msgs, ..a@ })
                        &&& list_of(b.spec_saved_msgs(), tree_id).len() == list_of(a.spec_saved_msgs(), tree_id).len() + 1
                        &&& list_of(b.spec_saved_msgs(), tree_id).drop_last() == list_of(a.spec_saved_msgs(), tree_id)
                        &&& list_of(b.spec_saved_msgs(), tree_id).last() matches (None, Some(m)) && m.same(&msg)
                        &&& forall|u: TreeID| u.key_of() != tree_id.key_of() ==> #[trigger] list_of(b.spec_saved_msgs(), u)
                            == list_of(a.spec_saved_msgs(), u)
                    } else {
                        b == a
                    },
                },
            }
        },
    }
}

/// A manifest message handled successfully is saved for its deployment
/// tree, after the messages saved before, exactly when the tree's save and
/// extend equations both hold; otherwise the agent is left as it was.
pub proof fn law_manifest_saved_when_save(
    a: CellAgent,
    b: CellAgent,
    msg: ManifestMsg,
    msg_tree_id: TreeID,
    r: Result<(), CellagentError>,
)
    requires
        manifest_processed(a, b, msg, msg_tree_id, r),
        r is Ok,
    ensures
        ({
            let tree_id = msg.spec_payload().spec_deploy_tree_id();
            let save = save_of(a, msg_tree_id, stored_eqn(a, tree_id)->0);
            &&& stored_eqn(a, tree_id) is Some
            &&& save is Some
            &&& save->0 ==> {
                &&& list_of(b.spec_saved_msgs(), tree_id).len() == list_of(a.spec_saved_msgs(), tree_id).len() + 1
                &&& list_of(b.spec_saved_msgs(), tree_id).last() matches (None, Some(m))
                &&& m.same(&msg)
            }
            &&& !save->0 ==> b == a
        }),
{
}

impl CellAgent {
    /// A manifest message arrived and its VMs were deployed (`deploy`,
    /// then `deploy_vm` for each VM the caller started): see
    /// `manifest_processed`.
    #[verifier::spinoff_prover]
    pub fn process_manifest_msg(&mut self, msg: &ManifestMsg, _port_no: PortNo, msg_tree_id: &TreeID) -> (r: Result<
        (),
        CellagentError,
    >)
        requires
            old(self).wf(),
        ensures
            final(self).wf(),
            manifest_processed(*old(self), *final(self), *msg, *msg_tree_id, r),
    {
        let tree_id = msg.get_payload().get_deploy_tree_id();
        match self.get_traph(tree_id) {
            Ok(_) => {},
            Err(e) => {
                return Err(e);
            },
        }
        let entry = match self.get_tree_entry(tree_id) {
            Ok(e) => e,
            Err(e) => {
                return Err(e);
            },
        };
        let user_mask = entry.get_mask();
        let gvm_eqn = match self.get_gvm_eqn(tree_id) {
            Ok(g) => g,
            Err(e) => {
                return Err(e);
            },
        };
        let ghost s0 = *self;
        let rs = self.gvm_eval_save(msg_tree_id, &gvm_eqn);
        proof {
            let t = self.traph_for_tree(*tree_id)->0;
            let st = lookup(t.spec_stacked(), tree_id.spec_uuid())->0.spec_gvm_eqn();
            assert(stored_eqn(*self, *tree_id) == Some(st));
            if let Some(bt) = self.base_tree_of(*msg_tree_id) {
                if let Some(t2) = self.traph_of(bt.spec_uuid()) {
                    lemma_same_vars_eval(t2, gvm_eqn.spec_variables(), st.spec_variables(), st.spec_save());
                    lemma_same_vars_eval(t2, gvm_eqn.spec_variables(), st.spec_variables(), st.spec_xtnd());
                }
            }
        }
        let save = match rs {
            Ok(b) => b,
            Err(e) => {
                return Err(e);
            },
        };
        if save {
            let copy = msg.clone();
            self.add_saved_msg(tree_id, user_mask, (None, Some(copy)));
            proof {
                let l = list_of(self.spec_saved_msgs(), *tree_id);
                assert(l.drop_last() =~= list_of(s0.spec_saved_msgs(), *tree_id));
            }
        }
        Ok(())
    }
}

/// The name of a `tcp_manifest` parameter.
pub open spec fn manifest_param(which: int) -> Seq<char> {
    if which == 0 {
        seq!['d', 'e', 'p', 'l', 'o', 'y', '_', 't', 'r', 'e', 'e', '_', 'n', 'a', 'm', 'e']
    } else {
        seq!['m', 'a', 'n', 'i', 'f', 'e', 's', 't']
    }
}

/// The manifest message as `tcp_manifest` sends it on the deployment tree
/// `d`, with the trees the manifest allows, as the sender names them.
pub open spec fn manifest_sent(x: CaToCm, sender_id: SenderID, d: TreeID, mask: u16, mf: Manifest, tree_map: Seq<(String, TreeID)>) -> bool {
    x matches CaToCm::Msg { tree_id, is_ait, is_blocking, mask: m2, msg: CaMsg::Manifest(m) } && tree_id == d && !is_ait
        && !is_blocking && m2@ == mask && m.spec_header().spec_sender_id() == sender_id && m.spec_header().spec_msg_type()
        == MsgType::Manifest && m.spec_header().spec_direction() == MsgDirection::Leafward
        && m.spec_payload().spec_deploy_tree_id() == d && same_manifest(m.spec_payload().spec_manifest(), mf) && exists|
        v: Seq<(String, TreeID)>,
    |
        #![trigger tree_map_view(v)]
        {
            &&& keys_distinct(v)
            &&& m.spec_header().spec_tree_map() == tree_map_view(v)
            &&& forall|n: Seq<char>| #[trigger]
                lookup(v, n) == if mf.spec_allowed_trees().contains(n) {
                    lookup(tree_map, n)
                } else {
                    None
                }
        }
}

/// `tcp_manifest` once the deployment tree `d`, with entry `e`, may be sent
/// on and the manifest is read.
pub open spec fn tcp_manifest_sent(
    a: CellAgent,
    b: CellAgent,
    sender_id: SenderID,
    d: TreeID,
    e: RoutingTableEntry,
    mf: Manifest,
    tree_map: Seq<(String, TreeID)>,
    r: Result<Vec<(String, TreeID)>, CellagentError>,
    sent: Seq<CaToCm>,
) -> bool {
    let names = mf.spec_allowed_trees();
    let unchanged = b == a && sent.len() == 0;
    if exists|i: int| 0 <= i < names.len() && !has_key(tree_map, #[trigger] names[i]) {
        unchanged && (r matches Err(CellagentError::TreeMap { func_name, cell_id, tree_name }) && func_name == "listen_cm_loop 5"
            && exists|i: int|
            #![trigger names[i]]
            0 <= i < names.len() && names[i] == tree_name.spec_name() && !has_key(tree_map, names[i]) && forall|j: int|
                0 <= j < i ==> has_key(tree_map, #[trigger] names[j]))
    } else if lookup(a.spec_tree_map(), d.spec_uuid()) is None {
        unchanged && (r matches Err(CellagentError::Tree { func_name, cell_id, tree_uuid }) && func_name == "send_bytes")
    } else {
        &&& sent.len() == 1
        &&& manifest_sent(sent[0], sender_id, d, e.spec_mask() | 1u16, mf, tree_map)
        &&& b.wf()
        &&& b@ == (CaView { saved_msgs: b@.saved_msgs, ..a@ })
        &&& list_of(b.spec_saved_msgs(), d).drop_last() == list_of(a.spec_saved_msgs(), d)
        &&& list_of(b.spec_saved_msgs(), d).len() == list_of(a.spec_saved_msgs(), d).len() + 1
        &&& sent[0] matches CaToCm::Msg { msg: CaMsg::Manifest(m), .. } && (list_of(b.spec_saved_msgs(), d).last() matches (
            None,
            Some(m2),
        ) && m2.same(&m))
        &&& forall|u: TreeID| u.key_of() != d.key_of() ==> #[trigger] list_of(b.spec_saved_msgs(), u) == list_of(a.spec_saved_msgs(), u)
        &&& r matches Ok(t) && tree_map_view(t@) == tree_map_view(tree_map)
    }
}

/// What `tcp_manifest` does: the outside partner asks to deploy a manifest
/// on a tree it may send on; the manifest message, naming the trees the
/// manifest allows as the partner names them, goes out on the tree (and to
/// the cell itself) and is saved for it. `manifest` is the manifest the
/// request carries, read by the caller; `None` where it could not be read.
pub open spec fn tcp_manifest_done(
    a: CellAgent,
    b: CellAgent,
    sender_id: SenderID,
    tcp_msg: Seq<(String, String)>,
    manifest: Option<Manifest>,
    tree_map: Seq<(String, TreeID)>,
    r: Result<Vec<(String, TreeID)>, CellagentError>,
    sent: Seq<CaToCm>,
) -> bool {
    let unchanged = b == a && sent.len() == 0;
    match lookup(tcp_msg, manifest_param(0)) {
        None => unchanged && (r matches Err(CellagentError::Message { func_name, .. }) && func_name == "get_param"),
        Some(dn) => match lookup(tree_map, dn@) {
            None => unchanged && (r matches Err(CellagentError::TreeMap { func_name, cell_id, tree_name }) && func_name
                == "listen_cm_loop 4" && tree_name.spec_name() == dn@),
            Some(d) => match a.traph_for_tree(d) {
                None => unchanged && r is Err,
                Some(t) => match tree_entry_in(t, d.spec_uuid()) {
                    None => unchanged && r is Err,
                    Some(e) => if !e.spec_may_send() {
                        unchanged && (r matches Err(CellagentError::MayNotSend { cell_id, func_name, tree_id }) && func_name
                            == "tcp_manifest" && tree_id == d)
                    } else if lookup(tcp_msg, manifest_param(1)) is None {
                        unchanged && (r matches Err(CellagentError::Message { func_name, .. }) && func_name == "get_param")
                    } else {
                        match manifest {
                            None => unchanged && (r matches Err(CellagentError::Chain { func_name, comment }) && func_name
                                == "tcp_manifest" && comment == "manifest"),
                            Some(mf) => tcp_manifest_sent(a, b, sender_id, d, e, mf, tree_map, r, sent),
                        }
                    },
                },
            },
        },
    }
}

/// An outside partner's manifest request, when it succeeds, sends one
/// manifest message, on the deployment tree the partner names, to the cell
/// itself and to every port the tree's entry selects; the message is saved
/// for the tree, after those saved before.
pub proof fn law_tcp_manifest_spread(
    a: CellAgent,
    b: CellAgent,
    sender_id: SenderID,
    tcp_msg: Seq<(String, String)>,
    manifest: Option<Manifest>,
    tree_map: Seq<(String, TreeID)>,
    r: Result<Vec<(String, TreeID)>, CellagentError>,
    sent: Seq<CaToCm>,
)
    requires
        tcp_manifest_done(a, b, sender_id, tcp_msg, manifest, tree_map, r, sent),
        r is Ok,
    ensures
        sent.len() == 1,
        lookup(tcp_msg, manifest_param(0)) is Some,
        lookup(tree_map, lookup(tcp_msg, manifest_param(0))->0@) is Some,
        ({
            let d = lookup(tree_map, lookup(tcp_msg, manifest_param(0))->0@)->0;
            let e = tree_entry_in(a.traph_for_tree(d)->0, d.spec_uuid())->0;
            &&& a.traph_for_tree(d) is Some
            &&& tree_entry_in(a.traph_for_tree(d)->0, d.spec_uuid()) is Some
            &&& sent[0] matches CaToCm::Msg { tree_id, mask, msg: CaMsg::Manifest(m), .. }
            &&& tree_id == d
            &&& m.spec_payload().spec_deploy_tree_id() == d
            &&& port_bit(mask@, 0)
            &&& forall|q: u16| q < 16 && #[trigger] port_bit(e.spec_mask(), q) ==> port_bit(mask@, q)
            &&& list_of(b.spec_saved_msgs(), d).len() == list_of(a.spec_saved_msgs(), d).len() + 1
        }),
{
    let dn = lookup(tcp_msg, manifest_param(0))->0;
    let d = lookup(tree_map, dn@)->0;
    let t = a.traph_for_tree(d)->0;
    let e = tree_entry_in(t, d.spec_uuid())->0;
    let mf = manifest->0;
    assert(tcp_manifest_sent(a, b, sender_id, d, e, mf, tree_map, r, sent));
    assert(manifest_sent(sent[0], sender_id, d, e.spec_mask() | 1u16, mf, tree_map));
    assert(port_bit(1u16, 0)) by (bit_vector);
    if let CaToCm::Msg { mask, .. } = sent[0] {
        lemma_mask_set_algebra(e.spec_mask(), 1u16, 0);
        assert(port_bit(mask@, 0));
        assert forall|q: u16| q < 16 && #[trigger] port_bit(e.spec_mask(), q) implies port_bit(mask@, q) by {
            lemma_mask_set_algebra(e.spec_mask(), 1u16, q);
        }
    }
}

impl CellAgent {
    /// See `tcp_manifest_done`.
    #[verifier::spinoff_prover]
    #[verifier::rlimit(30)]
    #[verifier::loop_isolation(false)]
    fn tcp_manifest(
        &mut self,
        sender_id: &SenderID,
        tcp_msg: &Vec<(String, String)>,
        manifest: Option<&Manifest>,
        _direction: MsgDirection,
        tree_map: &Vec<(String, TreeID)>,
        out: &mut Vec<CaToCm>,
    ) -> (r: Result<Vec<(String, TreeID)>, CellagentError>)
        requires
            old(self).wf(),
            keys_distinct(tcp_msg@),
            keys_distinct(tree_map@),
        ensures
            final(self).wf(),
            final(out)@.len() >= old(out)@.len(),
            final(out)@.take(old(out)@.len() as int) == old(out)@,
            tcp_manifest_done(
                *old(self),
                *final(self),
                *sender_id,
                tcp_msg@,
                match manifest {
                    Some(m) => Some(*m),
                    None => None,
                },
                tree_map@,
                r,
                final(out)@.skip(old(out)@.len() as int),
            ),
    {
        let ghost out0 = out@;
        proof {
            assert(out@.skip(out0.len() as int) =~= Seq::<CaToCm>::empty());
            assert(out@.take(out0.len() as int) =~= out0);
            reveal_strlit("deploy_tree_name");
            reveal_strlit("manifest");
            assert("deploy_tree_name"@ =~= manifest_param(0));
            assert("manifest"@ =~= manifest_param(1));
        }
        let deploy_tree_name = match self.get_msg_params(tcp_msg, "deploy_tree_name") {
            Ok(p) => p,
            Err(e) => {
                return Err(e);
            },
        };
        let deploy_tree = AllowedTree::new(deploy_tree_name.as_str());
        let deploy_tree_id = match find(tree_map, deploy_tree.get_name()) {
            Some(i) => {
                proof {
                    lemma_lookup_at(tree_map@, i as int);
                }
                tree_map[i].1.clone()
            },
            None => {
                return Err(CellagentError::TreeMap { func_name: "listen_cm_loop 4", cell_id: self.cell_id.clone(), tree_name: deploy_tree });
            },
        };
        match self.may_send(&deploy_tree_id) {
            Ok(true) => {},
            Ok(false) => {
                return Err(
                    CellagentError::MayNotSend { func_name: "tcp_manifest", cell_id: self.cell_id.clone(), tree_id: deploy_tree_id },
                );
            },
            Err(e) => {
                return Err(e);
            },
        }
        match self.get_msg_params(tcp_msg, "manifest") {
            Ok(_) => {},
            Err(e) => {
                return Err(e);
            },
        }
        let manifest = match manifest {
            Some(m) => m,
            None => {
                return Err(CellagentError::Chain { func_name: "tcp_manifest", comment: "manifest" });
            },
        };
        let allowed = manifest.get_allowed_trees();
        let ghost names = manifest.spec_allowed_trees();
        let mut msg_tree_map: Vec<(String, TreeID)> = Vec::new();
        proof {
            assert(names.take(0) =~= Seq::<Seq<char>>::empty());
        }
        let mut i: usize = 0;
        while i < allowed.len()
            invariant
                i <= allowed@.len(),
                names == tree_names(allowed@),
                names == manifest.spec_allowed_trees(),
                keys_distinct(tree_map@),
                keys_distinct(msg_tree_map@),
                forall|j: int| 0 <= j < i ==> has_key(tree_map@, #[trigger] names[j]),
                forall|n: Seq<char>| #[trigger]
                    lookup(msg_tree_map@, n) == if names.take(i as int).contains(n) {
                        lookup(tree_map@, n)
                    } else {
                        None
                    },
            decreases allowed@.len() - i,
        {
            let name = allowed[i].get_name();
            proof {
                assert(names[i as int] == name@);
            }
            match find(tree_map, name) {
                Some(k) => {
                    proof {
                        lemma_lookup_at(tree_map@, k as int);
                    }
                    file(&mut msg_tree_map, name.clone(), tree_map[k].1.clone());
                    proof {
                        assert forall|n: Seq<char>| #[trigger]
                            lookup(msg_tree_map@, n) == if names.take(i + 1).contains(n) {
                                lookup(tree_map@, n)
                            } else {
                                None
                            } by {
                            assert(names.take(i + 1) =~= names.take(i as int).push(name@));
                            let t1 = names.take(i + 1);
                            if n == name@ {
                                assert(t1[i as int] == n);
                            } else if t1.contains(n) {
                                let q = choose|q: int| 0 <= q < t1.len() && #[trigger] t1[q] == n;
                                assert(names.take(i as int)[q] == n);
                            } else if names.take(i as int).contains(n) {
                                let q = choose|q: int| 0 <= q < names.take(i as int).len() && #[trigger] names.take(i as int)[q] == n;
                                assert(t1[q] == n);
                            }
                        }
                    }
                },
                None => {
                    let tree_name = allowed[i].clone();
                    proof {
                        let w = i as int;
                        assert(!has_key(tree_map@, names[w]));
                        assert(tree_name.spec_name() == names[w]);
                        assert(exists|q: int| 0 <= q < names.len() && !has_key(tree_map@, #[trigger] names[q]));
                    }
                    return Err(CellagentError::TreeMap { func_name: "listen_cm_loop 5", cell_id: self.cell_id.clone(), tree_name });
                },
            }
            i = i + 1;
        }
        proof {
            assert(names.take(allowed@.len() as int) =~= names);
            assert(!(exists|q: int| 0 <= q < names.len() && !has_key(tree_map@, #[trigger] names[q])));
        }
        let msg = ManifestMsg::new(sender_id, false, &deploy_tree_id, &msg_tree_map, manifest);
        let mask = match self.get_mask(&deploy_tree_id) {
            Ok(m) => m,
            Err(e) => {
                return Err(e);
            },
        };
        let copy = msg.clone();
        let ghost s0 = *self;
        match self.send_msg(&deploy_tree_id, CaMsg::Manifest(msg), mask.or(Mask::port0()), out) {
            Ok(()) => {},
            Err(e) => {
                return Err(e);
            },
        }
        self.add_saved_msg(&deploy_tree_id, mask, (None, Some(copy)));
        let updated = copy_tree_map(tree_map);
        proof {
            assert(out@.take(out0.len() as int) =~= out0);
            let l = list_of(self.spec_saved_msgs(), deploy_tree_id);
            assert(l.drop_last() =~= list_of(s0.spec_saved_msgs(), deploy_tree_id));
            assert(keys_distinct(msg_tree_map@));
        }
        Ok(updated)
    }
}

/// A tree map with the same names and trees as one whose names are
/// distinct has distinct names.
proof fn lemma_view_keys(s: Seq<(String, TreeID)>, t: Seq<(String, TreeID)>)
    requires
        keys_distinct(s),
        tree_map_view(t) == tree_map_view(s),
    ensures
        keys_distinct(t),
{
    assert(t.len() == tree_map_view(t).len());
    assert forall|i: int, j: int| 0 <= i < j < t.len() implies (#[trigger] t[i].0.key_of()) != (#[trigger] t[j].0.key_of()) by {
        assert(tree_map_view(t)[i] == tree_map_view(s)[i]);
        assert(tree_map_view(t)[j] == tree_map_view(s)[j]);
        assert(s[i].0.key_of() != s[j].0.key_of());
    }
}

/// What the caller read from a request from an outside partner or a VM:
/// the equation or manifest that a stack-tree or manifest request carries,
/// where it could be read.
pub struct TcpRequest {
    pub gvm_eqn: Option<GvmEquation>,
    pub manifest: Option<Manifest>,
}

/// What a JSON text parses to as a map from strings to strings: its entries
/// in the order of their keys, or `None` where the text is no such map.
pub uninterp spec fn json_string_map(text: Seq<char>) -> Option<Seq<(Seq<char>, Seq<char>)>>;

/// The entries as plain values.
pub open spec fn string_pairs(p: Seq<(String, String)>) -> Seq<(Seq<char>, Seq<char>)> {
    p.map_values(|e: (String, String)| (e.0@, e.1@))
}

/// Parses a request's text as a map from strings to strings
/// (`serde_json::from_str` into a `BTreeMap<String, String>`, whose entries
/// come out with distinct keys). The contract names the entries and states
/// that their keys are distinct.
#[verifier::external_body]
fn parse_string_map(text: &str) -> (r: Option<Vec<(String, String)>>)
    ensures
        r is None <==> json_string_map(text@) is None,
        r matches Some(v) ==> string_pairs(v@) == json_string_map(text@)->0,
        r matches Some(v) ==> forall|i: int, j: int| 0 <= i < j < v@.len() ==> v@[i].0@ != v@[j].0@,
{
    match serde_json::from_str::<std::collections::BTreeMap<String, String>>(text) {
        Ok(m) => Some(m.into_iter().collect()),
        Err(_) => None,
    }
}

/// What a request of each type does, given the sender's tree map; `r` is
/// the sender's tree map after it.
pub open spec fn tcp_handled(
    a: CellAgent,
    b: CellAgent,
    sender_id: SenderID,
    allowed_tree: AllowedTree,
    msg_type: TcpMsgType,
    direction: MsgDirection,
    text: Seq<char>,
    req: TcpRequest,
    tree_map: Seq<(String, TreeID)>,
    r: Result<Vec<(String, TreeID)>, CellagentError>,
    sent: Seq<CaToCm>,
) -> bool {
    let unchanged = b == a && sent.len() == 0;
    match msg_type {
        TcpMsgType::Application => tcp_application_done(a, b, sender_id, allowed_tree, vstd::utf8::encode_utf8(text), direction,
            tree_map, r, sent),
        TcpMsgType::DeleteTree => unchanged && (r matches Err(CellagentError::Utility(UtilityError::Unimplemented { feature, func_name }))
            && func_name == "tcp_delete_tree"),
        TcpMsgType::Query => unchanged && (r matches Err(CellagentError::Utility(UtilityError::Unimplemented { feature, func_name }))
            && func_name == "tcp_query"),
        TcpMsgType::TreeName => unchanged && (r matches Err(CellagentError::TcpMessageType { func_name, cell_id, msg })
            && func_name == "tcp_tree_name"),
        TcpMsgType::Manifest => match json_string_map(text) {
            None => unchanged && (r matches Err(CellagentError::Chain { func_name, comment }) && func_name == "tcp_manifest"
                && comment == "deserialize"),
            Some(q) => exists|p: Seq<(String, String)>|
                string_pairs(p) == q && #[trigger] tcp_manifest_done(a, b, sender_id, p, req.manifest, tree_map, r, sent),
        },
        TcpMsgType::StackTree => match json_string_map(text) {
            None => unchanged && (r matches Err(CellagentError::Chain { func_name, comment }) && func_name == "tcp_stack_tree"
                && comment == "deserialize"),
            Some(q) => exists|p: Seq<(String, String)>|
                string_pairs(p) == q && #[trigger] tcp_stack_tree_done(a, b, sender_id, p, req.gvm_eqn, direction, tree_map, r,
                    sent),
        },
    }
}

/// A request from the sender handled on (a copy of) the sender's tree map,
/// and the map it gives kept as the sender's.
pub open spec fn tcp_step(
    a: CellAgent,
    b: CellAgent,
    loop_name: &'static str,
    sender_id: SenderID,
    allowed_tree: AllowedTree,
    msg_type: TcpMsgType,
    direction: MsgDirection,
    text: Seq<char>,
    req: TcpRequest,
    r: Result<(), CellagentError>,
    sent: Seq<CaToCm>,
) -> bool {
    match lookup(a.spec_tree_name_map(), sender_id.key_of()) {
        None => b == a && sent.len() == 0 && (r matches Err(CellagentError::TreeNameMap { func_name, cell_id, sender_id: s })
            && func_name == loop_name && s == sender_id),
        Some(m) => exists|s1: CellAgent, tm: Seq<(String, TreeID)>, r1: Result<Vec<(String, TreeID)>, CellagentError>|
            #[trigger] tcp_handled(a, s1, sender_id, allowed_tree, msg_type, direction, text, req, tm, r1, sent)
                && tree_map_view(tm) == tree_map_view(m@) && match r1 {
                Err(e) => b == s1 && r == Err::<(), CellagentError>(e),
                Ok(t) => {
                    &&& r is Ok
                    &&& b.wf()
                    &&& b@ == (CaView { tree_name_map: b@.tree_name_map, ..s1@ })
                    &&& forall|q: (Seq<char>, Uuid)| #[trigger]
                        lookup(b.spec_tree_name_map(), q) == if q == sender_id.key_of() {
                            Some(t)
                        } else {
                            lookup(s1.spec_tree_name_map(), q)
                        }
                },
            },
    }
}

/// Entries whose keys' views are distinct have distinct keys.
proof fn lemma_parsed_keys_distinct(p: Seq<(String, String)>)
    requires
        forall|i: int, j: int| 0 <= i < j < p.len() ==> p[i].0@ != p[j].0@,
    ensures
        keys_distinct(p),
{
}

impl CellAgent {
    /// Handles a request from the sender: see `tcp_step`.
    #[verifier::spinoff_prover]
    fn process_tcp(
        &mut self,
        loop_name: &'static str,
        sender_id: &SenderID,
        is_ait: bool,
        allowed_tree: &AllowedTree,
        msg_type: TcpMsgType,
        direction: MsgDirection,
        serialized: &str,
        req: &TcpRequest,
        out: &mut Vec<CaToCm>,
    ) -> (r: Result<(), CellagentError>)
        requires
            old(self).wf(),
            old(self).spec_no_ports().0 >= 1,
        ensures
            final(self).wf(),
            final(out)@.len() >= old(out)@.len(),
            final(out)@.take(old(out)@.len() as int) == old(out)@,
            tcp_step(*old(self), *final(self), loop_name, *sender_id, *allowed_tree, msg_type, direction, serialized@,
                *req, r, final(out)@.skip(old(out)@.len() as int)),
    {
        let ghost out0 = out@;
        let k = match find(&self.tree_name_map, sender_id) {
            Some(k) => k,
            None => {
                proof {
                    assert(out@.skip(out0.len() as int) =~= Seq::<CaToCm>::empty());
                    assert(out@.take(out0.len() as int) =~= out0);
                }
                return Err(CellagentError::TreeNameMap { func_name: loop_name, cell_id: self.cell_id.clone(), sender_id: sender_id.clone() });
            },
        };
        proof {
            lemma_lookup_at(self.tree_name_map@, k as int);
        }
        let tree_map = copy_tree_map(&self.tree_name_map[k].1);
        let ghost m = self.tree_name_map@[k as int].1@;
        proof {
            lemma_copied_map(m, tree_map@);
            assert(tree_map_view(tree_map@) == tree_map_view(m));
        }
        let ghost a = *self;
        let r1 = match msg_type {
            TcpMsgType::Application => self.tcp_application(sender_id, is_ait, allowed_tree, serialized, direction, &tree_map, out),
            TcpMsgType::DeleteTree => self.tcp_delete_tree(sender_id, serialized, direction, &tree_map),
            TcpMsgType::Query => self.tcp_query(sender_id, serialized, direction, &tree_map),
            TcpMsgType::TreeName => self.tcp_tree_name(sender_id, serialized, direction, &tree_map),
            TcpMsgType::Manifest => match parse_string_map(serialized) {
                None => Err(CellagentError::Chain { func_name: "tcp_manifest", comment: "deserialize" }),
                Some(p) => {
                    proof {
                        lemma_parsed_keys_distinct(p@);
                    }
                    self.tcp_manifest(sender_id, &p, req.manifest.as_ref(), direction, &tree_map, out)
                },
            },
            TcpMsgType::StackTree => match parse_string_map(serialized) {
                None => Err(CellagentError::Chain { func_name: "tcp_stack_tree", comment: "deserialize" }),
                Some(p) => {
                    proof {
                        lemma_parsed_keys_distinct(p@);
                    }
                    self.tcp_stack_tree(sender_id, &p, req.gvm_eqn.as_ref(), direction, &tree_map, out)
                },
            },
        };
        let ghost s1 = *self;
        proof {
            if out@.len() == out0.len() {
                assert(out@.skip(out0.len() as int) =~= Seq::<CaToCm>::empty());
                assert(out@.take(out0.len() as int) =~= out0);
            }
            assert(tcp_handled(a, s1, *sender_id, *allowed_tree, msg_type, direction, serialized@, *req, tree_map@, r1,
                out@.skip(out0.len() as int)));
        }
        match r1 {
            Err(e) => Err(e),
            Ok(updated) => {
                proof {
                    match msg_type {
                        TcpMsgType::StackTree => {},
                        _ => {
                            lemma_view_keys(tree_map@, updated@);
                        },
                    }
                }
                let ghost mid = self.tree_name_map@;
                file(&mut self.tree_name_map, sender_id.clone(), updated);
                proof {
                    assert(forall|i: int| 0 <= i < self.tree_name_map@.len() ==> keys_distinct(
                        (#[trigger] self.tree_name_map@[i]).1@,
                    )) by {
                        assert forall|i: int| 0 <= i < self.tree_name_map@.len() implies keys_distinct(
                            (#[trigger] self.tree_name_map@[i]).1@,
                        ) by {
                            if !has_key(mid, sender_id.key_of()) {
                                if i < mid.len() {
                                    assert(self.tree_name_map@[i] == mid[i]);
                                }
                            } else {
                                let w = choose|w: int|
                                    0 <= w < mid.len() && mid[w].0.key_of() == sender_id.key_of() && self.tree_name_map@
                                        == mid.update(w, (*sender_id, updated));
                                if i != w {
                                    assert(self.tree_name_map@[i] == mid[i]);
                                }
                            }
                        }
                    }
                }
                Ok(())
            },
        }
    }
}

/// What the cell module hands the cell agent.
pub enum CmToCa {
    /// A port came up or went down.
    Status { port_no: PortNo, is_border: bool, connected: bool },
    /// A message from a neighbour, on the tree with the UUID.
    Msg { port_no: PortNo, is_ait: bool, uuid: Uuid, msg: CaMsg },
    /// A request from the outside partner of a border port, with its text
    /// and what the caller read from it.
    Tcp {
        port_no: PortNo,
        is_ait: bool,
        allowed_tree: AllowedTree,
        msg_type: TcpMsgType,
        direction: MsgDirection,
        serialized: String,
        req: TcpRequest,
    },
}

/// What is left for the caller after the agent handled an event.
pub enum CaStep {
    Done,
    /// A manifest message came: the caller starts each VM of its manifest
    /// and sets it up with `deploy_vm` on this tree map for the sender, then
    /// hands the message, with the tree it came on, to `process_manifest_msg`.
    Deploy { sender_id: SenderID, tree_map: Vec<(String, TreeID)>, msg_tree_id: TreeID },
}

/// The result of a step that ends with nothing left to do, as a handler's.
pub open spec fn done_as(r: Result<CaStep, CellagentError>, h: Result<(), CellagentError>) -> bool {
    match h {
        Ok(_) => r matches Ok(CaStep::Done),
        Err(e) => r == Err::<CaStep, CellagentError>(e),
    }
}

/// Whether the names of a tree map's view are distinct.
pub open spec fn view_keys_distinct(v: Seq<(Seq<char>, TreeID)>) -> bool {
    forall|i: int, j: int| 0 <= i < j < v.len() ==> (#[trigger] v[i]).0 != (#[trigger] v[j]).0
}

proof fn lemma_view_distinct(m: Seq<(String, TreeID)>)
    requires
        view_keys_distinct(tree_map_view(m)),
    ensures
        keys_distinct(m),
{
    assert forall|i: int, j: int| 0 <= i < j < m.len() implies (#[trigger] m[i].0.key_of()) != (#[trigger] m[j].0.key_of()) by {
        assert(tree_map_view(m)[i].0 == m[i].0@);
        assert(tree_map_view(m)[j].0 == m[j].0@);
    }
}

/// The tree a message arrived on: the one the UUID names, or the control
/// tree for a UUID the agent does not know.
pub open spec fn msg_tree_of(a: CellAgent, uuid: Uuid) -> TreeID {
    match lookup(a.spec_tree_id_map(), uuid) {
        Some(t) => t,
        None => a.spec_control_tree_id(),
    }
}

/// What a message from a neighbour does: the handler for its type.
pub open spec fn msg_handled(
    a: CellAgent,
    b: CellAgent,
    port_no: PortNo,
    is_ait: bool,
    uuid: Uuid,
    msg: CaMsg,
    r: Result<CaStep, CellagentError>,
    sent: Seq<CaToCm>,
) -> bool {
    let msg_tree_id = msg_tree_of(a, uuid);
    match msg {
        CaMsg::Application(m) => exists|h: Result<(), CellagentError>|
            #[trigger] application_processed(a, b, m, msg_tree_id, is_ait, h, sent) && done_as(r, h),
        CaMsg::Discover(m) => exists|h: Result<(), CellagentError>| #[trigger] discover_processed(a, b, port_no, m, h, sent) && done_as(r, h),
        CaMsg::DiscoverD(m) => exists|h: Result<(), CellagentError>|
            #[trigger] discover_d_processed(a, b, port_no, m, h, sent) && done_as(r, h),
        CaMsg::Failover(m) => exists|h: Result<(), CellagentError>|
            #[trigger] failover_processed(
                a,
                b,
                port_no,
                m.spec_payload().spec_rootward_tree_id(),
                m.spec_payload().spec_path(),
                h,
                sent,
            ) && done_as(r, h),
        CaMsg::FailoverD(m) => sent.len() == 0 && exists|h: Result<(), CellagentError>|
            #[trigger] failover_d_processed(a, b, port_no, m.spec_payload().spec_port_tree_id(), h) && done_as(r, h),
        CaMsg::Hello(m) => {
            &&& sent.len() == 0
            &&& r matches Ok(CaStep::Done)
            &&& b.wf()
            &&& b@ == (CaView { neighbors: b@.neighbors, ..a@ })
            &&& forall|p: PortNo| #[trigger]
                lookup(b.spec_neighbors(), p) == if p == port_no {
                    Some((m.spec_payload().spec_cell_id(), m.spec_payload().spec_port_no()))
                } else {
                    lookup(a.spec_neighbors(), p)
                }
        },
        CaMsg::Manifest(m) => {
            &&& b == a
            &&& sent.len() == 0
            &&& exists|mm: Seq<(String, TreeID)>, d: Result<Vec<(String, TreeID)>, CellagentError>|
                #[trigger] deploy_tree_map(a, m.spec_header().spec_sender_id(), mm, m.spec_payload().spec_manifest().spec_allowed_trees(), d)
                    && tree_map_view(mm) == m.spec_header().spec_tree_map() && match d {
                    Ok(t) => r matches Ok(CaStep::Deploy { sender_id, tree_map, msg_tree_id: mt }) && sender_id
                        == m.spec_header().spec_sender_id() && tree_map_view(tree_map@) == tree_map_view(t@) && mt == msg_tree_id,
                    Err(e) => r == Err::<CaStep, CellagentError>(e),
                }
        },
        CaMsg::StackTree(m) => exists|h: Result<(), CellagentError>|
            #[trigger] stack_tree_processed(a, b, port_no, m, h, sent) && done_as(r, h),
        CaMsg::StackTreeD(m) => exists|h: Result<(), CellagentError>|
            #[trigger] stack_tree_d_processed(a, b, port_no, m.spec_payload().spec_tree_id(), h, sent) && done_as(r, h),
    }
}

/// What an event from the cell module does.
pub open spec fn cm_step(a: CellAgent, b: CellAgent, event: CmToCa, r: Result<CaStep, CellagentError>, sent: Seq<CaToCm>) -> bool {
    match event {
        CmToCa::Status { port_no, is_border, connected } => exists|h: Result<(), CellagentError>|
            #![trigger done_as(r, h)]
            done_as(r, h) && if connected {
                if is_border {
                    border_connected(a, b, port_no, h, sent)
                } else {
                    interior_connected(a, b, port_no, h, sent)
                }
            } else {
                disconnected(a, b, port_no, h, sent)
            },
        CmToCa::Msg { port_no, is_ait, uuid, msg } => msg_handled(a, b, port_no, is_ait, uuid, msg, r, sent),
        CmToCa::Tcp { port_no, is_ait, allowed_tree, msg_type, direction, serialized, req } => if port_no.0 > a.spec_no_ports().0 {
            b == a && sent.len() == 0 && r matches Err(CellagentError::Utility(_))
        } else {
            match lookup(a.spec_border_map(), PortNumber { port_no }) {
                None => b == a && sent.len() == 0 && (r matches Err(CellagentError::Border { func_name, cell_id, port_no: p })
                    && func_name == "listen_cm_loop" && p == port_no.0),
                Some((sender_id, _)) => exists|h: Result<(), CellagentError>|
                    #[trigger] tcp_step(
                        a,
                        b,
                        "listen_cm_loop",
                        sender_id,
                        allowed_tree,
                        msg_type,
                        direction,
                        serialized@,
                        req,
                        h,
                        sent,
                    ) && done_as(r, h),
            }
        },
    }
}

impl CellAgent {
    /// A request from one of the cell's VMs, from the sender the VM reports
    /// as: see `tcp_step`.
    pub fn listen_uptree_step(
        &mut self,
        sender_id: &SenderID,
        is_ait: bool,
        allowed_tree: &AllowedTree,
        msg_type: TcpMsgType,
        direction: MsgDirection,
        serialized: &str,
        req: &TcpRequest,
        out: &mut Vec<CaToCm>,
    ) -> (r: Result<(), CellagentError>)
        requires
            old(self).wf(),
            old(self).spec_no_ports().0 >= 1,
        ensures
            final(self).wf(),
            final(out)@.len() >= old(out)@.len(),
            final(out)@.take(old(out)@.len() as int) == old(out)@,
            tcp_step(*old(self), *final(self), "listen_uptree_loop", *sender_id, *allowed_tree, msg_type, direction,
                serialized@, *req, r, final(out)@.skip(old(out)@.len() as int)),
    {
        self.process_tcp("listen_uptree_loop", sender_id, is_ait, allowed_tree, msg_type, direction, serialized, req, out)
    }

    /// Handles one event from the cell module: see `cm_step`.
    #[verifier::spinoff_prover]
    pub fn listen_cm_step(&mut self, event: &CmToCa, out: &mut Vec<CaToCm>) -> (r: Result<CaStep, CellagentError>)
        requires
            old(self).wf(),
            old(self).spec_no_ports().0 >= 1,
            *event matches CmToCa::Status { port_no, is_border, connected } ==> (is_border || !connected ==> port_no.0
                != old(self).spec_no_ports().0),
            *event matches CmToCa::Msg { port_no, msg, .. } ==> match msg {
                CaMsg::Discover(m) => port_no.0 != old(self).spec_no_ports().0 && m.spec_payload().spec_hops().0.0 < usize::MAX,
                CaMsg::DiscoverD(_) => port_no.0 != old(self).spec_no_ports().0,
                CaMsg::FailoverD(_) => port_no.0 != old(self).spec_no_ports().0,
                CaMsg::Failover(m) => old(self).traph_for_tree(m.spec_payload().spec_rootward_tree_id()) matches Some(t)
                    ==> forall|i: int| t.is_first_parent(i) ==> t.spec_elements()[i].spec_hops().0.0 < usize::MAX,
                CaMsg::Manifest(m) => view_keys_distinct(m.spec_header().spec_tree_map()),
                _ => true,
            },
        ensures
            final(self).wf(),
            final(out)@.len() >= old(out)@.len(),
            final(out)@.take(old(out)@.len() as int) == old(out)@,
            cm_step(*old(self), *final(self), *event, r, final(out)@.skip(old(out)@.len() as int)),
    {
        let ghost out0 = out@;
        proof {
            assert(out@.skip(out0.len() as int) =~= Seq::<CaToCm>::empty());
            assert(out@.take(out0.len() as int) =~= out0);
        }
        match event {
            CmToCa::Status { port_no, is_border, connected } => {
                let h = if *connected {
                    self.port_connected(*port_no, *is_border, out)
                } else {
                    self.port_disconnected(*port_no, out)
                };
                let r = match h {
                    Ok(()) => Ok(CaStep::Done),
                    Err(e) => Err(e),
                };
                proof {
                    assert(done_as(r, h));
                }
                r
            },
            CmToCa::Msg { port_no, is_ait, uuid, msg } => {
                let msg_tree_id = match find(&self.tree_id_map, uuid) {
                    Some(k) => {
                        proof {
                            lemma_lookup_at(self.tree_id_map@, k as int);
                        }
                        self.tree_id_map[k].1.clone()
                    },
                    None => self.control_tree_id.clone(),
                };
                let ghost a = *self;
                proof {
                    assert(msg_tree_of(a, *uuid) == msg_tree_id);
                }
                let port_no = *port_no;
                let h = match msg {
                    CaMsg::Application(m) => self.process_application_msg(m, port_no, &msg_tree_id, *is_ait, out),
                    CaMsg::Discover(m) => self.process_discover_msg(m, port_no, out),
                    CaMsg::DiscoverD(m) => self.process_discover_d_msg(m, port_no, out),
                    CaMsg::Failover(m) => self.process_failover_msg(m, port_no, out),
                    CaMsg::FailoverD(m) => self.process_failover_d_msg(m, port_no),
                    CaMsg::Hello(m) => self.process_hello_msg(m, port_no),
                    CaMsg::Manifest(m) => {
                        let header = m.get_header();
                        let msg_tree_map = header.get_tree_map();
                        proof {
                            lemma_view_distinct(msg_tree_map@);
                        }
                        let d = self.deploy(header.get_sender_id(), msg_tree_map, m.get_payload().get_manifest());
                        proof {
                            assert(deploy_tree_map(
                                *self,
                                m.spec_header().spec_sender_id(),
                                msg_tree_map@,
                                m.spec_payload().spec_manifest().spec_allowed_trees(),
                                d,
                            ));
                        }
                        return match d {
                            Ok(t) => {
                                let tree_map = copy_tree_map(&t);
                                Ok(CaStep::Deploy { sender_id: header.get_sender_id().clone(), tree_map, msg_tree_id })
                            },
                            Err(e) => Err(e),
                        };
                    },
                    CaMsg::StackTree(m) => self.process_stack_tree_msg(m, port_no, &msg_tree_id, out),
                    CaMsg::StackTreeD(m) => self.process_stack_tree_d_msg(m, port_no, out),
                };
                proof {
                    if out@.len() == out0.len() {
                        assert(out@.skip(out0.len() as int) =~= Seq::<CaToCm>::empty());
                        assert(out@.take(out0.len() as int) =~= out0);
                    }
                }
                let r = match h {
                    Ok(()) => Ok(CaStep::Done),
                    Err(e) => Err(e),
                };
                proof {
                    assert(done_as(r, h));
                    let sent = out@.skip(out0.len() as int);
                    match msg {
                        CaMsg::Application(m) => {
                            assert(application_processed(a, *self, *m, msg_tree_id, *is_ait, h, sent));
                        },
                        CaMsg::Discover(m) => {
                            assert(discover_processed(a, *self, port_no, *m, h, sent));
                        },
                        CaMsg::DiscoverD(m) => {
                            assert(discover_d_processed(a, *self, port_no, *m, h, sent));
                        },
                        CaMsg::Failover(m) => {
                            assert(failover_processed(a, *self, port_no, m.spec_payload().spec_rootward_tree_id(), m.spec_payload().spec_path(), h, sent));
                        },
                        CaMsg::FailoverD(m) => {
                            assert(failover_d_processed(a, *self, port_no, m.spec_payload().spec_port_tree_id(), h));
                        },
                        CaMsg::StackTree(m) => {
                            assert(stack_tree_processed(a, *self, port_no, *m, h, sent));
                        },
                        CaMsg::StackTreeD(m) => {
                            assert(stack_tree_d_processed(a, *self, port_no, m.spec_payload().spec_tree_id(), h, sent));
                        },
                        _ => {},
                    }
                    assert(msg_handled(a, *self, port_no, *is_ait, *uuid, *msg, r, sent));
                }
                r
            },
            CmToCa::Tcp { port_no, is_ait, allowed_tree, msg_type, direction, serialized, req } => {
                let port_number = match port_no.make_port_number(self.no_ports) {
                    Ok(p) => p,
                    Err(e) => {
                        return Err(CellagentError::Utility(e));
                    },
                };
                let sender_id = match find(&self.border_port_tree_id_map, &port_number) {
                    Some(k) => {
                        proof {
                            lemma_lookup_at(self.border_port_tree_id_map@, k as int);
                        }
                        self.border_port_tree_id_map[k].1.0.clone()
                    },
                    None => {
                        return Err(CellagentError::Border { func_name: "listen_cm_loop", cell_id: self.cell_id.clone(), port_no: port_no.0 });
                    },
                };
                let ghost a = *self;
                let text = serialized.as_str();
                let h = self.process_tcp("listen_cm_loop", &sender_id, *is_ait, allowed_tree, *msg_type, *direction, text, req, out);
                let r = match h {
                    Ok(()) => Ok(CaStep::Done),
                    Err(e) => Err(e),
                };
                proof {
                    assert(done_as(r, h));
                    assert(text@ == serialized@);
                    assert(lookup(a.spec_border_map(), PortNumber { port_no: *port_no }) matches Some((sd, _)) && sd == sender_id);
                    assert(tcp_step(a, *self, "listen_cm_loop", sender_id, *allowed_tree, *msg_type, *direction,
                        serialized@, *req, h, out@.skip(out0.len() as int)));
                }
                r
            },
        }
    }
}

/// A name without blanks joined to a constant without blanks has none.
proof fn lemma_no_blank_join(a: Seq<char>, b: Seq<char>)
    requires
        !a.contains(' '),
        !b.contains(' '),
    ensures
        !(a + seq!['+'] + b).contains(' '),
{
    let j = a + seq!['+'] + b;
    if j.contains(' ') {
        let i = choose|i: int| 0 <= i < j.len() && j[i] == ' ';
        if i < a.len() {
            assert(a[i] == ' ');
        } else if i > a.len() {
            assert(b[i - a.len() - 1] == ' ');
        }
    }
}

/// Connecting an interior port and then disconnecting it leaves the
/// connected-ports tree's entry as it was, less that port.
pub proof fn law_connect_then_disconnect(
    a: CellAgent,
    b: CellAgent,
    c: CellAgent,
    port_no: PortNo,
    r1: Result<(), CellagentError>,
    s1: Seq<CaToCm>,
    r2: Result<(), CellagentError>,
    s2: Seq<CaToCm>,
)
    requires
        port_no.0 <= a.spec_no_ports().0,
        interior_connected(a, b, port_no, r1, s1),
        disconnected(b, c, port_no, r2, s2),
    ensures
        c.spec_connected_tree_entry().spec_mask() == a.spec_connected_tree_entry().spec_mask() & !port_mask_value(port_no.0),
        !port_bit(c.spec_connected_tree_entry().spec_mask(), (port_no.0 % 16) as u16),
        c.spec_connected_tree_entry().spec_inuse() == a.spec_connected_tree_entry().spec_inuse(),
        c.spec_connected_tree_entry().spec_parent() == a.spec_connected_tree_entry().spec_parent(),
{
    let n = choose|n: int| #[trigger] disconnected_through(b, c, port_no, r2, s2, n);
    let x = a.spec_connected_tree_entry().spec_mask();
    let m = port_mask_value(port_no.0);
    let y = b.spec_connected_tree_entry().spec_mask();
    assert(y == x | m);
    assert((x | m) & !m == x & !m) by (bit_vector);
    let p = (port_no.0 % 16) as u16;
    assert(p < 16);
    lemma_port_mask_bit(port_no.0, p);
    assert(((x & !m) >> p) & 1u16 == 1u16 ==> (m >> p) & 1u16 != 1u16) by (bit_vector)
        requires
            p < 16,
    ;
}

/// After a VM is deployed for a tree that had no VM, an application
/// message on that tree reaches the VM, and only it.
pub proof fn law_deployed_vm_gets_messages(
    a: CellAgent,
    b: CellAgent,
    c: CellAgent,
    sender_id: SenderID,
    vm_id: VmID,
    tree_map: Seq<(String, TreeID)>,
    names: Seq<Seq<char>>,
    deployed: Result<(SenderID, Vec<AllowedTree>), CellagentError>,
    k: int,
    msg: ApplicationMsg,
    msg_tree_id: TreeID,
    is_ait: bool,
    r: Result<(), CellagentError>,
    sent: Seq<CaToCm>,
)
    requires
        vm_deployed(a, b, sender_id, vm_id, tree_map, names, deployed),
        deployed is Ok,
        0 <= k < names.len(),
        lookup(tree_map, names[k]) == Some(msg.spec_payload().spec_tree_id()),
        vms_on(a.spec_tree_vm_map(), msg.spec_payload().spec_tree_id().key_of()) is None,
        application_processed(b, c, msg, msg_tree_id, is_ait, r, sent),
    ensures
        sent.len() == 1,
        delivered(sent[0], vm_id, is_ait, msg.spec_payload().spec_body()),
        sent[0] matches CaToCm::ToVm { vm_id: v, is_ait: ait, body } && v == vm_id && ait == is_ait && body@
            == msg.spec_payload().spec_body(),
{
    let t = msg.spec_payload().spec_tree_id();
    if exists|i: int| 0 <= i < names.len() && !has_key(tree_map, #[trigger] names[i]) {
        assert(false);
    }
    let ids = ids_of(tree_map, names);
    assert(ids[k] == t);
    assert(exists|j: int| 0 <= j < ids.len() && (#[trigger] ids[j]).key_of() == t.key_of());
    assert(vms_on(b.spec_tree_vm_map(), t.key_of()) == Some(seq![vm_id]));
}

} // verus!
