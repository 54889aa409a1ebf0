//! The messages cell agents exchange: their kinds, directions and headers,
//! the payload of each kind, and the type-tagged envelope of a serialized
//! message as the packet layer sees it.
use vstd::prelude::*;
use vstd::string::StringSliceAdditionalSpecFns;

use crate::config::{CellQty, PathLength, PortNo};
use crate::gvm_equation::{equation_of, same_equation, GvmEquation};
use crate::name::{CellID, SenderID, TreeID};
use crate::uptree_spec::{same_manifest, AllowedTree, Manifest};
use crate::config::ByteArray;
use crate::text::bytes_of;
use crate::utility::{Path, S};

verus! {

#[derive(Debug, Copy, Clone, PartialEq, Eq, Structural, Hash)]
pub enum MsgType {
    Application,
    Discover,
    DiscoverD,
    Failover,
    FailoverD,
    Hello,
    Manifest,
    StackTree,
    StackTreeD,
    TreeName,
}

#[derive(Debug, Copy, Clone, PartialEq, Eq, Structural, Hash)]
pub enum TcpMsgType {
    Application,
    DeleteTree,
    Manifest,
    Query,
    StackTree,
    TreeName,
}

#[derive(Debug, Copy, Clone, PartialEq, Eq, Structural, Hash)]
pub enum MsgDirection {
    Rootward,
    Leafward,
}

/// A serialized message together with its type, so that the receiver
/// knows how to read it.
#[derive(Debug)]
pub struct TypePlusMsg {
    msg_type: MsgType,
    serialized_msg: String,
}

impl TypePlusMsg {
    pub closed spec fn spec_msg_type(&self) -> MsgType {
        self.msg_type
    }

    pub closed spec fn spec_serialized_msg(&self) -> Seq<char> {
        self.serialized_msg@
    }

    pub fn new(msg_type: MsgType, serialized_msg: String) -> (t: TypePlusMsg)
        ensures
            t.spec_msg_type() == msg_type,
            t.spec_serialized_msg() == serialized_msg@,
    {
        TypePlusMsg { msg_type, serialized_msg }
    }

    pub fn get_type(&self) -> (t: MsgType)
        ensures
            t == self.spec_msg_type(),
    {
        self.msg_type
    }

    pub fn get_serialized_msg(&self) -> (s: &str)
        ensures
            s@ == self.spec_serialized_msg(),
    {
        self.serialized_msg.as_str()
    }
}

/// Marker for the payloads of messages.
pub trait MsgPayload {
}

/// The payload that tells a border cell the name of a tree.
#[derive(Debug)]
pub struct TreeNameMsgPayload {
    tree_name: String,
}

impl TreeNameMsgPayload {
    pub closed spec fn spec_tree_name(&self) -> Seq<char> {
        self.tree_name@
    }

    pub fn new(tree_name: &str) -> (p: TreeNameMsgPayload)
        ensures
            p.spec_tree_name() == tree_name@,
    {
        TreeNameMsgPayload { tree_name: S(tree_name) }
    }

    pub fn get_tree_name(&self) -> (s: &String)
        ensures
            s@ == self.spec_tree_name(),
    {
        &self.tree_name
    }
}

impl MsgPayload for TreeNameMsgPayload {
}

/// Tree names and the trees they stand for, as a header carries them.
pub open spec fn tree_map_view(m: Seq<(String, TreeID)>) -> Seq<(Seq<char>, TreeID)> {
    m.map_values(|p: (String, TreeID)| (p.0@, p.1))
}

/// A copy of the tree map, entry by entry.
fn clone_tree_map(m: &Vec<(String, TreeID)>) -> (r: Vec<(String, TreeID)>)
    ensures
        tree_map_view(r@) == tree_map_view(m@),
{
    let mut r: Vec<(String, TreeID)> = Vec::new();
    let mut i: usize = 0;
    while i < m.len()
        invariant
            i <= m@.len(),
            r@.len() == i,
            forall|k: int| 0 <= k < i ==> (#[trigger] r@[k]).0@ == m@[k].0@ && r@[k].1 == m@[k].1,
        decreases m@.len() - i,
    {
        r.push((m[i].0.clone(), m[i].1.clone()));
        i = i + 1;
    }
    assert(tree_map_view(r@) =~= tree_map_view(m@));
    r
}

/// What every message starts with: who sent it, its kind and direction,
/// whether it is AIT, a count for tracing and the trees it names.
#[derive(Debug)]
pub struct MsgHeader {
    msg_count: u64,
    is_ait: bool,
    sender_id: SenderID,
    msg_type: MsgType,
    direction: MsgDirection,
    tree_map: Vec<(String, TreeID)>,
}

impl MsgHeader {
    pub closed spec fn spec_msg_count(&self) -> u64 {
        self.msg_count
    }

    pub closed spec fn spec_ait(&self) -> bool {
        self.is_ait
    }

    pub closed spec fn spec_sender_id(&self) -> SenderID {
        self.sender_id
    }

    pub closed spec fn spec_msg_type(&self) -> MsgType {
        self.msg_type
    }

    pub closed spec fn spec_direction(&self) -> MsgDirection {
        self.direction
    }

    pub closed spec fn spec_tree_map(&self) -> Seq<(Seq<char>, TreeID)> {
        tree_map_view(self.tree_map@)
    }

    /// Two headers that agree in everything observable.
    pub open spec fn same(&self, other: &MsgHeader) -> bool {
        &&& self.spec_msg_count() == other.spec_msg_count()
        &&& self.spec_ait() == other.spec_ait()
        &&& self.spec_sender_id() == other.spec_sender_id()
        &&& self.spec_msg_type() == other.spec_msg_type()
        &&& self.spec_direction() == other.spec_direction()
        &&& self.spec_tree_map() == other.spec_tree_map()
    }

    /// A header with an empty tree map; its count is zero until the sender
    /// stamps it.
    pub fn new(sender_id: &SenderID, is_ait: bool, msg_type: MsgType, direction: MsgDirection) -> (h: MsgHeader)
        ensures
            h.spec_msg_count() == 0,
            h.spec_ait() == is_ait,
            h.spec_sender_id() == *sender_id,
            h.spec_msg_type() == msg_type,
            h.spec_direction() == direction,
            h.spec_tree_map().len() == 0,
    {
        MsgHeader { msg_count: 0, is_ait, sender_id: sender_id.clone(), msg_type, direction, tree_map: Vec::new() }
    }

    pub fn get_msg_type(&self) -> (t: MsgType)
        ensures
            t == self.spec_msg_type(),
    {
        self.msg_type
    }

    pub fn get_ait(&self) -> (b: bool)
        ensures
            b == self.spec_ait(),
    {
        self.is_ait
    }

    pub fn get_direction(&self) -> (d: MsgDirection)
        ensures
            d == self.spec_direction(),
    {
        self.direction
    }

    pub fn get_sender_id(&self) -> (s: &SenderID)
        ensures
            *s == self.spec_sender_id(),
    {
        &self.sender_id
    }

    pub fn get_tree_map(&self) -> (m: &Vec<(String, TreeID)>)
        ensures
            tree_map_view(m@) == self.spec_tree_map(),
    {
        &self.tree_map
    }

    pub fn set_tree_map(&mut self, tree_map: Vec<(String, TreeID)>)
        ensures
            final(self).spec_tree_map() == tree_map_view(tree_map@),
            final(self).spec_msg_count() == old(self).spec_msg_count(),
            final(self).spec_ait() == old(self).spec_ait(),
            final(self).spec_sender_id() == old(self).spec_sender_id(),
            final(self).spec_msg_type() == old(self).spec_msg_type(),
            final(self).spec_direction() == old(self).spec_direction(),
    {
        self.tree_map = tree_map;
    }

    pub fn get_msg_count(&self) -> (c: u64)
        ensures
            c == self.spec_msg_count(),
    {
        self.msg_count
    }

    /// Records the count the sender gives the message.
    pub fn set_msg_count(&mut self, msg_count: u64)
        ensures
            final(self).spec_msg_count() == msg_count,
            final(self).spec_ait() == old(self).spec_ait(),
            final(self).spec_sender_id() == old(self).spec_sender_id(),
            final(self).spec_msg_type() == old(self).spec_msg_type(),
            final(self).spec_direction() == old(self).spec_direction(),
            final(self).spec_tree_map() == old(self).spec_tree_map(),
    {
        self.msg_count = msg_count;
    }
}

impl Clone for MsgHeader {
    fn clone(&self) -> (h: Self)
        ensures
            h.same(self),
    {
        MsgHeader {
            msg_count: self.msg_count,
            is_ait: self.is_ait,
            sender_id: self.sender_id.clone(),
            msg_type: self.msg_type,
            direction: self.direction,
            tree_map: clone_tree_map(&self.tree_map),
        }
    }
}

/// What all messages offer: their header and whether they block the port
/// until they are acknowledged.
pub trait Message {
    spec fn spec_header(&self) -> MsgHeader;

    spec fn spec_blocking(&self) -> bool;

    fn get_header(&self) -> (h: &MsgHeader)
        ensures
            *h == self.spec_header(),
    ;

    fn is_blocking(&self) -> (b: bool)
        ensures
            b == self.spec_blocking(),
    ;

    fn get_msg_type(&self) -> (t: MsgType)
        ensures
            t == self.spec_header().spec_msg_type(),
    {
        self.get_header().get_msg_type()
    }

    fn is_rootward(&self) -> (b: bool)
        ensures
            b == (self.spec_header().spec_direction() == MsgDirection::Rootward),
    {
        match self.get_header().get_direction() {
            MsgDirection::Rootward => true,
            MsgDirection::Leafward => false,
        }
    }

    fn is_leafward(&self) -> (b: bool)
        ensures
            b == (self.spec_header().spec_direction() == MsgDirection::Leafward),
    {
        !self.is_rootward()
    }

    fn is_ait(&self) -> (b: bool)
        ensures
            b == self.spec_header().spec_ait(),
    {
        self.get_header().get_ait()
    }
}

/// The equation a discover message carries: receive, send and extend, never save.
pub open spec fn is_discover_equation(g: GvmEquation) -> bool {
    &&& g.spec_recv() == seq!['t', 'r', 'u', 'e']
    &&& g.spec_send() == seq!['t', 'r', 'u', 'e']
    &&& g.spec_xtnd() == seq!['t', 'r', 'u', 'e']
    &&& g.spec_save() == seq!['f', 'a', 'l', 's', 'e']
    &&& g.spec_variables().len() == 0
}

/// What a discover message tells: the tree being built, the cell that sent
/// it on, how far the root is and the port the root is reached through.
#[derive(Debug)]
pub struct DiscoverPayload {
    tree_id: TreeID,
    sending_cell_id: CellID,
    hops: PathLength,
    path: Path,
    gvm_eqn: GvmEquation,
}

impl DiscoverPayload {
    pub closed spec fn spec_tree_id(&self) -> TreeID {
        self.tree_id
    }

    pub closed spec fn spec_sending_cell_id(&self) -> CellID {
        self.sending_cell_id
    }

    pub closed spec fn spec_hops(&self) -> PathLength {
        self.hops
    }

    pub closed spec fn spec_path(&self) -> Path {
        self.path
    }

    pub closed spec fn spec_gvm_eqn(&self) -> GvmEquation {
        self.gvm_eqn
    }

    pub open spec fn same(&self, other: &DiscoverPayload) -> bool {
        &&& self.spec_tree_id() == other.spec_tree_id()
        &&& self.spec_sending_cell_id() == other.spec_sending_cell_id()
        &&& self.spec_hops() == other.spec_hops()
        &&& self.spec_path() == other.spec_path()
        &&& same_equation(self.spec_gvm_eqn(), other.spec_gvm_eqn())
    }

    fn new(tree_id: &TreeID, sending_cell_id: &CellID, hops: PathLength, path: Path) -> (p: DiscoverPayload)
        ensures
            p.spec_tree_id() == *tree_id,
            p.spec_sending_cell_id() == *sending_cell_id,
            p.spec_hops() == hops,
            p.spec_path() == path,
            is_discover_equation(p.spec_gvm_eqn()),
    {
        let gvm_eqn = equation_of("true", "true", "true", "false");
        proof {
            reveal_strlit("true");
            reveal_strlit("false");
            assert("true"@ =~= seq!['t', 'r', 'u', 'e']);
            assert("false"@ =~= seq!['f', 'a', 'l', 's', 'e']);
        }
        DiscoverPayload { tree_id: tree_id.clone(), sending_cell_id: sending_cell_id.clone(), hops, path, gvm_eqn }
    }

    pub fn get_hops(&self) -> (h: PathLength)
        ensures
            h == self.spec_hops(),
    {
        self.hops
    }

    pub fn hops_plus_one(&self) -> (h: PathLength)
        requires
            self.spec_hops().0.0 < usize::MAX,
        ensures
            h.0.0 == self.spec_hops().0.0 + 1,
    {
        PathLength(CellQty(self.hops.0.0 + 1))
    }

    pub fn get_path(&self) -> (p: Path)
        ensures
            p == self.spec_path(),
    {
        self.path
    }

    pub fn get_tree_id(&self) -> (t: &TreeID)
        ensures
            *t == self.spec_tree_id(),
    {
        &self.tree_id
    }

    pub fn get_sending_cell_id(&self) -> (c: &CellID)
        ensures
            *c == self.spec_sending_cell_id(),
    {
        &self.sending_cell_id
    }

    pub fn set_hops(&mut self, hops: PathLength)
        ensures
            final(self).spec_hops() == hops,
            final(self).spec_tree_id() == old(self).spec_tree_id(),
            final(self).spec_sending_cell_id() == old(self).spec_sending_cell_id(),
            final(self).spec_path() == old(self).spec_path(),
            final(self).spec_gvm_eqn() == old(self).spec_gvm_eqn(),
    {
        self.hops = hops;
    }

    pub fn set_path(&mut self, path: Path)
        ensures
            final(self).spec_path() == path,
            final(self).spec_tree_id() == old(self).spec_tree_id(),
            final(self).spec_sending_cell_id() == old(self).spec_sending_cell_id(),
            final(self).spec_hops() == old(self).spec_hops(),
            final(self).spec_gvm_eqn() == old(self).spec_gvm_eqn(),
    {
        self.path = path;
    }

    pub fn set_sending_cell(&mut self, sending_cell_id: CellID)
        ensures
            final(self).spec_sending_cell_id() == sending_cell_id,
            final(self).spec_tree_id() == old(self).spec_tree_id(),
            final(self).spec_hops() == old(self).spec_hops(),
            final(self).spec_path() == old(self).spec_path(),
            final(self).spec_gvm_eqn() == old(self).spec_gvm_eqn(),
    {
        self.sending_cell_id = sending_cell_id;
    }
}

impl Clone for DiscoverPayload {
    fn clone(&self) -> (p: Self)
        ensures
            p.same(self),
    {
        DiscoverPayload {
            tree_id: self.tree_id.clone(),
            sending_cell_id: self.sending_cell_id.clone(),
            hops: self.hops,
            path: self.path,
            gvm_eqn: self.gvm_eqn.clone(),
        }
    }
}

impl MsgPayload for DiscoverPayload {
}

/// Announces a tree rooted at the sending cell's neighbour chain.
#[derive(Debug)]
pub struct DiscoverMsg {
    header: MsgHeader,
    payload: DiscoverPayload,
}

impl DiscoverMsg {
    pub closed spec fn spec_payload(&self) -> DiscoverPayload {
        self.payload
    }

    pub open spec fn same(&self, other: &DiscoverMsg) -> bool {
        self.spec_header().same(&other.spec_header()) && self.spec_payload().same(&other.spec_payload())
    }

    /// An AIT, leafward discover message.
    pub fn new(sender_id: &SenderID, tree_id: &TreeID, sending_cell_id: &CellID, hops: PathLength, path: Path) -> (m: DiscoverMsg)
        ensures
            m.spec_header().spec_msg_count() == 0,
            m.spec_header().spec_ait(),
            m.spec_header().spec_sender_id() == *sender_id,
            m.spec_header().spec_msg_type() == MsgType::Discover,
            m.spec_header().spec_direction() == MsgDirection::Leafward,
            m.spec_header().spec_tree_map().len() == 0,
            m.spec_payload().spec_tree_id() == *tree_id,
            m.spec_payload().spec_sending_cell_id() == *sending_cell_id,
            m.spec_payload().spec_hops() == hops,
            m.spec_payload().spec_path() == path,
            is_discover_equation(m.spec_payload().spec_gvm_eqn()),
    {
        let header = MsgHeader::new(sender_id, true, MsgType::Discover, MsgDirection::Leafward);
        let payload = DiscoverPayload::new(tree_id, sending_cell_id, hops, path);
        DiscoverMsg { header, payload }
    }

    /// The message as the next cell forwards it: one more hop, the same
    /// path, and this cell as the sender.
    pub fn update(&self, cell_id: &CellID) -> (m: DiscoverMsg)
        requires
            self.spec_payload().spec_hops().0.0 < usize::MAX,
        ensures
            m.spec_header().same(&self.spec_header()),
            m.spec_payload().spec_hops().0.0 == self.spec_payload().spec_hops().0.0 + 1,
            m.spec_payload().spec_path() == self.spec_payload().spec_path(),
            m.spec_payload().spec_sending_cell_id() == *cell_id,
            m.spec_payload().spec_tree_id() == self.spec_payload().spec_tree_id(),
            same_equation(m.spec_payload().spec_gvm_eqn(), self.spec_payload().spec_gvm_eqn()),
    {
        let hops = self.update_hops();
        let path = self.update_path();
        let mut payload = self.payload.clone();
        payload.set_hops(hops);
        payload.set_path(path);
        payload.set_sending_cell(cell_id.clone());
        DiscoverMsg { header: self.header.clone(), payload }
    }

    pub fn update_hops(&self) -> (h: PathLength)
        requires
            self.spec_payload().spec_hops().0.0 < usize::MAX,
        ensures
            h.0.0 == self.spec_payload().spec_hops().0.0 + 1,
    {
        self.payload.hops_plus_one()
    }

    /// The path does not change from hop to hop.
    pub fn update_path(&self) -> (p: Path)
        ensures
            p == self.spec_payload().spec_path(),
    {
        self.payload.get_path()
    }

    pub fn get_payload(&self) -> (p: &DiscoverPayload)
        ensures
            *p == self.spec_payload(),
    {
        &self.payload
    }
}

impl Message for DiscoverMsg {
    closed spec fn spec_header(&self) -> MsgHeader {
        self.header
    }

    open spec fn spec_blocking(&self) -> bool {
        false
    }

    fn get_header(&self) -> (h: &MsgHeader) {
        &self.header
    }

    fn is_blocking(&self) -> (b: bool) {
        false
    }
}

impl Clone for DiscoverMsg {
    fn clone(&self) -> (m: Self)
        ensures
            m.same(self),
    {
        DiscoverMsg { header: self.header.clone(), payload: self.payload.clone() }
    }
}

/// Answers a discover message: the sender joins the tree through this port.
#[derive(Debug)]
pub struct DiscoverDPayload {
    tree_id: TreeID,
    path: Path,
}

impl DiscoverDPayload {
    pub closed spec fn spec_tree_id(&self) -> TreeID {
        self.tree_id
    }

    pub closed spec fn spec_path(&self) -> Path {
        self.path
    }

    pub fn get_tree_id(&self) -> (t: &TreeID)
        ensures
            *t == self.spec_tree_id(),
    {
        &self.tree_id
    }

    pub fn get_path(&self) -> (p: Path)
        ensures
            p == self.spec_path(),
    {
        self.path
    }
}

impl MsgPayload for DiscoverDPayload {
}

#[derive(Debug)]
pub struct DiscoverDMsg {
    header: MsgHeader,
    payload: DiscoverDPayload,
}

impl DiscoverDMsg {
    pub closed spec fn spec_payload(&self) -> DiscoverDPayload {
        self.payload
    }

    /// An AIT, leafward answer, so that it travels on the connected-ports tree.
    pub fn new(sender_id: &SenderID, tree_id: &TreeID, path: Path) -> (m: DiscoverDMsg)
        ensures
            m.spec_header().spec_msg_count() == 0,
            m.spec_header().spec_ait(),
            m.spec_header().spec_sender_id() == *sender_id,
            m.spec_header().spec_msg_type() == MsgType::DiscoverD,
            m.spec_header().spec_direction() == MsgDirection::Leafward,
            m.spec_header().spec_tree_map().len() == 0,
            m.spec_payload().spec_tree_id() == *tree_id,
            m.spec_payload().spec_path() == path,
    {
        let header = MsgHeader::new(sender_id, true, MsgType::DiscoverD, MsgDirection::Leafward);
        DiscoverDMsg { header, payload: DiscoverDPayload { tree_id: tree_id.clone(), path } }
    }

    pub fn get_payload(&self) -> (p: &DiscoverDPayload)
        ensures
            *p == self.spec_payload(),
    {
        &self.payload
    }
}

impl Message for DiscoverDMsg {
    closed spec fn spec_header(&self) -> MsgHeader {
        self.header
    }

    open spec fn spec_blocking(&self) -> bool {
        true
    }

    fn get_header(&self) -> (h: &MsgHeader) {
        &self.header
    }

    fn is_blocking(&self) -> (b: bool) {
        true
    }
}

/// Asks a neighbour to become the parent for a tree whose parent link broke.
#[derive(Debug)]
pub struct FailoverMsgPayload {
    rw_tree_id: TreeID,
    path: Path,
}

impl FailoverMsgPayload {
    pub closed spec fn spec_rootward_tree_id(&self) -> TreeID {
        self.rw_tree_id
    }

    pub closed spec fn spec_path(&self) -> Path {
        self.path
    }

    pub fn get_rootward_tree_id(&self) -> (t: &TreeID)
        ensures
            *t == self.spec_rootward_tree_id(),
    {
        &self.rw_tree_id
    }

    pub fn get_path(&self) -> (p: Path)
        ensures
            p == self.spec_path(),
    {
        self.path
    }
}

impl MsgPayload for FailoverMsgPayload {
}

#[derive(Debug)]
pub struct FailoverMsg {
    header: MsgHeader,
    payload: FailoverMsgPayload,
}

impl FailoverMsg {
    pub closed spec fn spec_payload(&self) -> FailoverMsgPayload {
        self.payload
    }

    pub fn new(sender_id: &SenderID, rw_tree_id: &TreeID, path: Path) -> (m: FailoverMsg)
        ensures
            m.spec_header().spec_msg_count() == 0,
            m.spec_header().spec_ait(),
            m.spec_header().spec_sender_id() == *sender_id,
            m.spec_header().spec_msg_type() == MsgType::Failover,
            m.spec_header().spec_direction() == MsgDirection::Leafward,
            m.spec_header().spec_tree_map().len() == 0,
            m.spec_payload().spec_rootward_tree_id() == *rw_tree_id,
            m.spec_payload().spec_path() == path,
    {
        let header = MsgHeader::new(sender_id, true, MsgType::Failover, MsgDirection::Leafward);
        FailoverMsg { header, payload: FailoverMsgPayload { rw_tree_id: rw_tree_id.clone(), path } }
    }

    pub fn get_payload(&self) -> (p: &FailoverMsgPayload)
        ensures
            *p == self.spec_payload(),
    {
        &self.payload
    }
}

impl Message for FailoverMsg {
    closed spec fn spec_header(&self) -> MsgHeader {
        self.header
    }

    open spec fn spec_blocking(&self) -> bool {
        false
    }

    fn get_header(&self) -> (h: &MsgHeader) {
        &self.header
    }

    fn is_blocking(&self) -> (b: bool) {
        false
    }
}

/// Answers a failover request: the port tree, how far its root is and the
/// path to it through the new parent.
#[derive(Debug)]
pub struct FailoverDMsgPayload {
    port_tree_id: TreeID,
    hops: PathLength,
    path: Path,
}

impl FailoverDMsgPayload {
    pub closed spec fn spec_port_tree_id(&self) -> TreeID {
        self.port_tree_id
    }

    pub closed spec fn spec_hops(&self) -> PathLength {
        self.hops
    }

    pub closed spec fn spec_path(&self) -> Path {
        self.path
    }

    pub fn get_port_tree_id(&self) -> (t: &TreeID)
        ensures
            *t == self.spec_port_tree_id(),
    {
        &self.port_tree_id
    }

    pub fn get_hops(&self) -> (h: PathLength)
        ensures
            h == self.spec_hops(),
    {
        self.hops
    }

    pub fn get_path(&self) -> (p: Path)
        ensures
            p == self.spec_path(),
    {
        self.path
    }
}

impl MsgPayload for FailoverDMsgPayload {
}

#[derive(Debug)]
pub struct FailoverDMsg {
    header: MsgHeader,
    payload: FailoverDMsgPayload,
}

impl FailoverDMsg {
    pub closed spec fn spec_payload(&self) -> FailoverDMsgPayload {
        self.payload
    }

    pub fn new(sender_id: &SenderID, port_tree_id: &TreeID, hops: PathLength, path: Path) -> (m: FailoverDMsg)
        ensures
            m.spec_header().spec_msg_count() == 0,
            m.spec_header().spec_ait(),
            m.spec_header().spec_sender_id() == *sender_id,
            m.spec_header().spec_msg_type() == MsgType::FailoverD,
            m.spec_header().spec_direction() == MsgDirection::Leafward,
            m.spec_header().spec_tree_map().len() == 0,
            m.spec_payload().spec_port_tree_id() == *port_tree_id,
            m.spec_payload().spec_hops() == hops,
            m.spec_payload().spec_path() == path,
    {
        let header = MsgHeader::new(sender_id, true, MsgType::FailoverD, MsgDirection::Leafward);
        FailoverDMsg { header, payload: FailoverDMsgPayload { port_tree_id: port_tree_id.clone(), hops, path } }
    }

    pub fn get_payload(&self) -> (p: &FailoverDMsgPayload)
        ensures
            *p == self.spec_payload(),
    {
        &self.payload
    }
}

impl Message for FailoverDMsg {
    closed spec fn spec_header(&self) -> MsgHeader {
        self.header
    }

    open spec fn spec_blocking(&self) -> bool {
        false
    }

    fn get_header(&self) -> (h: &MsgHeader) {
        &self.header
    }

    fn is_blocking(&self) -> (b: bool) {
        false
    }
}

/// Tells a neighbour which cell and port are at the other end of a link.
#[derive(Debug)]
pub struct HelloMsgPayload {
    cell_id: CellID,
    port_no: PortNo,
}

impl HelloMsgPayload {
    pub closed spec fn spec_cell_id(&self) -> CellID {
        self.cell_id
    }

    pub closed spec fn spec_port_no(&self) -> PortNo {
        self.port_no
    }

    pub fn get_cell_id(&self) -> (c: &CellID)
        ensures
            *c == self.spec_cell_id(),
    {
        &self.cell_id
    }

    pub fn get_port_no(&self) -> (p: PortNo)
        ensures
            p == self.spec_port_no(),
    {
        self.port_no
    }
}

impl MsgPayload for HelloMsgPayload {
}

#[derive(Debug)]
pub struct HelloMsg {
    header: MsgHeader,
    payload: HelloMsgPayload,
}

impl HelloMsg {
    pub closed spec fn spec_payload(&self) -> HelloMsgPayload {
        self.payload
    }

    pub fn new(sender_id: &SenderID, cell_id: &CellID, port_no: PortNo) -> (m: HelloMsg)
        ensures
            m.spec_header().spec_msg_count() == 0,
            m.spec_header().spec_ait(),
            m.spec_header().spec_sender_id() == *sender_id,
            m.spec_header().spec_msg_type() == MsgType::Hello,
            m.spec_header().spec_direction() == MsgDirection::Leafward,
            m.spec_header().spec_tree_map().len() == 0,
            m.spec_payload().spec_cell_id() == *cell_id,
            m.spec_payload().spec_port_no() == port_no,
    {
        let header = MsgHeader::new(sender_id, true, MsgType::Hello, MsgDirection::Leafward);
        HelloMsg { header, payload: HelloMsgPayload { cell_id: cell_id.clone(), port_no } }
    }

    pub fn get_payload(&self) -> (p: &HelloMsgPayload)
        ensures
            *p == self.spec_payload(),
    {
        &self.payload
    }
}

impl Message for HelloMsg {
    closed spec fn spec_header(&self) -> MsgHeader {
        self.header
    }

    open spec fn spec_blocking(&self) -> bool {
        false
    }

    fn get_header(&self) -> (h: &MsgHeader) {
        &self.header
    }

    fn is_blocking(&self) -> (b: bool) {
        false
    }
}

/// Asks cells to stack a new tree on a parent tree.
#[derive(Debug)]
pub struct StackTreeMsgPayload {
    allowed_tree: AllowedTree,
    new_tree_id: TreeID,
    parent_tree_id: TreeID,
    gvm_eqn: GvmEquation,
}

impl StackTreeMsgPayload {
    pub closed spec fn spec_allowed_tree(&self) -> AllowedTree {
        self.allowed_tree
    }

    pub closed spec fn spec_new_tree_id(&self) -> TreeID {
        self.new_tree_id
    }

    pub closed spec fn spec_parent_tree_id(&self) -> TreeID {
        self.parent_tree_id
    }

    pub closed spec fn spec_gvm_eqn(&self) -> GvmEquation {
        self.gvm_eqn
    }

    pub open spec fn same(&self, other: &StackTreeMsgPayload) -> bool {
        &&& self.spec_allowed_tree().spec_name() == other.spec_allowed_tree().spec_name()
        &&& self.spec_new_tree_id() == other.spec_new_tree_id()
        &&& self.spec_parent_tree_id() == other.spec_parent_tree_id()
        &&& same_equation(self.spec_gvm_eqn(), other.spec_gvm_eqn())
    }

    pub fn get_allowed_tree(&self) -> (t: &AllowedTree)
        ensures
            *t == self.spec_allowed_tree(),
    {
        &self.allowed_tree
    }

    pub fn get_new_tree_id(&self) -> (t: &TreeID)
        ensures
            *t == self.spec_new_tree_id(),
    {
        &self.new_tree_id
    }

    pub fn get_parent_tree_id(&self) -> (t: &TreeID)
        ensures
            *t == self.spec_parent_tree_id(),
    {
        &self.parent_tree_id
    }

    pub fn get_gvm_eqn(&self) -> (g: &GvmEquation)
        ensures
            *g == self.spec_gvm_eqn(),
    {
        &self.gvm_eqn
    }
}

impl MsgPayload for StackTreeMsgPayload {
}

#[derive(Debug)]
pub struct StackTreeMsg {
    header: MsgHeader,
    payload: StackTreeMsgPayload,
}

impl StackTreeMsg {
    pub closed spec fn spec_payload(&self) -> StackTreeMsgPayload {
        self.payload
    }

    pub open spec fn same(&self, other: &StackTreeMsg) -> bool {
        self.spec_header().same(&other.spec_header()) && self.spec_payload().same(&other.spec_payload())
    }

    pub fn new(sender_id: &SenderID, new_tree_name: &AllowedTree, new_tree_id: &TreeID, parent_tree_id: &TreeID,
        direction: MsgDirection, gvm_eqn: &GvmEquation) -> (m: StackTreeMsg)
        ensures
            m.spec_header().spec_msg_count() == 0,
            m.spec_header().spec_ait(),
            m.spec_header().spec_sender_id() == *sender_id,
            m.spec_header().spec_msg_type() == MsgType::StackTree,
            m.spec_header().spec_direction() == direction,
            m.spec_header().spec_tree_map().len() == 0,
            m.spec_payload().spec_allowed_tree().spec_name() == new_tree_name.spec_name(),
            m.spec_payload().spec_new_tree_id() == *new_tree_id,
            m.spec_payload().spec_parent_tree_id() == *parent_tree_id,
            same_equation(m.spec_payload().spec_gvm_eqn(), *gvm_eqn),
    {
        let header = MsgHeader::new(sender_id, true, MsgType::StackTree, direction);
        let payload = StackTreeMsgPayload {
            allowed_tree: new_tree_name.clone(),
            new_tree_id: new_tree_id.clone(),
            parent_tree_id: parent_tree_id.clone(),
            gvm_eqn: gvm_eqn.clone(),
        };
        StackTreeMsg { header, payload }
    }

    pub fn get_payload(&self) -> (p: &StackTreeMsgPayload)
        ensures
            *p == self.spec_payload(),
    {
        &self.payload
    }
}

impl Message for StackTreeMsg {
    closed spec fn spec_header(&self) -> MsgHeader {
        self.header
    }

    open spec fn spec_blocking(&self) -> bool {
        true
    }

    fn get_header(&self) -> (h: &MsgHeader) {
        &self.header
    }

    fn is_blocking(&self) -> (b: bool) {
        true
    }
}

impl Clone for StackTreeMsg {
    fn clone(&self) -> (m: Self)
        ensures
            m.same(self),
    {
        let payload = StackTreeMsgPayload {
            allowed_tree: self.payload.allowed_tree.clone(),
            new_tree_id: self.payload.new_tree_id.clone(),
            parent_tree_id: self.payload.parent_tree_id.clone(),
            gvm_eqn: self.payload.gvm_eqn.clone(),
        };
        proof {
            assert(same_equation(payload.gvm_eqn, self.payload.gvm_eqn));
        }
        StackTreeMsg { header: self.header.clone(), payload }
    }
}

/// Tells the parent that the sender stacked the tree.
#[derive(Debug)]
pub struct StackTreeMsgDPayload {
    tree_id: TreeID,
}

impl StackTreeMsgDPayload {
    pub closed spec fn spec_tree_id(&self) -> TreeID {
        self.tree_id
    }

    pub fn get_tree_id(&self) -> (t: &TreeID)
        ensures
            *t == self.spec_tree_id(),
    {
        &self.tree_id
    }
}

impl MsgPayload for StackTreeMsgDPayload {
}

#[derive(Debug)]
pub struct StackTreeDMsg {
    header: MsgHeader,
    payload: StackTreeMsgDPayload,
}

impl StackTreeDMsg {
    pub closed spec fn spec_payload(&self) -> StackTreeMsgDPayload {
        self.payload
    }

    pub fn new(sender_id: &SenderID, tree_id: &TreeID) -> (m: StackTreeDMsg)
        ensures
            m.spec_header().spec_msg_count() == 0,
            m.spec_header().spec_ait(),
            m.spec_header().spec_sender_id() == *sender_id,
            m.spec_header().spec_msg_type() == MsgType::StackTreeD,
            m.spec_header().spec_direction() == MsgDirection::Leafward,
            m.spec_header().spec_tree_map().len() == 0,
            m.spec_payload().spec_tree_id() == *tree_id,
    {
        let header = MsgHeader::new(sender_id, true, MsgType::StackTreeD, MsgDirection::Leafward);
        StackTreeDMsg { header, payload: StackTreeMsgDPayload { tree_id: tree_id.clone() } }
    }

    pub fn get_payload(&self) -> (p: &StackTreeMsgDPayload)
        ensures
            *p == self.spec_payload(),
    {
        &self.payload
    }
}

impl Message for StackTreeDMsg {
    closed spec fn spec_header(&self) -> MsgHeader {
        self.header
    }

    open spec fn spec_blocking(&self) -> bool {
        true
    }

    fn get_header(&self) -> (h: &MsgHeader) {
        &self.header
    }

    fn is_blocking(&self) -> (b: bool) {
        true
    }
}

/// Carries a manifest to the cells of the tree it is deployed on.
#[derive(Debug)]
pub struct ManifestMsgPayload {
    deploy_tree_id: TreeID,
    tree_name: AllowedTree,
    manifest: Manifest,
}

impl ManifestMsgPayload {
    pub closed spec fn spec_deploy_tree_id(&self) -> TreeID {
        self.deploy_tree_id
    }

    pub closed spec fn spec_tree_name(&self) -> AllowedTree {
        self.tree_name
    }

    pub closed spec fn spec_manifest(&self) -> Manifest {
        self.manifest
    }

    pub open spec fn same(&self, other: &ManifestMsgPayload) -> bool {
        &&& self.spec_deploy_tree_id() == other.spec_deploy_tree_id()
        &&& self.spec_tree_name().spec_name() == other.spec_tree_name().spec_name()
        &&& same_manifest(self.spec_manifest(), other.spec_manifest())
    }

    pub fn get_manifest(&self) -> (m: &Manifest)
        ensures
            *m == self.spec_manifest(),
    {
        &self.manifest
    }

    pub fn get_deploy_tree_id(&self) -> (t: &TreeID)
        ensures
            *t == self.spec_deploy_tree_id(),
    {
        &self.deploy_tree_id
    }
}

impl MsgPayload for ManifestMsgPayload {
}

#[derive(Debug)]
pub struct ManifestMsg {
    header: MsgHeader,
    payload: ManifestMsgPayload,
}

impl ManifestMsg {
    pub closed spec fn spec_payload(&self) -> ManifestMsgPayload {
        self.payload
    }

    pub open spec fn same(&self, other: &ManifestMsg) -> bool {
        self.spec_header().same(&other.spec_header()) && self.spec_payload().same(&other.spec_payload())
    }

    /// A leafward manifest message whose header carries the tree map.
    pub fn new(sender_id: &SenderID, is_ait: bool, deploy_tree_id: &TreeID, tree_map: &Vec<(String, TreeID)>,
        manifest: &Manifest) -> (m: ManifestMsg)
        ensures
            m.spec_header().spec_msg_count() == 0,
            m.spec_header().spec_ait() == is_ait,
            m.spec_header().spec_sender_id() == *sender_id,
            m.spec_header().spec_msg_type() == MsgType::Manifest,
            m.spec_header().spec_direction() == MsgDirection::Leafward,
            m.spec_header().spec_tree_map() == tree_map_view(tree_map@),
            m.spec_payload().spec_deploy_tree_id() == *deploy_tree_id,
            m.spec_payload().spec_tree_name().spec_name() == manifest.spec_deployment_tree(),
            same_manifest(m.spec_payload().spec_manifest(), *manifest),
    {
        let mut header = MsgHeader::new(sender_id, is_ait, MsgType::Manifest, MsgDirection::Leafward);
        header.set_tree_map(clone_tree_map(tree_map));
        let payload = ManifestMsgPayload {
            deploy_tree_id: deploy_tree_id.clone(),
            tree_name: manifest.get_deployment_tree().clone(),
            manifest: manifest.clone(),
        };
        ManifestMsg { header, payload }
    }

    pub fn get_payload(&self) -> (p: &ManifestMsgPayload)
        ensures
            *p == self.spec_payload(),
    {
        &self.payload
    }
}

impl Message for ManifestMsg {
    closed spec fn spec_header(&self) -> MsgHeader {
        self.header
    }

    open spec fn spec_blocking(&self) -> bool {
        false
    }

    fn get_header(&self) -> (h: &MsgHeader) {
        &self.header
    }

    fn is_blocking(&self) -> (b: bool) {
        false
    }
}

impl Clone for ManifestMsg {
    fn clone(&self) -> (m: Self)
        ensures
            m.same(self),
    {
        let payload = ManifestMsgPayload {
            deploy_tree_id: self.payload.deploy_tree_id.clone(),
            tree_name: self.payload.tree_name.clone(),
            manifest: self.payload.manifest.clone(),
        };
        ManifestMsg { header: self.header.clone(), payload }
    }
}

/// An application's message on one of its trees.
#[derive(Debug)]
pub struct ApplicationMsgPayload {
    tree_id: TreeID,
    body: ByteArray,
}

impl ApplicationMsgPayload {
    pub closed spec fn spec_tree_id(&self) -> TreeID {
        self.tree_id
    }

    pub closed spec fn spec_body(&self) -> Seq<u8> {
        self.body.0@
    }

    pub fn get_body(&self) -> (b: &ByteArray)
        ensures
            b.0@ == self.spec_body(),
    {
        &self.body
    }

    pub fn get_tree_id(&self) -> (t: &TreeID)
        ensures
            *t == self.spec_tree_id(),
    {
        &self.tree_id
    }
}

impl MsgPayload for ApplicationMsgPayload {
}

#[derive(Debug)]
pub struct ApplicationMsg {
    header: MsgHeader,
    payload: ApplicationMsgPayload,
}

impl ApplicationMsg {
    pub closed spec fn spec_payload(&self) -> ApplicationMsgPayload {
        self.payload
    }

    pub open spec fn same(&self, other: &ApplicationMsg) -> bool {
        &&& self.spec_header().same(&other.spec_header())
        &&& self.spec_payload().spec_tree_id() == other.spec_payload().spec_tree_id()
        &&& self.spec_payload().spec_body() == other.spec_payload().spec_body()
    }

    /// The body is kept as the UTF-8 bytes of the text.
    pub fn new(sender_id: &SenderID, is_ait: bool, tree_id: &TreeID, direction: MsgDirection, body: &str) -> (m: ApplicationMsg)
        ensures
            m.spec_header().spec_msg_count() == 0,
            m.spec_header().spec_ait() == is_ait,
            m.spec_header().spec_sender_id() == *sender_id,
            m.spec_header().spec_msg_type() == MsgType::Application,
            m.spec_header().spec_direction() == direction,
            m.spec_header().spec_tree_map().len() == 0,
            m.spec_payload().spec_tree_id() == *tree_id,
            m.spec_payload().spec_body() == body.spec_bytes(),
    {
        let header = MsgHeader::new(sender_id, is_ait, MsgType::Application, direction);
        let payload = ApplicationMsgPayload { tree_id: tree_id.clone(), body: ByteArray(bytes_of(body)) };
        ApplicationMsg { header, payload }
    }

    pub fn get_payload(&self) -> (p: &ApplicationMsgPayload)
        ensures
            *p == self.spec_payload(),
    {
        &self.payload
    }

    pub fn get_tree_id(&self) -> (t: &TreeID)
        ensures
            *t == self.spec_payload().spec_tree_id(),
    {
        self.payload.get_tree_id()
    }
}

impl Message for ApplicationMsg {
    closed spec fn spec_header(&self) -> MsgHeader {
        self.header
    }

    open spec fn spec_blocking(&self) -> bool {
        false
    }

    fn get_header(&self) -> (h: &MsgHeader) {
        &self.header
    }

    fn is_blocking(&self) -> (b: bool) {
        false
    }
}

impl Clone for ApplicationMsg {
    fn clone(&self) -> (m: Self)
        ensures
            m.same(self),
    {
        let payload = ApplicationMsgPayload { tree_id: self.payload.tree_id.clone(), body: ByteArray(self.payload.body.0.clone()) };
        ApplicationMsg { header: self.header.clone(), payload }
    }
}

/// Tells a border cell's outside partner the name of a tree it may use.
#[derive(Debug)]
pub struct TreeNameMsg {
    header: MsgHeader,
    payload: TreeNameMsgPayload,
}

impl TreeNameMsg {
    pub closed spec fn spec_payload(&self) -> TreeNameMsgPayload {
        self.payload
    }

    /// A rootward, non-AIT message, so that the cell agent gets it.
    pub fn new(sender_id: &SenderID, tree_name: &str) -> (m: TreeNameMsg)
        ensures
            m.spec_header().spec_msg_count() == 0,
            !m.spec_header().spec_ait(),
            m.spec_header().spec_sender_id() == *sender_id,
            m.spec_header().spec_msg_type() == MsgType::TreeName,
            m.spec_header().spec_direction() == MsgDirection::Rootward,
            m.spec_header().spec_tree_map().len() == 0,
            m.spec_payload().spec_tree_name() == tree_name@,
    {
        let header = MsgHeader::new(sender_id, false, MsgType::TreeName, MsgDirection::Rootward);
        TreeNameMsg { header, payload: TreeNameMsgPayload::new(tree_name) }
    }

    pub fn get_payload(&self) -> (p: &TreeNameMsgPayload)
        ensures
            *p == self.spec_payload(),
    {
        &self.payload
    }

    pub fn get_tree_name(&self) -> (s: &String)
        ensures
            s@ == self.spec_payload().spec_tree_name(),
    {
        self.payload.get_tree_name()
    }
}

impl Message for TreeNameMsg {
    closed spec fn spec_header(&self) -> MsgHeader {
        self.header
    }

    open spec fn spec_blocking(&self) -> bool {
        false
    }

    fn get_header(&self) -> (h: &MsgHeader) {
        &self.header
    }

    fn is_blocking(&self) -> (b: bool) {
        false
    }
}

#[derive(Debug)]
pub enum MessageError {
    Chain { func_name: &'static str, comment: &'static str },
    Process { func_name: &'static str },
}


impl MsgType {
    /// The name of the message type.
    pub open spec fn spec_text(&self) -> &'static str {
        match self {
            MsgType::Application => "Application",
            MsgType::Discover => "Discover",
            MsgType::DiscoverD => "DiscoverD",
            MsgType::Failover => "Failover",
            MsgType::FailoverD => "FailoverD",
            MsgType::Hello => "Hello",
            MsgType::Manifest => "Manifest",
            MsgType::StackTree => "StackTree",
            MsgType::StackTreeD => "StackTreeD",
            MsgType::TreeName => "TreeName",
        }
    }

    /// The name of the message type.
    pub fn to_string(&self) -> (s: String)
        ensures
            s@ == self.spec_text()@,
    {
        let t: &'static str = match self {
            MsgType::Application => "Application",
            MsgType::Discover => "Discover",
            MsgType::DiscoverD => "DiscoverD",
            MsgType::Failover => "Failover",
            MsgType::FailoverD => "FailoverD",
            MsgType::Hello => "Hello",
            MsgType::Manifest => "Manifest",
            MsgType::StackTree => "StackTree",
            MsgType::StackTreeD => "StackTreeD",
            MsgType::TreeName => "TreeName",
        };
        S(t)
    }
}

impl TcpMsgType {
    /// The name of the request type.
    pub open spec fn spec_text(&self) -> &'static str {
        match self {
            TcpMsgType::Application => "Application",
            TcpMsgType::DeleteTree => "DeleteTree",
            TcpMsgType::Manifest => "Manifest",
            TcpMsgType::Query => "Query",
            TcpMsgType::StackTree => "StackTree",
            TcpMsgType::TreeName => "TreeName",
        }
    }

    /// The name of the request type.
    pub fn to_string(&self) -> (s: String)
        ensures
            s@ == self.spec_text()@,
    {
        let t: &'static str = match self {
            TcpMsgType::Application => "Application",
            TcpMsgType::DeleteTree => "DeleteTree",
            TcpMsgType::Manifest => "Manifest",
            TcpMsgType::Query => "Query",
            TcpMsgType::StackTree => "StackTree",
            TcpMsgType::TreeName => "TreeName",
        };
        S(t)
    }
}

impl MsgDirection {
    /// The name of the direction.
    pub open spec fn spec_text(&self) -> &'static str {
        match self {
            MsgDirection::Rootward => "Rootward",
            MsgDirection::Leafward => "Leafward",
        }
    }

    /// The name of the direction.
    pub fn to_string(&self) -> (s: String)
        ensures
            s@ == self.spec_text()@,
    {
        let t: &'static str = match self {
            MsgDirection::Rootward => "Rootward",
            MsgDirection::Leafward => "Leafward",
        };
        S(t)
    }
}

} // verus!
