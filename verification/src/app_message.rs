//! The messages that applications exchange with cells over the application
//! interface: their headers and payloads, and the envelope of a serialized
//! message.
use vstd::prelude::*;
use vstd::string::StringSliceAdditionalSpecFns;

use crate::config::ByteArray;
use crate::gvm_equation::{same_equation, GvmEquation};
use crate::text::bytes_of;
use crate::name::{Name, SenderID};
use crate::uptree_spec::{clone_tree_vec, same_manifest, tree_names, AllowedTree, Manifest};
use crate::utility::S;

verus! {

/// The sequence number a sender gives its messages.
#[derive(Debug, Copy, Clone, PartialEq, Eq, Structural, Hash)]
pub struct SenderMsgSeqNo(pub u64);

#[derive(Debug, Copy, Clone, PartialEq, Eq, Structural, Hash)]
pub enum AppMsgType {
    Interapplication,
    DeleteTree,
    Manifest,
    Query,
    StackTree,
    TreeName,
}

#[derive(Debug, Copy, Clone, PartialEq, Eq, Structural, Hash)]
pub enum AppMsgDirection {
    Rootward,
    Leafward,
}

/// A serialized message together with its type.
#[derive(Debug)]
pub struct TypePlusAppMsg {
    msg_type: AppMsgType,
    serialized_msg: String,
}

impl TypePlusAppMsg {
    pub closed spec fn spec_msg_type(&self) -> AppMsgType {
        self.msg_type
    }

    pub closed spec fn spec_serialized_msg(&self) -> Seq<char> {
        self.serialized_msg@
    }

    pub fn _new(msg_type: AppMsgType, serialized_msg: String) -> (t: TypePlusAppMsg)
        ensures
            t.spec_msg_type() == msg_type,
            t.spec_serialized_msg() == serialized_msg@,
    {
        TypePlusAppMsg { msg_type, serialized_msg }
    }

    pub fn _et_type(&self) -> (t: AppMsgType)
        ensures
            t == self.spec_msg_type(),
    {
        self.msg_type
    }

    pub fn _get_serialized_msg(&self) -> (s: &str)
        ensures
            s@ == self.spec_serialized_msg(),
    {
        self.serialized_msg.as_str()
    }
}

/// Marker for the payloads of application messages.
pub trait AppMsgPayload {
}

/// A payload that names a tree and carries a body of bytes.
#[derive(Debug)]
pub struct AppInterapplicationMsgPayload {
    allowed_tree_name: AllowedTree,
    body: ByteArray,
}

impl AppInterapplicationMsgPayload {
    pub closed spec fn spec_allowed_tree_name(&self) -> Seq<char> {
        self.allowed_tree_name.spec_name()
    }

    pub closed spec fn spec_body(&self) -> Seq<u8> {
        self.body.0@
    }

    /// The body is kept as its UTF-8 bytes.
    pub fn new(allowed_tree_name: &AllowedTree, body: &str) -> (p: AppInterapplicationMsgPayload)
        ensures
            p.spec_allowed_tree_name() == allowed_tree_name.spec_name(),
            p.spec_body() == body.spec_bytes(),
    {
        AppInterapplicationMsgPayload { allowed_tree_name: allowed_tree_name.clone(), body: ByteArray(bytes_of(body)) }
    }

    pub fn get_body(&self) -> (b: &ByteArray)
        ensures
            b.0@ == self.spec_body(),
    {
        &self.body
    }

    pub fn get_allowed_tree_name(&self) -> (t: &AllowedTree)
        ensures
            t.spec_name() == self.spec_allowed_tree_name(),
    {
        &self.allowed_tree_name
    }
}

impl AppMsgPayload for AppInterapplicationMsgPayload {
}

/// A payload that names a tree and carries a body of bytes.
#[derive(Debug)]
pub struct AppDeleteTreeMsgPayload {
    delete_tree_name: AllowedTree,
    body: ByteArray,
}

impl AppDeleteTreeMsgPayload {
    pub closed spec fn spec_delete_tree_name(&self) -> Seq<char> {
        self.delete_tree_name.spec_name()
    }

    pub closed spec fn spec_body(&self) -> Seq<u8> {
        self.body.0@
    }

    /// The body is kept as its UTF-8 bytes.
    pub fn new(delete_tree_name: &AllowedTree, body: &str) -> (p: AppDeleteTreeMsgPayload)
        ensures
            p.spec_delete_tree_name() == delete_tree_name.spec_name(),
            p.spec_body() == body.spec_bytes(),
    {
        AppDeleteTreeMsgPayload { delete_tree_name: delete_tree_name.clone(), body: ByteArray(bytes_of(body)) }
    }

    pub fn get_body(&self) -> (b: &ByteArray)
        ensures
            b.0@ == self.spec_body(),
    {
        &self.body
    }

    pub fn get_delete_tree_name(&self) -> (t: &AllowedTree)
        ensures
            t.spec_name() == self.spec_delete_tree_name(),
    {
        &self.delete_tree_name
    }
}

impl AppMsgPayload for AppDeleteTreeMsgPayload {
}

/// A payload that names a tree and carries a body of bytes.
#[derive(Debug)]
pub struct AppQueryMsgPayload {
    query_tree_name: AllowedTree,
    body: ByteArray,
}

impl AppQueryMsgPayload {
    pub closed spec fn spec_query_tree_name(&self) -> Seq<char> {
        self.query_tree_name.spec_name()
    }

    pub closed spec fn spec_body(&self) -> Seq<u8> {
        self.body.0@
    }

    /// The body is kept as its UTF-8 bytes.
    pub fn new(query_tree_name: &AllowedTree, body: &str) -> (p: AppQueryMsgPayload)
        ensures
            p.spec_query_tree_name() == query_tree_name.spec_name(),
            p.spec_body() == body.spec_bytes(),
    {
        AppQueryMsgPayload { query_tree_name: query_tree_name.clone(), body: ByteArray(bytes_of(body)) }
    }

    pub fn get_body(&self) -> (b: &ByteArray)
        ensures
            b.0@ == self.spec_body(),
    {
        &self.body
    }

    pub fn get_query_tree_name(&self) -> (t: &AllowedTree)
        ensures
            t.spec_name() == self.spec_query_tree_name(),
    {
        &self.query_tree_name
    }
}

impl AppMsgPayload for AppQueryMsgPayload {
}

/// The payload that deploys a manifest on a tree.
#[derive(Debug)]
pub struct AppManifestMsgPayload {
    deploy_tree_name: AllowedTree,
    tree_name: AllowedTree,
    manifest: Manifest,
}

impl AppManifestMsgPayload {
    pub closed spec fn spec_deploy_tree_name(&self) -> Seq<char> {
        self.deploy_tree_name.spec_name()
    }

    pub closed spec fn spec_tree_name(&self) -> Seq<char> {
        self.tree_name.spec_name()
    }

    pub closed spec fn spec_manifest(&self) -> Manifest {
        self.manifest
    }

    /// The payload records the manifest's own deployment tree as well.
    pub fn new(deploy_tree_name: &AllowedTree, manifest: &Manifest) -> (p: AppManifestMsgPayload)
        ensures
            p.spec_deploy_tree_name() == deploy_tree_name.spec_name(),
            p.spec_tree_name() == manifest.spec_deployment_tree(),
            same_manifest(p.spec_manifest(), *manifest),
    {
        let tree_name = manifest.get_deployment_tree();
        AppManifestMsgPayload {
            deploy_tree_name: deploy_tree_name.clone(),
            tree_name: tree_name.clone(),
            manifest: manifest.clone(),
        }
    }

    pub fn get_manifest(&self) -> (m: &Manifest)
        ensures
            *m == self.spec_manifest(),
    {
        &self.manifest
    }

    pub fn get_deploy_tree_name(&self) -> (t: &AllowedTree)
        ensures
            t.spec_name() == self.spec_deploy_tree_name(),
    {
        &self.deploy_tree_name
    }
}

impl AppMsgPayload for AppManifestMsgPayload {
}

/// The payload that stacks a new tree on a parent tree.
#[derive(Debug)]
pub struct AppStackTreeMsgPayload {
    new_tree_name: AllowedTree,
    parent_tree_name: AllowedTree,
    gvm_eqn: GvmEquation,
}

impl AppStackTreeMsgPayload {
    pub closed spec fn spec_new_tree_name(&self) -> Seq<char> {
        self.new_tree_name.spec_name()
    }

    pub closed spec fn spec_parent_tree_name(&self) -> Seq<char> {
        self.parent_tree_name.spec_name()
    }

    pub closed spec fn spec_gvm_eqn(&self) -> GvmEquation {
        self.gvm_eqn
    }

    pub fn new(new_tree_name: &AllowedTree, parent_tree_name: &AllowedTree, gvm_eqn: &GvmEquation) -> (p:
        AppStackTreeMsgPayload)
        ensures
            p.spec_new_tree_name() == new_tree_name.spec_name(),
            p.spec_parent_tree_name() == parent_tree_name.spec_name(),
            same_equation(p.spec_gvm_eqn(), *gvm_eqn),
    {
        AppStackTreeMsgPayload {
            new_tree_name: new_tree_name.clone(),
            parent_tree_name: parent_tree_name.clone(),
            gvm_eqn: gvm_eqn.clone(),
        }
    }

    pub fn get_new_tree_name(&self) -> (t: &AllowedTree)
        ensures
            t.spec_name() == self.spec_new_tree_name(),
    {
        &self.new_tree_name
    }

    pub fn get_parent_tree_name(&self) -> (t: &AllowedTree)
        ensures
            t.spec_name() == self.spec_parent_tree_name(),
    {
        &self.parent_tree_name
    }

    pub fn get_gvm_eqn(&self) -> (g: &GvmEquation)
        ensures
            *g == self.spec_gvm_eqn(),
    {
        &self.gvm_eqn
    }
}

impl AppMsgPayload for AppStackTreeMsgPayload {
}

/// The payload that tells a border cell the name of a tree.
#[derive(Debug)]
pub struct AppTreeNameMsgPayload {
    tree_name: String,
}

impl AppTreeNameMsgPayload {
    pub closed spec fn spec_tree_name(&self) -> Seq<char> {
        self.tree_name@
    }

    pub fn new(tree_name: &str) -> (p: AppTreeNameMsgPayload)
        ensures
            p.spec_tree_name() == tree_name@,
    {
        AppTreeNameMsgPayload { tree_name: S(tree_name) }
    }

    pub fn get_tree_name(&self) -> (s: &String)
        ensures
            s@ == self.spec_tree_name(),
    {
        &self.tree_name
    }
}

impl AppMsgPayload for AppTreeNameMsgPayload {
}

/// What every application message carries: the sender's sequence number
/// (0 until the sender stamps it), whether it is AIT, the sender, the type,
/// the direction, and the trees it may use.
#[derive(Debug)]
pub struct AppMsgHeader {
    sender_msg_seq_no: SenderMsgSeqNo,
    is_ait: bool,
    sender_id: SenderID,
    msg_type: AppMsgType,
    direction: AppMsgDirection,
    allowed_tree_names: Vec<AllowedTree>,
}

impl AppMsgHeader {
    pub closed spec fn spec_seq_no(&self) -> SenderMsgSeqNo {
        self.sender_msg_seq_no
    }

    pub closed spec fn spec_ait(&self) -> bool {
        self.is_ait
    }

    pub closed spec fn spec_sender_id(&self) -> SenderID {
        self.sender_id
    }

    pub closed spec fn spec_msg_type(&self) -> AppMsgType {
        self.msg_type
    }

    pub closed spec fn spec_direction(&self) -> AppMsgDirection {
        self.direction
    }

    pub closed spec fn spec_allowed_tree_names(&self) -> Seq<Seq<char>> {
        tree_names(self.allowed_tree_names@)
    }

    /// The header a sender starts from, with no trees named.
    pub open spec fn fresh(h: AppMsgHeader, sender_id: SenderID, is_ait: bool, msg_type: AppMsgType, direction: AppMsgDirection) -> bool {
        &&& h.spec_seq_no() == SenderMsgSeqNo(0)
        &&& h.spec_ait() == is_ait
        &&& h.spec_sender_id() == sender_id
        &&& h.spec_msg_type() == msg_type
        &&& h.spec_direction() == direction
        &&& h.spec_allowed_tree_names() == Seq::<Seq<char>>::empty()
    }

    pub fn new(sender_id: SenderID, is_ait: bool, msg_type: AppMsgType, direction: AppMsgDirection) -> (h: AppMsgHeader)
        ensures
            AppMsgHeader::fresh(h, sender_id, is_ait, msg_type, direction),
    {
        let h = AppMsgHeader {
            sender_msg_seq_no: SenderMsgSeqNo(0),
            is_ait,
            sender_id,
            msg_type,
            direction,
            allowed_tree_names: Vec::new(),
        };
        assert(tree_names(h.allowed_tree_names@) =~= Seq::<Seq<char>>::empty());
        h
    }

    pub fn _get_msg_type(&self) -> (t: AppMsgType)
        ensures
            t == self.spec_msg_type(),
    {
        self.msg_type
    }

    pub fn get_sender_msg_seq_no(&self) -> (n: SenderMsgSeqNo)
        ensures
            n == self.spec_seq_no(),
    {
        self.sender_msg_seq_no
    }

    /// Stamps the sender's sequence number.
    pub fn set_sender_msg_seq_no(&mut self, n: SenderMsgSeqNo)
        ensures
            final(self).spec_seq_no() == n,
            final(self).spec_ait() == old(self).spec_ait(),
            final(self).spec_sender_id() == old(self).spec_sender_id(),
            final(self).spec_msg_type() == old(self).spec_msg_type(),
            final(self).spec_direction() == old(self).spec_direction(),
            final(self).spec_allowed_tree_names() == old(self).spec_allowed_tree_names(),
    {
        self.sender_msg_seq_no = n;
    }

    pub fn get_ait(&self) -> (b: bool)
        ensures
            b == self.spec_ait(),
    {
        self.is_ait
    }

    pub fn get_direction(&self) -> (d: AppMsgDirection)
        ensures
            d == self.spec_direction(),
    {
        self.direction
    }

    pub fn _get_sender_id(&self) -> (s: &SenderID)
        ensures
            *s == self.spec_sender_id(),
    {
        &self.sender_id
    }

    pub fn _get_allowed_tree_names(&self) -> (v: &Vec<AllowedTree>)
        ensures
            tree_names(v@) == self.spec_allowed_tree_names(),
    {
        &self.allowed_tree_names
    }

    pub fn set_allowed_tree_names(&mut self, allowed_tree_names: Vec<AllowedTree>)
        ensures
            final(self).spec_allowed_tree_names() == tree_names(allowed_tree_names@),
            final(self).spec_seq_no() == old(self).spec_seq_no(),
            final(self).spec_ait() == old(self).spec_ait(),
            final(self).spec_sender_id() == old(self).spec_sender_id(),
            final(self).spec_msg_type() == old(self).spec_msg_type(),
            final(self).spec_direction() == old(self).spec_direction(),
    {
        self.allowed_tree_names = allowed_tree_names;
    }
}

/// Bytes for the applications on the other end of a tree.
#[derive(Debug)]
pub struct AppInterapplicationMsg {
    header: AppMsgHeader,
    payload: AppInterapplicationMsgPayload,
}

impl AppInterapplicationMsg {
    pub closed spec fn spec_header(&self) -> AppMsgHeader {
        self.header
    }

    pub closed spec fn spec_payload(&self) -> AppInterapplicationMsgPayload {
        self.payload
    }

    pub fn new(sender_id: SenderID, is_ait: bool, allowed_tree_name: &AllowedTree, direction: AppMsgDirection, body: &str) -> (m: AppInterapplicationMsg)
        ensures
            AppMsgHeader::fresh(m.spec_header(), sender_id, is_ait, AppMsgType::Interapplication, direction),
            m.spec_payload().spec_allowed_tree_name() == allowed_tree_name.spec_name(),
            m.spec_payload().spec_body() == body.spec_bytes(),
    {
        let header = AppMsgHeader::new(sender_id, is_ait, AppMsgType::Interapplication, direction);
        let payload = AppInterapplicationMsgPayload::new(allowed_tree_name, body);
        AppInterapplicationMsg { header, payload }
    }

    pub fn get_header(&self) -> (h: &AppMsgHeader)
        ensures
            *h == self.spec_header(),
    {
        &self.header
    }

    pub fn get_payload(&self) -> (p: &AppInterapplicationMsgPayload)
        ensures
            *p == self.spec_payload(),
    {
        &self.payload
    }

    pub fn get_msg_type(&self) -> (t: AppMsgType)
        ensures
            t == self.spec_header().spec_msg_type(),
    {
        self.header._get_msg_type()
    }

    pub fn is_ait(&self) -> (b: bool)
        ensures
            b == self.spec_header().spec_ait(),
    {
        self.header.get_ait()
    }

    pub fn get_sender_msg_seq_no(&self) -> (n: SenderMsgSeqNo)
        ensures
            n == self.spec_header().spec_seq_no(),
    {
        self.header.get_sender_msg_seq_no()
    }

    pub fn get_allowed_tree_name(&self) -> (t: &AllowedTree)
        ensures
            t.spec_name() == self.spec_payload().spec_allowed_tree_name(),
    {
        self.payload.get_allowed_tree_name()
    }
}

/// A request to delete a tree.
#[derive(Debug)]
pub struct AppDeleteTreeMsg {
    header: AppMsgHeader,
    payload: AppDeleteTreeMsgPayload,
}

impl AppDeleteTreeMsg {
    pub closed spec fn spec_header(&self) -> AppMsgHeader {
        self.header
    }

    pub closed spec fn spec_payload(&self) -> AppDeleteTreeMsgPayload {
        self.payload
    }

    pub fn new(sender_id: SenderID, is_ait: bool, delete_tree_name: &AllowedTree, direction: AppMsgDirection, body: &str) -> (m: AppDeleteTreeMsg)
        ensures
            AppMsgHeader::fresh(m.spec_header(), sender_id, is_ait, AppMsgType::DeleteTree, direction),
            m.spec_payload().spec_delete_tree_name() == delete_tree_name.spec_name(),
            m.spec_payload().spec_body() == body.spec_bytes(),
    {
        let header = AppMsgHeader::new(sender_id, is_ait, AppMsgType::DeleteTree, direction);
        let payload = AppDeleteTreeMsgPayload::new(delete_tree_name, body);
        AppDeleteTreeMsg { header, payload }
    }

    pub fn get_header(&self) -> (h: &AppMsgHeader)
        ensures
            *h == self.spec_header(),
    {
        &self.header
    }

    pub fn get_payload(&self) -> (p: &AppDeleteTreeMsgPayload)
        ensures
            *p == self.spec_payload(),
    {
        &self.payload
    }

    pub fn get_msg_type(&self) -> (t: AppMsgType)
        ensures
            t == self.spec_header().spec_msg_type(),
    {
        self.header._get_msg_type()
    }

    pub fn is_ait(&self) -> (b: bool)
        ensures
            b == self.spec_header().spec_ait(),
    {
        self.header.get_ait()
    }

    pub fn get_sender_msg_seq_no(&self) -> (n: SenderMsgSeqNo)
        ensures
            n == self.spec_header().spec_seq_no(),
    {
        self.header.get_sender_msg_seq_no()
    }

    pub fn get_delete_tree_name(&self) -> (t: &AllowedTree)
        ensures
            t.spec_name() == self.spec_payload().spec_delete_tree_name(),
    {
        self.payload.get_delete_tree_name()
    }
}

/// A query about a tree.
#[derive(Debug)]
pub struct AppQueryMsg {
    header: AppMsgHeader,
    payload: AppQueryMsgPayload,
}

impl AppQueryMsg {
    pub closed spec fn spec_header(&self) -> AppMsgHeader {
        self.header
    }

    pub closed spec fn spec_payload(&self) -> AppQueryMsgPayload {
        self.payload
    }

    pub fn new(sender_id: SenderID, is_ait: bool, query_tree_name: &AllowedTree, direction: AppMsgDirection, body: &str) -> (m: AppQueryMsg)
        ensures
            AppMsgHeader::fresh(m.spec_header(), sender_id, is_ait, AppMsgType::Query, direction),
            m.spec_payload().spec_query_tree_name() == query_tree_name.spec_name(),
            m.spec_payload().spec_body() == body.spec_bytes(),
    {
        let header = AppMsgHeader::new(sender_id, is_ait, AppMsgType::Query, direction);
        let payload = AppQueryMsgPayload::new(query_tree_name, body);
        AppQueryMsg { header, payload }
    }

    pub fn get_header(&self) -> (h: &AppMsgHeader)
        ensures
            *h == self.spec_header(),
    {
        &self.header
    }

    pub fn get_payload(&self) -> (p: &AppQueryMsgPayload)
        ensures
            *p == self.spec_payload(),
    {
        &self.payload
    }

    pub fn get_msg_type(&self) -> (t: AppMsgType)
        ensures
            t == self.spec_header().spec_msg_type(),
    {
        self.header._get_msg_type()
    }

    pub fn is_ait(&self) -> (b: bool)
        ensures
            b == self.spec_header().spec_ait(),
    {
        self.header.get_ait()
    }

    pub fn get_sender_msg_seq_no(&self) -> (n: SenderMsgSeqNo)
        ensures
            n == self.spec_header().spec_seq_no(),
    {
        self.header.get_sender_msg_seq_no()
    }

    pub fn get_query_tree_name(&self) -> (t: &AllowedTree)
        ensures
            t.spec_name() == self.spec_payload().spec_query_tree_name(),
    {
        self.payload.get_query_tree_name()
    }
}

/// A manifest to deploy on a tree, sent leafward so that the cell agent
/// gets it, naming the trees the manifest may use.
#[derive(Debug)]
pub struct AppManifestMsg {
    header: AppMsgHeader,
    payload: AppManifestMsgPayload,
}

impl AppManifestMsg {
    pub closed spec fn spec_header(&self) -> AppMsgHeader {
        self.header
    }

    pub closed spec fn spec_payload(&self) -> AppManifestMsgPayload {
        self.payload
    }

    pub fn new(sender_id: SenderID, is_ait: bool, deploy_tree_name: &AllowedTree, allowed_tree_names: &Vec<AllowedTree>, manifest: &Manifest) -> (m: AppManifestMsg)
        ensures
            m.spec_header().spec_seq_no() == SenderMsgSeqNo(0),
            m.spec_header().spec_ait() == is_ait,
            m.spec_header().spec_sender_id() == sender_id,
            m.spec_header().spec_msg_type() == AppMsgType::Manifest,
            m.spec_header().spec_direction() == AppMsgDirection::Leafward,
            m.spec_header().spec_allowed_tree_names() == tree_names(allowed_tree_names@),
            m.spec_payload().spec_deploy_tree_name() == deploy_tree_name.spec_name(),
            same_manifest(m.spec_payload().spec_manifest(), *manifest),
    {
        let mut header = AppMsgHeader::new(sender_id, is_ait, AppMsgType::Manifest, AppMsgDirection::Leafward);
        header.set_allowed_tree_names(clone_tree_vec(allowed_tree_names));
        let payload = AppManifestMsgPayload::new(deploy_tree_name, manifest);
        AppManifestMsg { header, payload }
    }

    pub fn get_header(&self) -> (h: &AppMsgHeader)
        ensures
            *h == self.spec_header(),
    {
        &self.header
    }

    pub fn get_payload(&self) -> (p: &AppManifestMsgPayload)
        ensures
            *p == self.spec_payload(),
    {
        &self.payload
    }

    pub fn get_msg_type(&self) -> (t: AppMsgType)
        ensures
            t == self.spec_header().spec_msg_type(),
    {
        self.header._get_msg_type()
    }

    pub fn is_ait(&self) -> (b: bool)
        ensures
            b == self.spec_header().spec_ait(),
    {
        self.header.get_ait()
    }

    pub fn get_sender_msg_seq_no(&self) -> (n: SenderMsgSeqNo)
        ensures
            n == self.spec_header().spec_seq_no(),
    {
        self.header.get_sender_msg_seq_no()
    }

    pub fn get_deploy_tree_name(&self) -> (t: &AllowedTree)
        ensures
            t.spec_name() == self.spec_payload().spec_deploy_tree_name(),
    {
        self.payload.get_deploy_tree_name()
    }
}

/// A request to stack a new tree on a parent tree; always AIT.
#[derive(Debug)]
pub struct AppStackTreeMsg {
    header: AppMsgHeader,
    payload: AppStackTreeMsgPayload,
}

impl AppStackTreeMsg {
    pub closed spec fn spec_header(&self) -> AppMsgHeader {
        self.header
    }

    pub closed spec fn spec_payload(&self) -> AppStackTreeMsgPayload {
        self.payload
    }

    pub fn new(sender_id: SenderID, new_tree_name: &AllowedTree, parent_tree_name: &AllowedTree, direction: AppMsgDirection, gvm_eqn: &GvmEquation) -> (m: AppStackTreeMsg)
        ensures
            AppMsgHeader::fresh(m.spec_header(), sender_id, true, AppMsgType::StackTree, direction),
            m.spec_payload().spec_new_tree_name() == new_tree_name.spec_name(),
            m.spec_payload().spec_parent_tree_name() == parent_tree_name.spec_name(),
            same_equation(m.spec_payload().spec_gvm_eqn(), *gvm_eqn),
    {
        let header = AppMsgHeader::new(sender_id, true, AppMsgType::StackTree, direction);
        let payload = AppStackTreeMsgPayload::new(new_tree_name, parent_tree_name, gvm_eqn);
        AppStackTreeMsg { header, payload }
    }

    pub fn get_header(&self) -> (h: &AppMsgHeader)
        ensures
            *h == self.spec_header(),
    {
        &self.header
    }

    pub fn get_payload(&self) -> (p: &AppStackTreeMsgPayload)
        ensures
            *p == self.spec_payload(),
    {
        &self.payload
    }

    pub fn get_msg_type(&self) -> (t: AppMsgType)
        ensures
            t == self.spec_header().spec_msg_type(),
    {
        self.header._get_msg_type()
    }

    pub fn is_ait(&self) -> (b: bool)
        ensures
            b == self.spec_header().spec_ait(),
    {
        self.header.get_ait()
    }

    pub fn get_sender_msg_seq_no(&self) -> (n: SenderMsgSeqNo)
        ensures
            n == self.spec_header().spec_seq_no(),
    {
        self.header.get_sender_msg_seq_no()
    }
}

/// The name of a border cell's tree, sent rootward so that the cell agent
/// gets it.
#[derive(Debug)]
pub struct AppTreeNameMsg {
    header: AppMsgHeader,
    payload: AppTreeNameMsgPayload,
}

impl AppTreeNameMsg {
    pub closed spec fn spec_header(&self) -> AppMsgHeader {
        self.header
    }

    pub closed spec fn spec_payload(&self) -> AppTreeNameMsgPayload {
        self.payload
    }

    pub fn new(sender_id: SenderID, tree_name: &str) -> (m: AppTreeNameMsg)
        ensures
            AppMsgHeader::fresh(m.spec_header(), sender_id, false, AppMsgType::TreeName, AppMsgDirection::Rootward),
            m.spec_payload().spec_tree_name() == tree_name@,
    {
        let header = AppMsgHeader::new(sender_id, false, AppMsgType::TreeName, AppMsgDirection::Rootward);
        let payload = AppTreeNameMsgPayload::new(tree_name);
        AppTreeNameMsg { header, payload }
    }

    pub fn get_header(&self) -> (h: &AppMsgHeader)
        ensures
            *h == self.spec_header(),
    {
        &self.header
    }

    pub fn get_payload(&self) -> (p: &AppTreeNameMsgPayload)
        ensures
            *p == self.spec_payload(),
    {
        &self.payload
    }

    pub fn get_msg_type(&self) -> (t: AppMsgType)
        ensures
            t == self.spec_header().spec_msg_type(),
    {
        self.header._get_msg_type()
    }

    pub fn is_ait(&self) -> (b: bool)
        ensures
            b == self.spec_header().spec_ait(),
    {
        self.header.get_ait()
    }

    pub fn get_sender_msg_seq_no(&self) -> (n: SenderMsgSeqNo)
        ensures
            n == self.spec_header().spec_seq_no(),
    {
        self.header.get_sender_msg_seq_no()
    }

    pub fn get_tree_name(&self) -> (s: &String)
        ensures
            s@ == self.spec_payload().spec_tree_name(),
    {
        self.payload.get_tree_name()
    }
}

#[derive(Debug)]
pub enum AppMessageError {
    Chain { func_name: &'static str, comment: &'static str },
    Process { func_name: &'static str },
}


impl AppMsgType {
    /// The name of the message type.
    pub open spec fn spec_text(&self) -> &'static str {
        match self {
            AppMsgType::Interapplication => "Interapplication",
            AppMsgType::DeleteTree => "DeleteTree",
            AppMsgType::Manifest => "Manifest",
            AppMsgType::Query => "Query",
            AppMsgType::StackTree => "StackTree",
            AppMsgType::TreeName => "TreeName",
        }
    }

    /// The name of the message type.
    pub fn to_string(&self) -> (s: String)
        ensures
            s@ == self.spec_text()@,
    {
        let t: &'static str = match self {
            AppMsgType::Interapplication => "Interapplication",
            AppMsgType::DeleteTree => "DeleteTree",
            AppMsgType::Manifest => "Manifest",
            AppMsgType::Query => "Query",
            AppMsgType::StackTree => "StackTree",
            AppMsgType::TreeName => "TreeName",
        };
        S(t)
    }
}

impl AppMsgDirection {
    /// The name of the direction.
    pub open spec fn spec_text(&self) -> &'static str {
        match self {
            AppMsgDirection::Rootward => "Rootward",
            AppMsgDirection::Leafward => "Leafward",
        }
    }

    /// The name of the direction.
    pub fn to_string(&self) -> (s: String)
        ensures
            s@ == self.spec_text()@,
    {
        let t: &'static str = match self {
            AppMsgDirection::Rootward => "Rootward",
            AppMsgDirection::Leafward => "Leafward",
        };
        S(t)
    }
}

} // verus!
