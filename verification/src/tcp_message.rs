//! The payloads of the messages that applications exchange with cells
//! over a TCP connection, and the envelope of a serialized message.
use vstd::prelude::*;
use vstd::string::StringSliceAdditionalSpecFns;

use crate::config::ByteArray;
use crate::gvm_equation::{same_equation, GvmEquation};
use crate::text::bytes_of;
use crate::uptree_spec::{same_manifest, AllowedTree, Manifest};
use crate::utility::S;

verus! {

/// The sequence number a sender gives its messages.
#[derive(Debug, Copy, Clone, PartialEq, Eq, Structural, Hash)]
pub struct SenderMsgSeqNo(pub u64);

#[derive(Debug, Copy, Clone, PartialEq, Eq, Structural, Hash)]
pub enum TcpMsgType {
    Application,
    DeleteTree,
    Manifest,
    Query,
    StackTree,
    TreeName,
}

#[derive(Debug, Copy, Clone, PartialEq, Eq, Structural, Hash)]
pub enum TcpMsgDirection {
    Rootward,
    Leafward,
}

/// A serialized message together with its type.
#[derive(Debug)]
pub struct TypePlusTcpMsg {
    msg_type: TcpMsgType,
    serialized_msg: String,
}

impl TypePlusTcpMsg {
    pub closed spec fn spec_msg_type(&self) -> TcpMsgType {
        self.msg_type
    }

    pub closed spec fn spec_serialized_msg(&self) -> Seq<char> {
        self.serialized_msg@
    }

    pub fn new(msg_type: TcpMsgType, serialized_msg: String) -> (t: TypePlusTcpMsg)
        ensures
            t.spec_msg_type() == msg_type,
            t.spec_serialized_msg() == serialized_msg@,
    {
        TypePlusTcpMsg { msg_type, serialized_msg }
    }

    pub fn get_type(&self) -> (t: TcpMsgType)
        ensures
            t == self.spec_msg_type(),
    {
        self.msg_type
    }

    pub fn get_serialized_msg(&self) -> (s: &str)
        ensures
            s@ == self.spec_serialized_msg(),
    {
        self.serialized_msg.as_str()
    }
}

/// Marker for the payloads of TCP messages.
pub trait TcpMsgPayload {
}

/// A payload that names a tree and carries a body of bytes.
#[derive(Debug)]
pub struct TcpApplicationMsgPayload {
    allowed_tree_name: AllowedTree,
    body: ByteArray,
}

impl TcpApplicationMsgPayload {
    pub closed spec fn spec_allowed_tree_name(&self) -> Seq<char> {
        self.allowed_tree_name.spec_name()
    }

    pub closed spec fn spec_body(&self) -> Seq<u8> {
        self.body.0@
    }

    /// The body is kept as its UTF-8 bytes.
    pub fn new(allowed_tree_name: &AllowedTree, body: &str) -> (p: TcpApplicationMsgPayload)
        ensures
            p.spec_allowed_tree_name() == allowed_tree_name.spec_name(),
            p.spec_body() == body.spec_bytes(),
    {
        TcpApplicationMsgPayload { allowed_tree_name: allowed_tree_name.clone(), body: ByteArray(bytes_of(body)) }
    }

    pub fn get_body(&self) -> (b: &ByteArray)
        ensures
            b.0@ == self.spec_body(),
    {
        &self.body
    }

    pub fn get_allowed_tree_name(&self) -> (t: &AllowedTree)
        ensures
            t.spec_name() == self.spec_allowed_tree_name(),
    {
        &self.allowed_tree_name
    }
}

impl TcpMsgPayload for TcpApplicationMsgPayload {
}

/// A payload that names a tree and carries a body of bytes.
#[derive(Debug)]
pub struct TcpDeleteTreeMsgPayload {
    delete_tree_name: AllowedTree,
    body: ByteArray,
}

impl TcpDeleteTreeMsgPayload {
    pub closed spec fn spec_delete_tree_name(&self) -> Seq<char> {
        self.delete_tree_name.spec_name()
    }

    pub closed spec fn spec_body(&self) -> Seq<u8> {
        self.body.0@
    }

    /// The body is kept as its UTF-8 bytes.
    pub fn new(delete_tree_name: &AllowedTree, body: &str) -> (p: TcpDeleteTreeMsgPayload)
        ensures
            p.spec_delete_tree_name() == delete_tree_name.spec_name(),
            p.spec_body() == body.spec_bytes(),
    {
        TcpDeleteTreeMsgPayload { delete_tree_name: delete_tree_name.clone(), body: ByteArray(bytes_of(body)) }
    }

    pub fn get_body(&self) -> (b: &ByteArray)
        ensures
            b.0@ == self.spec_body(),
    {
        &self.body
    }

    pub fn get_delete_tree_name(&self) -> (t: &AllowedTree)
        ensures
            t.spec_name() == self.spec_delete_tree_name(),
    {
        &self.delete_tree_name
    }
}

impl TcpMsgPayload for TcpDeleteTreeMsgPayload {
}

/// A payload that names a tree and carries a body of bytes.
#[derive(Debug)]
pub struct TcpQueryMsgPayload {
    query_tree_name: AllowedTree,
    body: ByteArray,
}

impl TcpQueryMsgPayload {
    pub closed spec fn spec_query_tree_name(&self) -> Seq<char> {
        self.query_tree_name.spec_name()
    }

    pub closed spec fn spec_body(&self) -> Seq<u8> {
        self.body.0@
    }

    /// The body is kept as its UTF-8 bytes.
    pub fn new(query_tree_name: &AllowedTree, body: &str) -> (p: TcpQueryMsgPayload)
        ensures
            p.spec_query_tree_name() == query_tree_name.spec_name(),
            p.spec_body() == body.spec_bytes(),
    {
        TcpQueryMsgPayload { query_tree_name: query_tree_name.clone(), body: ByteArray(bytes_of(body)) }
    }

    pub fn get_body(&self) -> (b: &ByteArray)
        ensures
            b.0@ == self.spec_body(),
    {
        &self.body
    }

    pub fn get_query_tree_name(&self) -> (t: &AllowedTree)
        ensures
            t.spec_name() == self.spec_query_tree_name(),
    {
        &self.query_tree_name
    }
}

impl TcpMsgPayload for TcpQueryMsgPayload {
}

/// The payload that deploys a manifest on a tree.
#[derive(Debug)]
pub struct TcpManifestMsgPayload {
    deploy_tree_name: AllowedTree,
    tree_name: AllowedTree,
    manifest: Manifest,
}

impl TcpManifestMsgPayload {
    pub closed spec fn spec_deploy_tree_name(&self) -> Seq<char> {
        self.deploy_tree_name.spec_name()
    }

    pub closed spec fn spec_tree_name(&self) -> Seq<char> {
        self.tree_name.spec_name()
    }

    pub closed spec fn spec_manifest(&self) -> Manifest {
        self.manifest
    }

    /// The payload records the manifest's own deployment tree as well.
    pub fn new(deploy_tree_name: &AllowedTree, manifest: &Manifest) -> (p: TcpManifestMsgPayload)
        ensures
            p.spec_deploy_tree_name() == deploy_tree_name.spec_name(),
            p.spec_tree_name() == manifest.spec_deployment_tree(),
            same_manifest(p.spec_manifest(), *manifest),
    {
        let tree_name = manifest.get_deployment_tree();
        TcpManifestMsgPayload {
            deploy_tree_name: deploy_tree_name.clone(),
            tree_name: tree_name.clone(),
            manifest: manifest.clone(),
        }
    }

    pub fn get_manifest(&self) -> (m: &Manifest)
        ensures
            *m == self.spec_manifest(),
    {
        &self.manifest
    }

    pub fn get_deploy_tree_name(&self) -> (t: &AllowedTree)
        ensures
            t.spec_name() == self.spec_deploy_tree_name(),
    {
        &self.deploy_tree_name
    }
}

impl TcpMsgPayload for TcpManifestMsgPayload {
}

/// The payload that stacks a new tree on a parent tree.
#[derive(Debug)]
pub struct TcpStackTreeMsgPayload {
    new_tree_name: AllowedTree,
    parent_tree_name: AllowedTree,
    gvm_eqn: GvmEquation,
}

impl TcpStackTreeMsgPayload {
    pub closed spec fn spec_new_tree_name(&self) -> Seq<char> {
        self.new_tree_name.spec_name()
    }

    pub closed spec fn spec_parent_tree_name(&self) -> Seq<char> {
        self.parent_tree_name.spec_name()
    }

    pub closed spec fn spec_gvm_eqn(&self) -> GvmEquation {
        self.gvm_eqn
    }

    pub fn new(new_tree_name: &AllowedTree, parent_tree_name: &AllowedTree, gvm_eqn: &GvmEquation) -> (p:
        TcpStackTreeMsgPayload)
        ensures
            p.spec_new_tree_name() == new_tree_name.spec_name(),
            p.spec_parent_tree_name() == parent_tree_name.spec_name(),
            same_equation(p.spec_gvm_eqn(), *gvm_eqn),
    {
        TcpStackTreeMsgPayload {
            new_tree_name: new_tree_name.clone(),
            parent_tree_name: parent_tree_name.clone(),
            gvm_eqn: gvm_eqn.clone(),
        }
    }

    pub fn get_new_tree_name(&self) -> (t: &AllowedTree)
        ensures
            t.spec_name() == self.spec_new_tree_name(),
    {
        &self.new_tree_name
    }

    pub fn get_parent_tree_name(&self) -> (t: &AllowedTree)
        ensures
            t.spec_name() == self.spec_parent_tree_name(),
    {
        &self.parent_tree_name
    }

    pub fn get_gvm_eqn(&self) -> (g: &GvmEquation)
        ensures
            *g == self.spec_gvm_eqn(),
    {
        &self.gvm_eqn
    }
}

impl TcpMsgPayload for TcpStackTreeMsgPayload {
}

/// The payload that tells a border cell the name of a tree.
#[derive(Debug)]
pub struct TcpTreeNameMsgPayload {
    tree_name: String,
}

impl TcpTreeNameMsgPayload {
    pub closed spec fn spec_tree_name(&self) -> Seq<char> {
        self.tree_name@
    }

    pub fn new(tree_name: &str) -> (p: TcpTreeNameMsgPayload)
        ensures
            p.spec_tree_name() == tree_name@,
    {
        TcpTreeNameMsgPayload { tree_name: S(tree_name) }
    }

    pub fn get_tree_name(&self) -> (s: &String)
        ensures
            s@ == self.spec_tree_name(),
    {
        &self.tree_name
    }
}

impl TcpMsgPayload for TcpTreeNameMsgPayload {
}

#[derive(Debug)]
pub enum TcpMessageError {
    Chain { func_name: &'static str, comment: &'static str },
    Process { func_name: &'static str },
}

} // verus!
