use multicell::app_message::{
    AppDeleteTreeMsgPayload, AppInterapplicationMsgPayload, AppManifestMsgPayload, AppMsgDirection, AppMsgType,
    AppQueryMsgPayload, AppStackTreeMsgPayload, AppTreeNameMsgPayload, TypePlusAppMsg,
};
use multicell::config::{CellNo, CellQty, LinkNo, PortQty};
use multicell::ec_message::{self, DiscoverDType, FailoverResponse, MsgDirection};
use multicell::ecargs::{ECArgs, EcargsError};
use multicell::gvm_equation::{GvmEqn, GvmEquation};
use multicell::message::{self, MsgType, TypePlusMsg};
use multicell::config::CellConfig;
use multicell::packet_engine::NumberOfPackets;
use multicell::routingtable::SizeError;
use multicell::tcp_message::{TcpApplicationMsgPayload, TcpMsgType, TcpStackTreeMsgPayload, TcpTreeNameMsgPayload, TypePlusTcpMsg};
use multicell::uptree_spec::{AllowedTree, Manifest};

#[test]
fn app_payloads_keep_tree_names_and_utf8_bodies() {
    let t = AllowedTree::new("Tree");
    let p = AppInterapplicationMsgPayload::new(&t, "héllo");
    assert_eq!(p.get_allowed_tree_name().get_name(), "Tree");
    assert_eq!(p.get_body().0, "héllo".as_bytes().to_vec());
    let d = AppDeleteTreeMsgPayload::new(&t, "x");
    assert_eq!(d.get_delete_tree_name().get_name(), "Tree");
    assert_eq!(d.get_body().0, vec![b'x']);
    let q = AppQueryMsgPayload::new(&t, "");
    assert_eq!(q.get_query_tree_name().get_name(), "Tree");
    assert!(q.get_body().0.is_empty());
    let n = AppTreeNameMsgPayload::new("Base");
    assert_eq!(n.get_tree_name(), "Base");
}

#[test]
fn manifest_and_stack_tree_payloads() {
    let a = AllowedTree::new("a");
    let m = Manifest::new("m", CellConfig::Small, &a, &vec![&a], vec![], vec![]).unwrap();
    let deploy = AllowedTree::new("d");
    let p = AppManifestMsgPayload::new(&deploy, &m);
    assert_eq!(p.get_deploy_tree_name().get_name(), "d");
    assert_eq!(p.get_manifest().get_id(), "m");
    let eqn = GvmEquation::new(&vec![GvmEqn::Send("true")], vec![]);
    let s = AppStackTreeMsgPayload::new(&AllowedTree::new("new"), &AllowedTree::new("parent"), &eqn);
    assert_eq!(s.get_new_tree_name().get_name(), "new");
    assert_eq!(s.get_parent_tree_name().get_name(), "parent");
    assert_eq!(s.get_gvm_eqn().eval_send(&[]).unwrap(), true);
    let ts = TcpStackTreeMsgPayload::new(&AllowedTree::new("n"), &AllowedTree::new("p"), &eqn);
    assert_eq!(ts.get_parent_tree_name().get_name(), "p");
}

#[test]
fn tcp_payloads() {
    let t = AllowedTree::new("T");
    let p = TcpApplicationMsgPayload::new(&t, "body");
    assert_eq!(p.get_allowed_tree_name().get_name(), "T");
    assert_eq!(p.get_body().0, b"body".to_vec());
    assert_eq!(TcpTreeNameMsgPayload::new("x").get_tree_name(), "x");
}

#[test]
fn typed_envelopes() {
    let m = TypePlusMsg::new(MsgType::Discover, String::from("{}"));
    assert_eq!(m.get_type(), MsgType::Discover);
    assert_eq!(m.get_serialized_msg(), "{}");
    let a = TypePlusAppMsg::_new(AppMsgType::Query, String::from("q"));
    assert_eq!(a._et_type(), AppMsgType::Query);
    assert_eq!(a._get_serialized_msg(), "q");
    let t = TypePlusTcpMsg::new(TcpMsgType::TreeName, String::from("t"));
    assert_eq!(t.get_type(), TcpMsgType::TreeName);
    assert_eq!(message::TreeNameMsgPayload::new("n").get_tree_name(), "n");
    assert_eq!(ec_message::TreeNameMsgPayload::_new("e")._get_tree_name(), "e");
}

#[test]
fn app_directions_convert() {
    assert_eq!(MsgDirection::from(AppMsgDirection::Rootward), MsgDirection::Rootward);
    assert_eq!(MsgDirection::from(AppMsgDirection::Leafward), MsgDirection::Leafward);
    assert_ne!(DiscoverDType::First, DiscoverDType::Subsequent);
    assert_ne!(FailoverResponse::Success, FailoverResponse::Failure);
}

#[test]
fn ecargs_checks_ports() {
    let a = ECArgs::new(CellQty(10), PortQty(8), CellNo(13)).unwrap();
    assert_eq!(a.get_args(), (CellQty(10), PortQty(8)));
    assert_eq!(a.to_string(), "10 cells, 8 ports per cell, 13 links");
    match ECArgs::new(CellQty(10), PortQty(9), CellNo(13)) {
        Err(EcargsError::NumberPorts { func_name, nports, max_num_phys_ports }) => {
            assert_eq!(func_name, "new");
            assert_eq!(nports, PortQty(9));
            assert_eq!(max_num_phys_ports, PortQty(9));
        },
        other => panic!("unexpected {:?}", other),
    }
    let _ = LinkNo(CellNo(0));
}

#[test]
fn small_types() {
    assert_eq!(SizeError::new().get_msg(), "No more room in routing table");
    let n = NumberOfPackets::new();
    assert_eq!(n.get_number_seen(), 0);
    assert_eq!(n._get_number_sent(), 0);
}

#[test]
fn message_types_are_named() {
    assert_eq!(MsgType::Discover.to_string(), "Discover");
    assert_eq!(MsgType::StackTreeD.to_string(), "StackTreeD");
    assert_eq!(multicell::message::TcpMsgType::DeleteTree.to_string(), "DeleteTree");
    assert_eq!(multicell::message::MsgDirection::Rootward.to_string(), "Rootward");
    assert_eq!(multicell::ec_message::MsgType::Entl.to_string(), "Entl");
    assert_eq!(multicell::ec_message::FailoverResponse::Failure.to_string(), "Failure");
    assert_eq!(multicell::app_message::AppMsgType::Interapplication.to_string(), "Interapplication");
    assert_eq!(multicell::gvm_equation::GvmVariableType::PathLength.to_string(), "PathLength");
}
