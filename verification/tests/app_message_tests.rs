use multicell::app_message::{
    AppDeleteTreeMsg, AppInterapplicationMsg, AppMsgDirection, AppMsgType, AppQueryMsg, AppStackTreeMsg, AppTreeNameMsg,
    SenderMsgSeqNo,
};
use multicell::config::CellNo;
use multicell::gvm_equation::{GvmEqn, GvmEquation};
use multicell::name::{CellID, Name, SenderID};
use multicell::uptree_spec::AllowedTree;

fn sender() -> SenderID {
    SenderID::new(&CellID::new(CellNo(4)).unwrap(), "App").unwrap()
}

#[test]
fn interapplication_message_carries_tree_and_body() {
    let tree = AllowedTree::new("foo");
    let m = AppInterapplicationMsg::new(sender(), true, &tree, AppMsgDirection::Leafward, "hello");
    assert_eq!(m.get_msg_type(), AppMsgType::Interapplication);
    assert!(m.is_ait());
    assert_eq!(m.get_sender_msg_seq_no(), SenderMsgSeqNo(0));
    assert_eq!(m.get_allowed_tree_name().get_name(), "foo");
    assert_eq!(m.get_payload().get_body().0, b"hello".to_vec());
    assert_eq!(m.get_header().get_direction(), AppMsgDirection::Leafward);
    assert_eq!(m.get_header()._get_sender_id().get_name(), "Sender:C:4+App");
}

#[test]
fn tree_name_message_goes_rootward_and_stack_tree_is_ait() {
    let m = AppTreeNameMsg::new(sender(), "Base");
    assert_eq!(m.get_tree_name(), "Base");
    assert_eq!(m.get_header().get_direction(), AppMsgDirection::Rootward);
    assert!(!m.is_ait());
    let eqn = GvmEquation::new(&vec![GvmEqn::Recv("true")], vec![]);
    let s = AppStackTreeMsg::new(sender(), &AllowedTree::new("new"), &AllowedTree::new("parent"), AppMsgDirection::Leafward,
        &eqn);
    assert!(s.is_ait());
    assert_eq!(s.get_payload().get_new_tree_name().get_name(), "new");
    assert_eq!(s.get_payload().get_parent_tree_name().get_name(), "parent");
}

#[test]
fn delete_and_query_messages_name_their_trees() {
    let d = AppDeleteTreeMsg::new(sender(), false, &AllowedTree::new("old"), AppMsgDirection::Leafward, "");
    assert_eq!(d.get_delete_tree_name().get_name(), "old");
    assert_eq!(d.get_msg_type(), AppMsgType::DeleteTree);
    let q = AppQueryMsg::new(sender(), false, &AllowedTree::new("q"), AppMsgDirection::Rootward, "what");
    assert_eq!(q.get_query_tree_name().get_name(), "q");
    let mut h = multicell::app_message::AppMsgHeader::new(sender(), false, AppMsgType::Query, AppMsgDirection::Rootward);
    h.set_sender_msg_seq_no(SenderMsgSeqNo(9));
    assert_eq!(h.get_sender_msg_seq_no(), SenderMsgSeqNo(9));
    assert_eq!(h._get_msg_type(), AppMsgType::Query);
}
