//! Errors of the network operations center.
use vstd::prelude::*;

use crate::app_message::AppMsgType;

verus! {

#[derive(Debug)]
pub enum NocError {
    Chain { func_name: &'static str, comment: String },
    MsgType { func_name: &'static str, msg_type: AppMsgType },
}

} // verus!
