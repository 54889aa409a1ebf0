//! Kinds of the messages cells exchange with each other, their directions,
//! and the small enumerations their payloads carry.
use vstd::prelude::*;

use crate::app_message::AppMsgDirection;
use crate::utility::S;

verus! {

#[derive(Debug, Copy, Clone, PartialEq, Eq, Structural, Hash)]
pub enum MsgType {
    Entl,
    Interapplication,
    Discover,
    DiscoverD,
    Failover,
    FailoverD,
    Hello,
    Manifest,
    StackTree,
    StackTreeD,
    TreeName,
}

#[derive(Debug, Copy, Clone, PartialEq, Eq, Structural, Hash)]
pub enum MsgDirection {
    Rootward,
    Leafward,
}

/// The direction a cell message takes for an application message's direction.
pub open spec fn direction_of_app(d: AppMsgDirection) -> MsgDirection {
    match d {
        AppMsgDirection::Rootward => MsgDirection::Rootward,
        AppMsgDirection::Leafward => MsgDirection::Leafward,
    }
}

impl From<AppMsgDirection> for MsgDirection {
    fn from(d: AppMsgDirection) -> (r: Self) {
        match d {
            AppMsgDirection::Rootward => MsgDirection::Rootward,
            AppMsgDirection::Leafward => MsgDirection::Leafward,
        }
    }
}

impl vstd::std_specs::convert::FromSpecImpl<AppMsgDirection> for MsgDirection {
    open spec fn obeys_from_spec() -> bool {
        true
    }

    open spec fn from_spec(d: AppMsgDirection) -> MsgDirection {
        direction_of_app(d)
    }
}

/// Marker for the payloads of cell messages.
pub trait MsgPayload {
}

/// Whether a DiscoverD answers the first Discover of a tree or a later one.
#[derive(Debug, Copy, Clone, PartialEq, Eq, Structural, Hash)]
pub enum DiscoverDType {
    First,
    Subsequent,
}

#[derive(Debug, Copy, Clone, PartialEq, Eq, Structural, Hash)]
pub enum FailoverResponse {
    Success,
    Failure,
}

/// The payload that tells a border cell the name of a tree.
#[derive(Debug)]
pub struct TreeNameMsgPayload {
    tree_name: String,
}

impl TreeNameMsgPayload {
    pub closed spec fn spec_tree_name(&self) -> Seq<char> {
        self.tree_name@
    }

    pub fn _new(tree_name: &str) -> (p: TreeNameMsgPayload)
        ensures
            p.spec_tree_name() == tree_name@,
    {
        TreeNameMsgPayload { tree_name: S(tree_name) }
    }

    pub fn _get_tree_name(&self) -> (s: &String)
        ensures
            s@ == self.spec_tree_name(),
    {
        &self.tree_name
    }
}

impl MsgPayload for TreeNameMsgPayload {
}

#[derive(Debug)]
pub enum MessageError {
    Chain { func_name: &'static str, comment: &'static str },
    Process { func_name: &'static str },
}


impl MsgType {
    /// The name of the message type.
    pub open spec fn spec_text(&self) -> &'static str {
        match self {
            MsgType::Entl => "Entl",
            MsgType::Interapplication => "Interapplication",
            MsgType::Discover => "Discover",
            MsgType::DiscoverD => "DiscoverD",
            MsgType::Failover => "Failover",
            MsgType::FailoverD => "FailoverD",
            MsgType::Hello => "Hello",
            MsgType::Manifest => "Manifest",
            MsgType::StackTree => "StackTree",
            MsgType::StackTreeD => "StackTreeD",
            MsgType::TreeName => "TreeName",
        }
    }

    /// The name of the message type.
    pub fn to_string(&self) -> (s: String)
        ensures
            s@ == self.spec_text()@,
    {
        let t: &'static str = match self {
            MsgType::Entl => "Entl",
            MsgType::Interapplication => "Interapplication",
            MsgType::Discover => "Discover",
            MsgType::DiscoverD => "DiscoverD",
            MsgType::Failover => "Failover",
            MsgType::FailoverD => "FailoverD",
            MsgType::Hello => "Hello",
            MsgType::Manifest => "Manifest",
            MsgType::StackTree => "StackTree",
            MsgType::StackTreeD => "StackTreeD",
            MsgType::TreeName => "TreeName",
        };
        S(t)
    }
}

impl DiscoverDType {
    /// The name of the answer's kind.
    pub open spec fn spec_text(&self) -> &'static str {
        match self {
            DiscoverDType::First => "First",
            DiscoverDType::Subsequent => "Subsequent",
        }
    }

    /// The name of the answer's kind.
    pub fn to_string(&self) -> (s: String)
        ensures
            s@ == self.spec_text()@,
    {
        let t: &'static str = match self {
            DiscoverDType::First => "First",
            DiscoverDType::Subsequent => "Subsequent",
        };
        S(t)
    }
}

impl FailoverResponse {
    /// The name of the outcome.
    pub open spec fn spec_text(&self) -> &'static str {
        match self {
            FailoverResponse::Success => "Success",
            FailoverResponse::Failure => "Failure",
        }
    }

    /// The name of the outcome.
    pub fn to_string(&self) -> (s: String)
        ensures
            s@ == self.spec_text()@,
    {
        let t: &'static str = match self {
            FailoverResponse::Success => "Success",
            FailoverResponse::Failure => "Failure",
        };
        S(t)
    }
}


impl MsgDirection {
    /// The name of the direction.
    pub open spec fn spec_text(&self) -> &'static str {
        match self {
            MsgDirection::Rootward => "Rootward",
            MsgDirection::Leafward => "Leafward",
        }
    }

    /// The name of the direction.
    pub fn to_string(&self) -> (s: String)
        ensures
            s@ == self.spec_text()@,
    {
        let t: &'static str = match self {
            MsgDirection::Rootward => "Rootward",
            MsgDirection::Leafward => "Leafward",
        };
        S(t)
    }
}

} // verus!
