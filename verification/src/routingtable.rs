//! The error of a routing table that has no free entry.
use vstd::prelude::*;

use crate::utility::S;

verus! {

/// The routing table has no free entry.
#[derive(Debug)]
pub struct SizeError {
    msg: String,
}

impl SizeError {
    pub closed spec fn spec_msg(&self) -> Seq<char> {
        self.msg@
    }

    pub fn new() -> (e: SizeError)
        ensures
            e.spec_msg() == "No more room in routing table"@,
    {
        SizeError { msg: S("No more room in routing table") }
    }

    pub fn get_msg(&self) -> (s: &String)
        ensures
            s@ == self.spec_msg(),
    {
        &self.msg
    }
}

} // verus!
