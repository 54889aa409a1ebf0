//! Errors of the links between ports.
use vstd::prelude::*;

verus! {

#[derive(Debug)]
pub enum LinkError {
    Chain { func_name: &'static str, comment: String },
}

} // verus!
