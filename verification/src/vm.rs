//! Errors of virtual machines.
use vstd::prelude::*;

verus! {

#[derive(Debug)]
pub enum VmError {
    Chain { func_name: &'static str, comment: String },
}

} // verus!
