//! Errors of building a datacenter from a blueprint.
use vstd::prelude::*;

verus! {

#[derive(Debug)]
pub enum DatacenterError {
    Chain { func_name: &'static str, comment: String },
}

} // verus!
