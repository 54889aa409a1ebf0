//! Errors of the cell program's command loop.
use vstd::prelude::*;

verus! {

#[derive(Debug)]
pub enum MainError {
    Chain { func_name: &'static str, comment: String },
    Console { func_name: &'static str, input: String, comment: String },
    Kafka { func_name: &'static str },
}

} // verus!
