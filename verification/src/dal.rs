//! Errors of the data access layer, which records traces.
use vstd::prelude::*;

verus! {

#[derive(Debug)]
pub enum DalError {
    Chain { func_name: &'static str, comment: String },
    Kafka { func_name: &'static str, kafka_error: String },
}

} // verus!
