//! Errors of the services run in containers.
use vstd::prelude::*;

verus! {

#[derive(Debug)]
pub enum ServiceError {
    Chain { func_name: &'static str, comment: String },
    NoSuchService { func_name: &'static str, service_name: String },
}

} // verus!
