//! Errors of tenants, which own cells of the datacenter.
use vstd::prelude::*;

use crate::config::CellNo;

verus! {

#[derive(Debug)]
pub enum TenantError {
    Chain { func_name: &'static str, comment: String },
    DuplicateName { func_name: &'static str, tenant_name: String },
    Quota { func_name: &'static str, request: CellNo, available: CellNo },
}

} // verus!
