//! The size of the simulated datacenter: cells, ports per cell and links.
use vstd::prelude::*;

use crate::config::{CellNo, CellQty, LinkNo, PortQty};
use crate::text::{decimal, decimal_string};

verus! {

/// Ports a cell can have; a cell may ask for one fewer at most.
pub const MAX_NUM_PHYS_PORTS: u8 = 9;

#[derive(Debug)]
pub struct ECArgs {
    nports: PortQty,
    ncells: CellQty,
    nlinks: LinkNo,
}

#[derive(Debug)]
pub enum EcargsError {
    NumberPorts { func_name: &'static str, nports: PortQty, max_num_phys_ports: PortQty },
}

impl ECArgs {
    pub closed spec fn spec_nports(&self) -> PortQty {
        self.nports
    }

    pub closed spec fn spec_ncells(&self) -> CellQty {
        self.ncells
    }

    pub closed spec fn spec_nlinks(&self) -> LinkNo {
        self.nlinks
    }

    /// Accepts at most one port fewer than the maximum.
    pub fn new(ncells: CellQty, nports: PortQty, nlinks: CellNo) -> (r: Result<ECArgs, EcargsError>)
        ensures
            nports.0 <= MAX_NUM_PHYS_PORTS - 1 ==> (r matches Ok(a) && a.spec_nports() == nports && a.spec_ncells()
                == ncells && a.spec_nlinks() == LinkNo(nlinks)),
            nports.0 > MAX_NUM_PHYS_PORTS - 1 ==> r == Err::<ECArgs, EcargsError>(
                EcargsError::NumberPorts {
                    func_name: "new",
                    nports,
                    max_num_phys_ports: PortQty(MAX_NUM_PHYS_PORTS),
                },
            ),
    {
        if nports.0 <= MAX_NUM_PHYS_PORTS - 1 {
            Ok(ECArgs { nports, ncells, nlinks: LinkNo(CellNo(nlinks.0)) })
        } else {
            Err(EcargsError::NumberPorts { nports, func_name: "new", max_num_phys_ports: PortQty(MAX_NUM_PHYS_PORTS) })
        }
    }

    pub fn get_args(&self) -> (r: (CellQty, PortQty))
        ensures
            r == (self.spec_ncells(), self.spec_nports()),
    {
        (self.ncells, self.nports)
    }

    /// "`n` cells, `p` ports per cell, `l` links".
    pub fn to_string(&self) -> (s: String)
        ensures
            s@ == decimal(self.spec_ncells().0 as nat) + " cells, "@ + decimal(self.spec_nports().0 as nat)
                + " ports per cell, "@ + decimal(self.spec_nlinks().0.0 as nat) + " links"@,
    {
        let mut s = decimal_string(self.ncells.0 as u64);
        s.append(" cells, ");
        let p = decimal_string(self.nports.0 as u64);
        s.append(p.as_str());
        s.append(" ports per cell, ");
        let l = decimal_string(self.nlinks.0.0 as u64);
        s.append(l.as_str());
        s.append(" links");
        s
    }
}

} // verus!
