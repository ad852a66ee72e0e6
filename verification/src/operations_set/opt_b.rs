use vstd::prelude::*;

use crate::chip8::{spec_addr_out_of_bounds, Chip8};
use crate::operations_set::operations_table::{common_req, Executable, OperationSpecs};

verus! {

/// `Bnnn` - `JP V0, addr`
///
/// Jump to `nnn + V0`; only `V0` is ever consulted.
pub struct OptB {}

pub open spec fn ens_optb(specs: OperationSpecs, pre: Chip8, post: Chip8, r: Result<
    (),
    String,
>) -> bool {
    {
        let eff = (specs.addr + pre.spec_reg(0)) as u16;
        if spec_addr_out_of_bounds(eff) {
            r is Err && post == pre
        } else {
            r is Ok && post == (Chip8 { pc: eff, ..pre })
        }
    }
}

impl Executable for OptB {
    open spec fn req(&self, specs: OperationSpecs, chip: Chip8) -> bool {
        common_req(specs, chip)
    }

    open spec fn ens(&self, specs: OperationSpecs, pre: Chip8, post: Chip8, r: Result<
        (),
        String,
    >) -> bool {
        ens_optb(specs, pre, post, r)
    }

    fn execute(&self, specs: OperationSpecs, chip: &mut Chip8) -> (r: Result<(), String>) {
        let r0 = chip.get_register_value(0);
        let eff_addr = specs.addr + r0 as u16;
        if Chip8::address_out_of_bounds(eff_addr) {
            Err(String::from_str("Address out of bounds in indexed jump"))
        } else {
            chip.update_pc(Some(eff_addr));
            Ok(())
        }
    }
}

} // verus!
