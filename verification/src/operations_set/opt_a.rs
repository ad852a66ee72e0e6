use vstd::prelude::*;

use crate::chip8::Chip8;
use crate::operations_set::operations_table::{common_req, Executable, OperationSpecs};

verus! {

/// `Annn` - `LD I, addr`
///
/// Set `I := nnn`; the decoded address is 12-bit by construction.
pub struct OptA {}

pub open spec fn ens_opta(specs: OperationSpecs, pre: Chip8, post: Chip8, r: Result<
    (),
    String,
>) -> bool {
    r is Ok && post == (Chip8 { i_register: specs.addr, pc: (pre.pc + 2) as u16, ..pre })
}

impl Executable for OptA {
    open spec fn req(&self, specs: OperationSpecs, chip: Chip8) -> bool {
        common_req(specs, chip)
    }

    open spec fn ens(&self, specs: OperationSpecs, pre: Chip8, post: Chip8, r: Result<
        (),
        String,
    >) -> bool {
        ens_opta(specs, pre, post, r)
    }

    fn execute(&self, specs: OperationSpecs, chip: &mut Chip8) -> (r: Result<(), String>) {
        chip.set_i_register_value(specs.addr);
        chip.update_pc(None);
        Ok(())
    }
}

} // verus!
