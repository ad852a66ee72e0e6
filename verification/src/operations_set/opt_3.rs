use vstd::prelude::*;

use crate::chip8::Chip8;
use crate::operations_set::operations_table::{common_req, skip_post, Executable, OperationSpecs};

verus! {

/// `3xkk` - `SE Vx, byte`
///
/// Skip the next instruction if `Vx == kk`.
pub struct Opt3 {}

pub open spec fn ens_opt3(specs: OperationSpecs, pre: Chip8, post: Chip8, r: Result<
    (),
    String,
>) -> bool {
    r is Ok && skip_post(pre, post, pre.spec_reg(specs.rx as int) == specs.constant)
}

impl Executable for Opt3 {
    open spec fn req(&self, specs: OperationSpecs, chip: Chip8) -> bool {
        common_req(specs, chip)
    }

    open spec fn ens(&self, specs: OperationSpecs, pre: Chip8, post: Chip8, r: Result<
        (),
        String,
    >) -> bool {
        ens_opt3(specs, pre, post, r)
    }

    fn execute(&self, specs: OperationSpecs, chip: &mut Chip8) -> (r: Result<(), String>) {
        if chip.get_register_value(specs.rx) == specs.constant {
            chip.update_pc(None);
        }
        chip.update_pc(None);
        Ok(())
    }
}

} // verus!
