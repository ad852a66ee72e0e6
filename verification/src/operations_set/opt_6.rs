use vstd::prelude::*;

use crate::chip8::Chip8;
use crate::operations_set::operations_table::{common_req, alu_post, Executable, OperationSpecs};

verus! {

/// `6xkk` - `LD Vx, byte`
///
/// Set `Vx := kk`.
pub struct Opt6 {}

pub open spec fn ens_opt6(specs: OperationSpecs, pre: Chip8, post: Chip8, r: Result<
    (),
    String,
>) -> bool {
    r is Ok && alu_post(
        pre,
        post,
        pre.memory@.update(pre.reg_addr(specs.rx as int), specs.constant),
    )
}

impl Executable for Opt6 {
    open spec fn req(&self, specs: OperationSpecs, chip: Chip8) -> bool {
        common_req(specs, chip)
    }

    open spec fn ens(&self, specs: OperationSpecs, pre: Chip8, post: Chip8, r: Result<
        (),
        String,
    >) -> bool {
        ens_opt6(specs, pre, post, r)
    }

    fn execute(&self, specs: OperationSpecs, chip: &mut Chip8) -> (r: Result<(), String>) {
        chip.set_register_value(specs.rx, specs.constant);
        chip.update_pc(None);
        Ok(())
    }
}

} // verus!
