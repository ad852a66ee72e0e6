use vstd::prelude::*;

use crate::chip8::Chip8;
use crate::operations_set::operations_table::{common_req, alu_post, Executable, OperationSpecs};

verus! {

/// `7xkk` - `ADD Vx, byte`
///
/// Set `Vx := (Vx + kk) mod 256`; no flag changes.
pub struct Opt7 {}

pub open spec fn ens_opt7(specs: OperationSpecs, pre: Chip8, post: Chip8, r: Result<
    (),
    String,
>) -> bool {
    r is Ok && alu_post(
        pre,
        post,
        pre.memory@.update(
            pre.reg_addr(specs.rx as int),
            ((pre.spec_reg(specs.rx as int) + specs.constant) % 256) as u8,
        ),
    )
}

impl Executable for Opt7 {
    open spec fn req(&self, specs: OperationSpecs, chip: Chip8) -> bool {
        common_req(specs, chip)
    }

    open spec fn ens(&self, specs: OperationSpecs, pre: Chip8, post: Chip8, r: Result<
        (),
        String,
    >) -> bool {
        ens_opt7(specs, pre, post, r)
    }

    fn execute(&self, specs: OperationSpecs, chip: &mut Chip8) -> (r: Result<(), String>) {
        let rx_value = chip.get_register_value(specs.rx);
        let sum = ((specs.constant as u16 + rx_value as u16) % 256) as u8;
        chip.set_register_value(specs.rx, sum);
        chip.update_pc(None);
        Ok(())
    }
}

} // verus!
