use vstd::prelude::*;

use crate::chip8::{spec_addr_out_of_bounds, spec_push_pc, Chip8};
use crate::operations_set::operations_table::{common_req, Executable, OperationSpecs};

verus! {

/// `2nnn` - `CALL addr`
///
/// Call the subroutine at `nnn`: the current `PC` is pushed on the stack and
/// `PC` is set to `nnn`, with no post-increment.
pub struct Opt2 {}

/// Push-and-jump, failing without effect when the target exceeds the
/// 12-bit address space (vacuous for a decoded target) or the push would
/// reach the stack canary.
pub open spec fn ens_opt2(specs: OperationSpecs, pre: Chip8, post: Chip8, r: Result<
    (),
    String,
>) -> bool {
    if spec_addr_out_of_bounds(specs.addr) {
        r is Err && post == pre
    } else if pre.sp == 16 {
        r is Err && post == pre
    } else {
        r is Ok && spec_push_pc(pre, post, specs.addr)
    }
}

impl Executable for Opt2 {
    open spec fn req(&self, specs: OperationSpecs, chip: Chip8) -> bool {
        common_req(specs, chip)
    }

    open spec fn ens(&self, specs: OperationSpecs, pre: Chip8, post: Chip8, r: Result<
        (),
        String,
    >) -> bool {
        ens_opt2(specs, pre, post, r)
    }

    fn execute(&self, specs: OperationSpecs, chip: &mut Chip8) -> (r: Result<(), String>) {
        if Chip8::address_out_of_bounds(specs.addr) {
            Err(String::from_str("Address out of bounds in subroutine call"))
        } else {
            chip.call_subroutine(specs.addr)?;
            Ok(())
        }
    }
}

} // verus!
