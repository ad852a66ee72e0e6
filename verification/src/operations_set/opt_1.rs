use vstd::prelude::*;

use crate::chip8::{spec_addr_out_of_bounds, Chip8};
use crate::operations_set::operations_table::{common_req, Executable, OperationSpecs};

verus! {

/// `1nnn` - `JP addr`
///
/// Jump to location `nnn`: the interpreter sets the program counter to `nnn`.
pub struct Opt1 {}

/// `PC := nnn`, unless the target exceeds the 12-bit address space, in
/// which case nothing changes and the cycle fails. A decoded target is
/// always 12-bit, so the check is vacuous here; it does real work for the
/// indexed jump.
pub open spec fn ens_opt1(specs: OperationSpecs, pre: Chip8, post: Chip8, r: Result<
    (),
    String,
>) -> bool {
    if spec_addr_out_of_bounds(specs.addr) {
        r is Err && post == pre
    } else {
        r is Ok && post == (Chip8 { pc: specs.addr, ..pre })
    }
}

impl Executable for Opt1 {
    open spec fn req(&self, specs: OperationSpecs, chip: Chip8) -> bool {
        common_req(specs, chip)
    }

    open spec fn ens(&self, specs: OperationSpecs, pre: Chip8, post: Chip8, r: Result<
        (),
        String,
    >) -> bool {
        ens_opt1(specs, pre, post, r)
    }

    fn execute(&self, specs: OperationSpecs, chip: &mut Chip8) -> (r: Result<(), String>) {
        if Chip8::address_out_of_bounds(specs.addr) {
            Err(String::from_str("Address out of bounds in jump target"))
        } else {
            chip.update_pc(Some(specs.addr));
            Ok(())
        }
    }
}

} // verus!
