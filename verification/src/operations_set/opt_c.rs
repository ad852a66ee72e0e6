use vstd::prelude::*;

use crate::chip8::Chip8;
use crate::operations_set::operations_table::{common_req, Executable, OperationSpecs};

verus! {

/// Relies on `rand::random`: a sampled value of the requested type. Nothing
/// is promised of the value itself; callers must hold for every outcome.
pub assume_specification<T>[ rand::random::<T> ]() -> (r: T)
    where
        rand::distributions::Standard: rand::distributions::Distribution<T>,
;

/// `Cxkk` - `RND Vx, byte`
///
/// Draw a random byte, AND it with `kk`, and store the result in `Vx`.
pub struct OptC {}

/// Some byte ANDed with `kk` lands in `Vx` and `PC` falls through; which
/// byte was drawn is not determined.
pub open spec fn ens_optc(specs: OperationSpecs, pre: Chip8, post: Chip8, r: Result<
    (),
    String,
>) -> bool {
    &&& r is Ok
    &&& post.wf()
    &&& (exists|b: u8|
        post.memory@ == pre.memory@.update(pre.reg_addr(specs.rx as int), b & specs.constant))
    &&& post.pc == pre.pc + 2
    &&& post.i_register == pre.i_register
    &&& post.sp == pre.sp
    &&& Chip8::eq_static(pre, post)
    &&& Chip8::eq_gfx(pre, post)
    &&& Chip8::eq_timers(pre, post)
}

impl Executable for OptC {
    open spec fn req(&self, specs: OperationSpecs, chip: Chip8) -> bool {
        common_req(specs, chip)
    }

    open spec fn ens(&self, specs: OperationSpecs, pre: Chip8, post: Chip8, r: Result<
        (),
        String,
    >) -> bool {
        ens_optc(specs, pre, post, r)
    }

    fn execute(&self, specs: OperationSpecs, chip: &mut Chip8) -> (r: Result<(), String>) {
        let rand_no = rand::random::<u8>();
        chip.set_register_value(specs.rx, rand_no & specs.constant);
        chip.update_pc(None);
        proof {
            assert(chip.memory@ == old(chip).memory@.update(
                old(chip).reg_addr(specs.rx as int),
                rand_no & specs.constant,
            ));
        }
        Ok(())
    }
}

} // verus!
