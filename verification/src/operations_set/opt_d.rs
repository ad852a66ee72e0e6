use vstd::prelude::*;

use crate::bits::{byte_of, drw_collision, drw_val, row_val};
use crate::chip8::{Chip8, ChipConfig, MEMORY_SIZE};
use crate::operations_set::operations_table::{common_req, Executable, OperationSpecs};

verus! {

/// `Dxyn` - `DRW Vx, Vy, nibble`
///
/// Read `n` sprite bytes from memory starting at `I` and composite them by
/// XOR into the framebuffer at row `Vx + i` (wrapping at the bottom) and
/// column `Vy` (wrapping at the right edge). `VF` bit 0 is raised when a lit
/// pixel goes dark, and `VF` bit 7 tells the renderer to refresh.
pub struct OptD {}

/// Memory and framebuffer after the first `n` sprite rows: each step reads
/// its sprite byte from the memory left by the previous steps, XORs the
/// placed sprite into the target row, and ORs the collision bit into `VF`.
pub open spec fn drw_rec(
    mem: Seq<u8>,
    gfx: Seq<Seq<u8>>,
    cfg: ChipConfig,
    coords: (u8, u8),
    i_reg: u16,
    n: int,
) -> (Seq<u8>, Seq<Seq<u8>>)
    decreases n,
{
    if n <= 0 {
        (mem, gfx)
    } else {
        {
            let prev = drw_rec(mem, gfx, cfg, coords, i_reg, n - 1);
            let m1 = prev.0;
            let g1 = prev.1;
            let sprite = m1[i_reg + n - 1];
            let trow = (coords.0 + n - 1) % (cfg.display_height as int);
            let col = (coords.1 % 64) as u64;
            let vf_addr = cfg.first_register_addr + 15;
            let xor = drw_val(row_val(g1[trow]), col, sprite);
            let m2 = if drw_collision(row_val(g1[trow]), col, sprite) {
                m1.update(vf_addr, m1[vf_addr] | 0x01)
            } else {
                m1
            };
            (m2, g1.update(trow, Seq::new(8, |k: int| byte_of(xor, k))))
        }
    }
}

/// The sprite blit: `n` rows composited, then the draw-ready flag `VF`
/// bit 7 raised and `PC` advanced. A sprite read past the end of memory is
/// an execution failure that leaves the machine unchanged.
pub open spec fn ens_optd(specs: OperationSpecs, pre: Chip8, post: Chip8, r: Result<
    (),
    String,
>) -> bool {
    if pre.i_register + specs.nibble > MEMORY_SIZE {
        r is Err && post == pre
    } else {
        {
            let coords = (pre.spec_reg(specs.rx as int), pre.spec_reg(specs.ry as int));
            let out = drw_rec(
                pre.memory@,
                pre.rows(),
                pre.config,
                coords,
                pre.i_register,
                specs.nibble as int,
            );
            &&& r is Ok
            &&& post.wf()
            &&& post.memory@ == out.0.update(pre.reg_addr(15), out.0[pre.reg_addr(15)] | 0x80)
            &&& post.gfx@.len() == pre.gfx@.len()
            &&& post.rows() == out.1
            &&& post.pc == pre.pc + 2
            &&& post.i_register == pre.i_register
            &&& post.sp == pre.sp
            &&& Chip8::eq_static(pre, post)
            &&& Chip8::eq_timers(pre, post)
        }
    }
}

impl Executable for OptD {
    open spec fn req(&self, specs: OperationSpecs, chip: Chip8) -> bool {
        common_req(specs, chip)
    }

    open spec fn ens(&self, specs: OperationSpecs, pre: Chip8, post: Chip8, r: Result<
        (),
        String,
    >) -> bool {
        ens_optd(specs, pre, post, r)
    }

    fn execute(&self, specs: OperationSpecs, chip: &mut Chip8) -> (r: Result<(), String>) {
        if chip.i_register as usize + specs.nibble as usize > MEMORY_SIZE {
            return Err(String::from_str("Sprite read past the end of memory"));
        }
        // take coordinates values
        let coord = (chip.get_register_value(specs.rx), chip.get_register_value(specs.ry));

        let n = specs.nibble as usize;
        let mut i: usize = 0;
        while i < n
            invariant
                0 <= i <= n,
                n == specs.nibble,
                specs.nibble < 16,
                old(chip).wf(),
                chip.wf(),
                chip.config == old(chip).config,
                chip.i_register == old(chip).i_register,
                chip.pc == old(chip).pc,
                chip.sp == old(chip).sp,
                old(chip).i_register + n <= MEMORY_SIZE,
                coord == (old(chip).spec_reg(specs.rx as int), old(chip).spec_reg(
                    specs.ry as int,
                )),
                Chip8::eq_static(*old(chip), *chip),
                Chip8::eq_timers(*old(chip), *chip),
                chip.gfx@.len() == old(chip).gfx@.len(),
                (chip.memory@, chip.rows()) == drw_rec(
                    old(chip).memory@,
                    old(chip).rows(),
                    old(chip).config,
                    coord,
                    old(chip).i_register,
                    i as int,
                ),
            decreases n - i,
        {
            let sprite = chip.load_i_address_value(i);
            let ghost pre_step = *chip;
            chip.set_gfx_sprite(coord, i, sprite);
            i = i + 1;
            proof {
                let stepped = drw_rec(
                    old(chip).memory@,
                    old(chip).rows(),
                    old(chip).config,
                    coord,
                    old(chip).i_register,
                    i as int,
                );
                let trow = (coord.0 + i - 1) % (old(chip).config.display_height as int);
                assert(chip.rows() =~= pre_step.rows().update(
                    trow,
                    Seq::new(
                        8,
                        |k: int|
                            byte_of(
                                drw_val(
                                    row_val(pre_step.rows()[trow]),
                                    (coord.1 % 64) as u64,
                                    sprite,
                                ),
                                k,
                            ),
                    ),
                ));
                assert((chip.memory@, chip.rows()) == stepped);
            }
        }

        // activate draw_flag
        let mut flag_reg = chip.get_register_value(0x0F);
        flag_reg = flag_reg | 0x80;
        chip.set_register_value(0x0F, flag_reg);
        chip.update_pc(None);
        Ok(())
    }
}

} // verus!
