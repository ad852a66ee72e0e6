use vstd::prelude::*;

use crate::chip8::{
    first_routine_addr, Chip8, ChipConfig, RoutineParams, RoutinePurpose, MEMORY_SIZE,
};
use crate::operations_set::operations_table::{common_req, Executable, OperationSpecs};
use crate::timers::TimerThread;

verus! {

/// The `Fx__` group, sub-dispatched on the low byte: the two timer loads and
/// the register dump.
pub struct OptF {}

/// The handler address a timer load binds: the first installed routine of
/// the matching purpose, or the configured default when none is installed or
/// the routine record carries no address.
pub open spec fn resolved_rti(rs: Seq<RoutineParams>, p: RoutinePurpose, cfg: ChipConfig) -> u16 {
    match first_routine_addr(rs, p) {
        Some(a) => a,
        None => cfg.rti_default_addr,
    }
}

/// `Fx15` - `LD DT, Vx`: a fresh delay timer device with `Vx` ticks, bound
/// to the resolved delay handler; any previous device is preempted.
pub open spec fn ens_optf_x15(specs: OperationSpecs, pre: Chip8, post: Chip8) -> bool {
    post == (Chip8 {
        delay_timer: Some(
            TimerThread {
                timer: pre.spec_reg(specs.rx as int),
                rti: resolved_rti(pre.routines@, RoutinePurpose::DelayTimer, pre.config),
                paused: false,
            },
        ),
        pc: (pre.pc + 2) as u16,
        ..pre
    })
}

/// `Fx18` - `LD ST, Vx`: the same for the sound timer slot.
pub open spec fn ens_optf_x18(specs: OperationSpecs, pre: Chip8, post: Chip8) -> bool {
    post == (Chip8 {
        sound_timer: Some(
            TimerThread {
                timer: pre.spec_reg(specs.rx as int),
                rti: resolved_rti(pre.routines@, RoutinePurpose::SoundTimer, pre.config),
                paused: false,
            },
        ),
        pc: (pre.pc + 2) as u16,
        ..pre
    })
}

/// Memory after the first `n` steps of the register dump: step `r` writes
/// the current value of register `r` to the byte at `I`, so each write
/// lands on the same cell and later writes win.
pub open spec fn x55_rec(mem: Seq<u8>, cfg: ChipConfig, i_reg: u16, n: int) -> Seq<u8>
    decreases n,
{
    if n <= 0 {
        mem
    } else {
        {
            let m1 = x55_rec(mem, cfg, i_reg, n - 1);
            m1.update(i_reg as int, m1[cfg.first_register_addr + n - 1])
        }
    }
}

/// `Fx55` - `LD [I], Vx`: registers `V0..=Vx` written in turn to the byte at
/// `I`, which does not advance. An `I` outside memory is an execution
/// failure that leaves the machine unchanged.
pub open spec fn ens_optf_x55(specs: OperationSpecs, pre: Chip8, post: Chip8, ok: bool) -> bool {
    if pre.i_register >= MEMORY_SIZE {
        !ok && post == pre
    } else {
        &&& ok
        &&& post.wf()
        &&& post.memory@ == x55_rec(pre.memory@, pre.config, pre.i_register, specs.rx + 1)
        &&& post.pc == pre.pc + 2
        &&& post.i_register == pre.i_register
        &&& post.sp == pre.sp
        &&& Chip8::eq_static(pre, post)
        &&& Chip8::eq_gfx(pre, post)
        &&& Chip8::eq_timers(pre, post)
    }
}

/// The group's sub-dispatch on the low byte; an unassigned byte leaves the
/// machine unchanged and answers `None`.
pub open spec fn ens_optf_select(specs: OperationSpecs, pre: Chip8, post: Chip8, r: Option<
    (),
>) -> bool {
    if specs.constant == 0x15 {
        r == Some(()) && ens_optf_x15(specs, pre, post)
    } else if specs.constant == 0x18 {
        r == Some(()) && ens_optf_x18(specs, pre, post)
    } else if specs.constant == 0x55 {
        match r {
            Some(u) => ens_optf_x55(specs, pre, post, true),
            None => ens_optf_x55(specs, pre, post, false),
        }
    } else {
        r is None && post == pre
    }
}

impl OptF {
    pub fn select_execution(&self, specs: OperationSpecs, chip: &mut Chip8) -> (r: Option<()>)
        requires
            common_req(specs, *old(chip)),
        ensures
            ens_optf_select(specs, *old(chip), *final(chip), r),
    {
        // the constant occupies the same bit-space as the nibble and ry in
        // F operations
        match specs.constant {
            0x15 => Some(self.execute_x15(specs, chip)),
            0x18 => Some(self.execute_x18(specs, chip)),
            0x55 => self.execute_x55(specs, chip),
            _ => None,
        }
    }

    /// `Fx15 - LD DT, Vx`: load the delay timer from `Vx`.
    pub fn execute_x15(&self, specs: OperationSpecs, chip: &mut Chip8)
        requires
            common_req(specs, *old(chip)),
        ensures
            ens_optf_x15(specs, *old(chip), *final(chip)),
    {
        let rx = chip.get_register_value(specs.rx);
        let delay_timer_addr = chip.get_routine_addr(RoutinePurpose::DelayTimer);
        chip.set_delay_timer(rx, delay_timer_addr);
        chip.update_pc(None);
    }

    /// `Fx18 - LD ST, Vx`: load the sound timer from `Vx`.
    pub fn execute_x18(&self, specs: OperationSpecs, chip: &mut Chip8)
        requires
            common_req(specs, *old(chip)),
        ensures
            ens_optf_x18(specs, *old(chip), *final(chip)),
    {
        let rx = chip.get_register_value(specs.rx);
        let sound_timer_addr = chip.get_routine_addr(RoutinePurpose::SoundTimer);
        chip.set_sound_timer(rx, sound_timer_addr);
        chip.update_pc(None);
    }

    /// `Fx55 - LD [I], Vx`: store registers `V0` through `Vx` at `I`.
    pub fn execute_x55(&self, specs: OperationSpecs, chip: &mut Chip8) -> (r: Option<()>)
        requires
            common_req(specs, *old(chip)),
        ensures
            match r {
                Some(u) => ens_optf_x55(specs, *old(chip), *final(chip), true),
                None => ens_optf_x55(specs, *old(chip), *final(chip), false),
            },
    {
        if chip.i_register as usize >= MEMORY_SIZE {
            return None;
        }
        let n = specs.rx as usize + 1;
        let mut r: usize = 0;
        while r < n
            invariant
                0 <= r <= n,
                n == specs.rx + 1,
                specs.rx < 16,
                old(chip).wf(),
                chip.wf(),
                old(chip).i_register < MEMORY_SIZE,
                chip.i_register == old(chip).i_register,
                chip.pc == old(chip).pc,
                chip.sp == old(chip).sp,
                Chip8::eq_static(*old(chip), *chip),
                Chip8::eq_gfx(*old(chip), *chip),
                Chip8::eq_timers(*old(chip), *chip),
                chip.memory@ == x55_rec(
                    old(chip).memory@,
                    old(chip).config,
                    old(chip).i_register,
                    r as int,
                ),
            decreases n - r,
        {
            let v = chip.get_register_value(r as u8);
            let addr = chip.i_register as usize;
            chip.memory[addr] = v;
            r = r + 1;
        }
        chip.update_pc(None);
        Some(())
    }
}

impl Executable for OptF {
    open spec fn req(&self, specs: OperationSpecs, chip: Chip8) -> bool {
        common_req(specs, chip)
    }

    open spec fn ens(&self, specs: OperationSpecs, pre: Chip8, post: Chip8, r: Result<
        (),
        String,
    >) -> bool {
        match r {
            Ok(u) => ens_optf_select(specs, pre, post, Some(u)),
            Err(_) => ens_optf_select(specs, pre, post, None),
        }
    }

    fn execute(&self, specs: OperationSpecs, chip: &mut Chip8) -> (r: Result<(), String>) {
        match self.select_execution(specs, chip) {
            Some(()) => Ok(()),
            None => Err(String::from_str("OptF execution failed: unassigned low byte")),
        }
    }
}

} // verus!
