//! Decoded operand fields, the `Executable` contract shared by all opcode
//! handlers, the two special instructions `RET` and `CLS`, and the dispatch
//! table keyed on the opcode's top nibble.

use vstd::prelude::*;

use crate::chip8::{word_at, Chip8};
use crate::operations_set::opt_1::Opt1;
use crate::operations_set::opt_2::Opt2;
use crate::operations_set::opt_3::Opt3;
use crate::operations_set::opt_4::Opt4;
use crate::operations_set::opt_5::Opt5;
use crate::operations_set::opt_6::Opt6;
use crate::operations_set::opt_7::Opt7;
use crate::operations_set::opt_8::Opt8;
use crate::operations_set::opt_9::Opt9;
use crate::operations_set::opt_a::OptA;
use crate::operations_set::opt_b::OptB;
use crate::operations_set::opt_c::OptC;
use crate::operations_set::opt_d::OptD;
use crate::operations_set::opt_f::OptF;

verus! {

/// The operand fields decoded from an opcode word.
#[derive(Debug, Clone, Copy, PartialEq, Eq, Structural)]
pub struct OperationSpecs {
    pub nibble: u8,
    pub addr: u16,
    pub constant: u8,
    pub rx: u8,
    pub ry: u8,
}

/// The field bounds decoding guarantees.
pub open spec fn specs_wf(s: OperationSpecs) -> bool {
    &&& s.nibble < 16
    &&& s.addr < 0x1000
    &&& s.rx < 16
    &&& s.ry < 16
}

/// The operand fields of opcode `op`.
pub open spec fn spec_decode(op: u16) -> OperationSpecs {
    OperationSpecs {
        nibble: (0x000F & op) as u8,
        addr: 0x0FFF & op,
        constant: (0x00FF & op) as u8,
        rx: (0x0F & (op >> 8)) as u8,
        ry: (0x0F & (op >> 4)) as u8,
    }
}

/// What every handler may assume when a cycle dispatches to it: a
/// well-formed machine, decoded operand fields, and room to advance `PC`
/// past a conditional skip.
pub open spec fn common_req(specs: OperationSpecs, chip: Chip8) -> bool {
    &&& chip.wf()
    &&& specs_wf(specs)
    &&& chip.pc + 4 <= u16::MAX
}

/// A step that writes `new_mem` and falls through to the next instruction,
/// leaving every other part of the machine alone.
pub open spec fn alu_post(pre: Chip8, post: Chip8, new_mem: Seq<u8>) -> bool {
    &&& post.wf()
    &&& post.memory@ == new_mem
    &&& post.pc == pre.pc + 2
    &&& post.i_register == pre.i_register
    &&& post.sp == pre.sp
    &&& Chip8::eq_static(pre, post)
    &&& Chip8::eq_gfx(pre, post)
    &&& Chip8::eq_timers(pre, post)
}

/// A conditional skip: `PC` advances by 4 when `cond` holds, else by 2.
pub open spec fn skip_post(pre: Chip8, post: Chip8, cond: bool) -> bool {
    post == (Chip8 { pc: if cond { (pre.pc + 4) as u16 } else { (pre.pc + 2) as u16 }, ..pre })
}

/// An opcode handler: executes its operation on the machine and moves `PC`.
/// Each handler fixes its exact behaviour through its `ens` spec.
pub trait Executable: Sized {
    spec fn req(&self, specs: OperationSpecs, chip: Chip8) -> bool;

    spec fn ens(&self, specs: OperationSpecs, pre: Chip8, post: Chip8, r: Result<
        (),
        String,
    >) -> bool;

    fn execute(&self, specs: OperationSpecs, chip: &mut Chip8) -> (r: Result<(), String>)
        requires
            self.req(specs, *old(chip)),
        ensures
            self.ens(specs, *old(chip), *final(chip), r),
    ;
}

// special instructions

/// `00EE`: return from a subroutine.
pub struct Ret {}

/// `00E0`: clear the display.
pub struct Cls {}

/// What `RET` does: pop the saved `PC` and fall through to the instruction
/// after the matching `CALL`. An empty stack, or a popped value too large to
/// advance past, is an execution failure that the cycle surfaces.
pub open spec fn ens_ret(pre: Chip8, post: Chip8, r: Result<(), String>) -> bool {
    if pre.sp == 0 {
        r is Err && post == pre
    } else {
        {
            let popped = word_at(pre.memory@, pre.stack_addr(pre.sp - 1));
            if popped + 2 > u16::MAX {
                r is Err && post == (Chip8 { sp: (pre.sp - 1) as u8, pc: popped, ..pre })
            } else {
                r is Ok && post == (Chip8 {
                    sp: (pre.sp - 1) as u8,
                    pc: (popped + 2) as u16,
                    ..pre
                })
            }
        }
    }
}

impl Executable for Ret {
    open spec fn req(&self, specs: OperationSpecs, chip: Chip8) -> bool {
        common_req(specs, chip)
    }

    open spec fn ens(&self, specs: OperationSpecs, pre: Chip8, post: Chip8, r: Result<
        (),
        String,
    >) -> bool {
        ens_ret(pre, post, r)
    }

    fn execute(&self, specs: OperationSpecs, chip: &mut Chip8) -> (r: Result<(), String>) {
        if chip.sp == 0 {
            return Err(String::from_str("Stack underflow on subroutine return"));
        }
        chip.leave_subroutine();
        if chip.pc > 0xFFFD {
            return Err(String::from_str("Returned program counter out of range"));
        }
        chip.update_pc(None);
        Ok(())
    }
}

/// What `CLS` does: zero the framebuffer and fall through.
pub open spec fn ens_cls(pre: Chip8, post: Chip8, r: Result<(), String>) -> bool {
    &&& r is Ok
    &&& post.wf()
    &&& post.gfx@.len() == pre.gfx@.len()
    &&& (forall|row: int, b: int|
        0 <= row < post.gfx@.len() && 0 <= b < 8 ==> #[trigger] post.gfx@[row]@[b] == 0u8)
    &&& post.pc == pre.pc + 2
    &&& post.i_register == pre.i_register
    &&& post.sp == pre.sp
    &&& Chip8::eq_memory(pre, post)
    &&& Chip8::eq_static(pre, post)
    &&& Chip8::eq_timers(pre, post)
}

impl Executable for Cls {
    open spec fn req(&self, specs: OperationSpecs, chip: Chip8) -> bool {
        common_req(specs, chip)
    }

    open spec fn ens(&self, specs: OperationSpecs, pre: Chip8, post: Chip8, r: Result<
        (),
        String,
    >) -> bool {
        ens_cls(pre, post, r)
    }

    fn execute(&self, specs: OperationSpecs, chip: &mut Chip8) -> (r: Result<(), String>) {
        chip.clear_display();
        chip.update_pc(None);
        Ok(())
    }
}

/// A dispatched opcode handler.
pub enum Operation {
    OpRet(Ret),
    OpCls(Cls),
    Op1(Opt1),
    Op2(Opt2),
    Op3(Opt3),
    Op4(Opt4),
    Op5(Opt5),
    Op6(Opt6),
    Op7(Opt7),
    Op8(Opt8),
    Op9(Opt9),
    OpA(OptA),
    OpB(OptB),
    OpC(OptC),
    OpD(OptD),
    OpF(OptF),
}

impl Operation {
    pub open spec fn ens(self, specs: OperationSpecs, pre: Chip8, post: Chip8, r: Result<
        (),
        String,
    >) -> bool {
        match self {
            Operation::OpRet(o) => o.ens(specs, pre, post, r),
            Operation::OpCls(o) => o.ens(specs, pre, post, r),
            Operation::Op1(o) => o.ens(specs, pre, post, r),
            Operation::Op2(o) => o.ens(specs, pre, post, r),
            Operation::Op3(o) => o.ens(specs, pre, post, r),
            Operation::Op4(o) => o.ens(specs, pre, post, r),
            Operation::Op5(o) => o.ens(specs, pre, post, r),
            Operation::Op6(o) => o.ens(specs, pre, post, r),
            Operation::Op7(o) => o.ens(specs, pre, post, r),
            Operation::Op8(o) => o.ens(specs, pre, post, r),
            Operation::Op9(o) => o.ens(specs, pre, post, r),
            Operation::OpA(o) => o.ens(specs, pre, post, r),
            Operation::OpB(o) => o.ens(specs, pre, post, r),
            Operation::OpC(o) => o.ens(specs, pre, post, r),
            Operation::OpD(o) => o.ens(specs, pre, post, r),
            Operation::OpF(o) => o.ens(specs, pre, post, r),
        }
    }

    pub fn execute(&self, specs: OperationSpecs, chip: &mut Chip8) -> (r: Result<(), String>)
        requires
            common_req(specs, *old(chip)),
        ensures
            self.ens(specs, *old(chip), *final(chip), r),
            final(chip).wf(),
    {
        match self {
            Operation::OpRet(o) => o.execute(specs, chip),
            Operation::OpCls(o) => o.execute(specs, chip),
            Operation::Op1(o) => o.execute(specs, chip),
            Operation::Op2(o) => o.execute(specs, chip),
            Operation::Op3(o) => o.execute(specs, chip),
            Operation::Op4(o) => o.execute(specs, chip),
            Operation::Op5(o) => o.execute(specs, chip),
            Operation::Op6(o) => o.execute(specs, chip),
            Operation::Op7(o) => o.execute(specs, chip),
            Operation::Op8(o) => o.execute(specs, chip),
            Operation::Op9(o) => o.execute(specs, chip),
            Operation::OpA(o) => o.execute(specs, chip),
            Operation::OpB(o) => o.execute(specs, chip),
            Operation::OpC(o) => o.execute(specs, chip),
            Operation::OpD(o) => o.execute(specs, chip),
            Operation::OpF(o) => o.execute(specs, chip),
        }
    }
}

/// The handler a fetched opcode word selects: the two special instructions
/// by their full word, anything else by its top nibble.
pub open spec fn spec_dispatch(op: u16) -> Option<Operation> {
    if op == 0x00EE {
        Some(Operation::OpRet(Ret {}))
    } else if op == 0x00E0 {
        Some(Operation::OpCls(Cls {}))
    } else {
        spec_fetch((0xF0 & (op >> 8)) as u8)
    }
}

pub struct OperationTab {}

/// The dispatch table's answer for a top-byte key: which handler group the
/// opcode belongs to, or `None` when the table has no entry.
pub open spec fn spec_fetch(code: u8) -> Option<Operation> {
    if code == 0x10 {
        Some(Operation::Op1(Opt1 {}))
    } else if code == 0x20 {
        Some(Operation::Op2(Opt2 {}))
    } else if code == 0x30 {
        Some(Operation::Op3(Opt3 {}))
    } else if code == 0x40 {
        Some(Operation::Op4(Opt4 {}))
    } else if code == 0x50 {
        Some(Operation::Op5(Opt5 {}))
    } else if code == 0x60 {
        Some(Operation::Op6(Opt6 {}))
    } else if code == 0x70 {
        Some(Operation::Op7(Opt7 {}))
    } else if code == 0x80 {
        Some(Operation::Op8(Opt8 {}))
    } else if code == 0x90 {
        Some(Operation::Op9(Opt9 {}))
    } else if code == 0xA0 {
        Some(Operation::OpA(OptA {}))
    } else if code == 0xB0 {
        Some(Operation::OpB(OptB {}))
    } else if code == 0xC0 {
        Some(Operation::OpC(OptC {}))
    } else if code == 0xD0 {
        Some(Operation::OpD(OptD {}))
    } else if code == 0xF0 {
        Some(Operation::OpF(OptF {}))
    } else {
        None
    }
}

impl OperationTab {
    /// Look up the handler group for the masked top byte of an opcode.
    /// `None` (the `0x0`, `0xE` and unused rows) is an invalid opcode.
    pub fn fetch_operation(code: u8) -> (r: Option<Operation>)
        ensures
            r == spec_fetch(code),
    {
        match code {
            0x10 => Some(Operation::Op1(Opt1 {})),
            0x20 => Some(Operation::Op2(Opt2 {})),
            0x30 => Some(Operation::Op3(Opt3 {})),
            0x40 => Some(Operation::Op4(Opt4 {})),
            0x50 => Some(Operation::Op5(Opt5 {})),
            0x60 => Some(Operation::Op6(Opt6 {})),
            0x70 => Some(Operation::Op7(Opt7 {})),
            0x80 => Some(Operation::Op8(Opt8 {})),
            0x90 => Some(Operation::Op9(Opt9 {})),
            0xA0 => Some(Operation::OpA(OptA {})),
            0xB0 => Some(Operation::OpB(OptB {})),
            0xC0 => Some(Operation::OpC(OptC {})),
            0xD0 => Some(Operation::OpD(OptD {})),
            0xF0 => Some(Operation::OpF(OptF {})),
            _ => None,
        }
    }
}

} // verus!
