use vstd::prelude::*;

use crate::chip8::Chip8;
use crate::operations_set::operations_table::{common_req, alu_post, Executable, OperationSpecs};

verus! {

/// The `8xy_` arithmetic/logic group, sub-dispatched on the low nibble.
///
/// Each variant reads `Vx` and `Vy` first, then writes its flag bit into
/// `VF` (with OR to set, AND-mask to clear, leaving the other flag bits
/// alone), then stores the result in `Vx`, so a flag write is overwritten
/// when `x` is 15 itself.
pub struct Opt8 {}

/// `8xy0` - `LD Vx, Vy`: `Vx := Vy`.
pub open spec fn ens_opt8_0(specs: OperationSpecs, pre: Chip8, post: Chip8) -> bool {
    alu_post(
        pre,
        post,
        pre.memory@.update(pre.reg_addr(specs.rx as int), pre.spec_reg(specs.ry as int)),
    )
}

/// `8xy1` - `OR Vx, Vy`: `Vx := Vx | Vy`.
pub open spec fn ens_opt8_1(specs: OperationSpecs, pre: Chip8, post: Chip8) -> bool {
    alu_post(
        pre,
        post,
        pre.memory@.update(
            pre.reg_addr(specs.rx as int),
            pre.spec_reg(specs.ry as int) | pre.spec_reg(specs.rx as int),
        ),
    )
}

/// `8xy2` - `AND Vx, Vy`: `Vx := Vx & Vy`.
pub open spec fn ens_opt8_2(specs: OperationSpecs, pre: Chip8, post: Chip8) -> bool {
    alu_post(
        pre,
        post,
        pre.memory@.update(
            pre.reg_addr(specs.rx as int),
            pre.spec_reg(specs.ry as int) & pre.spec_reg(specs.rx as int),
        ),
    )
}

/// `8xy3` - `XOR Vx, Vy`: `Vx := Vx ^ Vy`.
pub open spec fn ens_opt8_3(specs: OperationSpecs, pre: Chip8, post: Chip8) -> bool {
    alu_post(
        pre,
        post,
        pre.memory@.update(
            pre.reg_addr(specs.rx as int),
            pre.spec_reg(specs.ry as int) ^ pre.spec_reg(specs.rx as int),
        ),
    )
}

/// `8xy4` - `ADD Vx, Vy`: `VF` bit 1 says whether the sum carried, and `Vx`
/// keeps the low 8 bits of the sum.
pub open spec fn ens_opt8_4(specs: OperationSpecs, pre: Chip8, post: Chip8) -> bool {
    {
        let rxv = pre.spec_reg(specs.rx as int);
        let ryv = pre.spec_reg(specs.ry as int);
        let vf = pre.spec_reg(15);
        let flagged = if rxv + ryv > 255 {
            vf | 0x02
        } else {
            vf & 0xFD
        };
        alu_post(
            pre,
            post,
            pre.memory@.update(pre.reg_addr(15), flagged).update(
                pre.reg_addr(specs.rx as int),
                ((rxv + ryv) % 256) as u8,
            ),
        )
    }
}

/// `8xy5` - `SUB Vx, Vy`: `VF` bit 2 is set exactly when no borrow occurs
/// (`Vx > Vy`), and `Vx := (Vx - Vy) mod 256`.
pub open spec fn ens_opt8_5(specs: OperationSpecs, pre: Chip8, post: Chip8) -> bool {
    {
        let rxv = pre.spec_reg(specs.rx as int);
        let ryv = pre.spec_reg(specs.ry as int);
        let vf = pre.spec_reg(15);
        let flagged = if rxv > ryv {
            vf | 0x04
        } else {
            vf & 0xFB
        };
        alu_post(
            pre,
            post,
            pre.memory@.update(pre.reg_addr(15), flagged).update(
                pre.reg_addr(specs.rx as int),
                ((rxv - ryv) % 256) as u8,
            ),
        )
    }
}

/// `8xy6` - `SHR Vx, Vy` (in this machine's dialect the shift amount comes
/// from `Vy`, not a fixed 1):
/// `VF` bit 3 records the least significant bit of `Vx`, and
/// `Vx := Vx >> Vy` (zero once the whole byte is shifted out).
pub open spec fn ens_opt8_6(specs: OperationSpecs, pre: Chip8, post: Chip8) -> bool {
    {
        let rxv = pre.spec_reg(specs.rx as int);
        let ryv = pre.spec_reg(specs.ry as int);
        let vf = pre.spec_reg(15);
        let flagged = if 0x01 & rxv == 0x01 {
            vf | 0x08
        } else {
            vf & 0xF7
        };
        alu_post(
            pre,
            post,
            pre.memory@.update(pre.reg_addr(15), flagged).update(
                pre.reg_addr(specs.rx as int),
                if ryv >= 8 {
                    0u8
                } else {
                    rxv >> ryv
                },
            ),
        )
    }
}

/// `8xy7` - `SUBN Vx, Vy`: `VF` bit 2 is set exactly when `Vy > Vx`, and
/// `Vx := (Vy - Vx) mod 256`.
pub open spec fn ens_opt8_7(specs: OperationSpecs, pre: Chip8, post: Chip8) -> bool {
    {
        let rxv = pre.spec_reg(specs.rx as int);
        let ryv = pre.spec_reg(specs.ry as int);
        let vf = pre.spec_reg(15);
        let flagged = if ryv > rxv {
            vf | 0x04
        } else {
            vf & 0xFB
        };
        alu_post(
            pre,
            post,
            pre.memory@.update(pre.reg_addr(15), flagged).update(
                pre.reg_addr(specs.rx as int),
                ((ryv - rxv) % 256) as u8,
            ),
        )
    }
}

/// `8xyE` - `SHL Vx, Vy` in name: `VF` bit 4 records the most significant
/// bit of `Vx`, but the stored value follows this machine's dialect and
/// shifts right by `Vy`, exactly as `8xy6` does.
pub open spec fn ens_opt8_e(specs: OperationSpecs, pre: Chip8, post: Chip8) -> bool {
    {
        let rxv = pre.spec_reg(specs.rx as int);
        let ryv = pre.spec_reg(specs.ry as int);
        let vf = pre.spec_reg(15);
        let flagged = if 0x80 & rxv == 0x80 {
            vf | 0x10
        } else {
            vf & 0xEF
        };
        alu_post(
            pre,
            post,
            pre.memory@.update(pre.reg_addr(15), flagged).update(
                pre.reg_addr(specs.rx as int),
                if ryv >= 8 {
                    0u8
                } else {
                    rxv >> ryv
                },
            ),
        )
    }
}

/// The group's sub-dispatch: which variant a low nibble selects, or an
/// unchanged machine and `None` for an unassigned nibble.
pub open spec fn ens_opt8_select(specs: OperationSpecs, pre: Chip8, post: Chip8, r: Option<
    (),
>) -> bool {
    if specs.nibble == 0 {
        r == Some(()) && ens_opt8_0(specs, pre, post)
    } else if specs.nibble == 1 {
        r == Some(()) && ens_opt8_1(specs, pre, post)
    } else if specs.nibble == 2 {
        r == Some(()) && ens_opt8_2(specs, pre, post)
    } else if specs.nibble == 3 {
        r == Some(()) && ens_opt8_3(specs, pre, post)
    } else if specs.nibble == 4 {
        r == Some(()) && ens_opt8_4(specs, pre, post)
    } else if specs.nibble == 5 {
        r == Some(()) && ens_opt8_5(specs, pre, post)
    } else if specs.nibble == 6 {
        r == Some(()) && ens_opt8_6(specs, pre, post)
    } else if specs.nibble == 7 {
        r == Some(()) && ens_opt8_7(specs, pre, post)
    } else if specs.nibble == 0x0E {
        r == Some(()) && ens_opt8_e(specs, pre, post)
    } else {
        r is None && post == pre
    }
}

impl Opt8 {
    pub fn select_execution(&self, specs: OperationSpecs, chip: &mut Chip8) -> (r: Option<()>)
        requires
            common_req(specs, *old(chip)),
        ensures
            ens_opt8_select(specs, *old(chip), *final(chip), r),
    {
        match specs.nibble {
            0 => Some(self.execute_0(specs, chip)),
            1 => Some(self.execute_1(specs, chip)),
            2 => Some(self.execute_2(specs, chip)),
            3 => Some(self.execute_3(specs, chip)),
            4 => Some(self.execute_4(specs, chip)),
            5 => Some(self.execute_5(specs, chip)),
            6 => Some(self.execute_6(specs, chip)),
            7 => Some(self.execute_7(specs, chip)),
            0x0E => Some(self.execute_e(specs, chip)),
            _ => None,
        }
    }

    /// `8xy0 - LD Vx, Vy`: store the value of `Vy` in `Vx`.
    pub fn execute_0(&self, specs: OperationSpecs, chip: &mut Chip8)
        requires
            common_req(specs, *old(chip)),
        ensures
            ens_opt8_0(specs, *old(chip), *final(chip)),
    {
        let ry_value = chip.get_register_value(specs.ry);
        chip.set_register_value(specs.rx, ry_value);
        chip.update_pc(None);
    }

    /// `8xy1 - OR Vx, Vy`: bitwise OR of `Vx` and `Vy` into `Vx`.
    pub fn execute_1(&self, specs: OperationSpecs, chip: &mut Chip8)
        requires
            common_req(specs, *old(chip)),
        ensures
            ens_opt8_1(specs, *old(chip), *final(chip)),
    {
        let ry_val = chip.get_register_value(specs.ry);
        let rx_val = chip.get_register_value(specs.rx);
        chip.set_register_value(specs.rx, ry_val | rx_val);
        chip.update_pc(None);
    }

    /// `8xy2 - AND Vx, Vy`: bitwise AND of `Vx` and `Vy` into `Vx`.
    pub fn execute_2(&self, specs: OperationSpecs, chip: &mut Chip8)
        requires
            common_req(specs, *old(chip)),
        ensures
            ens_opt8_2(specs, *old(chip), *final(chip)),
    {
        let ry_val = chip.get_register_value(specs.ry);
        let rx_val = chip.get_register_value(specs.rx);
        chip.set_register_value(specs.rx, ry_val & rx_val);
        chip.update_pc(None);
    }

    /// `8xy3 - XOR Vx, Vy`: bitwise exclusive OR of `Vx` and `Vy` into `Vx`.
    pub fn execute_3(&self, specs: OperationSpecs, chip: &mut Chip8)
        requires
            common_req(specs, *old(chip)),
        ensures
            ens_opt8_3(specs, *old(chip), *final(chip)),
    {
        let ry_val = chip.get_register_value(specs.ry);
        let rx_val = chip.get_register_value(specs.rx);
        chip.set_register_value(specs.rx, ry_val ^ rx_val);
        chip.update_pc(None);
    }

    /// `8xy4 - ADD Vx, Vy`: add with carry into `VF` bit 1.
    pub fn execute_4(&self, specs: OperationSpecs, chip: &mut Chip8)
        requires
            common_req(specs, *old(chip)),
        ensures
            ens_opt8_4(specs, *old(chip), *final(chip)),
    {
        let ry_val = chip.get_register_value(specs.ry);
        let rx_val = chip.get_register_value(specs.rx);
        if (rx_val as u16) + (ry_val as u16) > 255 {
            let vf = chip.get_register_value(15);
            chip.set_register_value(15, vf | 0x02);
        } else {
            let vf = chip.get_register_value(15);
            chip.set_register_value(15, vf & 0xFD);
        }
        chip.set_register_value(specs.rx, ((rx_val as u16 + ry_val as u16) % 256) as u8);
        chip.update_pc(None);
    }

    /// `8xy5 - SUB Vx, Vy`: subtract with not-borrow into `VF` bit 2.
    pub fn execute_5(&self, specs: OperationSpecs, chip: &mut Chip8)
        requires
            common_req(specs, *old(chip)),
        ensures
            ens_opt8_5(specs, *old(chip), *final(chip)),
    {
        let ry_val = chip.get_register_value(specs.ry);
        let rx_val = chip.get_register_value(specs.rx);
        if rx_val > ry_val {
            let vf = chip.get_register_value(15);
            chip.set_register_value(15, vf | 0x04);
        } else {
            let vf = chip.get_register_value(15);
            chip.set_register_value(15, vf & 0xFB);
        }
        chip.set_register_value(specs.rx, ((rx_val as u16 + 256 - ry_val as u16) % 256) as u8);
        chip.update_pc(None);
    }

    /// `8xy6 - SHR Vx, Vy`: shifted-out LSB into `VF` bit 3, then shift.
    pub fn execute_6(&self, specs: OperationSpecs, chip: &mut Chip8)
        requires
            common_req(specs, *old(chip)),
        ensures
            ens_opt8_6(specs, *old(chip), *final(chip)),
    {
        let ry_val = chip.get_register_value(specs.ry);
        let rx_val = chip.get_register_value(specs.rx);
        if 0x01 & rx_val == 0x01 {
            let vf = chip.get_register_value(15);
            chip.set_register_value(15, vf | 0x08);
        } else {
            let vf = chip.get_register_value(15);
            chip.set_register_value(15, vf & 0xF7);
        }
        let shifted = if ry_val >= 8 {
            0
        } else {
            rx_val >> ry_val
        };
        chip.set_register_value(specs.rx, shifted);
        chip.update_pc(None);
    }

    /// `8xy7 - SUBN Vx, Vy`: `Vy - Vx` with not-borrow into `VF` bit 2.
    pub fn execute_7(&self, specs: OperationSpecs, chip: &mut Chip8)
        requires
            common_req(specs, *old(chip)),
        ensures
            ens_opt8_7(specs, *old(chip), *final(chip)),
    {
        let ry_val = chip.get_register_value(specs.ry);
        let rx_val = chip.get_register_value(specs.rx);
        if ry_val > rx_val {
            let vf = chip.get_register_value(15);
            chip.set_register_value(15, vf | 0x04);
        } else {
            let vf = chip.get_register_value(15);
            chip.set_register_value(15, vf & 0xFB);
        }
        chip.set_register_value(specs.rx, ((ry_val as u16 + 256 - rx_val as u16) % 256) as u8);
        chip.update_pc(None);
    }

    /// `8xyE - SHL Vx, Vy` in name: shifted-out MSB into `VF` bit 4, then
    /// the dialect's right shift.
    pub fn execute_e(&self, specs: OperationSpecs, chip: &mut Chip8)
        requires
            common_req(specs, *old(chip)),
        ensures
            ens_opt8_e(specs, *old(chip), *final(chip)),
    {
        let ry_val = chip.get_register_value(specs.ry);
        let rx_val = chip.get_register_value(specs.rx);
        if 0x80 & rx_val == 0x80 {
            let vf = chip.get_register_value(15);
            chip.set_register_value(15, vf | 0x10);
        } else {
            let vf = chip.get_register_value(15);
            chip.set_register_value(15, vf & 0xEF);
        }
        let shifted = if ry_val >= 8 {
            0
        } else {
            rx_val >> ry_val
        };
        chip.set_register_value(specs.rx, shifted);
        chip.update_pc(None);
    }
}

impl Executable for Opt8 {
    open spec fn req(&self, specs: OperationSpecs, chip: Chip8) -> bool {
        common_req(specs, chip)
    }

    open spec fn ens(&self, specs: OperationSpecs, pre: Chip8, post: Chip8, r: Result<
        (),
        String,
    >) -> bool {
        match r {
            Ok(u) => ens_opt8_select(specs, pre, post, Some(u)),
            Err(_) => ens_opt8_select(specs, pre, post, None),
        }
    }

    fn execute(&self, specs: OperationSpecs, chip: &mut Chip8) -> (r: Result<(), String>) {
        match self.select_execution(specs, chip) {
            Some(()) => Ok(()),
            None => Err(String::from_str("Opt8 execution failed: invalid nibble")),
        }
    }
}

} // verus!
