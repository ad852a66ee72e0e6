use chip8::chip8::{Chip8, EopError, RTI_DEFAULT_ADDR, STACK_INIT_ADDR};
use chip8::operations_set::operations_table::OperationSpecs;
use chip8::operations_set::opt_8::Opt8;
use chip8::timers::Signals;

#[test]
fn chip8_call_subroutine_test() {
    let mut chip = Chip8::new();
    chip.call_subroutine(RTI_DEFAULT_ADDR).unwrap();
    assert_eq!(chip.pc, RTI_DEFAULT_ADDR);
    // test stack storage
    assert_eq!(chip.memory[STACK_INIT_ADDR as usize..STACK_INIT_ADDR as usize + 2], [0x02, 0x00]);
    assert_eq!(chip.sp, 1);
    // return from subroutine
    chip.leave_subroutine();
    assert_eq!(chip.pc, 0x0200);
    assert_eq!(chip.sp, 0);
}

#[test]
fn chip8_get_gfx_sprite_test() {
    let mut chip = Chip8::new();
    // set everything up
    chip.gfx[0] = vec![0x13, 0x14, 0x15, 0x16, 0x00, 0x00, 0x00, 0x00];
    chip.gfx[1] = vec![0x17, 0x18, 0x19, 0x20, 0x00, 0x00, 0x00, 0x00];
    chip.gfx[2] = vec![0x21, 0x22, 0x23, 0x24, 0x00, 0x00, 0x00, 0x00];
    // test
    assert_eq!(chip.get_gfx_sprite((0, 0), 0), 0x1300000000000000);
    assert_eq!(chip.get_gfx_sprite((0, 0), 1), 0x1700000000000000);
    assert_eq!(chip.get_gfx_sprite((0, 0), 2), 0x2100000000000000);
    // clear display
    chip.clear_display();
    assert_eq!(chip.gfx, vec![vec![0_u8; 8]; 32]);
}

#[test]
fn chip8_set_gfx_sprite_test() {
    let mut chip = Chip8::new();

    chip.gfx[0] = vec![0x13, 0x14, 0x15, 0x16, 0x00, 0x00, 0x00, 0x00];
    chip.gfx[1] = vec![0x17, 0x18, 0x19, 0x20, 0x00, 0x00, 0x00, 0x00];
    chip.gfx[2] = vec![0x21, 0x22, 0x23, 0x24, 0x00, 0x00, 0x00, 0x00];

    assert_eq!(chip.get_gfx_sprite((0, 4), 0), 0x0310000000000000);

    chip.set_gfx_sprite((0, 0), 0, 0x03);
    // check collision is activated
    assert!(chip.memory[chip.registers[15] as usize] & 0x01 == 0x01);
    chip.set_gfx_sprite((0, 0), 1, 0x05);
    chip.set_gfx_sprite((0, 0), 2, 0x07);

    assert_eq!(chip.get_gfx_sprite((0, 0), 0), 0x1000000000000000); // 0x13 xor 0x03 = 0x10
    assert_eq!(chip.get_gfx_sprite((0, 0), 1), 0x1200000000000000); // 0x17 xor 0x05 = 0x12
    assert_eq!(chip.get_gfx_sprite((0, 0), 2), 0x2600000000000000); // 0x21 xor 0x07 = 0x26
}

#[test]
fn opt_8_execute_0_test() {
    let specs = OperationSpecs { nibble: 0x00, addr: 0x0000, constant: 0, rx: 0x01, ry: 0x02 };
    let mut chip = Chip8::new();
    chip.set_register_value(0x01, 0x01);
    chip.set_register_value(0x02, 0x02);
    Opt8::execute_0(&Opt8 {}, specs, &mut chip);
    assert_eq!(0x02, chip.get_register_value(0x01));
}

#[test]
fn opt_8_execute_1_test() {
    let specs = OperationSpecs { nibble: 0x01, addr: 0x0000, constant: 0, rx: 0x01, ry: 0x02 };
    let mut chip = Chip8::new();
    chip.set_register_value(0x01, 0x01);
    chip.set_register_value(0x02, 0x02);
    Opt8::execute_1(&Opt8 {}, specs, &mut chip);
    assert_eq!(0x03, chip.get_register_value(0x01));
}

#[test]
fn opt8_execute_0_test() {
    let specs = OperationSpecs { nibble: 0x00, addr: 0x0000, constant: 0, rx: 0x01, ry: 0x02 };
    let mut chip = Chip8::new();
    chip.set_register_value(0x01, 0x01);
    chip.set_register_value(0x02, 0x02);
    Opt8::execute_0(&Opt8 {}, specs, &mut chip);
    assert_eq!(0x02, chip.get_register_value(0x01));
}

#[test]
fn opt8_execute_1_test() {
    let specs = OperationSpecs { nibble: 0x01, addr: 0x0000, constant: 0, rx: 0x01, ry: 0x02 };
    let mut chip = Chip8::new();
    chip.set_register_value(0x01, 0x01);
    chip.set_register_value(0x02, 0x02);
    Opt8::execute_1(&Opt8 {}, specs, &mut chip);
    assert_eq!(0x03, chip.get_register_value(0x01));
}

#[test]
fn opt_d_opt_d_execution() {
    // DRW V1, V2, 3
    let _specs = OperationSpecs { nibble: 0x03, addr: 0x0000, constant: 0, rx: 0x01, ry: 0x02 };
    let mut chip = Chip8::new();
    // (0,0) coordinates
    chip.set_register_value(0x01, 0x00);
    chip.set_register_value(0x02, 0x00);
    chip.set_i_register_value(0x600);
}

#[test]
fn alu_add_sets_and_clears_carry() {
    let specs = OperationSpecs { nibble: 0x04, addr: 0, constant: 0, rx: 0x01, ry: 0x02 };
    let mut chip = Chip8::new();
    chip.set_register_value(0x01, 200);
    chip.set_register_value(0x02, 100);
    Opt8::execute_4(&Opt8 {}, specs, &mut chip);
    assert_eq!(44, chip.get_register_value(0x01)); // (200 + 100) mod 256
    assert_eq!(0x02, chip.get_register_value(0x0F) & 0x02); // carry bit set
    chip.set_register_value(0x01, 1);
    chip.set_register_value(0x02, 2);
    Opt8::execute_4(&Opt8 {}, specs, &mut chip);
    assert_eq!(3, chip.get_register_value(0x01));
    assert_eq!(0x00, chip.get_register_value(0x0F) & 0x02); // carry bit cleared
}

#[test]
fn alu_sub_sets_not_borrow() {
    let specs = OperationSpecs { nibble: 0x05, addr: 0, constant: 0, rx: 0x01, ry: 0x02 };
    let mut chip = Chip8::new();
    chip.set_register_value(0x01, 9);
    chip.set_register_value(0x02, 4);
    Opt8::execute_5(&Opt8 {}, specs, &mut chip);
    assert_eq!(5, chip.get_register_value(0x01));
    assert_eq!(0x04, chip.get_register_value(0x0F) & 0x04);
    // borrowing wraps modulo 256 and clears the flag
    chip.set_register_value(0x01, 4);
    chip.set_register_value(0x02, 9);
    Opt8::execute_5(&Opt8 {}, specs, &mut chip);
    assert_eq!(251, chip.get_register_value(0x01));
    assert_eq!(0x00, chip.get_register_value(0x0F) & 0x04);
}

#[test]
fn alu_shift_uses_vy_amount() {
    let specs = OperationSpecs { nibble: 0x06, addr: 0, constant: 0, rx: 0x01, ry: 0x02 };
    let mut chip = Chip8::new();
    chip.set_register_value(0x01, 0x81);
    chip.set_register_value(0x02, 4);
    Opt8::execute_6(&Opt8 {}, specs, &mut chip);
    assert_eq!(0x08, chip.get_register_value(0x01));
    assert_eq!(0x08, chip.get_register_value(0x0F) & 0x08); // LSB was 1
}

#[test]
fn timer_slots_tick_and_signal() {
    let mut chip = Chip8::new();
    chip.set_delay_timer(3, None);
    assert_eq!(3, chip.delay_timer.unwrap().timer);
    assert_eq!(RTI_DEFAULT_ADDR, chip.delay_timer.unwrap().rti);
    chip.tick_timers();
    assert_eq!(2, chip.delay_timer.unwrap().timer);
    // a suspended timer keeps its count until it is resumed
    chip.send_signal(Signals::STP, "delay").unwrap();
    chip.tick_timers();
    assert_eq!(2, chip.delay_timer.unwrap().timer);
    chip.send_signal(Signals::RES, "delay").unwrap();
    chip.tick_timers();
    assert_eq!(1, chip.delay_timer.unwrap().timer);
    // a kill empties the slot; signalling an empty slot fails
    chip.send_signal(Signals::KILL, "delay").unwrap();
    assert!(chip.delay_timer.is_none());
    assert!(chip.send_signal(Signals::KILL, "delay").is_err());
    assert!(chip.send_signal(Signals::KILL, "screen").is_err());
}

#[test]
fn stack_overflow_is_reported() {
    let mut chip = Chip8::new();
    for _ in 0..16 {
        chip.call_subroutine(0x600).unwrap();
    }
    assert!(chip.call_subroutine(0x600).is_err());
    assert_eq!(16, chip.sp);
}

#[test]
fn cycle_reports_sentinel_and_invalid_opcode() {
    // a fresh machine fetches the sentinel word immediately
    let mut chip = Chip8::new();
    assert_eq!(Err(EopError { status: 0 }), chip.execute_cycle());
    // an opcode with no dispatch entry fails the cycle
    let mut chip2 = Chip8::new();
    chip2.memory[0x200] = 0xE1;
    chip2.memory[0x201] = 0x23;
    assert_eq!(Err(EopError { status: 1 }), chip2.execute_cycle());
    // a decoded jump target is always 12-bit and so always legal
    let mut chip3 = Chip8::new();
    chip3.memory[0x200] = 0x11;
    chip3.memory[0x201] = 0x00;
    chip3.execute_cycle().unwrap();
    assert_eq!(0x100, chip3.pc);
    // an indexed jump can overshoot the 12-bit space and fails then
    let mut chip4 = Chip8::new();
    chip4.set_register_value(0, 0xFF);
    chip4.memory[0x200] = 0xBF;
    chip4.memory[0x201] = 0xFF;
    assert_eq!(Err(EopError { status: 1 }), chip4.execute_cycle());
}

#[test]
fn rnd_masks_the_drawn_byte() {
    let mut chip = Chip8::new();
    chip.memory[0x200] = 0xC1;
    chip.memory[0x201] = 0x0F;
    chip.execute_cycle().unwrap();
    assert_eq!(0, chip.get_register_value(0x01) & 0xF0);
    assert_eq!(0x202, chip.pc);
}

#[test]
fn register_dump_writes_at_i() {
    let mut chip = Chip8::new();
    chip.set_register_value(0, 7);
    chip.set_register_value(1, 8);
    chip.set_register_value(2, 9);
    chip.set_i_register_value(0x700);
    chip.memory[0x200] = 0xF2;
    chip.memory[0x201] = 0x55;
    chip.execute_cycle().unwrap();
    // every register lands on the same byte, so the last one wins
    assert_eq!(9, chip.memory[0x700]);
    assert_eq!(0, chip.memory[0x701]);
}

#[test]
fn get_gfx_exposes_all_rows() {
    let chip = Chip8::new();
    assert_eq!(32, chip.get_gfx().len());
    assert_eq!(vec![0u8; 8], chip.get_gfx()[31]);
}
