use chip8::chip8::{Chip8, EopError, ProgramType, RoutinePurpose, RTI_DEFAULT_ADDR};
use chip8::config::{resolve_chip_config, ConfigParserEnum};

#[test]
fn register_load_copy() {
    let mut chip = Chip8::new();
    chip.load_program(ProgramType::Main("LD V1, 5\nLD V2, V1")).unwrap();
    chip.execute_cycle().unwrap();
    chip.execute_cycle().unwrap();
    // the sentinel word ends the program with status 0
    assert_eq!(Err(EopError { status: 0 }), chip.execute_cycle());
    assert_eq!(5, chip.get_register_value(0x01));
    assert_eq!(5, chip.get_register_value(0x02));
}

#[test]
fn stack_round_trip() {
    let mut chip = Chip8::new();
    // CALL 0x600 at 0x200, RET at 0x600
    chip.memory[0x200] = 0x26;
    chip.memory[0x201] = 0x00;
    chip.memory[0x600] = 0x00;
    chip.memory[0x601] = 0xEE;
    chip.execute_cycle().unwrap();
    assert_eq!(chip.memory[0x020..0x022], [0x02, 0x00]);
    assert_eq!(1, chip.sp);
    assert_eq!(0x600, chip.pc);
    chip.execute_cycle().unwrap();
    assert_eq!(0, chip.sp);
    assert_eq!(0x202, chip.pc);
}

#[test]
fn sprite_xor_and_collision() {
    let mut chip = Chip8::new();
    chip.gfx[0] = vec![0x13, 0x14, 0x15, 0x16, 0x00, 0x00, 0x00, 0x00];
    // DRW V1, V2, 1 with V1 = V2 = 0 and I pointing at the byte 0x03
    chip.set_register_value(0x01, 0);
    chip.set_register_value(0x02, 0);
    chip.set_i_register_value(0x700);
    chip.memory[0x700] = 0x03;
    chip.memory[0x200] = 0xD1;
    chip.memory[0x201] = 0x21;
    chip.execute_cycle().unwrap();
    assert_eq!(0x10, chip.gfx[0][0]); // 0x13 xor 0x03
    // pixels outside the sprite's window are untouched
    assert_eq!(vec![0x10, 0x14, 0x15, 0x16, 0x00, 0x00, 0x00, 0x00], chip.gfx[0]);
    assert_eq!(0x01, chip.get_register_value(0x0F) & 0x01); // collision
    assert_eq!(0x80, chip.get_register_value(0x0F) & 0x80); // draw-ready
}

#[test]
fn drawing_twice_restores_the_row() {
    let mut chip = Chip8::new();
    chip.gfx[0] = vec![0x13, 0x14, 0x15, 0x16, 0x00, 0x00, 0x00, 0x00];
    chip.set_gfx_sprite((0, 0), 0, 0x5A);
    assert_eq!(0x13 ^ 0x5A, chip.gfx[0][0]);
    assert_eq!(0x14, chip.gfx[0][1]);
    // the same draw again is its own inverse, pixels outside the window
    // included, and erasing the pixels the first draw lit is a collision
    chip.set_gfx_sprite((0, 0), 0, 0x5A);
    assert_eq!(vec![0x13, 0x14, 0x15, 0x16, 0x00, 0x00, 0x00, 0x00], chip.gfx[0]);
    assert_eq!(0x01, chip.get_register_value(0x0F) & 0x01);
}

#[test]
fn timer_expiry_triggers_handler() {
    let mut chip = Chip8::new();
    // LD DT, V3 with V3 = 2, then two filler loads
    chip.set_register_value(0x03, 2);
    chip.memory[0x200] = 0xF3;
    chip.memory[0x201] = 0x15;
    chip.memory[0x202] = 0x60;
    chip.memory[0x203] = 0x00;
    chip.memory[0x204] = 0x60;
    chip.memory[0x205] = 0x00;
    chip.execute_cycle().unwrap();
    assert_eq!(2, chip.delay_timer.unwrap().timer);
    chip.tick_timers();
    chip.execute_cycle().unwrap();
    chip.tick_timers();
    assert_eq!(0, chip.delay_timer.unwrap().timer);
    // the next cycle observes the spent device and calls the handler
    chip.execute_cycle().unwrap();
    assert_eq!(RTI_DEFAULT_ADDR, chip.pc);
    assert_eq!(1, chip.sp);
    assert!(chip.delay_timer.is_none());
}

#[test]
fn delay_fires_before_sound() {
    let mut chip = Chip8::new();
    // load both timers to 1, then filler loads everywhere control goes
    chip.set_register_value(0x03, 1);
    chip.set_register_value(0x04, 1);
    chip.memory[0x200] = 0xF3;
    chip.memory[0x201] = 0x15;
    chip.memory[0x202] = 0xF4;
    chip.memory[0x203] = 0x18;
    chip.memory[0x204] = 0x60;
    chip.memory[0x205] = 0x00;
    chip.memory[0x600] = 0x60;
    chip.memory[0x601] = 0x00;
    chip.memory[0x602] = 0x60;
    chip.memory[0x603] = 0x00;
    chip.execute_cycle().unwrap(); // LD DT, V3
    chip.execute_cycle().unwrap(); // LD ST, V4
    chip.tick_timers();
    assert_eq!(0, chip.delay_timer.unwrap().timer);
    assert_eq!(0, chip.sound_timer.unwrap().timer);
    // only the delay handler fires in this cycle; the sound expiry stays
    // pending
    chip.execute_cycle().unwrap();
    assert_eq!(RTI_DEFAULT_ADDR, chip.pc);
    assert_eq!(1, chip.sp);
    assert!(chip.delay_timer.is_none());
    assert!(chip.sound_timer.is_some());
    // the sound handler fires in the next cycle
    chip.execute_cycle().unwrap();
    assert_eq!(RTI_DEFAULT_ADDR, chip.pc);
    assert_eq!(2, chip.sp);
    assert!(chip.sound_timer.is_none());
}

#[test]
fn assembler_with_directives() {
    let mut chip = Chip8::new();
    chip.load_program(ProgramType::Main(
        "!is_subroutine_for=delay\n!place_at=2048\nLD V1, V2\nLD VA, VE\n\nLD I, 516",
    ))
    .unwrap();
    assert_eq!(chip.memory[2048..2052], [0x81, 0x20, 0x8A, 0xE0]);
    assert_eq!(chip.memory[0x200..0x202], [0xA2, 0x04]);
    assert_eq!(RoutinePurpose::DelayTimer, chip.routines[0].purpose);
    assert_eq!(Some(2048), chip.routines[0].addr);
}

#[test]
fn directive_handler_is_used_on_expiry() {
    let mut chip = Chip8::new();
    // install a delay routine at 0x800, then load the delay timer with 0 so
    // the very first cycle consumes the expiry
    chip.load_program(ProgramType::Main(
        "!is_subroutine_for=delay\n!place_at=2048\nLD V1, V2\n\nLD DT, V5",
    ))
    .unwrap();
    chip.execute_cycle().unwrap();
    assert_eq!(0x800, chip.pc);
    assert_eq!(1, chip.sp);
}

#[test]
fn hex_literals_feed_the_assembler() {
    let mut chip = Chip8::new();
    chip.load_program(ProgramType::Main("LD I, 0x204\nJP 0x200\n")).unwrap();
    assert_eq!(chip.memory[0x200..0x204], [0xA2, 0x04, 0x12, 0x00]);
}

#[test]
fn resolve_chip_config_defaults_and_overrides() {
    let defaults = resolve_chip_config(&Vec::new());
    assert_eq!(0x010, defaults.first_register_addr);
    assert_eq!(0x200, defaults.program_init);
    assert_eq!(0x600, defaults.rti_default_addr);
    assert_eq!(32, defaults.display_height);
    assert_eq!(64, defaults.display_width);
    assert_eq!(0x0000, defaults.eop_opt_code);

    let entries = vec![
        ConfigParserEnum::Display { window_height: Some(300), window_width: Some(400) },
        ConfigParserEnum::Chip {
            first_register_addr: None,
            stack_init_addr: None,
            stack_canary: None,
            program_init: Some(0x300),
            rti_default_addr: Some(0x700),
            display_height: None,
            display_width: None,
            eop_opt_code: None,
        },
    ];
    let resolved = resolve_chip_config(&entries);
    assert_eq!(0x300, resolved.program_init);
    assert_eq!(0x700, resolved.rti_default_addr);
    assert_eq!(0x010, resolved.first_register_addr);
}
