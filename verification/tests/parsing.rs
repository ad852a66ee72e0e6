use chip8::chip8::{Chip8, ProgramType, RoutineParams, RoutinePurpose};

#[test]
fn hex_2_dec_test() {
    let test_chip = Chip8::new();
    let mut test_string = String::from("this is a test\n bla0x10\n blip\n lal0x200a");
    test_chip.hex_2_dec(&mut test_string);
    assert_eq!("this is a test\n bla16\n blip\n lal512a", test_string);
}

#[test]
fn chip8_parse_common_registers_test() {
    let test_chip = Chip8::new();
    let parsed_tup_1 = Chip8::parse_common_registers(&test_chip, "V5", "V6");
    assert_eq!(Some((0x0005, 0x0006)), parsed_tup_1);
    let parsed_tup_2 = Chip8::parse_common_registers(&test_chip, "VA", "V3");
    assert_eq!(Some((0x000A, 0x0003)), parsed_tup_2);
    let parsed_tup_3 = Chip8::parse_common_registers(&test_chip, "VF", "VE");
    assert_eq!(Some((0x000F, 0x000E)), parsed_tup_3);
    let parsed_tup_4 = Chip8::parse_common_registers(&test_chip, "VR", "VE");
    assert_eq!(None, parsed_tup_4);
}

#[test]
fn chip8_parse_instruction_test() {
    let test_chip = Chip8::new();
    let mut test_instructions = [
        vec!["AND", "V1,", "V3"],
        vec!["XOR", "VA,", "V8"],
        vec!["OR", "V7,", "V6"],
        vec!["OR", "VR,", "V6"],
        vec!["DRW", "V1,", "V3,", "13"],
        vec!["RET"],
        vec!["CLS"],
    ]
    .into_iter();
    let parsed_inst_1 = Chip8::parse_instruction(&test_chip, &test_instructions.next().unwrap());
    assert_eq!(
        Ok(0x8132),
        parsed_inst_1,
        "expected 0x8132, found: {:#06x}",
        parsed_inst_1.clone().unwrap()
    );
    let parsed_inst_2 = Chip8::parse_instruction(&test_chip, &test_instructions.next().unwrap());
    assert_eq!(
        Ok(0x8A83),
        parsed_inst_2,
        "expected 0x8A83, found: {:#06x}",
        parsed_inst_2.clone().unwrap()
    );
    let parsed_inst_3 = Chip8::parse_instruction(&test_chip, &test_instructions.next().unwrap());
    assert_eq!(
        Ok(0x8761),
        parsed_inst_3,
        "expected 0x8A83, found: {:#06x}",
        parsed_inst_3.clone().unwrap()
    );
    let parsed_inst_4 = Chip8::parse_instruction(&test_chip, &test_instructions.next().unwrap());
    assert_eq!(matches!(parsed_inst_4, Err(_)), true);
    let parsed_inst_5 = Chip8::parse_instruction(&test_chip, &test_instructions.next().unwrap());
    assert_eq!(
        Ok(0xD13D),
        parsed_inst_5,
        "expected 0xD13D, found: {:#06x}",
        parsed_inst_5.clone().unwrap()
    );
    let parsed_inst_6 = Chip8::parse_instruction(&test_chip, &test_instructions.next().unwrap());
    assert_eq!(
        Ok(0x00EE),
        parsed_inst_6,
        "expected 0x00EE, found: {:#06x}",
        parsed_inst_6.clone().unwrap()
    );
    let parsed_inst_7 = Chip8::parse_instruction(&test_chip, &test_instructions.next().unwrap());
    assert_eq!(
        Ok(0x00E0),
        parsed_inst_7,
        "expected 0x00E0, found: {:#06x}",
        parsed_inst_7.clone().unwrap()
    );
}

#[test]
fn parse_specific_directive_test() {
    let chip = Chip8::new();
    let mut params = RoutineParams { addr: None, purpose: RoutinePurpose::Ordinary };
    chip.parse_specific_directive(&"!place_at=2048".to_string(), &mut params)
        .unwrap();
    assert_eq!(
        Some(0x0800),
        params.addr,
        "Expected addr 0x0800, found  {:#06x}",
        params.addr.unwrap()
    );
    chip.parse_specific_directive(&"!is_subroutine_for=delay".to_string(), &mut params)
        .unwrap();
    assert_eq!(RoutinePurpose::DelayTimer, params.purpose);
    chip.parse_specific_directive(&"!is_subroutine_for=sound".to_string(), &mut params)
        .unwrap();
    assert_eq!(RoutinePurpose::SoundTimer, params.purpose);
    let err_res = chip.parse_specific_directive(&"!badaboo".to_string(), &mut params);
    assert!(matches!(err_res, Err(_)));
}

#[test]
fn parse_directives_test() {
    let mut chip = Chip8::new();
    let mut test_text =
        "!is_subroutine_for=delay\n!place_at=2048\nLD V1, V2\nLD VA, VE\n\nLD I, 516".to_string();
    chip.parse_directives(&mut test_text).unwrap();
    assert_eq!(
        "LD I, 516".to_string(),
        test_text,
        "Expected string LD I, 516, found {:?}",
        test_text
    );
    assert_eq!(Some(0x0800), chip.get_routine_addr(RoutinePurpose::DelayTimer));
    assert_eq!(chip.memory[0x0800..0x0804], [0x81, 0x20, 0x8A, 0xE0,])
}

#[test]
fn create_chip() {
    let chip = Chip8::new();
    println!("{:?}", chip);
}

#[test]
fn load_main_program_image() {
    let mut chip = Chip8::new();
    chip.load_program(ProgramType::Main("OR V2, V3\nAND V5, V8\nXOR V1, V1"))
        .unwrap();
    assert_eq!(chip.memory[512..518], [0x82, 0x31, 0x85, 0x82, 0x81, 0x13]);
}

#[test]
fn load_routine_program_image() {
    let mut chip = Chip8::new();
    let code = "LD V1, V2\nLD VA, VE".to_string();
    chip.load_program(ProgramType::Routine((&code, Some(0x700)))).unwrap();
    assert_eq!(chip.memory[0x700..0x704], [0x81, 0x20, 0x8A, 0xE0]);
    // without an address, the default handler area is used
    let mut chip2 = Chip8::new();
    chip2.load_program(ProgramType::Routine((&code, None))).unwrap();
    assert_eq!(chip2.memory[0x600..0x604], [0x81, 0x20, 0x8A, 0xE0]);
}

#[test]
fn parse_instruction_full_table() {
    let chip = Chip8::new();
    let cases: Vec<(Vec<&str>, u16)> = vec![
        (vec!["LD", "V1,", "7"], 0x6107),
        (vec!["LD", "V1,", "V2"], 0x8120),
        (vec!["LD", "I,", "516"], 0xA204),
        (vec!["LD", "DT,", "V3"], 0xF315),
        (vec!["LD", "ST,", "V4"], 0xF418),
        (vec!["ADD", "V1,", "3"], 0x7103),
        (vec!["ADD", "V1,", "V2"], 0x8124),
        (vec!["SUB", "V1,", "V2"], 0x8125),
        (vec!["SHR", "V1,", "V2"], 0x8126),
        (vec!["SUBN", "V1,", "V2"], 0x8127),
        (vec!["SHL", "V1,", "V2"], 0x812E),
        (vec!["SE", "V1,", "V2"], 0x5120),
        (vec!["SE", "V1,", "66"], 0x3142),
        (vec!["SNE", "V1,", "66"], 0x4142),
        (vec!["JP", "1536"], 0x1600),
        (vec!["CALL", "1536"], 0x2600),
        (vec!["DRW", "V1,", "V3,", "13"], 0xD13D),
        (vec!["RET"], 0x00EE),
        (vec!["CLS"], 0x00E0),
    ];
    for (toks, expected) in cases {
        let got = chip.parse_instruction(&toks);
        assert_eq!(Ok(expected), got, "case {:?}", toks);
    }
}

#[test]
fn parse_instruction_rejections() {
    let chip = Chip8::new();
    // unknown mnemonic
    assert!(chip.parse_instruction(&["NOP"]).is_err());
    // malformed register
    assert!(chip.parse_instruction(&["OR", "VZ,", "V1"]).is_err());
    // missing operand
    assert!(chip.parse_instruction(&["AND", "V1,"]).is_err());
    // malformed number
    assert!(chip.parse_instruction(&["LD", "V1,", "abc"]).is_err());
    // a load target beyond the 12-bit address space is out of bounds
    assert!(chip.parse_instruction(&["LD", "I,", "4096"]).is_err());
    assert_eq!(Ok(0xA064), chip.parse_instruction(&["LD", "I,", "100"]));
    // a number too large for sixteen bits
    assert!(chip.parse_instruction(&["JP", "99999"]).is_err());
}

#[test]
fn parse_instruction_masks_wide_constants() {
    let chip = Chip8::new();
    // a constant wider than a byte keeps only its low eight bits
    assert_eq!(Ok(0x612C), chip.parse_instruction(&["LD", "V1,", "300"]));
    assert_eq!(Ok(0x712C), chip.parse_instruction(&["ADD", "V1,", "300"]));
    // a sprite height wider than a nibble keeps only its low four bits
    assert_eq!(Ok(0xD131), chip.parse_instruction(&["DRW", "V1,", "V3,", "17"]));
    // a skip operand too short to be a register token is rejected
    assert!(chip.parse_instruction(&["SE", "V1,", "4"]).is_err());
    assert!(chip.parse_instruction(&["SNE", "V1,", "V2"]).is_err());
}

#[test]
fn hex_2_dec_leaves_plain_text_alone() {
    let chip = Chip8::new();
    let mut text = "LD V1, 516\nJP 512".to_string();
    chip.hex_2_dec(&mut text);
    assert_eq!("LD V1, 516\nJP 512", text);
    // and a rewritten text holds no prefixes either, so a second pass is a
    // no-op as well
    let mut hexed = "JP 0x200\n".to_string();
    chip.hex_2_dec(&mut hexed);
    assert_eq!("JP 512\n", hexed);
    chip.hex_2_dec(&mut hexed);
    assert_eq!("JP 512\n", hexed);
    // a sixteen-digit literal fills the full 64-bit range
    let mut big = "v0xFFFFFFFFFFFFFFFF\n".to_string();
    chip.hex_2_dec(&mut big);
    assert_eq!("v18446744073709551615\n", big);
}

#[test]
fn directives_reject_bad_purpose() {
    let mut chip = Chip8::new();
    let mut text = "!is_subroutine_for=video\nLD V1, V2\n\nLD I, 516".to_string();
    assert!(chip.parse_directives(&mut text).is_err());
}
