//! The CHIP-8 machine: 4 KiB memory with a memory-mapped register file and
//! call stack, the 12-bit `I` register, the program counter, the framebuffer,
//! the two timer slots, and the table of user-installed handler routines.

use vstd::prelude::*;

use crate::bits::{byte_of, drw_collision, drw_val, rotr64_exec, row_val, window_mask};
use crate::operations_set::operations_table::{
    spec_decode, spec_dispatch, Cls, Operation, OperationSpecs, OperationTab, Ret,
};
use crate::text::{
    chars_to_string, dec_digits_of, find_char, find_char_in, find_double_newline, find_nn,
    hex_digit, hex_digit_val, hex_digit_value, hex_rewrite, hex_run_end, hex_value, is_hex_digit,
    lemma_find_char_bounds, lemma_find_nn_bounds, lemma_hex_value_bound, lemma_pow16_le, lines_of,
    parse_u16_dec, pow16, push_dec_digits, remove_char, spec_hex_wf, spec_parse_u16_dec,
    split_char, split_lines, split_string, str_eq, str_to_chars, strip_char,
};
use crate::timers::{spec_signal, spec_tick, Signals, TimerThread};

verus! {

/// The register digits of two register tokens, as the instruction parser
/// reads them: the characters at index 1, when both are hexadecimal digits.
pub open spec fn spec_parse_regs(rx: Seq<char>, ry: Seq<char>) -> Option<(u16, u16)> {
    if is_hex_digit(rx[1]) && is_hex_digit(ry[1]) {
        Some((hex_digit_val(rx[1]) as u16, hex_digit_val(ry[1]) as u16))
    } else {
        None
    }
}

/// `spec_parse_regs` on tokens of any length: a token too short to hold a
/// register digit parses to nothing.
pub open spec fn spec_reg_pair(a: Seq<char>, b: Seq<char>) -> Option<(u16, u16)> {
    if a.len() >= 2 && b.len() >= 2 {
        spec_parse_regs(a, b)
    } else {
        None
    }
}

/// A two-register opcode: `code` with `x` in bits 11..8 and `y` in bits 7..4.
pub open spec fn spec_encode_rr(code: u16, a: Seq<char>, b: Seq<char>) -> Option<u16> {
    match spec_reg_pair(a, b) {
        Some(p) => Some(code | (p.0 << 8) | (p.1 << 4)),
        None => None,
    }
}

/// A register-and-constant opcode: `code` with the register digit of `reg`
/// in bits 11..8 and the low byte of the decimal token `k` in bits 7..0.
pub open spec fn spec_encode_rk(code: u16, reg: Seq<char>, k: Seq<char>) -> Option<u16> {
    if reg.len() >= 2 && is_hex_digit(reg[1]) {
        match spec_parse_u16_dec(k) {
            Some(v) => Some(code | ((hex_digit_val(reg[1]) as u16) << 8) | (0x00FF & v)),
            None => None,
        }
    } else {
        None
    }
}

/// A timer-load opcode: `code` with the register digit of `reg` in bits
/// 11..8.
pub open spec fn spec_encode_fx(code: u16, reg: Seq<char>) -> Option<u16> {
    if reg.len() >= 2 && is_hex_digit(reg[1]) {
        Some(code | (0x0F00 & ((hex_digit_val(reg[1]) as u16) << 8)))
    } else {
        None
    }
}

/// The opcode word a tokenised instruction line assembles to, or nothing
/// when the line is rejected: an unknown mnemonic, a malformed or missing
/// operand, a malformed number, or a `LD I` target below the program area.
pub open spec fn spec_encode_tokens(toks: Seq<Seq<char>>) -> Option<u16> {
    if toks.len() == 0 {
        None
    } else {
        {
            let t0 = toks[0];
            let clean = if toks.len() > 1 {
                strip_char(toks[1], ',')
            } else {
                Seq::<char>::empty()
            };
            if t0 == "LD"@ {
                if toks.len() < 3 {
                    None
                } else if clean == "I"@ {
                    match spec_parse_u16_dec(toks[2]) {
                        Some(k) => if spec_addr_out_of_bounds(k) {
                            None
                        } else {
                            Some(0xA000 | k)
                        },
                        None => None,
                    }
                } else if clean == "DT"@ {
                    spec_encode_fx(0xF015, toks[2])
                } else if clean == "ST"@ {
                    spec_encode_fx(0xF018, toks[2])
                } else if toks[2].len() == 0 {
                    None
                } else if toks[2][0] == 'V' {
                    spec_encode_rr(0x8000, clean, toks[2])
                } else {
                    spec_encode_rk(0x6000, clean, toks[2])
                }
            } else if t0 == "OR"@ {
                if toks.len() < 3 {
                    None
                } else {
                    spec_encode_rr(0x8001, clean, toks[2])
                }
            } else if t0 == "AND"@ {
                if toks.len() < 3 {
                    None
                } else {
                    spec_encode_rr(0x8002, clean, toks[2])
                }
            } else if t0 == "XOR"@ {
                if toks.len() < 3 {
                    None
                } else {
                    spec_encode_rr(0x8003, clean, toks[2])
                }
            } else if t0 == "ADD"@ {
                if toks.len() < 3 || toks[2].len() == 0 {
                    None
                } else if toks[2][0] == 'V' {
                    spec_encode_rr(0x8004, clean, toks[2])
                } else {
                    spec_encode_rk(0x7000, clean, toks[2])
                }
            } else if t0 == "SUB"@ {
                if toks.len() < 3 {
                    None
                } else {
                    spec_encode_rr(0x8005, clean, toks[2])
                }
            } else if t0 == "SHR"@ {
                if toks.len() < 3 {
                    None
                } else {
                    spec_encode_rr(0x8006, clean, toks[2])
                }
            } else if t0 == "SUBN"@ {
                if toks.len() < 3 {
                    None
                } else {
                    spec_encode_rr(0x8007, clean, toks[2])
                }
            } else if t0 == "SHL"@ {
                if toks.len() < 3 {
                    None
                } else {
                    spec_encode_rr(0x800E, clean, toks[2])
                }
            } else if t0 == "DRW"@ {
                if toks.len() < 4 {
                    None
                } else {
                    match spec_reg_pair(clean, strip_char(toks[2], ',')) {
                        Some(p) => match spec_parse_u16_dec(toks[3]) {
                            Some(nv) => Some(0xD000 | (p.0 << 8) | (p.1 << 4) | (0x000F & nv)),
                            None => None,
                        },
                        None => None,
                    }
                }
            } else if t0 == "JP"@ {
                if toks.len() < 2 {
                    None
                } else {
                    match spec_parse_u16_dec(toks[1]) {
                        Some(k) => Some(0x1000 | (0x0FFF & k)),
                        None => None,
                    }
                }
            } else if t0 == "CALL"@ {
                if toks.len() < 2 {
                    None
                } else {
                    match spec_parse_u16_dec(toks[1]) {
                        Some(k) => Some(0x2000 | (0x0FFF & k)),
                        None => None,
                    }
                }
            } else if t0 == "SE"@ {
                if toks.len() < 3 {
                    None
                } else {
                    match spec_reg_pair(clean, toks[2]) {
                        Some(p) => if toks[2][0] == 'V' {
                            Some(0x5000 | (p.0 << 8) | (p.1 << 4))
                        } else {
                            match spec_parse_u16_dec(toks[2]) {
                                Some(k) => Some(0x3000 | (p.0 << 8) | (0x00FF & k)),
                                None => None,
                            }
                        },
                        None => None,
                    }
                }
            } else if t0 == "SNE"@ {
                if toks.len() < 3 {
                    None
                } else {
                    spec_encode_rk(0x4000, clean, toks[2])
                }
            } else if t0 == "RET"@ {
                Some(0x00EE)
            } else if t0 == "CLS"@ {
                Some(0x00E0)
            } else {
                None
            }
        }
    }
}

pub const FIRST_REGISTER_ADDR: u16 = 0x010;

pub const STACK_INIT_ADDR: u16 = 0x020;

/// First address beyond the stack; a push that would reach it overflows.
pub const STACK_CANARY: u16 = 0x040;

pub const PROGRAM_INIT_ADDR: u16 = 0x200;

pub const RTI_DEFAULT_ADDR: u16 = 0x600;

pub const DISPLAY_HEIGHT: usize = 32;

pub const DISPLAY_WIDTH: usize = 64;

pub const EOP_OPT_CODE: u16 = 0x0000;

pub const MEMORY_SIZE: usize = 4096;

/// Terminal cycle outcome: status 0 is the normal end of the program (the
/// sentinel opcode was fetched), status 1 is an opcode-execution failure.
#[derive(Debug, PartialEq, Eq, Structural)]
pub struct EopError {
    pub status: u8,
}

/// Choose the type of program to be loaded.
pub enum ProgramType<'a> {
    /// Source text of the main program, placed at the configured base address.
    Main(&'a str),
    /// Source text of a subroutine and the address to place it at.
    Routine((&'a String, Option<u16>)),
}

/// Purpose of an installed handler routine.
#[derive(Debug, Clone, Copy, PartialEq, Eq, Structural)]
pub enum RoutinePurpose {
    DelayTimer,
    SoundTimer,
    Ordinary,
}

/// Placement and purpose of one user-defined routine.
#[derive(Debug, Clone, Copy, PartialEq, Eq, Structural)]
pub struct RoutineParams {
    pub addr: Option<u16>,
    pub purpose: RoutinePurpose,
}

/// Configuration injected at construction; all values have defaults.
#[derive(Debug, Clone, Copy, PartialEq, Eq, Structural)]
pub struct ChipConfig {
    pub first_register_addr: u16,
    pub stack_init_addr: u16,
    pub stack_canary: u16,
    pub program_init: u16,
    pub rti_default_addr: u16,
    pub display_height: usize,
    pub display_width: usize,
    pub eop_opt_code: u16,
}

pub open spec fn spec_default_config() -> ChipConfig {
    ChipConfig {
        first_register_addr: FIRST_REGISTER_ADDR,
        stack_init_addr: STACK_INIT_ADDR,
        stack_canary: STACK_CANARY,
        program_init: PROGRAM_INIT_ADDR,
        rti_default_addr: RTI_DEFAULT_ADDR,
        display_height: DISPLAY_HEIGHT,
        display_width: DISPLAY_WIDTH,
        eop_opt_code: EOP_OPT_CODE,
    }
}

/// What a configuration must satisfy for the machine's regions to fit in
/// memory: the register file and the canary-terminated stack lie inside the
/// 4 KiB image, and rows are 64 pixels of 8 bytes.
pub open spec fn cfg_wf(c: ChipConfig) -> bool {
    &&& c.first_register_addr + 16 <= MEMORY_SIZE
    &&& c.stack_init_addr + 33 <= MEMORY_SIZE
    &&& c.stack_canary == c.stack_init_addr + 32
    &&& c.display_width == DISPLAY_WIDTH
    &&& 0 < c.display_height
}

impl ChipConfig {
    /// The default configuration.
    pub fn defaults() -> (c: ChipConfig)
        ensures
            c == spec_default_config(),
            cfg_wf(c),
    {
        ChipConfig {
            first_register_addr: FIRST_REGISTER_ADDR,
            stack_init_addr: STACK_INIT_ADDR,
            stack_canary: STACK_CANARY,
            program_init: PROGRAM_INIT_ADDR,
            rti_default_addr: RTI_DEFAULT_ADDR,
            display_height: DISPLAY_HEIGHT,
            display_width: DISPLAY_WIDTH,
            eop_opt_code: EOP_OPT_CODE,
        }
    }
}

/// The big-endian 16-bit word at address `a`.
pub open spec fn word_at(mem: Seq<u8>, a: int) -> u16 {
    (((mem[a] as u16) << 8) | (mem[a + 1] as u16)) as u16
}

/// Whether an address falls outside the 12-bit address space.
pub open spec fn spec_addr_out_of_bounds(address: u16) -> bool {
    address > 0x0FFF
}

/// The effect of a successful `CALL`-style push: the old `PC` is stored
/// big-endian in the stack slot `SP` indexes, `SP` moves up one slot, and
/// `PC` lands on `addr`; nothing else changes.
pub open spec fn spec_push_pc(pre: Chip8, post: Chip8, addr: u16) -> bool {
    &&& post.wf()
    &&& post.memory@ == pre.memory@.update(
        pre.stack_addr(pre.sp as int),
        ((pre.pc >> 8) & 0xFF) as u8,
    ).update(pre.stack_addr(pre.sp as int) + 1, (pre.pc & 0xFF) as u8)
    &&& post.sp == pre.sp + 1
    &&& post.pc == addr
    &&& post.i_register == pre.i_register
    &&& Chip8::eq_static(pre, post)
    &&& Chip8::eq_gfx(pre, post)
    &&& Chip8::eq_timers(pre, post)
}

/// Address of the first routine of the given purpose, if one is installed.
pub open spec fn first_routine_addr(rs: Seq<RoutineParams>, p: RoutinePurpose) -> Option<u16>
    decreases rs.len(),
{
    if rs.len() == 0 {
        None
    } else if rs[0].purpose == p {
        rs[0].addr
    } else {
        first_routine_addr(rs.skip(1), p)
    }
}

/// What one directive line does to the routine record being built:
/// `!place_at=<decimal>` fixes the placement address,
/// `!is_subroutine_for=delay|sound` fixes the purpose. Anything else — an
/// unknown directive, a missing value, a malformed number, a purpose other
/// than `delay` or `sound` — is rejected.
pub open spec fn spec_directive(s: Seq<char>, pre: RoutineParams) -> Option<RoutineParams> {
    {
        let parts = split_char(s, '=');
        if parts[0] == "!place_at"@ {
            if parts.len() >= 2 {
                match spec_parse_u16_dec(parts[1]) {
                    Some(v) => Some(RoutineParams { addr: Some(v), ..pre }),
                    None => None,
                }
            } else {
                None
            }
        } else if parts[0] == "!is_subroutine_for"@ {
            if parts.len() >= 2 {
                if parts[1] == "delay"@ {
                    Some(RoutineParams { purpose: RoutinePurpose::DelayTimer, ..pre })
                } else if parts[1] == "sound"@ {
                    Some(RoutineParams { purpose: RoutinePurpose::SoundTimer, ..pre })
                } else {
                    None
                }
            } else {
                None
            }
        } else {
            None
        }
    }
}

/// The two big-endian bytes each assembled line emits, concatenated in line
/// order; nothing when some line is rejected.
pub open spec fn spec_lines_bytes(ls: Seq<Seq<char>>) -> Option<Seq<u8>>
    decreases ls.len(),
{
    if ls.len() == 0 {
        Some(Seq::empty())
    } else {
        match spec_encode_tokens(split_char(ls[0], ' ')) {
            Some(op) => match spec_lines_bytes(ls.skip(1)) {
                Some(rest) => Some(
                    seq![(((0xFF00 & op) as u16) >> 8) as u8, (0x00FF & op) as u8] + rest,
                ),
                None => None,
            },
            None => None,
        }
    }
}

/// `mem` with `bytes` written starting at `base`.
pub open spec fn spec_overwrite(mem: Seq<u8>, base: int, bytes: Seq<u8>) -> Seq<u8> {
    Seq::new(
        mem.len(),
        |i: int|
            if base <= i < base + bytes.len() {
                bytes[i - base]
            } else {
                mem[i]
            },
    )
}

/// Memory after assembling `text` line by line at `base`: nothing when a
/// line is rejected or the image would run past the end of memory.
pub open spec fn spec_load_routine_at(mem: Seq<u8>, text: Seq<char>, base: int) -> Option<Seq<u8>> {
    match spec_lines_bytes(lines_of(text)) {
        Some(bytes) => if base + bytes.len() <= MEMORY_SIZE {
            Some(spec_overwrite(mem, base, bytes))
        } else {
            None
        },
        None => None,
    }
}

/// The routine record and remaining code of one directive block: each
/// leading `!` line updates the record and is consumed with its newline;
/// what follows the directives is the block's code. A directive that does
/// not start the remaining block, or lacks its newline, is rejected.
pub open spec fn spec_block(block: Seq<char>, params: RoutineParams) -> Option<
    (RoutineParams, Seq<char>),
>
    decreases block.len(),
    via spec_block_decreases
{
    {
        let bang = find_char(block, '!');
        if bang == -1 {
            Some((params, block))
        } else if bang != 0 {
            None
        } else {
            {
                let nl = find_char(block, '\n');
                if nl == -1 {
                    None
                } else {
                    match spec_directive(block.take(nl), params) {
                        Some(p2) => spec_block(block.skip(nl + 1), p2),
                        None => None,
                    }
                }
            }
        }
    }
}

#[via_fn]
proof fn spec_block_decreases(block: Seq<char>, params: RoutineParams) {
    lemma_find_char_bounds(block, '!');
    lemma_find_char_bounds(block, '\n');
}

/// The handler address a routine record resolves to.
pub open spec fn spec_resolve_addr(addr: Option<u16>, cfg: ChipConfig) -> u16 {
    match addr {
        Some(a) => a,
        None => cfg.rti_default_addr,
    }
}

/// Memory, routine table and remaining text after consuming every directive
/// block: each block, opened by a `!` at the start of the text and closed by
/// a blank line, is parsed, its code assembled at the resolved address, and
/// its record appended. A `!` that does not start the text, or a block
/// without a closing blank line, is rejected.
pub open spec fn spec_parse_directives(
    mem: Seq<u8>,
    rs: Seq<RoutineParams>,
    text: Seq<char>,
    cfg: ChipConfig,
) -> Option<(Seq<u8>, Seq<RoutineParams>, Seq<char>)>
    decreases text.len(),
    via spec_parse_directives_decreases
{
    {
        let bang = find_char(text, '!');
        if bang == -1 {
            Some((mem, rs, text))
        } else if bang != 0 {
            None
        } else {
            {
                let blank = find_nn(text);
                if blank == -1 {
                    None
                } else {
                    match spec_block(
                        text.take(blank),
                        RoutineParams { addr: None, purpose: RoutinePurpose::Ordinary },
                    ) {
                        Some(pc2) => match spec_load_routine_at(
                            mem,
                            pc2.1,
                            spec_resolve_addr(pc2.0.addr, cfg) as int,
                        ) {
                            Some(mem2) => spec_parse_directives(
                                mem2,
                                rs.push(pc2.0),
                                text.skip(blank + 2),
                                cfg,
                            ),
                            None => None,
                        },
                        None => None,
                    }
                }
            }
        }
    }
}

#[via_fn]
proof fn spec_parse_directives_decreases(
    mem: Seq<u8>,
    rs: Seq<RoutineParams>,
    text: Seq<char>,
    cfg: ChipConfig,
) {
    lemma_find_char_bounds(text, '!');
    lemma_find_nn_bounds(text);
}

/// The whole main-program load: hexadecimal literals rewritten to decimal,
/// directive blocks consumed, and the remaining text assembled at the
/// program base address.
pub open spec fn spec_load_main(
    mem: Seq<u8>,
    rs: Seq<RoutineParams>,
    text: Seq<char>,
    cfg: ChipConfig,
) -> Option<(Seq<u8>, Seq<RoutineParams>)> {
    match spec_parse_directives(mem, rs, hex_rewrite(text), cfg) {
        Some(t3) => match spec_load_routine_at(t3.0, t3.2, cfg.program_init as int) {
            Some(m3) => Some((m3, t3.1)),
            None => None,
        },
        None => None,
    }
}

/// A rejected directive block rejects the whole directive pass.
pub proof fn lemma_directives_block_none(
    mem: Seq<u8>,
    rs: Seq<RoutineParams>,
    text: Seq<char>,
    cfg: ChipConfig,
    blank: int,
)
    requires
        find_char(text, '!') == 0,
        find_nn(text) == blank,
        blank >= 0,
        match spec_block(
            text.take(blank),
            RoutineParams { addr: None, purpose: RoutinePurpose::Ordinary },
        ) {
            Some(pc) => spec_load_routine_at(
                mem,
                pc.1,
                spec_resolve_addr(pc.0.addr, cfg) as int,
            ) is None,
            None => true,
        },
    ensures
        spec_parse_directives(mem, rs, text, cfg) is None,
{
}

/// One consumed directive block steps the directive pass.
pub proof fn lemma_directives_step(
    mem: Seq<u8>,
    rs: Seq<RoutineParams>,
    text: Seq<char>,
    cfg: ChipConfig,
    blank: int,
    p: RoutineParams,
    code: Seq<char>,
    mem2: Seq<u8>,
)
    requires
        find_char(text, '!') == 0,
        find_nn(text) == blank,
        blank >= 0,
        spec_block(text.take(blank), RoutineParams { addr: None, purpose: RoutinePurpose::Ordinary })
            == Some((p, code)),
        spec_load_routine_at(mem, code, spec_resolve_addr(p.addr, cfg) as int) == Some(mem2),
    ensures
        spec_parse_directives(mem, rs, text, cfg) == spec_parse_directives(
            mem2,
            rs.push(p),
            text.skip(blank + 2),
            cfg,
        ),
{
}

/// `spec_lines_bytes` splits at any prefix: the whole assembles exactly when
/// the prefix and the remainder both do, giving the concatenated bytes.
pub proof fn lemma_lines_bytes_split(ls: Seq<Seq<char>>, i: int)
    requires
        0 <= i <= ls.len(),
    ensures
        spec_lines_bytes(ls) == match (
            spec_lines_bytes(ls.subrange(0, i)),
            spec_lines_bytes(ls.skip(i)),
        ) {
            (Some(a), Some(b)) => Some(a + b),
            _ => None,
        },
    decreases i,
{
    if i == 0 {
        assert(ls.subrange(0, 0) =~= Seq::<Seq<char>>::empty());
        assert(ls.skip(0) =~= ls);
        match spec_lines_bytes(ls) {
            Some(b) => {
                assert(Seq::<u8>::empty() + b =~= b);
            },
            None => {},
        }
    } else {
        lemma_lines_bytes_split(ls.skip(1), i - 1);
        assert(ls.subrange(0, i)[0] == ls[0]);
        assert(ls.subrange(0, i).skip(1) =~= ls.skip(1).subrange(0, i - 1));
        assert(ls.skip(i) =~= ls.skip(1).skip(i - 1));
        match (spec_lines_bytes(ls.subrange(0, i)), spec_lines_bytes(ls.skip(i))) {
            (Some(a), Some(b)) => {
                match spec_encode_tokens(split_char(ls[0], ' ')) {
                    Some(op) => {
                        let hi = (((0xFF00 & op) as u16) >> 8) as u8;
                        let lo = (0x00FF & op) as u8;
                        match spec_lines_bytes(ls.skip(1).subrange(0, i - 1)) {
                            Some(a1) => {
                                assert(a =~= seq![hi, lo] + a1);
                                match spec_lines_bytes(ls.skip(1)) {
                                    Some(r1) => {
                                        assert(r1 =~= a1 + b);
                                        assert((seq![hi, lo] + a1) + b =~= seq![hi, lo] + (a1 + b));
                                    },
                                    None => {},
                                }
                            },
                            None => {},
                        }
                    },
                    None => {},
                }
            },
            _ => {},
        }
    }
}

/// Represents the chip8 emulator status.
#[derive(Debug)]
pub struct Chip8 {
    /// Main memory of the chip, 4 KiB.
    pub memory: Vec<u8>,
    /// Addresses of the memory-mapped registers.
    pub registers: Vec<u16>,
    /// Addresses of the memory-mapped stack slots.
    pub stack: Vec<u16>,
    /// The `I` address register.
    pub i_register: u16,
    /// Program counter; the next instruction is at `pc + 2`.
    pub pc: u16,
    /// Stack pointer; an index into `stack`, not an address.
    pub sp: u8,
    /// The delay timer device, when one is counting.
    pub delay_timer: Option<TimerThread>,
    /// The sound timer device, when one is counting.
    pub sound_timer: Option<TimerThread>,
    /// Framebuffer rows, 8 bytes of 8 pixels each.
    pub gfx: Vec<Vec<u8>>,
    /// User-defined handler routines, in installation order.
    pub routines: Vec<RoutineParams>,
    /// The configuration the machine was built with.
    pub config: ChipConfig,
}

impl Chip8 {
    /// Well-formedness: the configuration is sound, the address tables map
    /// register `x` to `first_register_addr + x` and stack slot `k` to
    /// `stack_init_addr + 2k`, the stack pointer stays within its 16 slots,
    /// and the framebuffer has full rows.
    pub open spec fn wf(self) -> bool {
        &&& cfg_wf(self.config)
        &&& self.memory@.len() == MEMORY_SIZE
        &&& self.registers@.len() == 16
        &&& (forall|i: int|
            0 <= i < 16 ==> #[trigger] self.registers@[i] == self.config.first_register_addr + i)
        &&& self.stack@.len() == 16
        &&& (forall|i: int|
            0 <= i < 16 ==> #[trigger] self.stack@[i] == self.config.stack_init_addr + 2 * i)
        &&& self.sp <= 16
        &&& self.gfx@.len() == self.config.display_height
        &&& (forall|r: int| 0 <= r < self.gfx@.len() ==> (#[trigger] self.gfx@[r])@.len() == 8)
    }

    /// Memory address of register `x`.
    pub open spec fn reg_addr(self, x: int) -> int {
        self.config.first_register_addr + x
    }

    /// Value of register `x`, read from the memory image.
    pub open spec fn spec_reg(self, x: int) -> u8 {
        self.memory@[self.reg_addr(x)]
    }

    /// Memory address of stack slot `k`.
    pub open spec fn stack_addr(self, k: int) -> int {
        self.config.stack_init_addr + 2 * k
    }

    /// Framebuffer row `r` as a byte sequence.
    pub open spec fn row(self, r: int) -> Seq<u8> {
        self.gfx@[r]@
    }

    /// All framebuffer rows as byte sequences.
    pub open spec fn rows(self) -> Seq<Seq<u8>> {
        Seq::new(self.gfx@.len(), |r: int| self.gfx@[r]@)
    }

    /// The opcode word the next fetch reads.
    pub open spec fn fetched(self) -> u16 {
        word_at(self.memory@, self.pc as int)
    }

    pub open spec fn eq_memory(pre: Chip8, post: Chip8) -> bool {
        post.memory == pre.memory
    }

    pub open spec fn eq_gfx(pre: Chip8, post: Chip8) -> bool {
        post.gfx == pre.gfx
    }

    pub open spec fn eq_timers(pre: Chip8, post: Chip8) -> bool {
        post.delay_timer == pre.delay_timer && post.sound_timer == pre.sound_timer
    }

    pub open spec fn eq_ipc_sp(pre: Chip8, post: Chip8) -> bool {
        post.i_register == pre.i_register && post.pc == pre.pc && post.sp == pre.sp
    }

    /// The fields that never change after construction.
    pub open spec fn eq_static(pre: Chip8, post: Chip8) -> bool {
        &&& post.registers == pre.registers
        &&& post.stack == pre.stack
        &&& post.config == pre.config
        &&& post.routines == pre.routines
    }

    /// A machine with the given configuration: zeroed memory and framebuffer,
    /// `PC` at the program base, empty stack, no timers, no routines.
    pub fn with_config(config: ChipConfig) -> (c: Chip8)
        requires
            cfg_wf(config),
        ensures
            c.wf(),
            c.config == config,
            c.memory@ =~= Seq::new(MEMORY_SIZE as nat, |i: int| 0u8),
            c.i_register == 0,
            c.pc == config.program_init,
            c.sp == 0,
            c.delay_timer is None,
            c.sound_timer is None,
            c.gfx@.len() == config.display_height,
            forall|r: int, b: int|
                0 <= r < c.gfx@.len() && 0 <= b < 8 ==> #[trigger] c.gfx@[r]@[b] == 0u8,
            c.routines@ =~= Seq::<RoutineParams>::empty(),
    {
        let mut registers: Vec<u16> = Vec::new();
        let mut i: usize = 0;
        while i < 16
            invariant
                0 <= i <= 16,
                cfg_wf(config),
                registers@.len() == i,
                forall|j: int|
                    0 <= j < i ==> #[trigger] registers@[j] == config.first_register_addr + j,
            decreases 16 - i,
        {
            registers.push(config.first_register_addr + (i as u16));
            i = i + 1;
        }

        let mut stack: Vec<u16> = Vec::new();
        let mut k: usize = 0;
        while k < 16
            invariant
                0 <= k <= 16,
                cfg_wf(config),
                stack@.len() == k,
                forall|j: int| 0 <= j < k ==> #[trigger] stack@[j] == config.stack_init_addr + 2 * j,
            decreases 16 - k,
        {
            stack.push(config.stack_init_addr + 2 * (k as u16));
            k = k + 1;
        }

        Chip8 {
            memory: vec![0u8; MEMORY_SIZE],
            registers,
            stack,
            i_register: 0x000,
            pc: config.program_init,
            sp: 0x00,
            delay_timer: None,
            sound_timer: None,
            gfx: vec![vec![0u8; 8]; config.display_height],
            routines: Vec::new(),
            config,
        }
    }

    /// A machine with the default configuration.
    pub fn new() -> (c: Chip8)
        ensures
            c.wf(),
            c.config == spec_default_config(),
            c.memory@ =~= Seq::new(MEMORY_SIZE as nat, |i: int| 0u8),
            c.i_register == 0,
            c.pc == PROGRAM_INIT_ADDR,
            c.sp == 0,
            c.delay_timer is None,
            c.sound_timer is None,
            c.gfx@.len() == DISPLAY_HEIGHT,
            forall|r: int, b: int|
                0 <= r < c.gfx@.len() && 0 <= b < 8 ==> #[trigger] c.gfx@[r]@[b] == 0u8,
            c.routines@ =~= Seq::<RoutineParams>::empty(),
    {
        Chip8::with_config(ChipConfig::defaults())
    }

    /// Set register `source` to `value`, through the memory image.
    pub fn set_register_value(&mut self, source: u8, value: u8)
        requires
            old(self).wf(),
            source < 16,
        ensures
            final(self).wf(),
            final(self).memory@ == old(self).memory@.update(
                old(self).reg_addr(source as int),
                value,
            ),
            Chip8::eq_static(*old(self), *final(self)),
            Chip8::eq_gfx(*old(self), *final(self)),
            Chip8::eq_timers(*old(self), *final(self)),
            Chip8::eq_ipc_sp(*old(self), *final(self)),
    {
        let a = self.registers[source as usize] as usize;
        self.memory[a] = value;
    }

    /// Read register `source` from the memory image.
    pub fn get_register_value(&self, source: u8) -> (r: u8)
        requires
            self.wf(),
            source < 16,
        ensures
            r == self.spec_reg(source as int),
    {
        self.memory[self.registers[source as usize] as usize]
    }

    pub fn set_i_register_value(&mut self, value: u16)
        ensures
            *final(self) == (Chip8 { i_register: value, ..*old(self) }),
    {
        self.i_register = value;
    }

    /// Pop the saved program counter: the stack pointer moves down one slot
    /// and `PC` is read back big-endian from that slot.
    pub fn leave_subroutine(&mut self)
        requires
            old(self).wf(),
            old(self).sp >= 1,
        ensures
            final(self).wf(),
            final(self).sp == old(self).sp - 1,
            final(self).pc == word_at(old(self).memory@, old(self).stack_addr(old(self).sp - 1)),
            Chip8::eq_memory(*old(self), *final(self)),
            Chip8::eq_static(*old(self), *final(self)),
            Chip8::eq_gfx(*old(self), *final(self)),
            Chip8::eq_timers(*old(self), *final(self)),
            final(self).i_register == old(self).i_register,
    {
        self.sp = self.sp - 1;
        let slot = self.stack[self.sp as usize] as usize;
        self.pc = ((self.memory[slot] as u16) << 8) | (self.memory[slot + 1] as u16);
    }

    /// Zero every pixel of the display.
    pub fn clear_display(&mut self)
        requires
            old(self).wf(),
        ensures
            final(self).wf(),
            final(self).gfx@.len() == old(self).gfx@.len(),
            forall|r: int, b: int|
                0 <= r < final(self).gfx@.len() && 0 <= b < 8
                    ==> #[trigger] final(self).gfx@[r]@[b] == 0u8,
            Chip8::eq_memory(*old(self), *final(self)),
            Chip8::eq_static(*old(self), *final(self)),
            Chip8::eq_timers(*old(self), *final(self)),
            Chip8::eq_ipc_sp(*old(self), *final(self)),
    {
        self.gfx = vec![vec![0u8; 8]; self.config.display_height];
    }

    /// Move `PC`: to `addr` on `Some(addr)`, to the next instruction on
    /// `None`.
    pub fn update_pc(&mut self, increment: Option<u16>)
        requires
            increment is None ==> old(self).pc + 2 <= u16::MAX,
        ensures
            *final(self) == (Chip8 {
                pc: match increment {
                    Some(addr) => addr,
                    None => (old(self).pc + 2) as u16,
                },
                ..*old(self)
            }),
    {
        self.pc = match increment {
            Some(addr) => addr,
            None => self.pc + 0x0002,
        }
    }

    /// Read the memory byte at `I + offset`.
    pub fn load_i_address_value(&self, offset: usize) -> (r: u8)
        requires
            self.wf(),
            self.i_register + offset < MEMORY_SIZE,
        ensures
            r == self.memory@[self.i_register + offset],
    {
        self.memory[self.i_register as usize + offset]
    }

    /// The address of the first installed routine matching `purpose`; `None`
    /// when none matches, so the caller falls back to the configured default.
    pub fn get_routine_addr(&self, purpose: RoutinePurpose) -> (r: Option<u16>)
        ensures
            r == first_routine_addr(self.routines@, purpose),
    {
        let n = self.routines.len();
        proof {
            assert(self.routines@.skip(0) =~= self.routines@);
        }
        let mut i: usize = 0;
        while i < n
            invariant
                0 <= i <= n,
                n == self.routines@.len(),
                first_routine_addr(self.routines@, purpose) == first_routine_addr(
                    self.routines@.skip(i as int),
                    purpose,
                ),
            decreases n - i,
        {
            let rp = self.routines[i];
            proof {
                assert(self.routines@.skip(i as int)[0] == self.routines@[i as int]);
                assert(self.routines@.skip(i as int).skip(1) =~= self.routines@.skip(i + 1));
            }
            if rp.purpose == purpose {
                return rp.addr;
            }
            i = i + 1;
        }
        proof {
            assert(self.routines@.skip(n as int).len() == 0);
        }
        None
    }

    pub fn get_gfx(&self) -> (r: &[Vec<u8>])
        ensures
            r@ == self.gfx@,
    {
        self.gfx.as_slice()
    }

    /// The framebuffer row at vertical position `coords.0 + offset` (wrapping
    /// at the bottom), masked to the eight-pixel window that starts at column
    /// `coords.1` (wrapping at the right edge).
    pub fn get_gfx_sprite(&self, coords: (u8, u8), offset: usize) -> (r: u64)
        requires
            self.wf(),
            coords.0 + offset <= usize::MAX,
        ensures
            r == row_val(
                self.row((coords.0 + offset) % (self.config.display_height as int)),
            ) & window_mask((coords.1 % 64) as u64),
    {
        let target_row = (coords.0 as usize + offset) % self.config.display_height;
        let target_col = (coords.1 % 64) as u64;
        let row = &self.gfx[target_row];
        let v = ((row[0] as u64) << 56) | ((row[1] as u64) << 48) | ((row[2] as u64) << 40) | ((
        row[3] as u64) << 32) | ((row[4] as u64) << 24) | ((row[5] as u64) << 16) | ((
        row[6] as u64) << 8) | (row[7] as u64);
        let mask = rotr64_exec(0xFF00000000000000u64, target_col);
        v & mask
    }

    /// Composite the sprite byte into the framebuffer by XOR: the row at
    /// `coords.0 + offset` becomes its old value XORed with the sprite placed
    /// at column `coords.1` (wrapping at the right edge); every pixel outside
    /// the sprite's window is untouched, and `VF` bit 0 is raised when a lit
    /// pixel goes dark.
    pub fn set_gfx_sprite(&mut self, coords: (u8, u8), offset: usize, sprite: u8)
        requires
            old(self).wf(),
            coords.0 + offset <= usize::MAX,
        ensures
            final(self).wf(),
            final(self).gfx@.len() == old(self).gfx@.len(),
            ({
                let trow = (coords.0 + offset) % (old(self).config.display_height as int);
                let col = (coords.1 % 64) as u64;
                let xor = drw_val(row_val(old(self).row(trow)), col, sprite);
                &&& final(self).row(trow) =~= Seq::new(8, |k: int| byte_of(xor, k))
                &&& (forall|r: int|
                    0 <= r < old(self).gfx@.len() && r != trow ==> #[trigger] final(self).gfx@[r]
                        == old(self).gfx@[r])
                &&& final(self).memory@ == if drw_collision(
                    row_val(old(self).row(trow)),
                    col,
                    sprite,
                ) {
                    old(self).memory@.update(
                        old(self).reg_addr(15),
                        (old(self).spec_reg(15) | 0x01) as u8,
                    )
                } else {
                    old(self).memory@
                }
            }),
            Chip8::eq_static(*old(self), *final(self)),
            Chip8::eq_timers(*old(self), *final(self)),
            Chip8::eq_ipc_sp(*old(self), *final(self)),
    {
        let target_row = (coords.0 as usize + offset) % self.config.display_height;
        let col = (coords.1 % 64) as u64;
        let row = &self.gfx[target_row];
        let prev_row = ((row[0] as u64) << 56) | ((row[1] as u64) << 48) | ((row[2] as u64) << 40)
            | ((row[3] as u64) << 32) | ((row[4] as u64) << 24) | ((row[5] as u64) << 16) | ((
        row[6] as u64) << 8) | (row[7] as u64);
        let placed = rotr64_exec(sprite as u64, col + 8);
        let xor_sprite = prev_row ^ placed;

        // check collisions
        if prev_row & placed != 0 {
            let a = self.registers[15] as usize;
            self.memory[a] = self.memory[a] | 0x01;
        }
        // draw it in gfx
        let mut new_row: Vec<u8> = Vec::new();
        new_row.push(((xor_sprite >> 56) & 0xFF) as u8);
        new_row.push(((xor_sprite >> 48) & 0xFF) as u8);
        new_row.push(((xor_sprite >> 40) & 0xFF) as u8);
        new_row.push(((xor_sprite >> 32) & 0xFF) as u8);
        new_row.push(((xor_sprite >> 24) & 0xFF) as u8);
        new_row.push(((xor_sprite >> 16) & 0xFF) as u8);
        new_row.push(((xor_sprite >> 8) & 0xFF) as u8);
        new_row.push((xor_sprite & 0xFF) as u8);
        self.gfx[target_row] = new_row;
        proof {
            let trow = (coords.0 + offset) % (old(self).config.display_height as int);
            let xor = drw_val(
                row_val(old(self).row(trow)),
                (coords.1 % 64) as u64,
                sprite,
            );
            assert(xor == xor_sprite);
            assert(final(self).row(trow) == new_row@);
            assert(new_row@[0] == byte_of(xor, 0));
            assert(new_row@[1] == byte_of(xor, 1));
            assert(new_row@[2] == byte_of(xor, 2));
            assert(new_row@[3] == byte_of(xor, 3));
            assert(new_row@[4] == byte_of(xor, 4));
            assert(new_row@[5] == byte_of(xor, 5));
            assert(new_row@[6] == byte_of(xor, 6));
            assert((xor >> 0) & 0xFF == xor & 0xFF) by (bit_vector);
            assert(new_row@[7] == byte_of(xor, 7));
            assert(final(self).row(trow) =~= Seq::new(8, |k: int| byte_of(xor, k)));
        }
    }

    /// Load the delay timer: any live device is preempted and a fresh one is
    /// installed with `val` ticks and the handler address `rti`, or the
    /// configured default when `rti` is `None`.
    pub fn set_delay_timer(&mut self, val: u8, rti: Option<u16>)
        ensures
            *final(self) == (Chip8 {
                delay_timer: Some(
                    TimerThread {
                        timer: val,
                        rti: match rti {
                            Some(a) => a,
                            None => old(self).config.rti_default_addr,
                        },
                        paused: false,
                    },
                ),
                ..*old(self)
            }),
    {
        let addr = match rti {
            Some(a) => a,
            None => self.config.rti_default_addr,
        };
        self.delay_timer = Some(TimerThread::new(val, addr));
    }

    /// Load the sound timer; see `set_delay_timer`.
    pub fn set_sound_timer(&mut self, val: u8, rti: Option<u16>)
        ensures
            *final(self) == (Chip8 {
                sound_timer: Some(
                    TimerThread {
                        timer: val,
                        rti: match rti {
                            Some(a) => a,
                            None => old(self).config.rti_default_addr,
                        },
                        paused: false,
                    },
                ),
                ..*old(self)
            }),
    {
        let addr = match rti {
            Some(a) => a,
            None => self.config.rti_default_addr,
        };
        self.sound_timer = Some(TimerThread::new(val, addr));
    }

    /// Send `sig` to the timer named by `target` (`"delay"` or `"sound"`):
    /// `KILL` drops the device, `STP` suspends it, `RES` resumes it. Fails
    /// when the named slot is empty or the name is unknown.
    pub fn send_signal(&mut self, sig: Signals, target: &str) -> (r: Result<(), String>)
        ensures
            ({
                if target@ == "sound"@ {
                    match old(self).sound_timer {
                        Some(t) => r is Ok && *final(self) == (Chip8 {
                            sound_timer: spec_signal(t, sig),
                            ..*old(self)
                        }),
                        None => r is Err && *final(self) == *old(self),
                    }
                } else if target@ == "delay"@ {
                    match old(self).delay_timer {
                        Some(t) => r is Ok && *final(self) == (Chip8 {
                            delay_timer: spec_signal(t, sig),
                            ..*old(self)
                        }),
                        None => r is Err && *final(self) == *old(self),
                    }
                } else {
                    r is Err && *final(self) == *old(self)
                }
            }),
    {
        if crate::text::str_eq(target, "sound") {
            match self.sound_timer {
                Some(t) => {
                    self.sound_timer = Chip8::apply_signal(t, sig);
                    Ok(())
                },
                None => Err(String::from_str("Sound timer is not set")),
            }
        } else if crate::text::str_eq(target, "delay") {
            match self.delay_timer {
                Some(t) => {
                    self.delay_timer = Chip8::apply_signal(t, sig);
                    Ok(())
                },
                None => Err(String::from_str("Delay timer is not set")),
            }
        } else {
            Err(String::from_str("specified timer doesn't exist"))
        }
    }

    fn apply_signal(t: TimerThread, sig: Signals) -> (r: Option<TimerThread>)
        ensures
            r == spec_signal(t, sig),
    {
        match sig {
            Signals::KILL => None,
            Signals::STP => Some(TimerThread { timer: t.timer, rti: t.rti, paused: true }),
            Signals::RES => Some(TimerThread { timer: t.timer, rti: t.rti, paused: false }),
        }
    }

    /// One 1/60 s step of both timer slots, as the timers' scheduling
    /// contexts commit it.
    pub fn tick_timers(&mut self)
        ensures
            *final(self) == (Chip8 {
                delay_timer: match old(self).delay_timer {
                    Some(t) => Some(spec_tick(t)),
                    None => None,
                },
                sound_timer: match old(self).sound_timer {
                    Some(t) => Some(spec_tick(t)),
                    None => None,
                },
                ..*old(self)
            }),
    {
        match &mut self.delay_timer {
            Some(t) => t.tick(),
            None => {},
        }
        match &mut self.sound_timer {
            Some(t) => t.tick(),
            None => {},
        }
    }

    /// Whether `address` exceeds the 12-bit address space: the bounds test
    /// behind the jumps, calls and `LD I`.
    pub fn address_out_of_bounds(address: u16) -> (r: bool)
        ensures
            r == spec_addr_out_of_bounds(address),
    {
        address > 0x0FFF
    }

    /// Push the current `PC` big-endian into the stack slot `SP` indexes,
    /// advance `SP`, and jump to `addr`. Fails with a stack overflow when the
    /// push would reach the canary address.
    pub fn call_subroutine(&mut self, addr: u16) -> (r: Result<(), String>)
        requires
            old(self).wf(),
        ensures
            final(self).wf(),
            r is Ok <==> old(self).sp < 16,
            r is Err ==> *final(self) == *old(self),
            r is Ok ==> spec_push_pc(*old(self), *final(self), addr),
    {
        // check stack overflow
        let next_sp = self.config.stack_init_addr + (self.sp as u16) * 2;
        if next_sp == self.config.stack_canary {
            Err(String::from_str("Reached stack canary: buffer overflow"))
        } else {
            // store pc where sp points to
            self.memory[next_sp as usize] = ((self.pc >> 8) & 0x00FF) as u8;
            self.memory[next_sp as usize + 1] = (self.pc & 0x00FF) as u8;
            // increment sp
            self.sp = self.sp + 1;
            // modify pc to subroutine's address
            self.pc = addr;
            Ok(())
        }
    }

    /// Rewrite every `0x`-prefixed hexadecimal literal in `text` to decimal,
    /// so the instruction parser only ever sees decimal numbers.
    pub fn hex_2_dec(&self, text: &mut String)
        requires
            spec_hex_wf(old(text)@),
        ensures
            final(text)@ == hex_rewrite(old(text)@),
    {
        let cs = str_to_chars(text.as_str());
        let n = cs.len();
        let mut out: Vec<char> = Vec::new();
        let mut p: usize = 0;
        proof {
            assert(cs@.skip(0) =~= cs@);
        }
        while p < n
            invariant
                0 <= p <= n,
                n == cs@.len(),
                cs@ == old(text)@,
                spec_hex_wf(cs@.skip(p as int)),
                hex_rewrite(cs@) == out@ + hex_rewrite(cs@.skip(p as int)),
            decreases n - p,
        {
            let ghost p0 = p as int;
            let ghost suffix = cs@.skip(p as int);
            if p + 1 < n && cs[p] == '0' && cs[p + 1] == 'x' {
                // scan the digit run; the last character of the text never
                // joins it
                let mut e: usize = p + 2;
                while e < n - 1 && hex_digit(cs[e])
                    invariant_except_break
                        p0 + 2 <= e <= n,
                        n == cs@.len(),
                        hex_run_end(suffix, 2) == hex_run_end(suffix, e - p0),
                        forall|j: int| p0 + 2 <= j < e ==> is_hex_digit(#[trigger] cs@[j]),
                        suffix == cs@.skip(p0),
                        p0 + 1 < n,
                        p == p0,
                    ensures
                        p0 + 2 <= e <= n,
                        hex_run_end(suffix, 2) == e - p0,
                        forall|j: int| p0 + 2 <= j < e ==> is_hex_digit(#[trigger] cs@[j]),
                        p == p0,
                    decreases n - e,
                {
                    e = e + 1;
                    proof {
                        assert(suffix[e - p - 1] == cs@[e - 1]);
                    }
                }
                proof {
                    assert(suffix.len() == n - p0);
                    assert(suffix[0] == cs@[p0] && suffix[1] == cs@[p0 + 1]);
                    assert(hex_run_end(suffix, 2) > 2 && hex_run_end(suffix, 2) - 2 <= 16);
                    assert(e - p0 > 2 && e - p0 - 2 <= 16);
                }
                // parse the run and append its decimal rendering
                let mut acc: u64 = 0;
                let mut j: usize = p + 2;
                proof {
                    assert(cs@.subrange(p0 + 2, p0 + 2) =~= Seq::<char>::empty());
                    assert(pow16(15) == 0x1000000000000000) by {
                        reveal_with_fuel(pow16, 16);
                    }
                }
                while j < e
                    invariant
                        p0 + 2 <= j <= e <= n,
                        e - p0 - 2 <= 16,
                        n == cs@.len(),
                        p == p0,
                        forall|k: int| p0 + 2 <= k < e ==> is_hex_digit(#[trigger] cs@[k]),
                        acc == hex_value(cs@.subrange(p0 + 2, j as int)),
                        pow16(15) == 0x1000000000000000,
                    decreases e - j,
                {
                    let d = hex_digit_value(cs[j]);
                    proof {
                        lemma_hex_value_bound(cs@.subrange(p0 + 2, j as int));
                        lemma_pow16_le(j - p0 - 2, 15);
                        assert(cs@.subrange(p0 + 2, j + 1).drop_last() =~= cs@.subrange(
                            p0 + 2,
                            j as int,
                        ));
                    }
                    acc = acc * 16 + d as u64;
                    j = j + 1;
                }
                push_dec_digits(&mut out, acc);
                p = e;
                proof {
                    let run = hex_run_end(suffix, 2);
                    assert(run == e - p0);
                    assert(suffix.subrange(2, run) =~= cs@.subrange(p0 + 2, e as int));
                    assert(suffix.skip(run) =~= cs@.skip(e as int));
                    assert(acc == hex_value(suffix.subrange(2, run)));
                    assert(hex_rewrite(suffix) == dec_digits_of(acc as int) + hex_rewrite(
                        cs@.skip(e as int),
                    ));
                    assert(hex_rewrite(cs@) =~= out@ + hex_rewrite(cs@.skip(p as int)));
                }
            } else {
                out.push(cs[p]);
                p = p + 1;
                proof {
                    assert(suffix.skip(1) =~= cs@.skip(p as int));
                    assert(hex_rewrite(suffix) == seq![suffix[0]] + hex_rewrite(suffix.skip(1)));
                    assert(hex_rewrite(cs@) =~= out@ + hex_rewrite(cs@.skip(p as int)));
                }
            }
        }
        proof {
            assert(cs@.skip(n as int) =~= Seq::<char>::empty());
            assert(hex_rewrite(cs@) =~= out@);
        }
        *text = chars_to_string(&out);
    }

    /// Parse the hexadecimal register digits of two register tokens (`V?`):
    /// the characters at index 1 of each, when both are hexadecimal digits.
    pub fn parse_common_registers(&self, rx: &str, ry: &str) -> (r: Option<(u16, u16)>)
        requires
            rx@.len() >= 2,
            ry@.len() >= 2,
        ensures
            r == spec_parse_regs(rx@, ry@),
    {
        let cx = rx.get_char(1);
        let cy = ry.get_char(1);
        if hex_digit(cx) && hex_digit(cy) {
            Some((hex_digit_value(cx) as u16, hex_digit_value(cy) as u16))
        } else {
            None
        }
    }

    fn encode_rr(code: u16, a: &str, b: &str) -> (r: Option<u16>)
        ensures
            r == spec_encode_rr(code, a@, b@),
    {
        if a.unicode_len() >= 2 && b.unicode_len() >= 2 {
            let ca = a.get_char(1);
            let cb = b.get_char(1);
            if hex_digit(ca) && hex_digit(cb) {
                Some(
                    code | ((hex_digit_value(ca) as u16) << 8) | ((hex_digit_value(cb) as u16)
                        << 4),
                )
            } else {
                None
            }
        } else {
            None
        }
    }

    fn encode_rk(code: u16, reg: &str, k: &str) -> (r: Option<u16>)
        ensures
            r == spec_encode_rk(code, reg@, k@),
    {
        if reg.unicode_len() >= 2 {
            let c = reg.get_char(1);
            if hex_digit(c) {
                match parse_u16_dec(k) {
                    Some(v) => Some(code | ((hex_digit_value(c) as u16) << 8) | (0x00FF & v)),
                    None => None,
                }
            } else {
                None
            }
        } else {
            None
        }
    }

    fn encode_fx(code: u16, reg: &str) -> (r: Option<u16>)
        ensures
            r == spec_encode_fx(code, reg@),
    {
        if reg.unicode_len() >= 2 {
            let c = reg.get_char(1);
            if hex_digit(c) {
                Some(code | (0x0F00 & ((hex_digit_value(c) as u16) << 8)))
            } else {
                None
            }
        } else {
            None
        }
    }

    fn ok_or_inst_err(v: Option<u16>) -> (r: Result<u16, String>)
        ensures
            match r {
                Ok(x) => v == Some(x),
                Err(_) => v is None,
            },
    {
        match v {
            Some(x) => Ok(x),
            None => Err(String::from_str("Error parsing instruction")),
        }
    }

    /// Assemble one tokenised instruction line into its opcode word, exactly
    /// as `spec_encode_tokens` lays the encoding down. An unknown mnemonic,
    /// a missing or malformed operand, or an out-of-range `LD I` target is
    /// rejected with an error.
    pub fn parse_instruction(&self, inst: &[&str]) -> (r: Result<u16, String>)
        ensures
            match r {
                Ok(v) => spec_encode_tokens(inst.deep_view()) == Some(v),
                Err(_) => spec_encode_tokens(inst.deep_view()) is None,
            },
    {
        let ghost toks = inst.deep_view();
        if inst.len() == 0 {
            return Err(String::from_str("Undefined Instruction"));
        }
        let clean_owned: String = if inst.len() > 1 {
            remove_char(inst[1], ',')
        } else {
            String::new()
        };
        let clean = clean_owned.as_str();
        let t0 = inst[0];
        if str_eq(t0, "LD") {
            if inst.len() < 3 {
                return Err(String::from_str("Error parsing instruction"));
            }
            let c2 = inst[2];
            if str_eq(clean, "I") {
                match parse_u16_dec(c2) {
                    Some(k) => {
                        // check it is not accessing an out-of-bounds address
                        if Chip8::address_out_of_bounds(k) {
                            Err(String::from_str("Address out of bounds"))
                        } else {
                            Ok(0xA000 | k)
                        }
                    },
                    None => Err(String::from_str("Error parsing instruction")),
                }
            } else if str_eq(clean, "DT") {
                Chip8::ok_or_inst_err(Chip8::encode_fx(0xF015, c2))
            } else if str_eq(clean, "ST") {
                Chip8::ok_or_inst_err(Chip8::encode_fx(0xF018, c2))
            } else if c2.unicode_len() == 0 {
                Err(String::from_str("Error parsing instruction"))
            } else if c2.get_char(0) == 'V' {
                // load from another register
                Chip8::ok_or_inst_err(Chip8::encode_rr(0x8000, clean, c2))
            } else {
                // load a constant value
                Chip8::ok_or_inst_err(Chip8::encode_rk(0x6000, clean, c2))
            }
        } else if str_eq(t0, "OR") {
            if inst.len() < 3 {
                return Err(String::from_str("Error parsing instruction"));
            }
            Chip8::ok_or_inst_err(Chip8::encode_rr(0x8001, clean, inst[2]))
        } else if str_eq(t0, "AND") {
            if inst.len() < 3 {
                return Err(String::from_str("Error parsing instruction"));
            }
            Chip8::ok_or_inst_err(Chip8::encode_rr(0x8002, clean, inst[2]))
        } else if str_eq(t0, "XOR") {
            if inst.len() < 3 {
                return Err(String::from_str("Error parsing instruction"));
            }
            Chip8::ok_or_inst_err(Chip8::encode_rr(0x8003, clean, inst[2]))
        } else if str_eq(t0, "ADD") {
            if inst.len() < 3 {
                return Err(String::from_str("Error parsing instruction"));
            }
            let c2 = inst[2];
            if c2.unicode_len() == 0 {
                Err(String::from_str("Error parsing instruction"))
            } else if c2.get_char(0) == 'V' {
                Chip8::ok_or_inst_err(Chip8::encode_rr(0x8004, clean, c2))
            } else {
                Chip8::ok_or_inst_err(Chip8::encode_rk(0x7000, clean, c2))
            }
        } else if str_eq(t0, "SUB") {
            if inst.len() < 3 {
                return Err(String::from_str("Error parsing instruction"));
            }
            Chip8::ok_or_inst_err(Chip8::encode_rr(0x8005, clean, inst[2]))
        } else if str_eq(t0, "SHR") {
            if inst.len() < 3 {
                return Err(String::from_str("Error parsing instruction"));
            }
            Chip8::ok_or_inst_err(Chip8::encode_rr(0x8006, clean, inst[2]))
        } else if str_eq(t0, "SUBN") {
            if inst.len() < 3 {
                return Err(String::from_str("Error parsing instruction"));
            }
            Chip8::ok_or_inst_err(Chip8::encode_rr(0x8007, clean, inst[2]))
        } else if str_eq(t0, "SHL") {
            if inst.len() < 3 {
                return Err(String::from_str("Error parsing instruction"));
            }
            Chip8::ok_or_inst_err(Chip8::encode_rr(0x800E, clean, inst[2]))
        } else if str_eq(t0, "DRW") {
            if inst.len() < 4 {
                return Err(String::from_str("Error parsing instruction"));
            }
            let clean2_owned = remove_char(inst[2], ',');
            let clean2 = clean2_owned.as_str();
            if clean.unicode_len() < 2 || clean2.unicode_len() < 2 {
                return Err(String::from_str("Error parsing instruction"));
            }
            match self.parse_common_registers(clean, clean2) {
                Some((regx, regy)) => {
                    match parse_u16_dec(inst[3]) {
                        Some(nv) => Ok(0xD000 | (regx << 8) | (regy << 4) | (0x000F & nv)),
                        None => Err(String::from_str("Error parsing instruction")),
                    }
                },
                None => Err(String::from_str("Error parsing instruction")),
            }
        } else if str_eq(t0, "JP") {
            if inst.len() < 2 {
                return Err(String::from_str("Error parsing instruction"));
            }
            match parse_u16_dec(inst[1]) {
                Some(k) => Ok(0x1000 | (0x0FFF & k)),
                None => Err(String::from_str("Error parsing instruction")),
            }
        } else if str_eq(t0, "CALL") {
            if inst.len() < 2 {
                return Err(String::from_str("Error parsing instruction"));
            }
            match parse_u16_dec(inst[1]) {
                Some(k) => Ok(0x2000 | (0x0FFF & k)),
                None => Err(String::from_str("Error parsing instruction")),
            }
        } else if str_eq(t0, "SE") {
            if inst.len() < 3 {
                return Err(String::from_str("Error parsing instruction"));
            }
            let c2 = inst[2];
            if clean.unicode_len() < 2 || c2.unicode_len() < 2 {
                return Err(String::from_str("Error parsing instruction"));
            }
            match self.parse_common_registers(clean, c2) {
                Some((regx, regy)) => {
                    if c2.get_char(0) == 'V' {
                        Ok(0x5000 | (regx << 8) | (regy << 4))
                    } else {
                        match parse_u16_dec(c2) {
                            Some(k) => Ok(0x3000 | (regx << 8) | (0x00FF & k)),
                            None => Err(String::from_str("Error parsing instruction")),
                        }
                    }
                },
                None => Err(String::from_str("Error parsing instruction")),
            }
        } else if str_eq(t0, "SNE") {
            if inst.len() < 3 {
                return Err(String::from_str("Error parsing instruction"));
            }
            Chip8::ok_or_inst_err(Chip8::encode_rk(0x4000, clean, inst[2]))
        } else if str_eq(t0, "RET") {
            Ok(0x00EE)
        } else if str_eq(t0, "CLS") {
            Ok(0x00E0)
        } else {
            Err(String::from_str("Undefined Instruction"))
        }
    }

    /// Apply one directive line to the routine record being built, exactly
    /// as `spec_directive` lays it down; a rejected line leaves the record
    /// untouched.
    pub fn parse_specific_directive(&self, directive: &String, params: &mut RoutineParams) -> (r:
        Result<(), String>)
        ensures
            match r {
                Ok(_) => spec_directive(directive@, *old(params)) == Some(*final(params)),
                Err(_) => spec_directive(directive@, *old(params)) is None && *final(params)
                    == *old(params),
            },
    {
        let portioned = split_string(directive.as_str(), '=');
        proof {
            assert(portioned.deep_view()[0] == portioned@[0]@);
            if portioned@.len() > 1 {
                assert(portioned.deep_view()[1] == portioned@[1]@);
            }
        }
        if str_eq(portioned[0].as_str(), "!place_at") {
            if portioned.len() < 2 {
                return Err(String::from_str("Directive is missing its value"));
            }
            match parse_u16_dec(portioned[1].as_str()) {
                Some(v) => {
                    params.addr = Some(v);
                    Ok(())
                },
                None => Err(String::from_str("Directive value is not a 16-bit decimal number")),
            }
        } else if str_eq(portioned[0].as_str(), "!is_subroutine_for") {
            if portioned.len() < 2 {
                return Err(String::from_str("Directive is missing its value"));
            }
            if str_eq(portioned[1].as_str(), "delay") {
                params.purpose = RoutinePurpose::DelayTimer;
                Ok(())
            } else if str_eq(portioned[1].as_str(), "sound") {
                params.purpose = RoutinePurpose::SoundTimer;
                Ok(())
            } else {
                Err(String::from_str("Specified routine purpose is incorrect"))
            }
        } else {
            Err(String::from_str("Specified directive is not found"))
        }
    }

    /// Assemble `code` line by line and write the image at `load_addr`. A
    /// rejected line or an image past the end of memory fails with memory
    /// untouched.
    fn load_routine_text(&mut self, code: &str, load_addr: u16) -> (r: Result<(), String>)
        requires
            old(self).wf(),
        ensures
            final(self).wf(),
            match r {
                Ok(_) => spec_load_routine_at(old(self).memory@, code@, load_addr as int) == Some(
                    final(self).memory@,
                ),
                Err(_) => spec_load_routine_at(old(self).memory@, code@, load_addr as int) is None
                    && Chip8::eq_memory(*old(self), *final(self)),
            },
            Chip8::eq_static(*old(self), *final(self)),
            Chip8::eq_gfx(*old(self), *final(self)),
            Chip8::eq_timers(*old(self), *final(self)),
            Chip8::eq_ipc_sp(*old(self), *final(self)),
    {
        let lines = split_lines(code);
        let ghost lv = lines_of(code@);
        let mut inst_buff: Vec<u8> = Vec::new();
        let n = lines.len();
        let mut i: usize = 0;
        while i < n
            invariant
                0 <= i <= n,
                n == lv.len(),
                lv == lines_of(code@),
                lines.deep_view() == lv,
                lines@.len() == n,
                *self == *old(self),
                self.wf(),
                spec_lines_bytes(lv.subrange(0, i as int)) == Some(inst_buff@),
            decreases n - i,
        {
            let line = lines[i].as_str();
            proof {
                assert(lines.deep_view()[i as int] == lines@[i as int]@);
            }
            let toks = split_string(line, ' ');
            let mut refs: Vec<&str> = Vec::new();
            let tn = toks.len();
            let mut k: usize = 0;
            while k < tn
                invariant
                    0 <= k <= tn,
                    toks@.len() == tn,
                    refs@.len() == k,
                    forall|q: int| 0 <= q < k ==> #[trigger] refs@[q]@ == toks@[q]@,
                decreases tn - k,
            {
                refs.push(toks[k].as_str());
                k = k + 1;
            }
            let inst_slice = refs.as_slice();
            proof {
                assert forall|q: int| 0 <= q < inst_slice.deep_view().len() implies inst_slice
                    .deep_view()[q] == split_char(lv[i as int], ' ')[q] by {
                    assert(inst_slice.deep_view()[q] == inst_slice@[q]@);
                    assert(refs@[q]@ == toks@[q]@);
                    assert(toks.deep_view()[q] == toks@[q]@);
                }
                assert(inst_slice.deep_view() =~= split_char(lv[i as int], ' '));
            }
            let parsed_inst: u16 = match self.parse_instruction(inst_slice) {
                Ok(v) => v,
                Err(e) => {
                    proof {
                        lemma_lines_bytes_split(lv, i as int);
                        assert(lv.skip(i as int)[0] == lv[i as int]);
                        assert(spec_lines_bytes(lv) is None);
                    }
                    return Err(e);
                },
            };
            // big-endian
            let ghost pre_buff = inst_buff@;
            inst_buff.push(((0xFF00 & parsed_inst) >> 8) as u8);
            inst_buff.push((0x00FF & parsed_inst) as u8);
            i = i + 1;
            proof {
                let pre = lv.subrange(0, i - 1);
                let cur = lv.subrange(0, i as int);
                let hi = (((0xFF00 & parsed_inst) as u16) >> 8) as u8;
                let lo = (0x00FF & parsed_inst) as u8;
                lemma_lines_bytes_split(cur, i - 1);
                assert(cur.subrange(0, i - 1) =~= pre);
                assert(cur.skip(i - 1) =~= seq![lv[i - 1]]);
                assert(seq![lv[i - 1]][0] == lv[i - 1]);
                assert(seq![lv[i - 1]].skip(1) =~= Seq::<Seq<char>>::empty());
                assert(spec_lines_bytes(seq![lv[i - 1]].skip(1)) == Some(Seq::<u8>::empty()));
                assert(seq![hi, lo] + Seq::<u8>::empty() =~= seq![hi, lo]);
                assert(spec_lines_bytes(seq![lv[i - 1]]) == Some(seq![hi, lo]));
                assert(inst_buff@ =~= pre_buff + seq![hi, lo]);
                assert(spec_lines_bytes(cur) == Some(inst_buff@));
            }
        }
        proof {
            assert(lv.subrange(0, n as int) =~= lv);
        }
        let base = load_addr as usize;
        if base > MEMORY_SIZE || MEMORY_SIZE - base < inst_buff.len() {
            return Err(String::from_str("Assembled image runs past the end of memory"));
        }
        let m = inst_buff.len();
        let mut w: usize = 0;
        while w < m
            invariant
                0 <= w <= m,
                m == inst_buff@.len(),
                self.wf(),
                load_addr + m <= MEMORY_SIZE,
                Chip8::eq_static(*old(self), *self),
                Chip8::eq_gfx(*old(self), *self),
                Chip8::eq_timers(*old(self), *self),
                Chip8::eq_ipc_sp(*old(self), *self),
                self.memory@ == spec_overwrite(
                    old(self).memory@,
                    load_addr as int,
                    inst_buff@.subrange(0, w as int),
                ),
            decreases m - w,
        {
            let a = load_addr as usize + w;
            self.memory[a] = inst_buff[w];
            w = w + 1;
            proof {
                assert(self.memory@ =~= spec_overwrite(
                    old(self).memory@,
                    load_addr as int,
                    inst_buff@.subrange(0, w as int),
                ));
            }
        }
        proof {
            assert(inst_buff@.subrange(0, m as int) =~= inst_buff@);
            assert(self.memory@ =~= spec_overwrite(old(self).memory@, load_addr as int, inst_buff@));
        }
        Ok(())
    }

    /// Consume every leading directive block of `text`: parse its directive
    /// lines, assemble its code at the resolved address, and append its
    /// routine record. On failure the machine keeps the blocks already
    /// loaded and the error is surfaced.
    pub fn parse_directives(&mut self, text: &mut String) -> (r: Result<(), String>)
        requires
            old(self).wf(),
        ensures
            final(self).wf(),
            final(self).registers == old(self).registers,
            final(self).stack == old(self).stack,
            final(self).config == old(self).config,
            Chip8::eq_gfx(*old(self), *final(self)),
            Chip8::eq_timers(*old(self), *final(self)),
            Chip8::eq_ipc_sp(*old(self), *final(self)),
            match r {
                Ok(_) => spec_parse_directives(
                    old(self).memory@,
                    old(self).routines@,
                    old(text)@,
                    old(self).config,
                ) == Some((final(self).memory@, final(self).routines@, final(text)@)),
                Err(_) => spec_parse_directives(
                    old(self).memory@,
                    old(self).routines@,
                    old(text)@,
                    old(self).config,
                ) is None,
            },
    {
        loop
            invariant
                self.wf(),
                self.registers == old(self).registers,
                self.stack == old(self).stack,
                self.config == old(self).config,
                Chip8::eq_gfx(*old(self), *self),
                Chip8::eq_timers(*old(self), *self),
                Chip8::eq_ipc_sp(*old(self), *self),
                spec_parse_directives(
                    old(self).memory@,
                    old(self).routines@,
                    old(text)@,
                    old(self).config,
                ) == spec_parse_directives(self.memory@, self.routines@, text@, self.config),
            decreases text@.len(),
        {
            let ghost g_mem = self.memory@;
            let ghost g_rs = self.routines@;
            let ghost g_text = text@;
            let bang = match find_char_in(text.as_str(), '!') {
                None => {
                    return Ok(());
                },
                Some(b) => b,
            };
            if bang != 0 {
                return Err(String::from_str("A directive block must start the text"));
            }
            let blank = match find_double_newline(text.as_str()) {
                None => {
                    return Err(String::from_str("A directive block must end with a blank line"));
                },
                Some(q) => q,
            };
            proof {
                lemma_find_nn_bounds(text@);
            }
            let n = text.as_str().unicode_len();
            let mut block: String = text.as_str().substring_char(0, blank).to_owned();
            let ghost block0 = text@.take(blank as int);
            let ghost init_params = RoutineParams { addr: None, purpose: RoutinePurpose::Ordinary };
            let mut routine_params = RoutineParams { addr: None, purpose: RoutinePurpose::Ordinary };
            loop
                invariant
                    self.wf(),
                    self.memory@ == g_mem,
                    self.routines@ == g_rs,
                    self.registers == old(self).registers,
                    self.stack == old(self).stack,
                    self.config == old(self).config,
                    Chip8::eq_gfx(*old(self), *self),
                    Chip8::eq_timers(*old(self), *self),
                    Chip8::eq_ipc_sp(*old(self), *self),
                    text@ == g_text,
                    spec_parse_directives(
                        old(self).memory@,
                        old(self).routines@,
                        old(text)@,
                        old(self).config,
                    ) == spec_parse_directives(g_mem, g_rs, g_text, self.config),
                    find_char(g_text, '!') == 0,
                    find_nn(g_text) == blank,
                    0 <= blank,
                    blank + 2 <= g_text.len(),
                    n == g_text.len(),
                    block0 == g_text.take(blank as int),
                    init_params == (RoutineParams { addr: None, purpose: RoutinePurpose::Ordinary }),
                    spec_block(block0, init_params) == spec_block(block@, routine_params),
                ensures
                    self.wf(),
                    self.memory@ == g_mem,
                    self.routines@ == g_rs,
                    self.registers == old(self).registers,
                    self.stack == old(self).stack,
                    self.config == old(self).config,
                    Chip8::eq_gfx(*old(self), *self),
                    Chip8::eq_timers(*old(self), *self),
                    Chip8::eq_ipc_sp(*old(self), *self),
                    text@ == g_text,
                    n == g_text.len(),
                    find_char(g_text, '!') == 0,
                    find_nn(g_text) == blank,
                    0 <= blank,
                    blank + 2 <= g_text.len(),
                    block0 == g_text.take(blank as int),
                    init_params == (RoutineParams { addr: None, purpose: RoutinePurpose::Ordinary }),
                    spec_block(block0, init_params) == Some((routine_params, block@)),
                decreases block@.len(),
            {
                let d = match find_char_in(block.as_str(), '!') {
                    None => {
                        break ;
                    },
                    Some(d) => d,
                };
                if d != 0 {
                    proof {
                        assert(spec_block(block@, routine_params) is None);
                        lemma_directives_block_none(g_mem, g_rs, g_text, self.config, blank as int);
                    }
                    return Err(String::from_str("A directive must start its line in the block"));
                }
                let nl = match find_char_in(block.as_str(), '\n') {
                    None => {
                        proof {
                            assert(spec_block(block@, routine_params) is None);
                            lemma_directives_block_none(
                                g_mem,
                                g_rs,
                                g_text,
                                self.config,
                                blank as int,
                            );
                        }
                        return Err(
                            String::from_str("A directive block may not end with a directive"),
                        );
                    },
                    Some(x) => x,
                };
                proof {
                    lemma_find_char_bounds(block@, '\n');
                }
                let dir_line: String = block.as_str().substring_char(0, nl).to_owned();
                let ghost g_block = block@;
                let ghost g_params = routine_params;
                match self.parse_specific_directive(&dir_line, &mut routine_params) {
                    Ok(_) => {},
                    Err(e) => {
                        proof {
                            assert(dir_line@ == g_block.take(nl as int));
                            assert(spec_block(g_block, g_params) is None);
                            lemma_directives_block_none(
                                g_mem,
                                g_rs,
                                g_text,
                                self.config,
                                blank as int,
                            );
                        }
                        return Err(e);
                    },
                }
                let bn = block.as_str().unicode_len();
                let rest: String = block.as_str().substring_char(nl + 1, bn).to_owned();
                block = rest;
                proof {
                    assert(g_block.skip(nl + 1) =~= block@);
                    assert(spec_block(g_block, g_params) == spec_block(block@, routine_params));
                }
            }
            // the block now holds only routine code; place it
            let base = match routine_params.addr {
                Some(a) => a,
                None => self.config.rti_default_addr,
            };
            match self.load_routine_text(block.as_str(), base) {
                Ok(_) => {},
                Err(e) => {
                    proof {
                        assert(spec_load_routine_at(g_mem, block@, base as int) is None);
                        lemma_directives_block_none(g_mem, g_rs, g_text, self.config, blank as int);
                    }
                    return Err(e);
                },
            }
            let ghost g_mem2 = self.memory@;
            self.routines.push(routine_params);
            // remove the block and its closing blank line
            let rest_text: String = text.as_str().substring_char(blank + 2, n).to_owned();
            *text = rest_text;
            proof {
                assert(text@ =~= g_text.skip(blank + 2));
                lemma_directives_step(
                    g_mem,
                    g_rs,
                    g_text,
                    self.config,
                    blank as int,
                    routine_params,
                    block@,
                    g_mem2,
                );
                assert(spec_parse_directives(g_mem, g_rs, g_text, self.config)
                    == spec_parse_directives(self.memory@, self.routines@, text@, self.config));
            }
        }
    }

    /// Load a program: the main program's text is preprocessed, stripped of
    /// its directive blocks, and assembled at the program base address; a
    /// routine's text is assembled at the given address, or the configured
    /// default when none is given.
    pub fn load_program(&mut self, kind: ProgramType) -> (r: Result<(), String>)
        requires
            old(self).wf(),
            match kind {
                ProgramType::Main(t) => spec_hex_wf(t@),
                ProgramType::Routine(_) => true,
            },
        ensures
            final(self).wf(),
            final(self).registers == old(self).registers,
            final(self).stack == old(self).stack,
            final(self).config == old(self).config,
            Chip8::eq_gfx(*old(self), *final(self)),
            Chip8::eq_timers(*old(self), *final(self)),
            Chip8::eq_ipc_sp(*old(self), *final(self)),
            match kind {
                ProgramType::Main(t) => {
                    let res = spec_load_main(
                        old(self).memory@,
                        old(self).routines@,
                        t@,
                        old(self).config,
                    );
                    match r {
                        Ok(_) => res == Some((final(self).memory@, final(self).routines@)),
                        Err(_) => res is None,
                    }
                },
                ProgramType::Routine(ta) => {
                    let res = spec_load_routine_at(
                        old(self).memory@,
                        ta.0@,
                        spec_resolve_addr(ta.1, old(self).config) as int,
                    );
                    &&& final(self).routines == old(self).routines
                    &&& match r {
                        Ok(_) => res == Some(final(self).memory@),
                        Err(_) => res is None && Chip8::eq_memory(*old(self), *final(self)),
                    }
                },
            },
    {
        match kind {
            ProgramType::Main(file_text) => {
                let mut temp: String = file_text.to_owned();
                self.hex_2_dec(&mut temp);
                match self.parse_directives(&mut temp) {
                    Ok(_) => {},
                    Err(e) => {
                        return Err(e);
                    },
                }
                let base = self.config.program_init;
                self.load_routine_text(temp.as_str(), base)
            },
            ProgramType::Routine((code, rt_addr)) => {
                let load_addr = match rt_addr {
                    Some(addr) => addr,
                    None => self.config.rti_default_addr,
                };
                self.load_routine_text(code.as_str(), load_addr)
            },
        }
    }

    /// Fetch, decode, execute, then poll the timer slots: delay first, then
    /// sound, with the sound expiry suppressed (and left pending) in a cycle
    /// where the delay handler already fired. The sentinel opcode ends the
    /// program with status 0; an invalid opcode, a failing handler, or a
    /// timer handler call that overflows the stack ends the cycle with
    /// status 1.
    pub fn execute_cycle(&mut self) -> (r: Result<(), EopError>)
        requires
            old(self).wf(),
            old(self).pc + 1 < MEMORY_SIZE,
        ensures
            final(self).wf(),
            spec_cycle(*old(self), *final(self), r),
    {
        // Fetch next opcode
        let next_opcode: u16 = ((self.memory[self.pc as usize] as u16) << 8) | self.memory[self.pc
            as usize + 1] as u16;

        // Decode opcode
        if next_opcode == self.config.eop_opt_code {
            return Err(EopError { status: 0 });
        }
        // special operations, then dispatch on the top nibble
        let fetched_op: Option<Operation> = if next_opcode == 0x00EE {
            Some(Operation::OpRet(Ret {}))
        } else if next_opcode == 0x00E0 {
            Some(Operation::OpCls(Cls {}))
        } else {
            OperationTab::fetch_operation((0xF0 & (next_opcode >> 8)) as u8)
        };
        let operation = match fetched_op {
            Some(o) => o,
            None => {
                return Err(EopError { status: 1 });
            },
        };

        let nibble: u8 = (0x000F & next_opcode) as u8;  // operation code (if it has one)
        let addr: u16 = 0x0FFF & next_opcode;
        let constant: u8 = (0x00FF & next_opcode) as u8;
        let rx: u8 = (0x0F & (next_opcode >> 8)) as u8;
        let ry: u8 = (0x0F & (next_opcode >> 4)) as u8;

        let opt_specs = OperationSpecs { nibble, addr, constant, rx, ry };
        proof {
            assert((0x000F & next_opcode) < 16 && (0x0FFF & next_opcode) < 0x1000 && (0x0F
                & (next_opcode >> 8)) < 16 && (0x0F & (next_opcode >> 4)) < 16) by (bit_vector);
            assert(opt_specs == spec_decode(next_opcode));
        }

        // Execute the retrieved operation with the chip's parameters
        let res = operation.execute(opt_specs, self);
        let ghost g_mid = *self;
        let ghost g_res = res;
        match res {
            Ok(()) => {},
            Err(_) => {
                proof {
                    assert(operation.ens(opt_specs, *old(self), g_mid, g_res));
                }
                return Err(EopError { status: 1 });
            },
        }

        // Update timers: delay first, then sound; at most one handler call
        // fires per cycle.
        let mut delay_t_called = false;
        match self.delay_timer {
            Some(t) => {
                if t.timer == 0 {
                    // dispatch setter subroutine
                    self.delay_timer = None;
                    match self.call_subroutine(t.rti) {
                        Ok(()) => {
                            delay_t_called = true;
                        },
                        Err(_) => {
                            proof {
                                assert(operation.ens(opt_specs, *old(self), g_mid, g_res));
                            }
                            return Err(EopError { status: 1 });
                        },
                    }
                }
            },
            None => {},
        }

        let ghost g_mid2 = *self;
        match self.sound_timer {
            // the sound timer fires only when the delay timer has not
            Some(t) => {
                if t.timer == 0 && !delay_t_called {
                    self.sound_timer = None;
                    match self.call_subroutine(t.rti) {
                        Ok(()) => {},
                        Err(_) => {
                            proof {
                                assert(operation.ens(opt_specs, *old(self), g_mid, g_res));
                                assert(spec_push_pc(
                                    Chip8 { delay_timer: None, ..g_mid },
                                    g_mid2,
                                    match g_mid.delay_timer {
                                        Some(t) => t.rti,
                                        None => 0u16,
                                    },
                                ) || g_mid2 == g_mid);
                            }
                            return Err(EopError { status: 1 });
                        },
                    }
                }
            },
            None => {},
        }

        proof {
            assert(operation.ens(opt_specs, *old(self), g_mid, g_res));
        }
        Ok(())
    }
}

/// The sound-timer half of the end-of-cycle poll: fires only when its count
/// is spent and the delay handler has not fired this cycle; otherwise the
/// device stays in place, a spent one left pending for the next cycle.
pub open spec fn spec_sound_phase(
    m: Chip8,
    post: Chip8,
    r: Result<(), EopError>,
    delay_called: bool,
) -> bool {
    match m.sound_timer {
        Some(t) => {
            if t.timer == 0 && !delay_called {
                if m.sp == 16 {
                    r == Err::<(), EopError>(EopError { status: 1 }) && post == (Chip8 {
                        sound_timer: None,
                        ..m
                    })
                } else {
                    r == Ok::<(), EopError>(()) && spec_push_pc(
                        Chip8 { sound_timer: None, ..m },
                        post,
                        t.rti,
                    )
                }
            } else {
                r == Ok::<(), EopError>(()) && post == m
            }
        },
        None => r == Ok::<(), EopError>(()) && post == m,
    }
}

/// The end-of-cycle timer poll: a spent delay device is consumed and its
/// handler called (a normal stack push), then the sound slot is polled. A
/// handler call that would overflow the stack fails the cycle with the
/// device already consumed.
pub open spec fn spec_timer_phase(mid: Chip8, post: Chip8, r: Result<(), EopError>) -> bool {
    match mid.delay_timer {
        Some(t) => {
            if t.timer == 0 {
                if mid.sp == 16 {
                    r == Err::<(), EopError>(EopError { status: 1 }) && post == (Chip8 {
                        delay_timer: None,
                        ..mid
                    })
                } else {
                    exists|mid2: Chip8|
                        {
                            &&& #[trigger] spec_push_pc(
                                Chip8 { delay_timer: None, ..mid },
                                mid2,
                                t.rti,
                            )
                            &&& spec_sound_phase(mid2, post, r, true)
                        }
                }
            } else {
                spec_sound_phase(mid, post, r, false)
            }
        },
        None => spec_sound_phase(mid, post, r, false),
    }
}

/// One whole cycle. The sentinel word ends the program (status 0) with the
/// machine untouched; an opcode without a handler fails (status 1) with the
/// machine untouched; otherwise the dispatched handler's own contract
/// relates the machine before and after, and on success the timer poll
/// follows.
pub open spec fn spec_cycle(pre: Chip8, post: Chip8, r: Result<(), EopError>) -> bool {
    let op = pre.fetched();
    if op == pre.config.eop_opt_code {
        r == Err::<(), EopError>(EopError { status: 0 }) && post == pre
    } else {
        match spec_dispatch(op) {
            None => r == Err::<(), EopError>(EopError { status: 1 }) && post == pre,
            Some(h) => exists|mid: Chip8, or: Result<(), String>|
                {
                    &&& #[trigger] h.ens(spec_decode(op), pre, mid, or)
                    &&& match or {
                        Ok(_) => spec_timer_phase(mid, post, r),
                        Err(_) => r == Err::<(), EopError>(EopError { status: 1 }) && post == mid,
                    }
                },
        }
    }
}

} // verus!
