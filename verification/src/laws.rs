//! The system's cross-cutting guarantees, each proved from the public
//! contracts alone: how `PC` moves in an ordinary cycle, what register loads
//! and adds leave behind, that sprite compositing is its own inverse, that a
//! call and its return cancel, that a cycle fires at most one timer handler,
//! and that the hexadecimal preprocessor leaves plain text alone.

use vstd::prelude::*;

use crate::bits::{
    byte_of, drw_collision, drw_val, lemma_byte_of_row_val, lemma_drw_self_inverse,
    lemma_row_val_of_bytes, row_val, sprite_at,
};
use crate::chip8::{
    spec_cycle, spec_encode_tokens, spec_push_pc, spec_timer_phase, word_at, Chip8, EopError,
};
use crate::operations_set::operations_table::{ens_ret, spec_decode, OperationSpecs};
use crate::operations_set::opt_6::ens_opt6;
use crate::operations_set::opt_7::ens_opt7;
use crate::text::{
    dec_digits_of, hex_digit_char, hex_rewrite, lemma_dec_digits_of, lemma_hex_digit_char,
    no_hex_prefix, strip_char,
};

verus! {

broadcast use vstd::string::group_string_axioms;

/// A register read after `LD Vx, k` gives back exactly `k`, for every
/// register index and every constant; `PC` falls through and every other
/// memory byte — the other registers included — is untouched.
pub proof fn lemma_load_then_read(specs: OperationSpecs, pre: Chip8, post: Chip8, r: Result<
    (),
    String,
>)
    requires
        pre.wf(),
        specs.rx < 16,
        ens_opt6(specs, pre, post, r),
    ensures
        r is Ok,
        post.spec_reg(specs.rx as int) == specs.constant,
        post.pc == pre.pc + 2,
        forall|a: int|
            0 <= a < pre.memory@.len() && a != pre.reg_addr(specs.rx as int)
                ==> #[trigger] post.memory@[a] == pre.memory@[a],
{
}

/// `ADD Vx, k` then a register read gives `(Vx + k) mod 256`, for every
/// register index, every starting value and every constant; no flag bit
/// changes (unless `Vx` is the flag register itself), `PC` falls through,
/// and every other memory byte is untouched.
pub proof fn lemma_add_then_read(specs: OperationSpecs, pre: Chip8, post: Chip8, r: Result<
    (),
    String,
>)
    requires
        pre.wf(),
        specs.rx < 16,
        ens_opt7(specs, pre, post, r),
    ensures
        r is Ok,
        post.spec_reg(specs.rx as int) == (pre.spec_reg(specs.rx as int) + specs.constant) % 256,
        post.pc == pre.pc + 2,
        forall|a: int|
            0 <= a < pre.memory@.len() && a != pre.reg_addr(specs.rx as int)
                ==> #[trigger] post.memory@[a] == pre.memory@[a],
        specs.rx != 15 ==> post.spec_reg(15) == pre.spec_reg(15),
{
}

/// Compositing the same sprite twice at the same position restores the
/// original row, for every sprite, column and row: XOR is its own inverse.
/// And whenever the first pass lit some pixel, the second pass erases it and
/// so reports a collision.
pub proof fn lemma_sprite_xor_involution(row: Seq<u8>, col: u64, sprite: u8)
    requires
        row.len() == 8,
    ensures
        ({
            let once = Seq::new(8, |k: int| byte_of(drw_val(row_val(row), col, sprite), k));
            let twice = Seq::new(8, |k: int| byte_of(drw_val(row_val(once), col, sprite), k));
            twice == row
        }),
        row_val(row) & sprite_at(sprite, col) != sprite_at(sprite, col) ==> drw_collision(
            drw_val(row_val(row), col, sprite),
            col,
            sprite,
        ),
{
    let v = row_val(row);
    let d1 = drw_val(v, col, sprite);
    let once = Seq::new(8, |k: int| byte_of(d1, k));
    lemma_row_val_of_bytes(d1);
    lemma_drw_self_inverse(v, col, sprite);
    lemma_byte_of_row_val(row);
    let twice = Seq::new(8, |k: int| byte_of(drw_val(row_val(once), col, sprite), k));
    assert(twice =~= row);
}

/// A stack push followed by its matching pop restores `PC` to the saved
/// value plus two, for every stack depth up to 15: control resumes at the
/// instruction after the call.
pub proof fn lemma_stack_round_trip(
    pre: Chip8,
    mid: Chip8,
    post: Chip8,
    addr: u16,
    r: Result<(), String>,
)
    requires
        pre.wf(),
        pre.sp <= 15,
        pre.pc + 2 <= u16::MAX,
        spec_push_pc(pre, mid, addr),
        ens_ret(mid, post, r),
    ensures
        r is Ok,
        post.pc == pre.pc + 2,
        post.sp == pre.sp,
{
    let slot = pre.stack_addr(pre.sp as int);
    let hi = ((pre.pc >> 8) & 0xFF) as u8;
    let lo = (pre.pc & 0xFF) as u8;
    assert(mid.memory@[slot] == hi && mid.memory@[slot + 1] == lo);
    let popped = word_at(mid.memory@, mid.stack_addr(mid.sp - 1));
    assert(mid.stack_addr(mid.sp - 1) == slot);
    let pc = pre.pc;
    assert((((((pc >> 8) & 0xFF) as u8) as u16) << 8) | (((pc & 0xFF) as u8) as u16) == pc)
        by (bit_vector);
    assert(popped == pre.pc);
}

/// The delay and sound slots together emit at most one handler call per
/// cycle: the stack pointer moves up by at most one slot during the timer
/// poll, and a sound expiry suppressed by a delay expiry stays pending.
pub proof fn lemma_at_most_one_timer_call(mid: Chip8, post: Chip8, r: Result<(), EopError>)
    requires
        spec_timer_phase(mid, post, r),
    ensures
        post.sp <= mid.sp + 1,
        (match (mid.delay_timer, mid.sound_timer) {
            (Some(d), Some(s)) => d.timer == 0 && s.timer == 0 && r is Ok ==> post.sound_timer
                == mid.sound_timer,
            _ => true,
        }),
{
    match mid.delay_timer {
        Some(t) => {
            if t.timer == 0 && mid.sp < 16 {
                let dropped = Chip8 { delay_timer: None, ..mid };
                let mid2 = choose|mid2: Chip8|
                    #[trigger] spec_push_pc(dropped, mid2, t.rti) && crate::chip8::spec_sound_phase(
                        mid2,
                        post,
                        r,
                        true,
                    );
                assert(mid2.sp == mid.sp + 1);
                assert(post == mid2);
            }
        },
        None => {},
    }
}

/// Rewriting hexadecimal literals leaves text without a `0x` prefix alone,
/// so the preprocessing is idempotent on such text.
pub proof fn lemma_hex_rewrite_identity(s: Seq<char>)
    requires
        no_hex_prefix(s),
    ensures
        hex_rewrite(s) == s,
        hex_rewrite(hex_rewrite(s)) == hex_rewrite(s),
    decreases s.len(),
{
    if s.len() == 0 {
        assert(hex_rewrite(s) =~= s);
    } else {
        assert(s.len() >= 2 ==> !(s[0] == '0' && s[1] == 'x'));
        assert forall|i: int| 0 <= i < s.skip(1).len() - 1 implies !(#[trigger] s.skip(1)[i] == '0'
            && s.skip(1)[i + 1] == 'x') by {
            assert(s.skip(1)[i] == s[i + 1] && s.skip(1)[i + 1] == s[i + 2]);
        }
        lemma_hex_rewrite_identity(s.skip(1));
        assert(seq![s[0]] + s.skip(1) =~= s);
    }
}

/// The opcodes that fall through to the next instruction: everything but
/// the jumps, calls, returns and conditional skips.
pub open spec fn plain_opcode(op: u16) -> bool {
    ||| op == 0x00E0
    ||| (op >> 12) == 6
    ||| (op >> 12) == 7
    ||| (op >> 12) == 8
    ||| (op >> 12) == 0xA
    ||| (op >> 12) == 0xC
    ||| (op >> 12) == 0xD
    ||| (op >> 12) == 0xF
}

/// Whether a conditional skip at the fetched opcode takes its branch.
pub open spec fn spec_skip_taken(pre: Chip8, op: u16) -> bool {
    {
        let specs = spec_decode(op);
        if (op >> 12) == 3 {
            pre.spec_reg(specs.rx as int) == specs.constant
        } else if (op >> 12) == 4 {
            pre.spec_reg(specs.rx as int) != specs.constant
        } else if (op >> 12) == 5 {
            pre.spec_reg(specs.rx as int) == pre.spec_reg(specs.ry as int)
        } else {
            pre.spec_reg(specs.rx as int) != pre.spec_reg(specs.ry as int)
        }
    }
}

/// Exactly one `PC` advancement per successful cycle, for every opcode that
/// does not set `PC` by its own contract: the plain opcodes, and the
/// conditional skips whose branch is not taken. Jumps, calls, returns and
/// taken skips place `PC` themselves, and a firing timer handler does too,
/// so the law asks that no slot holds a spent device and that a timer load
/// does not load a zero count.
pub proof fn lemma_single_pc_advance(pre: Chip8, post: Chip8)
    requires
        pre.wf(),
        pre.pc + 2 <= u16::MAX,
        spec_cycle(pre, post, Ok(())),
        plain_opcode(pre.fetched()) || ((((pre.fetched() >> 12) == 3 || (pre.fetched() >> 12) == 4
            || (pre.fetched() >> 12) == 5 || (pre.fetched() >> 12) == 9) && !spec_skip_taken(
            pre,
            pre.fetched(),
        ))),
        match pre.delay_timer {
            Some(t) => t.timer != 0,
            None => true,
        },
        match pre.sound_timer {
            Some(t) => t.timer != 0,
            None => true,
        },
        (pre.fetched() >> 12) == 0xF && (pre.fetched() & 0xFF) == 0x15 ==> pre.spec_reg(
            spec_decode(pre.fetched()).rx as int,
        ) != 0,
        (pre.fetched() >> 12) == 0xF && (pre.fetched() & 0xFF) == 0x18 ==> pre.spec_reg(
            spec_decode(pre.fetched()).rx as int,
        ) != 0,
    ensures
        post.pc == pre.pc + 2,
{
    let op = pre.fetched();
    assert(op != pre.config.eop_opt_code);
    assert((op >> 12 == 6 ==> (0xF0 & (op >> 8)) == 0x60 && op != 0x00EE && op != 0x00E0) && (op
        >> 12 == 7 ==> (0xF0 & (op >> 8)) == 0x70 && op != 0x00EE && op != 0x00E0) && (op >> 12
        == 8 ==> (0xF0 & (op >> 8)) == 0x80 && op != 0x00EE && op != 0x00E0) && (op >> 12 == 0xA
        ==> (0xF0 & (op >> 8)) == 0xA0 && op != 0x00EE && op != 0x00E0) && (op >> 12 == 0xC ==> (
    0xF0 & (op >> 8)) == 0xC0 && op != 0x00EE && op != 0x00E0) && (op >> 12 == 0xD ==> (0xF0 & (op
        >> 8)) == 0xD0 && op != 0x00EE && op != 0x00E0) && (op >> 12 == 0xF ==> (0xF0 & (op >> 8))
        == 0xF0 && op != 0x00EE && op != 0x00E0) && (op >> 12 == 3 ==> (0xF0 & (op >> 8)) == 0x30
        && op != 0x00EE && op != 0x00E0) && (op >> 12 == 4 ==> (0xF0 & (op >> 8)) == 0x40 && op
        != 0x00EE && op != 0x00E0) && (op >> 12 == 5 ==> (0xF0 & (op >> 8)) == 0x50 && op
        != 0x00EE && op != 0x00E0) && (op >> 12 == 9 ==> (0xF0 & (op >> 8)) == 0x90 && op
        != 0x00EE && op != 0x00E0) && ((0x00FF & op) as u8 == (op & 0xFF) as u8)
        && (((op & 0xFF) == 0x15) <==> ((0x00FF & op) as u8 == 0x15)) && (((op & 0xFF) == 0x18)
        <==> ((0x00FF & op) as u8 == 0x18)) && ((0x0F & (op >> 8)) as u8 == ((op >> 8) & 0x0F)
        as u8)) by (bit_vector);
    let h = crate::operations_set::operations_table::spec_dispatch(op)->Some_0;
    let (mid, or) = choose|mid: Chip8, or: Result<(), String>|
        #[trigger] h.ens(spec_decode(op), pre, mid, or) && (match or {
            Ok(_) => spec_timer_phase(mid, post, Ok(())),
            Err(_) => Ok::<(), EopError>(()) == Err::<(), EopError>(EopError { status: 1 })
                && post == mid,
        });
    assert(or is Ok);
    let specs = spec_decode(op);
    if op == 0x00E0 {
        assert(crate::operations_set::operations_table::ens_cls(pre, mid, or));
    } else if op >> 12 == 6 {
        assert(ens_opt6(specs, pre, mid, or));
    } else if op >> 12 == 7 {
        assert(ens_opt7(specs, pre, mid, or));
    } else if op >> 12 == 8 {
        assert(crate::operations_set::opt_8::ens_opt8_select(specs, pre, mid, Some(())));
        let k = specs.nibble;
        if k == 0 {
        } else if k == 1 {
        } else if k == 2 {
        } else if k == 3 {
        } else if k == 4 {
        } else if k == 5 {
        } else if k == 6 {
        } else if k == 7 {
        } else {
            assert(k == 0x0E);
        }
    } else if op >> 12 == 3 {
        assert(crate::operations_set::opt_3::ens_opt3(specs, pre, mid, or));
    } else if op >> 12 == 4 {
        assert(crate::operations_set::opt_4::ens_opt4(specs, pre, mid, or));
    } else if op >> 12 == 5 {
        assert(crate::operations_set::opt_5::ens_opt5(specs, pre, mid, or));
    } else if op >> 12 == 9 {
        assert(crate::operations_set::opt_9::ens_opt9(specs, pre, mid, or));
    } else if op >> 12 == 0xA {
        assert(crate::operations_set::opt_a::ens_opta(specs, pre, mid, or));
    } else if op >> 12 == 0xC {
        assert(crate::operations_set::opt_c::ens_optc(specs, pre, mid, or));
    } else if op >> 12 == 0xD {
        assert(crate::operations_set::opt_d::ens_optd(specs, pre, mid, or));
    } else {
        assert(op >> 12 == 0xF);
        assert(crate::operations_set::opt_f::ens_optf_select(specs, pre, mid, Some(())));
        if specs.constant == 0x15 {
            assert(crate::operations_set::opt_f::ens_optf_x15(specs, pre, mid));
        } else if specs.constant == 0x18 {
            assert(crate::operations_set::opt_f::ens_optf_x18(specs, pre, mid));
        } else {
            assert(specs.constant == 0x55);
            assert(crate::operations_set::opt_f::ens_optf_x55(specs, pre, mid, true));
        }
    }
    assert(mid.pc == pre.pc + 2);
    match mid.delay_timer {
        Some(t) => {
            assert(t.timer != 0);
        },
        None => {},
    }
    match mid.sound_timer {
        Some(t) => {
            assert(t.timer != 0);
        },
        None => {},
    }
    assert(post == mid);
}

/// The opcode words the disassembler covers: the register-to-register group,
/// the sprite blit, and the two special instructions.
pub open spec fn covered_opcode(op: u16) -> bool {
    ||| op == 0x00EE
    ||| op == 0x00E0
    ||| ((op >> 12) == 8 && ((op & 0xF) <= 7 || (op & 0xF) == 0xE))
    ||| (op >> 12) == 0xD
}

/// Canonical token lines for a covered opcode word.
pub open spec fn spec_disassemble(op: u16) -> Seq<Seq<char>> {
    if op == 0x00EE {
        seq!["RET"@]
    } else if op == 0x00E0 {
        seq!["CLS"@]
    } else {
        {
            let vx = seq!['V', hex_digit_char(((op >> 8) & 0xF) as int), ','];
            let vy = seq!['V', hex_digit_char(((op >> 4) & 0xF) as int)];
            if (op >> 12) == 8 {
                {
                    let nib = op & 0xF;
                    let mnem: Seq<char> = if nib == 0 {
                        "LD"@
                    } else if nib == 1 {
                        "OR"@
                    } else if nib == 2 {
                        "AND"@
                    } else if nib == 3 {
                        "XOR"@
                    } else if nib == 4 {
                        "ADD"@
                    } else if nib == 5 {
                        "SUB"@
                    } else if nib == 6 {
                        "SHR"@
                    } else if nib == 7 {
                        "SUBN"@
                    } else {
                        "SHL"@
                    };
                    seq![mnem, vx, vy]
                }
            } else if (op >> 12) == 0xD {
                seq![
                    "DRW"@,
                    vx,
                    seq!['V', hex_digit_char(((op >> 4) & 0xF) as int), ','],
                    dec_digits_of((op & 0xF) as int),
                ]
            } else {
                Seq::empty()
            }
        }
    }
}

proof fn lemma_strip_reg_token(c: char)
    requires
        c != ',',
    ensures
        strip_char(seq!['V', c, ','], ',') == seq!['V', c],
        strip_char(seq!['V', c], ',') == seq!['V', c],
{
    reveal_with_fuel(strip_char, 5);
    let t3 = seq!['V', c, ','];
    let t2 = seq!['V', c];
    let t1 = seq!['V'];
    assert(t3.drop_last() =~= t2);
    assert(t2.drop_last() =~= t1);
    assert(t1.drop_last() =~= Seq::<char>::empty());
    assert(strip_char(t1, ',') =~= t1);
    assert(strip_char(t2, ',') =~= t2);
    assert(strip_char(t3, ',') =~= t2);
}

/// Disassembling a covered opcode gives source that assembles back to the
/// very same opcode word.
pub proof fn lemma_disassemble_round_trip(op: u16)
    requires
        covered_opcode(op),
    ensures
        spec_encode_tokens(spec_disassemble(op)) == Some(op),
{
    reveal_strlit("LD");
    reveal_strlit("OR");
    reveal_strlit("AND");
    reveal_strlit("XOR");
    reveal_strlit("ADD");
    reveal_strlit("SUB");
    reveal_strlit("SHR");
    reveal_strlit("SUBN");
    reveal_strlit("SHL");
    reveal_strlit("DRW");
    reveal_strlit("JP");
    reveal_strlit("CALL");
    reveal_strlit("SE");
    reveal_strlit("SNE");
    reveal_strlit("RET");
    reveal_strlit("CLS");
    reveal_strlit("I");
    reveal_strlit("DT");
    reveal_strlit("ST");
    lemma_mnemonics_distinct();
    let toks = spec_disassemble(op);
    if op == 0x00EE {
        assert(spec_encode_tokens(toks) == Some(0x00EEu16));
    } else if op == 0x00E0 {
        assert(spec_encode_tokens(toks) == Some(0x00E0u16));
    } else {
        let xx = (op >> 8) & 0xF;
        let yy = (op >> 4) & 0xF;
        let hx = hex_digit_char(xx as int);
        let hy = hex_digit_char(yy as int);
        assert(xx < 16 && yy < 16) by (bit_vector)
            requires
                xx == (op >> 8) & 0xF,
                yy == (op >> 4) & 0xF,
        ;
        lemma_hex_digit_char(xx as int);
        lemma_hex_digit_char(yy as int);
        lemma_strip_reg_token(hx);
        lemma_strip_reg_token(hy);
        let vx = seq!['V', hx, ','];
        let vy = seq!['V', hy];
        if (op >> 12) == 8 {
            let nib = op & 0xF;
            assert(nib <= 7 || nib == 0xE);
            assert((op >> 12 == 8 && nib == 0) ==> 0x8000u16 | (xx << 8) | (yy << 4) == op)
                by (bit_vector)
                requires
                    nib == op & 0xF,
                    xx == (op >> 8) & 0xF,
                    yy == (op >> 4) & 0xF,
            ;
            assert((op >> 12 == 8 && nib == 1) ==> 0x8001u16 | (xx << 8) | (yy << 4) == op)
                by (bit_vector)
                requires
                    nib == op & 0xF,
                    xx == (op >> 8) & 0xF,
                    yy == (op >> 4) & 0xF,
            ;
            assert((op >> 12 == 8 && nib == 2) ==> 0x8002u16 | (xx << 8) | (yy << 4) == op)
                by (bit_vector)
                requires
                    nib == op & 0xF,
                    xx == (op >> 8) & 0xF,
                    yy == (op >> 4) & 0xF,
            ;
            assert((op >> 12 == 8 && nib == 3) ==> 0x8003u16 | (xx << 8) | (yy << 4) == op)
                by (bit_vector)
                requires
                    nib == op & 0xF,
                    xx == (op >> 8) & 0xF,
                    yy == (op >> 4) & 0xF,
            ;
            assert((op >> 12 == 8 && nib == 4) ==> 0x8004u16 | (xx << 8) | (yy << 4) == op)
                by (bit_vector)
                requires
                    nib == op & 0xF,
                    xx == (op >> 8) & 0xF,
                    yy == (op >> 4) & 0xF,
            ;
            assert((op >> 12 == 8 && nib == 5) ==> 0x8005u16 | (xx << 8) | (yy << 4) == op)
                by (bit_vector)
                requires
                    nib == op & 0xF,
                    xx == (op >> 8) & 0xF,
                    yy == (op >> 4) & 0xF,
            ;
            assert((op >> 12 == 8 && nib == 6) ==> 0x8006u16 | (xx << 8) | (yy << 4) == op)
                by (bit_vector)
                requires
                    nib == op & 0xF,
                    xx == (op >> 8) & 0xF,
                    yy == (op >> 4) & 0xF,
            ;
            assert((op >> 12 == 8 && nib == 7) ==> 0x8007u16 | (xx << 8) | (yy << 4) == op)
                by (bit_vector)
                requires
                    nib == op & 0xF,
                    xx == (op >> 8) & 0xF,
                    yy == (op >> 4) & 0xF,
            ;
            assert((op >> 12 == 8 && nib == 0xE) ==> 0x800Eu16 | (xx << 8) | (yy << 4) == op)
                by (bit_vector)
                requires
                    nib == op & 0xF,
                    xx == (op >> 8) & 0xF,
                    yy == (op >> 4) & 0xF,
            ;
        } else {
            assert((op >> 12) == 0xD);
            let n = op & 0xF;
            assert(n <= 15) by (bit_vector)
                requires
                    n == op & 0xF,
            ;
            lemma_dec_digits_of(n as int);
            assert((0x000F & n) == n && 0xD000u16 | (xx << 8) | (yy << 4) | (0x000F & n) == op)
                by (bit_vector)
                requires
                    (op >> 12) == 0xD,
                    n == op & 0xF,
                    xx == (op >> 8) & 0xF,
                    yy == (op >> 4) & 0xF,
            ;
        }
    }
}

/// Assembling a covered mnemonic line and disassembling the resulting word
/// yields source that is semantically equivalent to the original line: it
/// assembles to the same opcode word.
pub proof fn lemma_assemble_then_disassemble(toks: Seq<Seq<char>>, op: u16)
    requires
        spec_encode_tokens(toks) == Some(op),
        toks.len() >= 1,
        ({
            let clean = if toks.len() > 1 {
                strip_char(toks[1], ',')
            } else {
                Seq::<char>::empty()
            };
            ||| toks[0] == "OR"@
            ||| toks[0] == "AND"@
            ||| toks[0] == "XOR"@
            ||| toks[0] == "SUB"@
            ||| toks[0] == "SHR"@
            ||| toks[0] == "SUBN"@
            ||| toks[0] == "SHL"@
            ||| toks[0] == "DRW"@
            ||| toks[0] == "RET"@
            ||| toks[0] == "CLS"@
            ||| ((toks[0] == "LD"@ || toks[0] == "ADD"@) && toks.len() >= 3 && toks[2].len() > 0
                && toks[2][0] == 'V' && clean != "I"@ && clean != "DT"@ && clean != "ST"@)
        }),
    ensures
        covered_opcode(op),
        spec_encode_tokens(spec_disassemble(op)) == Some(op),
{
    reveal_strlit("LD");
    reveal_strlit("OR");
    reveal_strlit("AND");
    reveal_strlit("XOR");
    reveal_strlit("ADD");
    reveal_strlit("SUB");
    reveal_strlit("SHR");
    reveal_strlit("SUBN");
    reveal_strlit("SHL");
    reveal_strlit("DRW");
    reveal_strlit("JP");
    reveal_strlit("CALL");
    reveal_strlit("SE");
    reveal_strlit("SNE");
    reveal_strlit("RET");
    reveal_strlit("CLS");
    reveal_strlit("I");
    reveal_strlit("DT");
    reveal_strlit("ST");
    lemma_mnemonics_distinct();
    if toks[0] == "RET"@ {
        assert(covered_opcode(op));
    } else if toks[0] == "CLS"@ {
        assert(covered_opcode(op));
    } else if toks[0] == "DRW"@ {
        let clean = strip_char(toks[1], ',');
        let clean2 = strip_char(toks[2], ',');
        match crate::chip8::spec_reg_pair(clean, clean2) {
            Some(p) => {
                let x = p.0;
                let y = p.1;
                match crate::text::spec_parse_u16_dec(toks[3]) {
                    Some(nv) => {
                        assert(x < 16 && y < 16);
                        assert((0xD000u16 | (x << 8) | (y << 4) | (0x000F & nv)) >> 12 == 0xD)
                            by (bit_vector)
                            requires
                                x < 16 && y < 16,
                        ;
                    },
                    None => {},
                }
            },
            None => {},
        }
    } else {
        // a register-to-register form
        let clean = strip_char(toks[1], ',');
        match crate::chip8::spec_reg_pair(clean, toks[2]) {
            Some(p) => {
                let x = p.0;
                let y = p.1;
                assert(x < 16 && y < 16);
                assert(((0x8000u16 | (x << 8) | (y << 4)) >> 12 == 8 && (0x8000u16 | (x << 8) | (y
                    << 4)) & 0xF == 0) && ((0x8001u16 | (x << 8) | (y << 4)) >> 12 == 8 && (
                0x8001u16 | (x << 8) | (y << 4)) & 0xF == 1) && ((0x8002u16 | (x << 8) | (y << 4))
                    >> 12 == 8 && (0x8002u16 | (x << 8) | (y << 4)) & 0xF == 2) && ((0x8003u16 | (x
                    << 8) | (y << 4)) >> 12 == 8 && (0x8003u16 | (x << 8) | (y << 4)) & 0xF == 3)
                    && ((0x8004u16 | (x << 8) | (y << 4)) >> 12 == 8 && (0x8004u16 | (x << 8) | (y
                    << 4)) & 0xF == 4) && ((0x8005u16 | (x << 8) | (y << 4)) >> 12 == 8 && (
                0x8005u16 | (x << 8) | (y << 4)) & 0xF == 5) && ((0x8006u16 | (x << 8) | (y << 4))
                    >> 12 == 8 && (0x8006u16 | (x << 8) | (y << 4)) & 0xF == 6) && ((0x8007u16 | (x
                    << 8) | (y << 4)) >> 12 == 8 && (0x8007u16 | (x << 8) | (y << 4)) & 0xF == 7)
                    && ((0x800Eu16 | (x << 8) | (y << 4)) >> 12 == 8 && (0x800Eu16 | (x << 8) | (y
                    << 4)) & 0xF == 0xE)) by (bit_vector)
                    requires
                        x < 16 && y < 16,
                ;
            },
            None => {},
        }
    }
    lemma_disassemble_round_trip(op);
}

/// The assembler's mnemonics are pairwise distinct token texts.
pub proof fn lemma_mnemonics_distinct()
    ensures
        "LD"@ != "OR"@,
        "LD"@ != "AND"@,
        "LD"@ != "XOR"@,
        "LD"@ != "ADD"@,
        "LD"@ != "SUB"@,
        "LD"@ != "SHR"@,
        "LD"@ != "SUBN"@,
        "LD"@ != "SHL"@,
        "LD"@ != "DRW"@,
        "LD"@ != "JP"@,
        "LD"@ != "CALL"@,
        "LD"@ != "SE"@,
        "LD"@ != "SNE"@,
        "LD"@ != "RET"@,
        "LD"@ != "CLS"@,
        "OR"@ != "AND"@,
        "OR"@ != "XOR"@,
        "OR"@ != "ADD"@,
        "OR"@ != "SUB"@,
        "OR"@ != "SHR"@,
        "OR"@ != "SUBN"@,
        "OR"@ != "SHL"@,
        "OR"@ != "DRW"@,
        "OR"@ != "JP"@,
        "OR"@ != "CALL"@,
        "OR"@ != "SE"@,
        "OR"@ != "SNE"@,
        "OR"@ != "RET"@,
        "OR"@ != "CLS"@,
        "AND"@ != "XOR"@,
        "AND"@ != "ADD"@,
        "AND"@ != "SUB"@,
        "AND"@ != "SHR"@,
        "AND"@ != "SUBN"@,
        "AND"@ != "SHL"@,
        "AND"@ != "DRW"@,
        "AND"@ != "JP"@,
        "AND"@ != "CALL"@,
        "AND"@ != "SE"@,
        "AND"@ != "SNE"@,
        "AND"@ != "RET"@,
        "AND"@ != "CLS"@,
        "XOR"@ != "ADD"@,
        "XOR"@ != "SUB"@,
        "XOR"@ != "SHR"@,
        "XOR"@ != "SUBN"@,
        "XOR"@ != "SHL"@,
        "XOR"@ != "DRW"@,
        "XOR"@ != "JP"@,
        "XOR"@ != "CALL"@,
        "XOR"@ != "SE"@,
        "XOR"@ != "SNE"@,
        "XOR"@ != "RET"@,
        "XOR"@ != "CLS"@,
        "ADD"@ != "SUB"@,
        "ADD"@ != "SHR"@,
        "ADD"@ != "SUBN"@,
        "ADD"@ != "SHL"@,
        "ADD"@ != "DRW"@,
        "ADD"@ != "JP"@,
        "ADD"@ != "CALL"@,
        "ADD"@ != "SE"@,
        "ADD"@ != "SNE"@,
        "ADD"@ != "RET"@,
        "ADD"@ != "CLS"@,
        "SUB"@ != "SHR"@,
        "SUB"@ != "SUBN"@,
        "SUB"@ != "SHL"@,
        "SUB"@ != "DRW"@,
        "SUB"@ != "JP"@,
        "SUB"@ != "CALL"@,
        "SUB"@ != "SE"@,
        "SUB"@ != "SNE"@,
        "SUB"@ != "RET"@,
        "SUB"@ != "CLS"@,
        "SHR"@ != "SUBN"@,
        "SHR"@ != "SHL"@,
        "SHR"@ != "DRW"@,
        "SHR"@ != "JP"@,
        "SHR"@ != "CALL"@,
        "SHR"@ != "SE"@,
        "SHR"@ != "SNE"@,
        "SHR"@ != "RET"@,
        "SHR"@ != "CLS"@,
        "SUBN"@ != "SHL"@,
        "SUBN"@ != "DRW"@,
        "SUBN"@ != "JP"@,
        "SUBN"@ != "CALL"@,
        "SUBN"@ != "SE"@,
        "SUBN"@ != "SNE"@,
        "SUBN"@ != "RET"@,
        "SUBN"@ != "CLS"@,
        "SHL"@ != "DRW"@,
        "SHL"@ != "JP"@,
        "SHL"@ != "CALL"@,
        "SHL"@ != "SE"@,
        "SHL"@ != "SNE"@,
        "SHL"@ != "RET"@,
        "SHL"@ != "CLS"@,
        "DRW"@ != "JP"@,
        "DRW"@ != "CALL"@,
        "DRW"@ != "SE"@,
        "DRW"@ != "SNE"@,
        "DRW"@ != "RET"@,
        "DRW"@ != "CLS"@,
        "JP"@ != "CALL"@,
        "JP"@ != "SE"@,
        "JP"@ != "SNE"@,
        "JP"@ != "RET"@,
        "JP"@ != "CLS"@,
        "CALL"@ != "SE"@,
        "CALL"@ != "SNE"@,
        "CALL"@ != "RET"@,
        "CALL"@ != "CLS"@,
        "SE"@ != "SNE"@,
        "SE"@ != "RET"@,
        "SE"@ != "CLS"@,
        "SNE"@ != "RET"@,
        "SNE"@ != "CLS"@,
        "RET"@ != "CLS"@,
{
    reveal_strlit("LD");
    reveal_strlit("OR");
    reveal_strlit("AND");
    reveal_strlit("XOR");
    reveal_strlit("ADD");
    reveal_strlit("SUB");
    reveal_strlit("SHR");
    reveal_strlit("SUBN");
    reveal_strlit("SHL");
    reveal_strlit("DRW");
    reveal_strlit("JP");
    reveal_strlit("CALL");
    reveal_strlit("SE");
    reveal_strlit("SNE");
    reveal_strlit("RET");
    reveal_strlit("CLS");
    assert("LD"@.len() == 2);
    assert("OR"@.len() == 2);
    assert("AND"@.len() == 3);
    assert("XOR"@.len() == 3);
    assert("ADD"@.len() == 3);
    assert("SUB"@.len() == 3);
    assert("SHR"@.len() == 3);
    assert("SUBN"@.len() == 4);
    assert("SHL"@.len() == 3);
    assert("DRW"@.len() == 3);
    assert("JP"@.len() == 2);
    assert("CALL"@.len() == 4);
    assert("SE"@.len() == 2);
    assert("SNE"@.len() == 3);
    assert("RET"@.len() == 3);
    assert("CLS"@.len() == 3);
    assert("LD"@[0] != "OR"@[0]);
    assert("LD"@[0] != "JP"@[0]);
    assert("LD"@[0] != "SE"@[0]);
    assert("OR"@[0] != "JP"@[0]);
    assert("OR"@[0] != "SE"@[0]);
    assert("AND"@[0] != "XOR"@[0]);
    assert("AND"@[1] != "ADD"@[1]);
    assert("AND"@[0] != "SUB"@[0]);
    assert("AND"@[0] != "SHR"@[0]);
    assert("AND"@[0] != "SHL"@[0]);
    assert("AND"@[0] != "DRW"@[0]);
    assert("AND"@[0] != "SNE"@[0]);
    assert("AND"@[0] != "RET"@[0]);
    assert("AND"@[0] != "CLS"@[0]);
    assert("XOR"@[0] != "ADD"@[0]);
    assert("XOR"@[0] != "SUB"@[0]);
    assert("XOR"@[0] != "SHR"@[0]);
    assert("XOR"@[0] != "SHL"@[0]);
    assert("XOR"@[0] != "DRW"@[0]);
    assert("XOR"@[0] != "SNE"@[0]);
    assert("XOR"@[0] != "RET"@[0]);
    assert("XOR"@[0] != "CLS"@[0]);
    assert("ADD"@[0] != "SUB"@[0]);
    assert("ADD"@[0] != "SHR"@[0]);
    assert("ADD"@[0] != "SHL"@[0]);
    assert("ADD"@[0] != "DRW"@[0]);
    assert("ADD"@[0] != "SNE"@[0]);
    assert("ADD"@[0] != "RET"@[0]);
    assert("ADD"@[0] != "CLS"@[0]);
    assert("SUB"@[1] != "SHR"@[1]);
    assert("SUB"@[1] != "SHL"@[1]);
    assert("SUB"@[0] != "DRW"@[0]);
    assert("SUB"@[1] != "SNE"@[1]);
    assert("SUB"@[0] != "RET"@[0]);
    assert("SUB"@[0] != "CLS"@[0]);
    assert("SHR"@[2] != "SHL"@[2]);
    assert("SHR"@[0] != "DRW"@[0]);
    assert("SHR"@[1] != "SNE"@[1]);
    assert("SHR"@[0] != "RET"@[0]);
    assert("SHR"@[0] != "CLS"@[0]);
    assert("SUBN"@[0] != "CALL"@[0]);
    assert("SHL"@[0] != "DRW"@[0]);
    assert("SHL"@[1] != "SNE"@[1]);
    assert("SHL"@[0] != "RET"@[0]);
    assert("SHL"@[0] != "CLS"@[0]);
    assert("DRW"@[0] != "SNE"@[0]);
    assert("DRW"@[0] != "RET"@[0]);
    assert("DRW"@[0] != "CLS"@[0]);
    assert("JP"@[0] != "SE"@[0]);
    assert("SNE"@[0] != "RET"@[0]);
    assert("SNE"@[0] != "CLS"@[0]);
    assert("RET"@[0] != "CLS"@[0]);
}

} // verus!
