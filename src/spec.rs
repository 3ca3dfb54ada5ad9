//! The mathematical model of the decoder: register names, operand text and
//! the listing of a byte image.

use vstd::prelude::*;
use crate::decoder::DecodeError;

verus! {

/// Name of register `reg` (three bits) at width `w` (`false`: 8-bit, `true`: 16-bit).
pub open spec fn reg_name(reg: u8, w: bool) -> Seq<char> {
    if !w {
        if reg == 0 { "al"@ }
        else if reg == 1 { "cl"@ }
        else if reg == 2 { "dl"@ }
        else if reg == 3 { "bl"@ }
        else if reg == 4 { "ah"@ }
        else if reg == 5 { "ch"@ }
        else if reg == 6 { "dh"@ }
        else { "bh"@ }
    } else {
        if reg == 0 { "ax"@ }
        else if reg == 1 { "cx"@ }
        else if reg == 2 { "dx"@ }
        else if reg == 3 { "bx"@ }
        else if reg == 4 { "sp"@ }
        else if reg == 5 { "bp"@ }
        else if reg == 6 { "si"@ }
        else { "di"@ }
    }
}


/// Opcode descriptors: a first byte `b` matches `(pattern, shift)` when `b >> shift == pattern`.
pub const MOV_REG_REG_MEM: (u8, u8) = (0b100010, 2);
pub const MOV_IM_REG_MEM: (u8, u8) = (0b1100011, 1);
pub const MOV_IM_REG: (u8, u8) = (0b1011, 4);
pub const MOV_MEM_TO_ACC: (u8, u8) = (0b1010000, 1);
pub const MOV_ACC_TO_MEM: (u8, u8) = (0b1010001, 1);

pub open spec fn matches_op(b: u8, op: (u8, u8)) -> bool {
    (b >> op.1) == op.0
}

/// A first byte that one of the five `MOV` encodings recognizes.
pub open spec fn known_opcode(b: u8) -> bool {
    matches_op(b, MOV_REG_REG_MEM) || matches_op(b, MOV_IM_REG_MEM) || matches_op(b, MOV_IM_REG)
        || matches_op(b, MOV_MEM_TO_ACC) || matches_op(b, MOV_ACC_TO_MEM)
}

/// The `mod` field of a mode byte (top two bits).
pub open spec fn mod_of(m: u8) -> u8 {
    (m & 0b11000000) >> 6
}

/// The `reg` field of a mode byte (middle three bits).
pub open spec fn reg_of(m: u8) -> u8 {
    (m & 0b00111000) >> 3
}

/// The `r_m` field of a mode byte (low three bits).
pub open spec fn rm_of(m: u8) -> u8 {
    m & 0b00000111
}

/// The `w` bit in the lowest bit of a first byte.
pub open spec fn w_of(b: u8) -> bool {
    (b & 1) == 1
}

/// The `d` bit, second lowest bit of a first byte.
pub open spec fn d_of(b: u8) -> bool {
    ((b & 0b10) >> 1) == 1
}

/// The `w` bit of the short immediate-to-register form (`1011 w reg`).
pub open spec fn short_w_of(b: u8) -> bool {
    ((b & 0b1000) >> 3) == 1
}

/// A 16-bit little-endian word, unsigned.
pub open spec fn le_word(lo: u8, hi: u8) -> int {
    lo as int + 256 * hi as int
}

/// A byte read as two's complement.
pub open spec fn signed_byte(b: u8) -> int {
    if b < 128 { b as int } else { b as int - 256 }
}

/// A little-endian word read as two's complement.
pub open spec fn signed_word(lo: u8, hi: u8) -> int {
    if le_word(lo, hi) < 32768 { le_word(lo, hi) } else { le_word(lo, hi) - 65536 }
}

/// The decimal digit `d` (below ten).
pub open spec fn digit_char(d: nat) -> char {
    if d == 0 { '0' }
    else if d == 1 { '1' }
    else if d == 2 { '2' }
    else if d == 3 { '3' }
    else if d == 4 { '4' }
    else if d == 5 { '5' }
    else if d == 6 { '6' }
    else if d == 7 { '7' }
    else if d == 8 { '8' }
    else { '9' }
}

/// Decimal digits of `n`, most significant first, with no leading zero.
pub open spec fn digits(n: nat) -> Seq<char>
    decreases n,
{
    if n < 10 { seq![digit_char(n)] } else { digits(n / 10).push(digit_char(n % 10)) }
}

/// Signed decimal rendering of `v`.
pub open spec fn int_text(v: int) -> Seq<char> {
    if v < 0 { seq!['-'] + digits((-v) as nat) } else { digits(v as nat) }
}

/// Base expression of an effective address, indexed by `r_m`.
pub open spec fn base_name(rm: u8) -> Seq<char> {
    if rm == 0 { "bx + si"@ }
    else if rm == 1 { "bx + di"@ }
    else if rm == 2 { "bp + si"@ }
    else if rm == 3 { "bp + di"@ }
    else if rm == 4 { "si"@ }
    else if rm == 5 { "di"@ }
    else if rm == 6 { "bp"@ }
    else { "bx"@ }
}

/// Number of displacement bytes that follow a mode byte with fields `md` and `rm`.
pub open spec fn disp_len(md: u8, rm: u8) -> nat {
    if md == 0 { if rm == 6 { 2 } else { 0 } }
    else if md == 1 { 1 }
    else if md == 2 { 2 }
    else { 0 }
}

/// Number of immediate bytes at width `w`.
pub open spec fn imm_len(w: bool) -> nat {
    if w { 2 } else { 1 }
}

/// Immediate at width `w` read from the start of `d`, sign-extended.
pub open spec fn imm_value(w: bool, d: Seq<u8>) -> int {
    if w { signed_word(d[0], d[1]) } else { signed_byte(d[0]) }
}

/// `[<addr>]`: a direct address.
pub open spec fn direct_text(addr: int) -> Seq<char> {
    "["@ + int_text(addr) + "]"@
}

/// `[<base>]`, `[<base> + <disp>]` or `[<base> - <|disp|>]`.
pub open spec fn based_text(rm: u8, disp: int) -> Seq<char> {
    if disp == 0 {
        "["@ + base_name(rm) + "]"@
    } else if disp > 0 {
        "["@ + base_name(rm) + " + "@ + int_text(disp) + "]"@
    } else {
        "["@ + base_name(rm) + " - "@ + int_text(-disp) + "]"@
    }
}

/// Memory operand for `md` (below 3) and `rm`, whose displacement bytes start `d`.
pub open spec fn memory_text(md: u8, rm: u8, d: Seq<u8>) -> Seq<char> {
    if md == 0 && rm == 6 {
        direct_text(le_word(d[0], d[1]))
    } else {
        based_text(rm, memory_disp(md, d))
    }
}

/// Signed displacement for `md` (below 3) read from the start of `d`: none,
/// one sign-extended byte, or a word.
pub open spec fn memory_disp(md: u8, d: Seq<u8>) -> int {
    if md == 0 { 0 } else if md == 1 { signed_byte(d[0]) } else { signed_word(d[0], d[1]) }
}

/// The operand that `r_m` names: a register when `md` is 3, memory otherwise.
pub open spec fn rm_operand(md: u8, rm: u8, w: bool, d: Seq<u8>) -> Seq<char> {
    if md == 3 { reg_name(rm, w) } else { memory_text(md, rm, d) }
}

/// The accumulator at width `w`.
pub open spec fn acc_name(w: bool) -> Seq<char> {
    if w { "ax"@ } else { "al"@ }
}

/// One line of output: `mov <dst>, <src>` and a newline.
pub open spec fn mov_line(dst: Seq<char>, src: Seq<char>) -> Seq<char> {
    "mov "@ + dst + ", "@ + src + "\n"@
}

/// Encoded length of the instruction that starts `s`, whose first byte is a known opcode.
pub open spec fn instr_len(s: Seq<u8>) -> nat {
    let b = s[0];
    if matches_op(b, MOV_REG_REG_MEM) {
        2 + disp_len(mod_of(s[1]), rm_of(s[1]))
    } else if matches_op(b, MOV_IM_REG_MEM) {
        2 + disp_len(mod_of(s[1]), rm_of(s[1])) + imm_len(w_of(b))
    } else if matches_op(b, MOV_IM_REG) {
        1 + imm_len(short_w_of(b))
    } else {
        3
    }
}

/// Text of the instruction that starts `s`, whose first byte is a known opcode
/// and which `s` holds whole.
pub open spec fn instr_text(s: Seq<u8>) -> Seq<char> {
    let b = s[0];
    if matches_op(b, MOV_REG_REG_MEM) {
        let m = s[1];
        let reg = reg_name(reg_of(m), w_of(b));
        let other = rm_operand(mod_of(m), rm_of(m), w_of(b), s.skip(2));
        if d_of(b) { mov_line(reg, other) } else { mov_line(other, reg) }
    } else if matches_op(b, MOV_IM_REG_MEM) {
        let m = s[1];
        let dst = rm_operand(mod_of(m), rm_of(m), w_of(b), s.skip(2));
        let imm = imm_value(w_of(b), s.skip(2 + disp_len(mod_of(m), rm_of(m)) as int));
        let size = if w_of(b) { "word "@ } else { "byte "@ };
        mov_line(dst, size + int_text(imm))
    } else if matches_op(b, MOV_IM_REG) {
        mov_line(reg_name(b & 0b111, short_w_of(b)), int_text(imm_value(short_w_of(b), s.skip(1))))
    } else if matches_op(b, MOV_MEM_TO_ACC) {
        mov_line(acc_name(w_of(b)), direct_text(le_word(s[1], s[2])))
    } else {
        mov_line(direct_text(le_word(s[1], s[2])), acc_name(w_of(b)))
    }
}

/// Listing of the byte image `s`: the line of each instruction decoded, in
/// order, and the error that stopped decoding, if one did.
pub open spec fn listing(s: Seq<u8>) -> (Seq<Seq<char>>, Option<DecodeError>)
    decreases s.len(),
{
    if s.len() == 0 {
        (Seq::empty(), None)
    } else if !known_opcode(s[0]) {
        (Seq::empty(), Some(DecodeError::UnknownOpcode))
    } else if s.len() < instr_len(s) {
        (Seq::empty(), Some(DecodeError::Truncated))
    } else {
        let rest = listing(s.skip(instr_len(s) as int));
        (seq![instr_text(s)] + rest.0, rest.1)
    }
}

} // verus!
