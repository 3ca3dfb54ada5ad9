//! The instruction decoder: dispatch on the first byte, operand extraction,
//! and rendering of one line per instruction.

use vstd::prelude::*;
use vstd::string::*;
use crate::registers::register_decode;
use crate::spec::{
    disp_len, imm_len, imm_value, instr_len, instr_text, known_opcode, le_word, listing, matches_op,
    memory_text, mov_line, rm_operand, base_name, MOV_ACC_TO_MEM, MOV_IM_REG, MOV_IM_REG_MEM,
    MOV_MEM_TO_ACC, MOV_REG_REG_MEM,
};
use crate::laws::instruction_length_bounds;
use crate::text::push_int;

verus! {

/// Why decoding stopped before the end of the input.
#[derive(Debug, Clone, Copy, PartialEq, Eq, Structural)]
pub enum DecodeError {
    /// The first byte of an instruction matches no known opcode.
    UnknownOpcode,
    /// The input ended in the middle of an instruction.
    Truncated,
}

/// Whether `data` matches the opcode descriptor `(pattern, shift)`.
fn match_op(data: u8, op_and_displacement: (u8, u8)) -> (r: bool)
    requires
        op_and_displacement.1 < 8,
    ensures
        r == matches_op(data, op_and_displacement),
{
    (data >> op_and_displacement.1) == op_and_displacement.0
}

/// Reads the byte under the cursor and moves past it, if there is one.
fn next_byte(bytes: &[u8], pos: &mut usize) -> (r: Option<u8>)
    ensures
        *old(pos) < bytes@.len() ==> r == Some(bytes@[*old(pos) as int]) && *final(pos) == *old(pos)
            + 1,
        *old(pos) >= bytes@.len() ==> r is None && *final(pos) == *old(pos),
{
    if *pos < bytes.len() {
        let b = bytes[*pos];
        *pos = *pos + 1;
        Some(b)
    } else {
        None
    }
}

/// Reads an immediate of width `w`, sign-extended, and moves past it.
fn read_imm(bytes: &[u8], pos: &mut usize, w: bool) -> (r: Option<i32>)
    ensures
        match r {
            Some(v) => *old(pos) + imm_len(w) <= bytes@.len() && *final(pos) == *old(pos) + imm_len(w)
                && v == imm_value(w, bytes@.skip(*old(pos) as int)),
            None => *old(pos) + imm_len(w) > bytes@.len(),
        },
{
    let lo = match next_byte(bytes, pos) {
        Some(b) => b,
        None => return None,
    };
    if !w {
        let v: i32 = if lo < 128 { lo as i32 } else { lo as i32 - 256 };
        return Some(v);
    }
    let hi = match next_byte(bytes, pos) {
        Some(b) => b,
        None => return None,
    };
    let word: i32 = lo as i32 + 256 * hi as i32;
    let v: i32 = if word < 32768 { word } else { word - 65536 };
    Some(v)
}

/// Reads an unsigned little-endian word and moves past it.
fn read_word(bytes: &[u8], pos: &mut usize) -> (r: Option<i32>)
    ensures
        match r {
            Some(v) => *old(pos) + 2 <= bytes@.len() && *final(pos) == *old(pos) + 2 && v
                == le_word(bytes@[*old(pos) as int], bytes@[*old(pos) + 1]),
            None => *old(pos) + 2 > bytes@.len(),
        },
{
    let lo = match next_byte(bytes, pos) {
        Some(b) => b,
        None => return None,
    };
    let hi = match next_byte(bytes, pos) {
        Some(b) => b,
        None => return None,
    };
    Some(lo as i32 + 256 * hi as i32)
}

/// Renders the memory operand selected by `r_m` and `a_mod` (below 3),
/// reading its displacement bytes from the cursor.
fn address_decode(r_m: u8, a_mod: u8, bytes: &[u8], pos: &mut usize) -> (r: Option<String>)
    requires
        r_m < 8,
        a_mod < 3,
        *old(pos) <= bytes@.len(),
    ensures
        match r {
            Some(t) => *old(pos) + disp_len(a_mod, r_m) <= bytes@.len() && *final(pos) == *old(pos)
                + disp_len(a_mod, r_m) && t@ == memory_text(a_mod, r_m, bytes@.skip(*old(pos) as int)),
            None => *old(pos) + disp_len(a_mod, r_m) > bytes@.len(),
        },
{
    let ghost d = bytes@.skip(*old(pos) as int);
    let base = match r_m {
        0 => "bx + si",
        1 => "bx + di",
        2 => "bp + si",
        3 => "bp + di",
        4 => "si",
        5 => "di",
        6 => "bp",
        _ => "bx",
    };
    assert(base@ == base_name(r_m));
    let mut t = String::new();
    t.append("[");
    if a_mod == 0 && r_m == 6 {
        let addr = match read_word(bytes, pos) {
            Some(v) => v,
            None => return None,
        };
        push_int(&mut t, addr);
        t.append("]");
        assert(t@ =~= memory_text(a_mod, r_m, d));
        return Some(t);
    }
    let displacement: i32 = if a_mod == 0 {
        0
    } else if a_mod == 1 {
        match next_byte(bytes, pos) {
            Some(b) => if b < 128 { b as i32 } else { b as i32 - 256 },
            None => return None,
        }
    } else {
        match read_imm(bytes, pos, true) {
            Some(v) => v,
            None => return None,
        }
    };
    t.append(base);
    if displacement > 0 {
        t.append(" + ");
        push_int(&mut t, displacement);
    } else if displacement < 0 {
        t.append(" - ");
        push_int(&mut t, -displacement);
    }
    t.append("]");
    assert(t@ =~= memory_text(a_mod, r_m, d));
    Some(t)
}

/// Renders the operand that `r_m` selects: a register when `a_mod` is 3,
/// memory otherwise, reading displacement bytes from the cursor.
fn rm_operand_decode(r_m: u8, a_mod: u8, w: bool, bytes: &[u8], pos: &mut usize) -> (r: Option<
    String,
>)
    requires
        r_m < 8,
        a_mod < 4,
        *old(pos) <= bytes@.len(),
    ensures
        match r {
            Some(t) => *old(pos) + disp_len(a_mod, r_m) <= bytes@.len() && *final(pos) == *old(pos)
                + disp_len(a_mod, r_m) && t@ == rm_operand(
                a_mod,
                r_m,
                w,
                bytes@.skip(*old(pos) as int),
            ),
            None => *old(pos) + disp_len(a_mod, r_m) > bytes@.len(),
        },
{
    if a_mod == 3 {
        Some(String::from_str(register_decode(r_m, w)))
    } else {
        address_decode(r_m, a_mod, bytes, pos)
    }
}

/// Appends `mov <dst>, <src>` and a newline.
fn push_line(output: &mut String, dst: &str, src: &str)
    ensures
        final(output)@ == old(output)@ + mov_line(dst@, src@),
{
    output.append("mov ");
    output.append(dst);
    output.append(", ");
    output.append(src);
    output.append("\n");
    assert(output@ =~= old(output)@ + mov_line(dst@, src@));
}

/// Decodes the instruction that starts at `pos` and appends its line.
///
/// On success the result is the position just past the instruction; on
/// failure nothing is appended.
pub fn decode_instruction(bytes: &[u8], pos: usize, output: &mut String) -> (r: Result<
    usize,
    DecodeError,
>)
    requires
        pos < bytes@.len(),
    ensures
        ({
            let s = bytes@.skip(pos as int);
            &&& !known_opcode(s[0]) ==> r == Err::<usize, DecodeError>(DecodeError::UnknownOpcode)
            &&& known_opcode(s[0]) && s.len() < instr_len(s) ==> r == Err::<usize, DecodeError>(
                DecodeError::Truncated,
            )
            &&& known_opcode(s[0]) && s.len() >= instr_len(s) ==> r == Ok::<usize, DecodeError>(
                (pos + instr_len(s)) as usize,
            ) && final(output)@ == old(output)@ + instr_text(s)
            &&& r is Err ==> final(output)@ == old(output)@
        }),
        r matches Ok(next) ==> pos < next <= pos + 6,
{
    let ghost s = bytes@.skip(pos as int);
    proof {
        if known_opcode(s[0]) {
            instruction_length_bounds(s);
        }
    }
    let first = bytes[pos];
    let mut cur: usize = pos + 1;
    assert(s[0] == first);
    if match_op(first, MOV_REG_REG_MEM) {
        let second = match next_byte(bytes, &mut cur) {
            Some(b) => b,
            None => return Err(DecodeError::Truncated),
        };
        let w = (first & 1) == 1;
        let d = ((first & 0b10) >> 1) == 1;
        let a_mod = (second & 0b11000000) >> 6;
        let reg = (second & 0b00111000) >> 3;
        let r_m = second & 0b00000111;
        assert((second & 0b11000000) >> 6 < 4) by (bit_vector);
        assert((second & 0b00111000) >> 3 < 8) by (bit_vector);
        assert(second & 0b00000111 < 8) by (bit_vector);
        let reg = register_decode(reg, w);
        let other = match rm_operand_decode(r_m, a_mod, w, bytes, &mut cur) {
            Some(t) => t,
            None => return Err(DecodeError::Truncated),
        };
        assert(s[1] == second);
        assert(s.skip(2) =~= bytes@.skip(pos + 2));
        if d {
            push_line(output, reg, other.as_str());
        } else {
            push_line(output, other.as_str(), reg);
        }
        Ok(cur)
    } else if match_op(first, MOV_IM_REG_MEM) {
        let second = match next_byte(bytes, &mut cur) {
            Some(b) => b,
            None => return Err(DecodeError::Truncated),
        };
        let w = (first & 1) == 1;
        let a_mod = (second & 0b11000000) >> 6;
        let r_m = second & 0b00000111;
        assert((second & 0b11000000) >> 6 < 4) by (bit_vector);
        assert(second & 0b00000111 < 8) by (bit_vector);
        let dst = match rm_operand_decode(r_m, a_mod, w, bytes, &mut cur) {
            Some(t) => t,
            None => return Err(DecodeError::Truncated),
        };
        let ghost imm_at = cur;
        let data = match read_imm(bytes, &mut cur, w) {
            Some(v) => v,
            None => return Err(DecodeError::Truncated),
        };
        assert(s[1] == second);
        assert(s.skip(2) =~= bytes@.skip(pos + 2));
        assert(s.skip(2 + disp_len(a_mod, r_m) as int) =~= bytes@.skip(imm_at as int));
        let mut src = String::new();
        if w {
            src.append("word ");
        } else {
            src.append("byte ");
        }
        push_int(&mut src, data);
        push_line(output, dst.as_str(), src.as_str());
        Ok(cur)
    } else if match_op(first, MOV_IM_REG) {
        let w = ((first & 0b1000) >> 3) == 1;
        assert(first & 0b111 < 8) by (bit_vector);
        let reg = register_decode(first & 0b111, w);
        let data = match read_imm(bytes, &mut cur, w) {
            Some(v) => v,
            None => return Err(DecodeError::Truncated),
        };
        assert(s.skip(1) =~= bytes@.skip(pos + 1));
        let mut src = String::new();
        push_int(&mut src, data);
        push_line(output, reg, src.as_str());
        Ok(cur)
    } else if match_op(first, MOV_MEM_TO_ACC) || match_op(first, MOV_ACC_TO_MEM) {
        let w = (first & 1) == 1;
        let addr = match read_word(bytes, &mut cur) {
            Some(v) => v,
            None => return Err(DecodeError::Truncated),
        };
        let mut mem = String::new();
        mem.append("[");
        push_int(&mut mem, addr);
        mem.append("]");
        let acc = if w { "ax" } else { "al" };
        assert(s[1] == bytes@[pos + 1] && s[2] == bytes@[pos + 2]);
        if match_op(first, MOV_MEM_TO_ACC) {
            push_line(output, acc, mem.as_str());
        } else {
            push_line(output, mem.as_str(), acc);
        }
        Ok(cur)
    } else {
        Err(DecodeError::UnknownOpcode)
    }
}

/// Decodes the whole byte image, appending one line per instruction to
/// `output`.
///
/// Decoding stops at the first byte that starts no known instruction, or at
/// an instruction cut short by the end of the input; the lines of the
/// instructions before it stay in `output`.
pub fn decode(bytes: &[u8], output: &mut String) -> (r: Result<(), DecodeError>)
    ensures
        final(output)@ == old(output)@ + listing(bytes@).0.flatten(),
        r == (match listing(bytes@).1 {
            None => Ok::<(), DecodeError>(()),
            Some(e) => Err(e),
        }),
{
    let mut pos: usize = 0;
    assert(bytes@.skip(0) =~= bytes@);
    while pos < bytes.len()
        invariant
            pos <= bytes@.len(),
            old(output)@ + listing(bytes@).0.flatten() == output@ + listing(
                bytes@.skip(pos as int),
            ).0.flatten(),
            listing(bytes@).1 == listing(bytes@.skip(pos as int)).1,
        decreases bytes@.len() - pos,
    {
        let ghost s = bytes@.skip(pos as int);
        let ghost before = output@;
        match decode_instruction(bytes, pos, output) {
            Ok(next) => {
                proof {
                    let rest = listing(s.skip(instr_len(s) as int));
                    assert(s.skip(instr_len(s) as int) =~= bytes@.skip(next as int));
                    assert((seq![instr_text(s)] + rest.0).drop_first() =~= rest.0);
                    assert(before + listing(s).0.flatten() =~= output@ + rest.0.flatten());
                }
                pos = next;
            },
            Err(e) => {
                return Err(e);
            },
        }
    }
    assert(bytes@.skip(pos as int).len() == 0);
    Ok(())
}

} // verus!
