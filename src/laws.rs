//! Properties of the decoder's model that hold of every input.

use vstd::prelude::*;
use crate::spec::{
    acc_name, base_name, digit_char, digits, direct_text, disp_len, imm_value, instr_len,
    instr_text, int_text, known_opcode, le_word, listing, matches_op, memory_disp, memory_text,
    mod_of, mov_line, reg_name, reg_of, rm_of, rm_operand, short_w_of, w_of, MOV_IM_REG,
    MOV_IM_REG_MEM, MOV_MEM_TO_ACC, MOV_REG_REG_MEM,
};

verus! {

/// The sixteen 8086 register names, byte registers and word registers.
pub open spec fn register_names() -> Set<Seq<char>> {
    set![
        "al"@, "cl"@, "dl"@, "bl"@, "ah"@, "ch"@, "dh"@, "bh"@,
        "ax"@, "cx"@, "dx"@, "bx"@, "sp"@, "bp"@, "si"@, "di"@,
    ]
}

/// Number of newline characters in `t`.
pub open spec fn count_newlines(t: Seq<char>) -> nat
    decreases t.len(),
{
    if t.len() == 0 {
        0
    } else {
        count_newlines(t.drop_last()) + if t.last() == '\n' { 1nat } else { 0nat }
    }
}

/// `t` holds no newline character.
pub open spec fn newline_free(t: Seq<char>) -> bool {
    forall|i: int| 0 <= i < t.len() ==> t[i] != '\n'
}

/// The register table is total: every three-bit register field at either
/// width names one of the sixteen registers.
pub proof fn register_table_total(reg: u8, w: bool)
    requires
        reg < 8,
    ensures
        register_names().contains(reg_name(reg, w)),
{
}

/// Decoding one instruction advances the cursor by at least one byte and at
/// most six.
pub proof fn instruction_length_bounds(s: Seq<u8>)
    requires
        s.len() > 0,
        known_opcode(s[0]),
    ensures
        1 <= instr_len(s) <= 6,
{
}

/// With `mod == 00` and `r_m == 110` the memory operand is a direct address,
/// the unsigned word in the two displacement bytes, and not a `bp` expression.
pub proof fn direct_address_mode(d: Seq<u8>)
    ensures
        memory_text(0, 6, d) == direct_text(le_word(d[0], d[1])),
        0 <= le_word(d[0], d[1]) < 65536,
        disp_len(0, 6) == 2,
{
}

/// An 8-bit displacement with its top bit set is negative: it renders as
/// `- <256 - byte>` after the base expression.
pub proof fn negative_byte_displacement(rm: u8, d: Seq<u8>)
    requires
        d.len() >= 1,
        d[0] >= 128,
    ensures
        memory_text(1, rm, d) == "["@ + base_name(rm) + " - "@ + int_text(256 - d[0] as int) + "]"@,
{
}

/// An immediate takes one byte at `w == 0` and two bytes at `w == 1`, in both
/// immediate forms of `MOV`.
pub proof fn immediate_width(s: Seq<u8>)
    requires
        s.len() > 0,
    ensures
        matches_op(s[0], MOV_IM_REG) ==> instr_len(s) == 1 + if short_w_of(s[0]) {
            2nat
        } else {
            1nat
        },
        matches_op(s[0], MOV_IM_REG_MEM) ==> instr_len(s) == 2 + disp_len(mod_of(s[1]), rm_of(s[1]))
            + if w_of(s[0]) { 2nat } else { 1nat },
{
    let b = s[0];
    assert((b >> 4u8 == 0b1011u8) ==> (b >> 2u8 != 0b100010u8) && (b >> 1u8 != 0b1100011u8))
        by (bit_vector);
    assert((b >> 1u8 == 0b1100011u8) ==> (b >> 2u8 != 0b100010u8)) by (bit_vector);
}

proof fn lemma_count_add(a: Seq<char>, b: Seq<char>)
    ensures
        count_newlines(a + b) == count_newlines(a) + count_newlines(b),
    decreases b.len(),
{
    if b.len() > 0 {
        assert((a + b).drop_last() =~= a + b.drop_last());
        lemma_count_add(a, b.drop_last());
    } else {
        assert(a + b =~= a);
    }
}

proof fn lemma_free_count(t: Seq<char>)
    requires
        newline_free(t),
    ensures
        count_newlines(t) == 0,
    decreases t.len(),
{
    if t.len() > 0 {
        lemma_free_count(t.drop_last());
    }
}

proof fn lemma_free_add(a: Seq<char>, b: Seq<char>)
    requires
        newline_free(a),
        newline_free(b),
    ensures
        newline_free(a + b),
{
    assert forall|i: int| 0 <= i < (a + b).len() implies (a + b)[i] != '\n' by {
        if i >= a.len() {
            assert((a + b)[i] == b[i - a.len()]);
        }
    }
}

proof fn lemma_digits_free(n: nat)
    ensures
        newline_free(digits(n)),
    decreases n,
{
    if n >= 10 {
        lemma_digits_free(n / 10);
        lemma_free_add(digits(n / 10), seq![digit_char(n % 10)]);
    }
}

proof fn lemma_int_free(v: int)
    ensures
        newline_free(int_text(v)),
{
    lemma_digits_free((-v) as nat);
    lemma_digits_free(v as nat);
    lemma_free_add(seq!['-'], digits((-v) as nat));
}

proof fn lemma_reg_free(reg: u8, w: bool)
    ensures
        newline_free(reg_name(reg, w)),
{
    reveal_strlit("al");
    reveal_strlit("cl");
    reveal_strlit("dl");
    reveal_strlit("bl");
    reveal_strlit("ah");
    reveal_strlit("ch");
    reveal_strlit("dh");
    reveal_strlit("bh");
    reveal_strlit("ax");
    reveal_strlit("cx");
    reveal_strlit("dx");
    reveal_strlit("bx");
    reveal_strlit("sp");
    reveal_strlit("bp");
    reveal_strlit("si");
    reveal_strlit("di");
}

proof fn lemma_bracket_free(inner: Seq<char>)
    requires
        newline_free(inner),
    ensures
        newline_free("["@ + inner + "]"@),
{
    reveal_strlit("[");
    reveal_strlit("]");
    lemma_free_add("["@, inner);
    lemma_free_add("["@ + inner, "]"@);
}

proof fn lemma_memory_free(md: u8, rm: u8, d: Seq<u8>)
    ensures
        newline_free(memory_text(md, rm, d)),
{
    reveal_strlit("bx + si");
    reveal_strlit("bx + di");
    reveal_strlit("bp + si");
    reveal_strlit("bp + di");
    reveal_strlit("si");
    reveal_strlit("di");
    reveal_strlit("bp");
    reveal_strlit("bx");
    reveal_strlit(" + ");
    reveal_strlit(" - ");
    assert(newline_free(base_name(rm)));
    if md == 0 && rm == 6 {
        let addr = le_word(d[0], d[1]);
        lemma_int_free(addr);
        lemma_bracket_free(int_text(addr));
    } else {
        let disp = memory_disp(md, d);
        lemma_int_free(disp);
        lemma_int_free(-disp);
        lemma_free_add(base_name(rm), " + "@);
        lemma_free_add(base_name(rm) + " + "@, int_text(disp));
        lemma_free_add(base_name(rm), " - "@);
        lemma_free_add(base_name(rm) + " - "@, int_text(-disp));
        lemma_bracket_free(base_name(rm));
        lemma_bracket_free(base_name(rm) + " + "@ + int_text(disp));
        lemma_bracket_free(base_name(rm) + " - "@ + int_text(-disp));
        assert("["@ + base_name(rm) + " + "@ + int_text(disp) + "]"@ =~= "["@ + (base_name(rm)
            + " + "@ + int_text(disp)) + "]"@);
        assert("["@ + base_name(rm) + " - "@ + int_text(-disp) + "]"@ =~= "["@ + (base_name(rm)
            + " - "@ + int_text(-disp)) + "]"@);
    }
}

proof fn lemma_line_count(dst: Seq<char>, src: Seq<char>)
    requires
        newline_free(dst),
        newline_free(src),
    ensures
        count_newlines(mov_line(dst, src)) == 1,
{
    reveal_strlit("mov ");
    reveal_strlit(", ");
    reveal_strlit("\n");
    lemma_free_add("mov "@, dst);
    lemma_free_add("mov "@ + dst, ", "@);
    lemma_free_add("mov "@ + dst + ", "@, src);
    let head = "mov "@ + dst + ", "@ + src;
    lemma_free_count(head);
    lemma_count_add(head, "\n"@);
    assert("\n"@.drop_last() =~= Seq::<char>::empty());
    assert(count_newlines(Seq::<char>::empty()) == 0);
    assert(count_newlines("\n"@) == 1);
}

proof fn lemma_instr_count(s: Seq<u8>)
    requires
        s.len() > 0,
        known_opcode(s[0]),
    ensures
        count_newlines(instr_text(s)) == 1,
{
    reveal_strlit("ax");
    reveal_strlit("al");
    reveal_strlit("word ");
    reveal_strlit("byte ");
    let b = s[0];
    let m = s[1];
    lemma_reg_free(rm_of(m), w_of(b));
    lemma_memory_free(mod_of(m), rm_of(m), s.skip(2));
    let op = rm_operand(mod_of(m), rm_of(m), w_of(b), s.skip(2));
    assert(newline_free(op));
    let direct = direct_text(le_word(s[1], s[2]));
    lemma_int_free(le_word(s[1], s[2]));
    lemma_bracket_free(int_text(le_word(s[1], s[2])));
    assert(newline_free(acc_name(w_of(b))));
    if matches_op(b, MOV_REG_REG_MEM) {
        lemma_reg_free(reg_of(m), w_of(b));
        lemma_line_count(reg_name(reg_of(m), w_of(b)), op);
        lemma_line_count(op, reg_name(reg_of(m), w_of(b)));
    } else if matches_op(b, MOV_IM_REG_MEM) {
        let imm = imm_value(w_of(b), s.skip(2 + disp_len(mod_of(m), rm_of(m)) as int));
        lemma_int_free(imm);
        let size = if w_of(b) { "word "@ } else { "byte "@ };
        lemma_free_add(size, int_text(imm));
        lemma_line_count(op, size + int_text(imm));
    } else if matches_op(b, MOV_IM_REG) {
        lemma_reg_free(b & 0b111, short_w_of(b));
        let imm = imm_value(short_w_of(b), s.skip(1));
        lemma_int_free(imm);
        lemma_line_count(reg_name(b & 0b111, short_w_of(b)), int_text(imm));
    } else if matches_op(b, MOV_MEM_TO_ACC) {
        lemma_line_count(acc_name(w_of(b)), direct);
    } else {
        lemma_line_count(direct, acc_name(w_of(b)));
    }
}

/// One line per instruction: the text that decoding appends holds exactly as
/// many newlines as instructions were decoded.
pub proof fn one_line_per_instruction(s: Seq<u8>)
    ensures
        count_newlines(listing(s).0.flatten()) == listing(s).0.len(),
    decreases s.len(),
{
    if s.len() > 0 && known_opcode(s[0]) && s.len() >= instr_len(s) {
        let rest = listing(s.skip(instr_len(s) as int));
        one_line_per_instruction(s.skip(instr_len(s) as int));
        lemma_instr_count(s);
        assert((seq![instr_text(s)] + rest.0).drop_first() =~= rest.0);
        lemma_count_add(instr_text(s), rest.0.flatten());
    }
}

} // verus!
