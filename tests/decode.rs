use disasm8086::{decode, decode_instruction, register_decode, DecodeError};

fn listing_of(bytes: &[u8]) -> (String, Result<(), DecodeError>) {
    let mut out = String::new();
    let r = decode(bytes, &mut out);
    (out, r)
}

fn line_of(bytes: &[u8]) -> String {
    let (out, r) = listing_of(bytes);
    assert_eq!(r, Ok(()));
    out
}

#[test]
fn reg_to_reg_source_direction() {
    assert_eq!(line_of(&[0x89, 0xD9]), "mov cx, bx\n");
}

#[test]
fn reg_to_reg_destination_direction() {
    assert_eq!(line_of(&[0x8B, 0xCB]), "mov cx, bx\n");
    assert_eq!(line_of(&[0x88, 0xE5]), "mov ch, ah\n");
}

#[test]
fn short_immediate_byte() {
    assert_eq!(line_of(&[0xB1, 0x0C]), "mov cl, 12\n");
}

#[test]
fn short_immediate_word() {
    assert_eq!(line_of(&[0xB9, 0x0C, 0x00]), "mov cx, 12\n");
}

#[test]
fn short_immediate_negative() {
    assert_eq!(line_of(&[0xB1, 0xF4]), "mov cl, -12\n");
    assert_eq!(line_of(&[0xBA, 0x6C, 0x0F]), "mov dx, 3948\n");
    assert_eq!(line_of(&[0xBA, 0x94, 0xF0]), "mov dx, -3948\n");
}

#[test]
fn bp_with_zero_displacement() {
    assert_eq!(line_of(&[0x8B, 0x5E, 0x00]), "mov bx, [bp]\n");
}

#[test]
fn negative_byte_displacement() {
    assert_eq!(line_of(&[0x8B, 0x46, 0xD9]), "mov ax, [bp - 39]\n");
    assert_eq!(line_of(&[0x8B, 0x46, 0xFF]), "mov ax, [bp - 1]\n");
}

#[test]
fn positive_byte_and_word_displacement() {
    assert_eq!(line_of(&[0x8A, 0x60, 0x04]), "mov ah, [bx + si + 4]\n");
    assert_eq!(line_of(&[0x8A, 0x80, 0x87, 0x13]), "mov al, [bx + si + 4999]\n");
    assert_eq!(line_of(&[0x89, 0x8C, 0xD4, 0xFE]), "mov [si - 300], cx\n");
    assert_eq!(line_of(&[0x89, 0x8C, 0x00, 0x80]), "mov [si - 32768], cx\n");
}

#[test]
fn memory_without_displacement() {
    assert_eq!(line_of(&[0x8B, 0x1B]), "mov bx, [bp + di]\n");
    assert_eq!(line_of(&[0x8B, 0x41, 0x00]), "mov ax, [bx + di]\n");
    assert_eq!(line_of(&[0x88, 0x04]), "mov [si], al\n");
}

#[test]
fn direct_address_not_bp() {
    assert_eq!(line_of(&[0x8B, 0x2E, 0x05, 0x00]), "mov bp, [5]\n");
    assert_eq!(line_of(&[0x8B, 0x1E, 0x82, 0x0D]), "mov bx, [3458]\n");
    assert_eq!(line_of(&[0x89, 0x36, 0xFF, 0xFF]), "mov [65535], si\n");
}

#[test]
fn immediate_to_memory_byte() {
    assert_eq!(line_of(&[0xC6, 0x03, 0x07]), "mov [bp + di], byte 7\n");
}

#[test]
fn immediate_to_memory_word() {
    assert_eq!(line_of(&[0xC7, 0x85, 0x85, 0x03, 0x5B, 0x01]), "mov [di + 901], word 347\n");
    assert_eq!(line_of(&[0xC7, 0x06, 0x10, 0x00, 0xFF, 0xFF]), "mov [16], word -1\n");
}

#[test]
fn immediate_to_register_long_form() {
    assert_eq!(line_of(&[0xC6, 0xC1, 0x05]), "mov cl, byte 5\n");
    assert_eq!(line_of(&[0xC7, 0xC3, 0x34, 0x12]), "mov bx, word 4660\n");
}

#[test]
fn memory_to_accumulator() {
    assert_eq!(line_of(&[0xA1, 0xFB, 0x09]), "mov ax, [2555]\n");
    assert_eq!(line_of(&[0xA0, 0x10, 0x00]), "mov al, [16]\n");
}

#[test]
fn accumulator_to_memory() {
    assert_eq!(line_of(&[0xA3, 0x0F, 0x00]), "mov [15], ax\n");
    assert_eq!(line_of(&[0xA2, 0xFA, 0x09]), "mov [2554], al\n");
}

#[test]
fn immediate_width_reads_exact_bytes() {
    let mut out = String::new();
    assert_eq!(decode_instruction(&[0xB1, 0x0C, 0xB9], 0, &mut out), Ok(2));
    assert_eq!(decode_instruction(&[0xB9, 0x0C, 0x00, 0xB1], 0, &mut out), Ok(3));
    assert_eq!(decode_instruction(&[0xC6, 0x03, 0x07, 0x00], 0, &mut out), Ok(3));
    assert_eq!(decode_instruction(&[0xC7, 0x03, 0x07, 0x00], 0, &mut out), Ok(4));
    assert_eq!(out, "mov cl, 12\nmov cx, 12\nmov [bp + di], byte 7\nmov [bp + di], word 7\n");
}

#[test]
fn cursor_advances_one_to_six() {
    let bytes = [0x89, 0xD9, 0xC7, 0x85, 0x85, 0x03, 0x5B, 0x01, 0xA1, 0xFB, 0x09];
    let mut out = String::new();
    assert_eq!(decode_instruction(&bytes, 0, &mut out), Ok(2));
    assert_eq!(decode_instruction(&bytes, 2, &mut out), Ok(8));
    assert_eq!(decode_instruction(&bytes, 8, &mut out), Ok(11));
}

#[test]
fn several_instructions_one_line_each() {
    let bytes = [
        0x89, 0xD9, 0xB1, 0x0C, 0xB9, 0x0C, 0x00, 0x8B, 0x5E, 0x00, 0x8B, 0x46, 0xD9, 0xC6, 0x03,
        0x07, 0xA1, 0xFB, 0x09, 0xA3, 0x0F, 0x00,
    ];
    let out = line_of(&bytes);
    assert_eq!(
        out,
        "mov cx, bx\nmov cl, 12\nmov cx, 12\nmov bx, [bp]\nmov ax, [bp - 39]\n\
         mov [bp + di], byte 7\nmov ax, [2555]\nmov [15], ax\n"
    );
    assert_eq!(out.matches('\n').count(), 8);
}

#[test]
fn empty_input_writes_nothing() {
    let (out, r) = listing_of(&[]);
    assert_eq!(r, Ok(()));
    assert_eq!(out, "");
}

#[test]
fn existing_output_is_kept() {
    let mut out = String::from("bits 16\n\n");
    assert_eq!(decode(&[0x89, 0xD9], &mut out), Ok(()));
    assert_eq!(out, "bits 16\n\nmov cx, bx\n");
}

#[test]
fn unknown_opcode_stops_decoding() {
    let (out, r) = listing_of(&[0x89, 0xD9, 0x90, 0xB1, 0x0C]);
    assert_eq!(r, Err(DecodeError::UnknownOpcode));
    assert_eq!(out, "mov cx, bx\n");
}

#[test]
fn truncated_instruction_stops_decoding() {
    let (out, r) = listing_of(&[0xB1, 0x0C, 0xB9, 0x0C]);
    assert_eq!(r, Err(DecodeError::Truncated));
    assert_eq!(out, "mov cl, 12\n");
    assert_eq!(listing_of(&[0x8B]).1, Err(DecodeError::Truncated));
    assert_eq!(listing_of(&[0x8B, 0x46]).1, Err(DecodeError::Truncated));
    assert_eq!(listing_of(&[0xC7, 0x06, 0x10, 0x00, 0xFF]).1, Err(DecodeError::Truncated));
    assert_eq!(listing_of(&[0xA1, 0xFB]).1, Err(DecodeError::Truncated));
}

#[test]
fn register_table_is_total() {
    let bytes = ["al", "cl", "dl", "bl", "ah", "ch", "dh", "bh"];
    let words = ["ax", "cx", "dx", "bx", "sp", "bp", "si", "di"];
    for reg in 0u8..8 {
        assert_eq!(register_decode(reg, false), bytes[reg as usize]);
        assert_eq!(register_decode(reg, true), words[reg as usize]);
    }
}
