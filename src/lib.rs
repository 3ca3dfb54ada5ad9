//! A disassembler for the `MOV` family of 16-bit 8086 machine code.
//!
//! The decoder walks a byte image forward, one instruction at a time, and
//! appends one line of Intel-syntax assembly per instruction to a text buffer.
//! Its behaviour is stated over the spec functions of [`spec`]: every byte
//! image has a mathematical listing, and [`decode`] appends exactly that
//! listing.

mod text;
pub mod spec;
pub mod registers;
pub mod decoder;
pub mod laws;

pub use registers::register_decode;
pub use decoder::{decode, decode_instruction, DecodeError};
