//! The 8086 register table.

use vstd::prelude::*;
use crate::spec::reg_name;

verus! {

/// Name of register `reg` at width `w`: byte registers when `w` is false,
/// word registers when it is true.
pub fn register_decode(reg: u8, w: bool) -> (r: &'static str)
    requires
        reg < 8,
    ensures
        r@ == reg_name(reg, w),
{
    if !w {
        match reg {
            0 => "al",
            1 => "cl",
            2 => "dl",
            3 => "bl",
            4 => "ah",
            5 => "ch",
            6 => "dh",
            _ => "bh",
        }
    } else {
        match reg {
            0 => "ax",
            1 => "cx",
            2 => "dx",
            3 => "bx",
            4 => "sp",
            5 => "bp",
            6 => "si",
            _ => "di",
        }
    }
}

} // verus!
