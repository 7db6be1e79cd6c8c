//! Colors as plain values: an RGB triple or an indexed terminal color, and
//! the fixed color assignment one render works with. Also the decimal
//! digits that color codes are written with.

use vstd::prelude::*;

verus! {

/// A terminal color, supplied by the host palette each render cycle.
#[derive(Clone, Copy, PartialEq, Eq, Structural, Debug)]
pub enum ColorSpec {
    /// An RGB triple, one byte per channel.
    Rgb(u8, u8, u8),
    /// An indexed terminal color.
    Indexed(u8),
}

/// The color assignment for one render cycle.
#[derive(Clone, Copy, PartialEq, Eq, Structural, Debug)]
pub struct Colors {
    pub black: ColorSpec,
    pub blue: ColorSpec,
    pub gray: ColorSpec,
    pub green: ColorSpec,
    pub orange: ColorSpec,
    pub purple: ColorSpec,
    pub white: ColorSpec,
}

impl Colors {
    /// The assignment in force before the first palette arrives: every
    /// role is the indexed black.
    pub open spec fn spec_default() -> Colors {
        Colors {
            black: ColorSpec::Indexed(0),
            blue: ColorSpec::Indexed(0),
            gray: ColorSpec::Indexed(0),
            green: ColorSpec::Indexed(0),
            orange: ColorSpec::Indexed(0),
            purple: ColorSpec::Indexed(0),
            white: ColorSpec::Indexed(0),
        }
    }
}

impl Default for Colors {
    fn default() -> (c: Colors)
        ensures
            c == Colors::spec_default(),
    {
        Colors {
            black: ColorSpec::Indexed(0),
            blue: ColorSpec::Indexed(0),
            gray: ColorSpec::Indexed(0),
            green: ColorSpec::Indexed(0),
            orange: ColorSpec::Indexed(0),
            purple: ColorSpec::Indexed(0),
            white: ColorSpec::Indexed(0),
        }
    }
}

/// The decimal digit character for one value below ten.
pub open spec fn digit_char(d: nat) -> char {
    if d == 0 {
        '0'
    } else if d == 1 {
        '1'
    } else if d == 2 {
        '2'
    } else if d == 3 {
        '3'
    } else if d == 4 {
        '4'
    } else if d == 5 {
        '5'
    } else if d == 6 {
        '6'
    } else if d == 7 {
        '7'
    } else if d == 8 {
        '8'
    } else {
        '9'
    }
}

/// The shortest decimal spelling of a byte, as standard formatting writes
/// it: no leading zeros, one to three digits.
pub open spec fn dec_u8(n: u8) -> Seq<char> {
    if n < 10 {
        seq![digit_char(n as nat)]
    } else if n < 100 {
        seq![digit_char((n / 10) as nat), digit_char((n % 10) as nat)]
    } else {
        seq![
            digit_char((n / 100) as nat),
            digit_char(((n / 10) % 10) as nat),
            digit_char((n % 10) as nat),
        ]
    }
}

/// A scalar that may stand in a color code: a decimal digit or the
/// semicolon separator.
pub open spec fn is_code_char(c: char) -> bool {
    0x30 <= c as u32 <= 0x39 || c as u32 == 0x3b
}

/// Every scalar of a decimal spelling is a code character.
pub proof fn lemma_dec_u8_code(n: u8)
    ensures
        forall|i: int| 0 <= i < dec_u8(n).len() ==> is_code_char(dec_u8(n)[i]),
{
}

/// The decimal digit character for one value below ten, executably.
pub fn digit(d: u8) -> (c: char)
    requires
        d < 10,
    ensures
        c == digit_char(d as nat),
{
    if d == 0 {
        '0'
    } else if d == 1 {
        '1'
    } else if d == 2 {
        '2'
    } else if d == 3 {
        '3'
    } else if d == 4 {
        '4'
    } else if d == 5 {
        '5'
    } else if d == 6 {
        '6'
    } else if d == 7 {
        '7'
    } else if d == 8 {
        '8'
    } else {
        '9'
    }
}

} // verus!
