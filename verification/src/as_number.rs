//! Dual-width autonomous-system numbers.
//!
//! An AS number at or below 65535 is always carried in its legacy 2-byte
//! form (`Small`); anything larger needs the extended 4-byte form
//! (`Extended`).  The variant records which representation is natural for
//! the value; display always renders the plain numeric value.

use vstd::prelude::*;

verus! {

/// An autonomous-system identifier, normalized to the narrowest form
/// that holds its value.
#[derive(Copy, Clone, PartialEq, Eq, Structural, Debug)]
pub enum AsNumber {
    Small(u16),
    Extended(u32),
}

/// The normal form of a raw 32-bit AS number: values at or below 65535
/// become `Small`, all larger values become `Extended`.
pub open spec fn normalized_as(value: u32) -> AsNumber {
    if value <= 65535 {
        AsNumber::Small(value as u16)
    } else {
        AsNumber::Extended(value)
    }
}

/// The decimal rendering of `n`, most significant digit first.
pub open spec fn dec_str(n: nat) -> Seq<char>
    decreases n,
{
    if n < 10 {
        seq![dec_digit_char(n % 10)]
    } else {
        dec_str(n / 10).push(dec_digit_char(n % 10))
    }
}

/// The character for one decimal digit.
pub open spec fn dec_digit_char(d: nat) -> char {
    if d == 0 { '0' }
    else if d == 1 { '1' }
    else if d == 2 { '2' }
    else if d == 3 { '3' }
    else if d == 4 { '4' }
    else if d == 5 { '5' }
    else if d == 6 { '6' }
    else if d == 7 { '7' }
    else if d == 8 { '8' }
    else { '9' }
}

impl AsNumber {
    /// The numeric value, irrespective of the variant.
    pub open spec fn spec_value(self) -> u32 {
        match self {
            AsNumber::Small(v) => v as u32,
            AsNumber::Extended(v) => v,
        }
    }

    /// Returns the plain numeric value of this AS number.
    pub fn value(&self) -> (v: u32)
        ensures
            v == self.spec_value(),
    {
        match self {
            AsNumber::Small(v) => *v as u32,
            AsNumber::Extended(v) => *v,
        }
    }

    /// Renders the numeric value in decimal; `Small(100)` and a
    /// hypothetical `Extended(100)` render identically.
    pub fn to_display_string(&self) -> (s: String)
        ensures
            s@ == dec_str(self.spec_value() as nat),
    {
        u32_dec_string(self.value())
    }
}

impl From<u16> for AsNumber {
    /// A 16-bit AS number always fits the legacy form.
    fn from(value: u16) -> (r: AsNumber) {
        AsNumber::Small(value)
    }
}

impl vstd::std_specs::convert::FromSpecImpl<u16> for AsNumber {
    open spec fn obeys_from_spec() -> bool {
        true
    }

    open spec fn from_spec(v: u16) -> AsNumber {
        AsNumber::Small(v)
    }
}

impl From<u32> for AsNumber {
    /// A 32-bit AS number is normalized: the legacy form when it fits,
    /// the extended form otherwise.
    fn from(value: u32) -> (r: AsNumber) {
        if value <= 65535 {
            AsNumber::Small(value as u16)
        } else {
            AsNumber::Extended(value)
        }
    }
}

impl vstd::std_specs::convert::FromSpecImpl<u32> for AsNumber {
    open spec fn obeys_from_spec() -> bool {
        true
    }

    open spec fn from_spec(v: u32) -> AsNumber {
        normalized_as(v)
    }
}

/// Renders `n` in decimal, most significant digit first.
pub fn u32_dec_string(n: u32) -> (s: String)
    ensures
        s@ == dec_str(n as nat),
    decreases n,
{
    let d = dec_digit_string(n % 10);
    if n < 10 {
        d
    } else {
        let s = u32_dec_string(n / 10);
        s.concat(d.as_str())
    }
}

/// Renders one decimal digit.
fn dec_digit_string(d: u32) -> (s: String)
    requires
        d < 10,
    ensures
        s@ == seq![dec_digit_char(d as nat)],
{
    proof {
        reveal_strlit("0");
        reveal_strlit("1");
        reveal_strlit("2");
        reveal_strlit("3");
        reveal_strlit("4");
        reveal_strlit("5");
        reveal_strlit("6");
        reveal_strlit("7");
        reveal_strlit("8");
        reveal_strlit("9");
    }
    let lit = if d == 0 { "0" }
        else if d == 1 { "1" }
        else if d == 2 { "2" }
        else if d == 3 { "3" }
        else if d == 4 { "4" }
        else if d == 5 { "5" }
        else if d == 6 { "6" }
        else if d == 7 { "7" }
        else if d == 8 { "8" }
        else { "9" };
    let s = String::from_str(lit);
    proof {
        assert(s@ =~= seq![dec_digit_char(d as nat)]);
    }
    s
}

/// Law: normalizing any raw 32-bit AS number keeps values at or below
/// 65535 in the legacy `Small` form and larger values in `Extended`,
/// and the displayed numeric value is the raw value in either case.
pub proof fn lemma_as_number_normalization(n: u32)
    ensures
        n <= 65535 ==> normalized_as(n) == AsNumber::Small(n as u16),
        n > 65535 ==> normalized_as(n) == AsNumber::Extended(n),
        normalized_as(n).spec_value() == n,
{
}

} // verus!
