//! The wire I/O boundary: parsing textual values into plaintext wire values
//! and building the named input map that seeds a run. Boolean mode reads
//! "1" and "true" as true and, leniently, any other token as false; the
//! arithmetic modes read an unsigned decimal of the mode's width and fall
//! back to zero for a malformed or overflowing token, reporting nothing —
//! a malformed entry never aborts a run.
use vstd::prelude::*;

use crate::eval::str_eq;
use crate::values::{Mode, PtxtError, PtxtType};

verus! {

/// One tenth of the largest value a 128-bit unsigned integer holds, rounded
/// down; a parse whose accumulator exceeds it is about to overflow.
pub const U128_MAX_TENTH: u128 = 34028236692093846346337460743176821145;

/// An ASCII decimal digit.
pub open spec fn is_digit(c: char) -> bool {
    48 <= c as int <= 57
}

pub open spec fn digit_val(c: char) -> int {
    c as int - 48
}

/// The value of a digit string, most significant digit first.
pub open spec fn dec_val(s: Seq<char>) -> int
    decreases s.len(),
{
    if s.len() == 0 {
        0
    } else {
        dec_val(s.drop_last()) * 10 + digit_val(s.last())
    }
}

pub open spec fn all_digits(s: Seq<char>) -> bool {
    forall|i: int| 0 <= i < s.len() ==> is_digit(#[trigger] s[i])
}

/// The digits of an unsigned decimal token: everything after one optional
/// leading plus sign.
pub open spec fn digits_part(s: Seq<char>) -> Seq<char> {
    if s.len() > 0 && s[0] == '+' {
        s.skip(1)
    } else {
        s
    }
}

/// The token is an unsigned decimal: an optional plus sign, then at least
/// one digit.
pub open spec fn is_uint_text(s: Seq<char>) -> bool {
    digits_part(s).len() > 0 && all_digits(digits_part(s))
}

/// The numeric value of an unsigned decimal token.
pub open spec fn text_val(s: Seq<char>) -> int {
    dec_val(digits_part(s))
}

pub proof fn lemma_all_digits_sub(s: Seq<char>, j: int)
    requires
        all_digits(s),
        0 <= j <= s.len(),
    ensures
        all_digits(s.take(j)),
{
    assert(forall|i: int| 0 <= i < j ==> s.take(j)[i] == s[i]);
}

pub proof fn lemma_dec_val_nonneg(s: Seq<char>)
    requires
        all_digits(s),
    ensures
        dec_val(s) >= 0,
    decreases s.len(),
{
    if s.len() > 0 {
        assert(forall|i: int| 0 <= i < s.drop_last().len() ==> s.drop_last()[i] == s[i]);
        lemma_dec_val_nonneg(s.drop_last());
    }
}

/// A digit string's value only grows as digits are appended.
pub proof fn lemma_dec_prefix_le(s: Seq<char>, j: int)
    requires
        all_digits(s),
        0 <= j <= s.len(),
    ensures
        dec_val(s.take(j)) <= dec_val(s),
    decreases s.len() - j,
{
    if j < s.len() {
        assert(s.take(j + 1).drop_last() =~= s.take(j));
        assert(s.take(j + 1).last() == s[j]);
        lemma_all_digits_sub(s, j);
        lemma_dec_val_nonneg(s.take(j));
        assert(dec_val(s.take(j + 1)) == dec_val(s.take(j)) * 10 + digit_val(s[j]));
        lemma_dec_prefix_le(s, j + 1);
    } else {
        assert(s.take(j) =~= s);
    }
}

/// Parses an unsigned decimal token into a 128-bit value: `Some` exactly
/// when the token is well-formed and its value fits.
#[verifier::loop_isolation(false)]
pub fn parse_u128(s: &str) -> (r: Option<u128>)
    ensures
        (match r {
            Option::Some(v) => is_uint_text(s@) && text_val(s@) == v as int,
            Option::None => !is_uint_text(s@) || text_val(s@) > u128::MAX as int,
        }),
{
    let len = s.unicode_len();
    let start: usize = if len > 0 && s.get_char(0) == '+' {
        1
    } else {
        0
    };
    let ghost digits = digits_part(s@);
    proof {
        assert(digits =~= s@.skip(start as int));
    }
    if len == start {
        assert(!is_uint_text(s@));
        return Option::None;
    }
    let mut acc: u128 = 0;
    let mut i: usize = start;
    while i < len
        invariant
            start <= i <= len,
            len == s@.len(),
            digits =~= s@.skip(start as int),
            digits.len() == len - start,
            forall|t: int| 0 <= t < i - start ==> is_digit(#[trigger] digits[t]),
            acc as int == dec_val(digits.take(i - start)),
        decreases len - i,
    {
        let c = s.get_char(i);
        let cv = c as u32;
        assert(digits[i - start] == c);
        if cv < 48 || cv > 57 {
            assert(!is_digit(digits[i - start]));
            assert(!all_digits(digits));
            return Option::None;
        }
        let d = (cv - 48) as u128;
        let ghost pfx = digits.take(i - start);
        let ghost pfx1 = digits.take(i - start + 1);
        proof {
            assert(pfx1.drop_last() =~= pfx);
            assert(pfx1.last() == digits[i - start]);
            assert(dec_val(pfx1) == dec_val(pfx) * 10 + d);
        }
        if acc > U128_MAX_TENTH || (acc == U128_MAX_TENTH && d > 5) {
            proof {
                assert(dec_val(pfx1) > u128::MAX as int);
                if all_digits(digits) {
                    lemma_dec_prefix_le(digits, i - start + 1);
                    assert(text_val(s@) > u128::MAX as int);
                }
            }
            return Option::None;
        }
        acc = acc * 10 + d;
        i += 1;
    }
    proof {
        assert(digits.take(len - start) =~= digits);
        assert(all_digits(digits));
        assert(is_uint_text(s@));
    }
    Option::Some(acc)
}

/// The value a textual token stands for: "None" for the uninitialized
/// marker, otherwise an unsigned decimal put in the smallest width it fits,
/// otherwise a parse fault.
pub open spec fn spec_from_str(s: Seq<char>) -> Result<PtxtType, PtxtError> {
    if s == "None"@ {
        Ok(PtxtType::Uninit)
    } else if !is_uint_text(s) || text_val(s) > u128::MAX as int {
        Err(PtxtError::InvalidInput)
    } else if text_val(s) <= u8::MAX as int {
        Ok(PtxtType::U8(text_val(s) as u8))
    } else if text_val(s) <= u16::MAX as int {
        Ok(PtxtType::U16(text_val(s) as u16))
    } else if text_val(s) <= u32::MAX as int {
        Ok(PtxtType::U32(text_val(s) as u32))
    } else if text_val(s) <= u64::MAX as int {
        Ok(PtxtType::U64(text_val(s) as u64))
    } else {
        Ok(PtxtType::U128(text_val(s) as u128))
    }
}

impl PtxtType {
    /// Parses a textual value: "None", or an unsigned decimal stored at the
    /// smallest width that holds it; anything else is a parse fault. The
    /// exact reading is `spec_from_str`.
    pub fn from_str(s: &str) -> (r: Result<PtxtType, PtxtError>)
        ensures
            r == spec_from_str(s@),
    {
        if str_eq(s, "None") {
            return Ok(PtxtType::Uninit);
        }
        match parse_u128(s) {
            Option::None => Err(PtxtError::InvalidInput),
            Option::Some(v) => {
                if v <= u8::MAX as u128 {
                    Ok(PtxtType::U8(v as u8))
                } else if v <= u16::MAX as u128 {
                    Ok(PtxtType::U16(v as u16))
                } else if v <= u32::MAX as u128 {
                    Ok(PtxtType::U32(v as u32))
                } else if v <= u64::MAX as u128 {
                    Ok(PtxtType::U64(v as u64))
                } else {
                    Ok(PtxtType::U128(v))
                }
            },
        }
    }
}

/// The character of one decimal digit.
pub open spec fn digit_char(d: int) -> char {
    ((48 + d) as u8) as char
}

/// The decimal digits of a number, most significant first.
pub open spec fn dec_digits(n: int) -> Seq<char>
    decreases n,
{
    if n < 10 {
        seq![digit_char(n)]
    } else {
        dec_digits(n / 10).push(digit_char(n % 10))
    }
}

/// The textual form of a value: its width tag and its decimal digits.
pub open spec fn spec_render(v: PtxtType) -> Seq<char> {
    match v {
        PtxtType::Bool(b) => if b {
            "Bool(true)"@
        } else {
            "Bool(false)"@
        },
        PtxtType::U8(x) => "U8("@ + dec_digits(x as int) + ")"@,
        PtxtType::U16(x) => "U16("@ + dec_digits(x as int) + ")"@,
        PtxtType::U32(x) => "U32("@ + dec_digits(x as int) + ")"@,
        PtxtType::U64(x) => "U64("@ + dec_digits(x as int) + ")"@,
        PtxtType::U128(x) => "U128("@ + dec_digits(x as int) + ")"@,
        PtxtType::Uninit => "None"@,
    }
}

/// The one-character string of a decimal digit.
fn digit_str(d: u128) -> (r: &'static str)
    requires
        d < 10,
    ensures
        r@ == seq![digit_char(d as int)],
{
    proof {
        reveal_strlit("0");
        reveal_strlit("1");
        reveal_strlit("2");
        reveal_strlit("3");
        reveal_strlit("4");
        reveal_strlit("5");
        reveal_strlit("6");
        reveal_strlit("7");
        reveal_strlit("8");
        reveal_strlit("9");
    }
    match d {
        0 => "0",
        1 => "1",
        2 => "2",
        3 => "3",
        4 => "4",
        5 => "5",
        6 => "6",
        7 => "7",
        8 => "8",
        _ => "9",
    }
}

/// Appends a number's decimal digits.
fn push_dec(s: &mut String, n: u128)
    ensures
        final(s)@ == old(s)@ + dec_digits(n as int),
    decreases n,
{
    let ghost pre = s@;
    if n >= 10 {
        push_dec(s, n / 10);
        s.append(digit_str(n % 10));
        proof {
            assert(s@ =~= pre + dec_digits(n as int));
        }
    } else {
        s.append(digit_str(n));
        proof {
            assert(s@ =~= pre + dec_digits(n as int));
        }
    }
}

impl PtxtType {
    /// The textual form of the value, its width tag and decimal digits;
    /// exactly `spec_render`.
    pub fn to_text(&self) -> (r: String)
        ensures
            r@ == spec_render(*self),
    {
        match self {
            PtxtType::Bool(b) => if *b {
                String::from_str("Bool(true)")
            } else {
                String::from_str("Bool(false)")
            },
            PtxtType::U8(x) => {
                let mut s = String::from_str("U8(");
                push_dec(&mut s, *x as u128);
                s.append(")");
                proof {
                    assert(s@ =~= spec_render(*self));
                }
                s
            },
            PtxtType::U16(x) => {
                let mut s = String::from_str("U16(");
                push_dec(&mut s, *x as u128);
                s.append(")");
                proof {
                    assert(s@ =~= spec_render(*self));
                }
                s
            },
            PtxtType::U32(x) => {
                let mut s = String::from_str("U32(");
                push_dec(&mut s, *x as u128);
                s.append(")");
                proof {
                    assert(s@ =~= spec_render(*self));
                }
                s
            },
            PtxtType::U64(x) => {
                let mut s = String::from_str("U64(");
                push_dec(&mut s, *x as u128);
                s.append(")");
                proof {
                    assert(s@ =~= spec_render(*self));
                }
                s
            },
            PtxtType::U128(x) => {
                let mut s = String::from_str("U128(");
                push_dec(&mut s, *x as u128);
                s.append(")");
                proof {
                    assert(s@ =~= spec_render(*self));
                }
                s
            },
            PtxtType::Uninit => String::from_str("None"),
        }
    }
}

/// The mode a textual mode name selects.
pub open spec fn spec_mode_of(s: Seq<char>) -> Option<Mode> {
    if s == "bool"@ {
        Option::Some(Mode::Bool)
    } else if s == "u8"@ {
        Option::Some(Mode::U8)
    } else if s == "u16"@ {
        Option::Some(Mode::U16)
    } else if s == "u32"@ {
        Option::Some(Mode::U32)
    } else if s == "u64"@ {
        Option::Some(Mode::U64)
    } else if s == "u128"@ {
        Option::Some(Mode::U128)
    } else {
        Option::None
    }
}

/// Parses a mode name: one of "bool", "u8", "u16", "u32", "u64", "u128".
pub fn mode_of(s: &str) -> (r: Option<Mode>)
    ensures
        r == spec_mode_of(s@),
{
    if str_eq(s, "bool") {
        Option::Some(Mode::Bool)
    } else if str_eq(s, "u8") {
        Option::Some(Mode::U8)
    } else if str_eq(s, "u16") {
        Option::Some(Mode::U16)
    } else if str_eq(s, "u32") {
        Option::Some(Mode::U32)
    } else if str_eq(s, "u64") {
        Option::Some(Mode::U64)
    } else if str_eq(s, "u128") {
        Option::Some(Mode::U128)
    } else {
        Option::None
    }
}

/// The value one textual input token stands for in the given mode. Boolean
/// mode reads "1" and "true" as true and anything else, leniently, as
/// false; an arithmetic mode reads an unsigned decimal of its width and
/// falls back to zero for a malformed or overflowing token.
pub open spec fn spec_parse_token(m: Mode, t: Seq<char>) -> PtxtType {
    match m {
        Mode::Bool => PtxtType::Bool(t == "1"@ || t == "true"@),
        Mode::U8 => if is_uint_text(t) && text_val(t) <= u8::MAX as int {
            PtxtType::U8(text_val(t) as u8)
        } else {
            PtxtType::U8(0)
        },
        Mode::U16 => if is_uint_text(t) && text_val(t) <= u16::MAX as int {
            PtxtType::U16(text_val(t) as u16)
        } else {
            PtxtType::U16(0)
        },
        Mode::U32 => if is_uint_text(t) && text_val(t) <= u32::MAX as int {
            PtxtType::U32(text_val(t) as u32)
        } else {
            PtxtType::U32(0)
        },
        Mode::U64 => if is_uint_text(t) && text_val(t) <= u64::MAX as int {
            PtxtType::U64(text_val(t) as u64)
        } else {
            PtxtType::U64(0)
        },
        Mode::U128 => if is_uint_text(t) && text_val(t) <= u128::MAX as int {
            PtxtType::U128(text_val(t) as u128)
        } else {
            PtxtType::U128(0)
        },
    }
}

/// Parses one textual input token in the given mode; the exact reading,
/// lenient fallback included, is `spec_parse_token`.
pub fn parse_token(m: Mode, t: &str) -> (r: PtxtType)
    ensures
        r == spec_parse_token(m, t@),
{
    match m {
        Mode::Bool => PtxtType::Bool(str_eq(t, "1") || str_eq(t, "true")),
        Mode::U8 => match parse_u128(t) {
            Option::Some(v) if v <= u8::MAX as u128 => PtxtType::U8(v as u8),
            _ => PtxtType::U8(0),
        },
        Mode::U16 => match parse_u128(t) {
            Option::Some(v) if v <= u16::MAX as u128 => PtxtType::U16(v as u16),
            _ => PtxtType::U16(0),
        },
        Mode::U32 => match parse_u128(t) {
            Option::Some(v) if v <= u32::MAX as u128 => PtxtType::U32(v as u32),
            _ => PtxtType::U32(0),
        },
        Mode::U64 => match parse_u128(t) {
            Option::Some(v) if v <= u64::MAX as u128 => PtxtType::U64(v as u64),
            _ => PtxtType::U64(0),
        },
        Mode::U128 => match parse_u128(t) {
            Option::Some(v) => PtxtType::U128(v),
            Option::None => PtxtType::U128(0),
        },
    }
}

/// Builds the named input map that seeds a run from textual (name, value)
/// pairs, each value parsed in the mode the textual mode name selects.
/// The mode name must be one the run accepts; the caller checks it first.
#[verifier::loop_isolation(false)]
pub fn get_input_wire_map(wire_inputs: &Vec<(String, String)>, arithmetic_type: &str) -> (r: Vec<
    (String, PtxtType),
>)
    requires
        spec_mode_of(arithmetic_type@) is Some,
    ensures
        r@.len() == wire_inputs@.len(),
        forall|i: int|
            0 <= i < r@.len() ==> (#[trigger] r@[i]).0@ == wire_inputs@[i].0@ && r@[i].1
                == spec_parse_token(spec_mode_of(arithmetic_type@)->0, wire_inputs@[i].1@),
{
    let m = match mode_of(arithmetic_type) {
        Option::Some(m) => m,
        Option::None => {
            assert(false);
            Mode::Bool
        },
    };
    let mut r: Vec<(String, PtxtType)> = Vec::new();
    let mut i: usize = 0;
    while i < wire_inputs.len()
        invariant
            i <= wire_inputs@.len(),
            r@.len() == i,
            forall|t: int|
                0 <= t < i ==> (#[trigger] r@[t]).0@ == wire_inputs@[t].0@ && r@[t].1
                    == spec_parse_token(m, wire_inputs@[t].1@),
        decreases wire_inputs@.len() - i,
    {
        let name = wire_inputs[i].0.clone();
        let v = parse_token(m, wire_inputs[i].1.as_str());
        r.push((name, v));
        i += 1;
    }
    r
}

} // verus!
