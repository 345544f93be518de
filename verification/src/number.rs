//! The renderer's numeric value model: a decimal with an optional sign,
//! an integer part and fraction digits. Host-supplied numbers are
//! carried in this form so their literal text is fully specified.

use vstd::prelude::*;
use vstd::string::StringExecFns;
use crate::strutil::push_char;

verus! {

/// A decimal number as the host hands it over: sign, integer part and
/// the digits after the decimal point (most significant first).
pub struct NumberValue {
    pub negative: bool,
    pub int_part: u64,
    pub frac: Vec<u8>,
}

/// The mathematical view of a number value.
pub struct NumberV {
    pub negative: bool,
    pub int_part: u64,
    pub frac: Seq<u8>,
}

impl View for NumberValue {
    type V = NumberV;

    open spec fn view(&self) -> NumberV {
        NumberV { negative: self.negative, int_part: self.int_part, frac: self.frac@ }
    }
}

/// The character for a decimal digit (digits are taken modulo ten).
pub open spec fn digit_char(d: int) -> char {
    ((48 + (d % 10)) as u8) as char
}

/// The decimal digit string of a non-negative integer.
pub open spec fn dec_digits(n: int) -> Seq<char>
    decreases n,
{
    if n < 10 {
        seq![digit_char(n)]
    } else {
        dec_digits(n / 10) + seq![digit_char(n % 10)]
    }
}

/// The characters of a fraction-digit list.
pub open spec fn frac_chars(s: Seq<u8>) -> Seq<char> {
    s.map_values(|d: u8| digit_char(d as int))
}

/// The literal text of a number value: sign, integer digits, and the
/// fraction digits after a point when any are present.
pub open spec fn number_literal(v: NumberV) -> Seq<char> {
    (if v.negative {
        "-"@
    } else {
        Seq::<char>::empty()
    }) + dec_digits(v.int_part as int) + (if v.frac.len() > 0 {
        "."@ + frac_chars(v.frac)
    } else {
        Seq::<char>::empty()
    })
}

/// Whether the value denotes zero (all digits zero).
pub open spec fn number_is_zero(v: NumberV) -> bool {
    &&& v.int_part == 0
    &&& forall|i: int| 0 <= i < v.frac.len() ==> (#[trigger] v.frac[i]) as int % 10 == 0
}

/// The number truncated toward zero and clamped to `u32`, as the style
/// encoder uses it for pixel values.
pub open spec fn number_trunc_u32(v: NumberV) -> u32 {
    if v.negative {
        0u32
    } else if v.int_part > u32::MAX as u64 {
        u32::MAX
    } else {
        v.int_part as u32
    }
}

fn digit_char_exec(d: u8) -> (r: char)
    ensures
        r == digit_char(d as int),
{
    (48 + (d % 10)) as char
}

/// Appends the decimal digits of `n` to `out`.
pub fn push_dec_digits(out: &mut String, n: u64)
    ensures
        final(out)@ == old(out)@ + dec_digits(n as int),
    decreases n,
{
    if n < 10 {
        push_char(out, digit_char_exec(n as u8));
        proof {
            assert(out@ =~= old(out)@ + dec_digits(n as int));
        }
    } else {
        push_dec_digits(out, n / 10);
        push_char(out, digit_char_exec((n % 10) as u8));
        proof {
            assert(out@ =~= old(out)@ + dec_digits(n as int));
        }
    }
}

impl NumberValue {
    /// Renders the literal text of this number.
    pub fn to_literal(&self) -> (r: String)
        ensures
            r@ == number_literal(self@),
    {
        let mut out = String::new();
        if self.negative {
            out.append("-");
            proof {
                assert(out@ =~= "-"@);
            }
        }
        push_dec_digits(&mut out, self.int_part);
        if self.frac.len() > 0 {
            out.append(".");
            let mut i: usize = 0;
            while i < self.frac.len()
                invariant
                    i <= self.frac@.len(),
                    out@ == (if self.negative {
                        "-"@
                    } else {
                        Seq::<char>::empty()
                    }) + dec_digits(self.int_part as int) + "."@ + frac_chars(
                        self.frac@.subrange(0, i as int),
                    ),
                decreases self.frac@.len() - i,
            {
                push_char(&mut out, digit_char_exec(self.frac[i]));
                proof {
                    assert(self.frac@.subrange(0, i as int + 1).drop_last() =~= self.frac@.subrange(
                        0,
                        i as int,
                    ));
                    assert(frac_chars(self.frac@.subrange(0, i as int + 1)) =~= frac_chars(
                        self.frac@.subrange(0, i as int),
                    ).push(digit_char(self.frac@[i as int] as int)));
                    assert(out@ =~= (if self.negative {
                        "-"@
                    } else {
                        Seq::<char>::empty()
                    }) + dec_digits(self.int_part as int) + "."@ + frac_chars(
                        self.frac@.subrange(0, i as int + 1),
                    ));
                }
                i = i + 1;
            }
            proof {
                assert(self.frac@.subrange(0, self.frac@.len() as int) =~= self.frac@);
                assert(out@ =~= number_literal(self@));
            }
        } else {
            proof {
                assert(out@ =~= number_literal(self@));
            }
        }
        out
    }

    /// Whether this value denotes zero.
    pub fn is_zero(&self) -> (r: bool)
        ensures
            r == number_is_zero(self@),
    {
        if self.int_part != 0 {
            return false;
        }
        let mut i: usize = 0;
        while i < self.frac.len()
            invariant
                i <= self.frac@.len(),
                forall|j: int| 0 <= j < i ==> (#[trigger] self.frac@[j]) as int % 10 == 0,
            decreases self.frac@.len() - i,
        {
            if self.frac[i] % 10 != 0 {
                proof {
                    let v = self@;
                    assert(0 <= (i as int) && (i as int) < v.frac.len() && v.frac[i as int] as int % 10 != 0);
                    assert(!number_is_zero(self@));
                }
                return false;
            }
            i = i + 1;
        }
        true
    }

    /// The value truncated toward zero, clamped to `u32`.
    pub fn trunc_u32(&self) -> (r: u32)
        ensures
            r == number_trunc_u32(self@),
    {
        if self.negative {
            0
        } else if self.int_part > u32::MAX as u64 {
            u32::MAX
        } else {
            self.int_part as u32
        }
    }

    /// An exact copy of this number value.
    pub fn duplicate(&self) -> (r: NumberValue)
        ensures
            r@ == self@,
    {
        let mut frac: Vec<u8> = Vec::new();
        let mut i: usize = 0;
        while i < self.frac.len()
            invariant
                i <= self.frac@.len(),
                frac@ == self.frac@.subrange(0, i as int),
            decreases self.frac@.len() - i,
        {
            frac.push(self.frac[i]);
            proof {
                assert(frac@ =~= self.frac@.subrange(0, i as int + 1));
            }
            i = i + 1;
        }
        proof {
            assert(frac@ =~= self.frac@);
        }
        NumberValue { negative: self.negative, int_part: self.int_part, frac }
    }
}


/// The textual form of a duration: whole seconds with an `s` suffix
/// when there are any, and milliseconds with three digits of
/// microsecond precision (truncated) when the sub-second part is
/// nonzero.
pub open spec fn duration_text(seconds: u64, subsec_nanos: u32) -> Seq<char> {
    (if seconds > 0 {
        dec_digits(seconds as int) + "s"@
    } else {
        Seq::<char>::empty()
    }) + (if subsec_nanos > 0 {
        dec_digits(subsec_nanos as int / 1000000) + "."@ + seq![
            digit_char(subsec_nanos as int / 100000),
            digit_char(subsec_nanos as int / 10000),
            digit_char(subsec_nanos as int / 1000),
        ] + "ms"@
    } else {
        Seq::<char>::empty()
    })
}

/// Formats a duration given as whole seconds and sub-second
/// nanoseconds.
pub fn duration_str(seconds: u64, subsec_nanos: u32) -> (r: String)
    ensures
        r@ == duration_text(seconds, subsec_nanos),
{
    let mut out = String::new();
    if seconds > 0 {
        push_dec_digits(&mut out, seconds);
        out.append("s");
    }
    if subsec_nanos > 0 {
        let ghost before = out@;
        push_dec_digits(&mut out, (subsec_nanos / 1000000) as u64);
        out.append(".");
        push_char(&mut out, digit_char_exec(((subsec_nanos / 100000) % 10) as u8));
        push_char(&mut out, digit_char_exec(((subsec_nanos / 10000) % 10) as u8));
        push_char(&mut out, digit_char_exec(((subsec_nanos / 1000) % 10) as u8));
        out.append("ms");
        proof {
            assert((subsec_nanos / 100000) as int % 10 == subsec_nanos as int / 100000 % 10);
            assert(out@ =~= before + (dec_digits(subsec_nanos as int / 1000000) + "."@ + seq![
                digit_char(subsec_nanos as int / 100000),
                digit_char(subsec_nanos as int / 10000),
                digit_char(subsec_nanos as int / 1000),
            ] + "ms"@));
        }
    }
    proof {
        assert(out@ =~= duration_text(seconds, subsec_nanos));
    }
    out
}

} // verus!
