//! Parsing of the numeric ASCII fields that the device sends: plain digit
//! runs and decimal numbers with a fractional part.

use vstd::prelude::*;

verus! {

/// Byte separating the whole and fractional digits of a decimal field.
pub const DECIMAL_POINT: u8 = 46;

/// True of an ASCII decimal digit.
pub open spec fn is_ascii_digit(b: u8) -> bool {
    48 <= b <= 57
}

/// Numeric value of one digit byte; zero for anything else.
pub open spec fn digit_value(b: u8) -> nat {
    if is_ascii_digit(b) {
        (b - 48) as nat
    } else {
        0
    }
}

pub open spec fn all_digits(s: Seq<u8>) -> bool {
    forall|i: int| 0 <= i < s.len() ==> is_ascii_digit(#[trigger] s[i])
}

/// Value of a digit run, most significant digit first.
pub open spec fn digits_value(s: Seq<u8>) -> nat
    decreases s.len(),
{
    if s.len() == 0 {
        0
    } else {
        digits_value(s.drop_last()) * 10 + digit_value(s.last())
    }
}

/// An unsigned numeric field: one or more ASCII digits.
pub open spec fn is_unsigned_field(s: Seq<u8>) -> bool {
    s.len() > 0 && all_digits(s)
}

/// A digit run is worth at least as much as any of its prefixes.
pub proof fn lemma_digits_value_take_le(s: Seq<u8>, j: int)
    requires
        0 <= j <= s.len(),
    ensures
        digits_value(s.take(j)) <= digits_value(s),
    decreases s.len() - j,
{
    if j == s.len() {
        assert(s.take(j) =~= s);
    } else {
        assert(s.take(j + 1).drop_last() =~= s.take(j));
        lemma_digits_value_take_le(s, j + 1);
    }
}

/// Parse an unsigned numeric field. Succeeds exactly when the bytes are one
/// or more ASCII digits whose value fits in a `u64`.
pub fn parse_unsigned(s: &Vec<u8>) -> (r: Result<u64, ()>)
    ensures
        r is Ok <==> is_unsigned_field(s@) && digits_value(s@) <= u64::MAX,
        r is Ok ==> r->Ok_0 as nat == digits_value(s@),
{
    if s.len() == 0 {
        return Err(());
    }
    let mut acc: u64 = 0;
    let mut i: usize = 0;
    while i < s.len()
        invariant
            0 <= i <= s@.len(),
            all_digits(s@.take(i as int)),
            acc as nat == digits_value(s@.take(i as int)),
        decreases s@.len() - i,
    {
        let b = s[i];
        if b < 48 || b > 57 {
            assert(!is_ascii_digit(s@[i as int]));
            return Err(());
        }
        let d: u64 = (b - 48) as u64;
        proof {
            assert(s@.take(i + 1).drop_last() =~= s@.take(i as int));
            assert(s@.take(i + 1).last() == s@[i as int]);
        }
        if acc > (u64::MAX - d) / 10 {
            proof {
                assert(acc * 10 + d > u64::MAX) by (nonlinear_arith)
                    requires
                        acc > (u64::MAX - d) / 10,
                        d <= 9,
                ;
                lemma_digits_value_take_le(s@, i + 1);
            }
            return Err(());
        }
        proof {
            assert(acc * 10 + d <= u64::MAX) by (nonlinear_arith)
                requires
                    acc <= (u64::MAX - d) / 10,
                    d <= 9,
            ;
        }
        acc = acc * 10 + d;
        i = i + 1;
    }
    proof {
        assert(s@.take(s@.len() as int) =~= s@);
    }
    Ok(acc)
}

/// Index of the first decimal point in `s`, or `s.len()` when there is none.
pub open spec fn first_dot(s: Seq<u8>) -> int
    decreases s.len(),
{
    if s.len() == 0 {
        0
    } else if s[0] == DECIMAL_POINT {
        0
    } else {
        1 + first_dot(s.skip(1))
    }
}

proof fn lemma_first_dot_at(s: Seq<u8>, i: int)
    requires
        0 <= i < s.len(),
        s[i] == DECIMAL_POINT,
        forall|k: int| 0 <= k < i ==> s[k] != DECIMAL_POINT,
    ensures
        first_dot(s) == i,
    decreases i,
{
    if i > 0 {
        assert forall|k: int| 0 <= k < i - 1 implies s.skip(1)[k] != DECIMAL_POINT by {
            assert(s.skip(1)[k] == s[k + 1]);
        }
        assert(s.skip(1)[i - 1] == s[i]);
        lemma_first_dot_at(s.skip(1), i - 1);
    }
}

proof fn lemma_first_dot_none(s: Seq<u8>)
    requires
        forall|k: int| 0 <= k < s.len() ==> s[k] != DECIMAL_POINT,
    ensures
        first_dot(s) == s.len(),
    decreases s.len(),
{
    if s.len() > 0 {
        assert forall|k: int| 0 <= k < s.skip(1).len() implies s.skip(1)[k] != DECIMAL_POINT by {
            assert(s.skip(1)[k] == s[k + 1]);
        }
        lemma_first_dot_none(s.skip(1));
    }
}

/// A decimal numeric field: a run of digits, optionally followed by one
/// decimal point and a further run of digits, both runs nonempty.
pub open spec fn is_decimal_field(s: Seq<u8>) -> bool {
    let d = first_dot(s);
    if d == s.len() {
        is_unsigned_field(s)
    } else {
        &&& 0 < d
        &&& d + 1 < s.len()
        &&& all_digits(s.take(d))
        &&& all_digits(s.skip(d + 1))
    }
}

/// The digits of a decimal field with the decimal point removed.
pub open spec fn mantissa_digits(s: Seq<u8>) -> Seq<u8> {
    let d = first_dot(s);
    if d == s.len() {
        s
    } else {
        s.take(d) + s.skip(d + 1)
    }
}

/// How many fraction digits a decimal field carries.
pub open spec fn dec_scale(s: Seq<u8>) -> int {
    let d = first_dot(s);
    if d == s.len() {
        0
    } else {
        s.len() - d - 1
    }
}

/// A decimal number as sent by the device: the digit run as an integer and
/// the count of fraction digits, so that the value is
/// `mantissa / 10^scale`.
#[derive(Clone, Copy, Debug, PartialEq, Eq, Structural)]
pub struct Decimal {
    pub mantissa: u64,
    pub scale: u8,
}

/// Find the first decimal point of a field, if any.
fn find_first_dot(s: &Vec<u8>) -> (d: usize)
    ensures
        d as int == first_dot(s@),
        d <= s@.len(),
{
    let mut i: usize = 0;
    while i < s.len()
        invariant
            0 <= i <= s@.len(),
            forall|k: int| 0 <= k < i ==> s@[k] != DECIMAL_POINT,
        decreases s@.len() - i,
    {
        if s[i] == DECIMAL_POINT {
            proof {
                lemma_first_dot_at(s@, i as int);
            }
            return i;
        }
        i = i + 1;
    }
    proof {
        lemma_first_dot_none(s@);
    }
    i
}

/// Parse a decimal numeric field. Succeeds exactly when the bytes form a
/// decimal field whose digit run fits in a `u64` and whose fraction length
/// fits in a `u8`.
pub fn parse_decimal(s: &Vec<u8>) -> (r: Result<Decimal, ()>)
    ensures
        r is Ok <==> is_decimal_field(s@) && digits_value(mantissa_digits(s@)) <= u64::MAX
            && dec_scale(s@) <= u8::MAX,
        r is Ok ==> r->Ok_0.mantissa as nat == digits_value(mantissa_digits(s@)),
        r is Ok ==> r->Ok_0.scale as int == dec_scale(s@),
{
    let d = find_first_dot(s);
    if d == s.len() {
        match parse_unsigned(s) {
            Ok(m) => Ok(Decimal { mantissa: m, scale: 0 }),
            Err(()) => Err(()),
        }
    } else {
        if d == 0 || d + 1 == s.len() {
            return Err(());
        }
        let scale_big: usize = s.len() - d - 1;
        if scale_big > 255 {
            return Err(());
        }
        let scale: u8 = scale_big as u8;
        let mut digits: Vec<u8> = Vec::new();
        let mut i: usize = 0;
        while i < d
            invariant
                0 <= i <= d,
                d < s@.len(),
                digits@ == s@.subrange(0, i as int),
            decreases d - i,
        {
            let b = s[i];
            digits.push(b);
            proof {
                assert(s@.subrange(0, i + 1) =~= s@.subrange(0, i as int).push(s@[i as int]));
            }
            i = i + 1;
        }
        let mut j: usize = d + 1;
        while j < s.len()
            invariant
                d + 1 <= j <= s@.len(),
                digits@ == s@.take(d as int) + s@.subrange(d + 1, j as int),
            decreases s@.len() - j,
        {
            let b = s[j];
            digits.push(b);
            proof {
                assert(s@.take(d as int) + s@.subrange(d + 1, j + 1) =~= (s@.take(d as int)
                    + s@.subrange(d + 1, j as int)).push(s@[j as int]));
            }
            j = j + 1;
        }
        proof {
            assert(s@.subrange(d + 1, s@.len() as int) =~= s@.skip(d + 1));
            assert(digits@ =~= mantissa_digits(s@));
            let a = s@.take(d as int);
            let b = s@.skip(d + 1);
            assert(a.len() > 0);
            assert forall|k: int| 0 <= k < a.len() implies a[k] == digits@[k] by {}
            assert forall|k: int| 0 <= k < b.len() implies b[k] == digits@[k + a.len()] by {}
            assert(all_digits(digits@) ==> all_digits(a) && all_digits(b));
            assert(all_digits(a) && all_digits(b) ==> all_digits(digits@)) by {
                if all_digits(a) && all_digits(b) {
                    assert forall|k: int| 0 <= k < digits@.len() implies is_ascii_digit(
                        digits@[k],
                    ) by {
                        if k < a.len() {
                            assert(digits@[k] == a[k]);
                        } else {
                            assert(digits@[k] == b[k - a.len()]);
                        }
                    }
                }
            }
        }
        match parse_unsigned(&digits) {
            Ok(m) => Ok(Decimal { mantissa: m, scale }),
            Err(()) => Err(()),
        }
    }
}

} // verus!
