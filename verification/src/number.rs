use vstd::prelude::*;
use vstd::slice::*;
use crate::text::{find_char, find_from};

verus! {

/// A decimal number in canonical fixed-point form: the value is
/// `mantissa / 10^scale`, negated when `negative`.
#[derive(Clone, Copy, Debug, PartialEq, Eq)]
pub struct Decimal {
    pub negative: bool,
    pub mantissa: u64,
    pub scale: u32,
}

impl Decimal {
    /// Canonical form: no trailing zero among the fractional digits, and no
    /// negative zero.
    pub open spec fn wf(self) -> bool {
        &&& (self.scale == 0 || self.mantissa % 10 != 0)
        &&& (self.mantissa == 0 ==> !self.negative)
    }

    /// Whether two numbers denote the same value.
    pub open spec fn same_value(self, other: Decimal) -> bool {
        &&& self.mantissa * pow10(other.scale as nat) == other.mantissa * pow10(self.scale as nat)
        &&& (self.mantissa != 0 ==> self.negative == other.negative)
    }

    /// The whole number `n`.
    pub fn from_integer(n: u64) -> (d: Decimal)
        ensures
            d == (Decimal { negative: false, mantissa: n, scale: 0 }),
            d.wf(),
    {
        Decimal { negative: false, mantissa: n, scale: 0 }
    }
}

/// Whether a character is a decimal digit.
pub open spec fn is_digit(c: char) -> bool {
    '0' <= c && c <= '9'
}

/// The value of a decimal digit; zero for any other character.
pub open spec fn digit_of(c: char) -> nat {
    if is_digit(c) {
        (c as nat - '0' as nat) as nat
    } else {
        0
    }
}

/// Whether every character is a decimal digit.
pub open spec fn all_digits(s: Seq<char>) -> bool {
    forall|i: int| 0 <= i < s.len() ==> is_digit(#[trigger] s[i])
}

/// The number that a run of decimal digits denotes, most significant first.
pub open spec fn digits_value(s: Seq<char>) -> nat
    decreases s.len(),
{
    if s.len() == 0 {
        0
    } else {
        digits_value(s.drop_last()) * 10 + digit_of(s.last())
    }
}

/// A decimal integer: one or more digits whose value fits in 64 bits.
pub open spec fn decimal_integer(s: Seq<char>) -> Option<u64> {
    if s.len() > 0 && all_digits(s) && digits_value(s) <= u64::MAX {
        Some(digits_value(s) as u64)
    } else {
        None
    }
}

/// A prefix of a digit run never denotes more than the whole run.
pub proof fn lemma_digits_value_prefix(s: Seq<char>, k: int)
    requires
        0 <= k <= s.len(),
    ensures
        digits_value(s.take(k)) <= digits_value(s),
    decreases s.len() - k,
{
    if k < s.len() {
        lemma_digits_value_prefix(s, k + 1);
        assert(s.take(k + 1).drop_last() =~= s.take(k));
    } else {
        assert(s.take(k) =~= s);
    }
}

/// Whether every character of `s` is a decimal digit.
pub fn is_digits(s: &[char]) -> (all: bool)
    ensures
        all == all_digits(s@),
{
    let n = s.len();
    let mut i: usize = 0;
    while i < n
        invariant
            i <= n,
            n == s@.len(),
            forall|j: int| 0 <= j < i ==> is_digit(#[trigger] s@[j]),
        decreases n - i,
    {
        let c = s[i];
        if !(c >= '0' && c <= '9') {
            return false;
        }
        i += 1;
    }
    true
}

/// Reads a decimal integer.
pub fn parse_u64(s: &[char]) -> (res: Option<u64>)
    ensures
        res == decimal_integer(s@),
{
    let n = s.len();
    if n == 0 {
        return None;
    }
    let mut acc: u64 = 0;
    let mut i: usize = 0;
    while i < n
        invariant
            i <= n,
            n == s@.len(),
            all_digits(s@.take(i as int)),
            acc == digits_value(s@.take(i as int)),
        decreases n - i,
    {
        let c = s[i];
        if !(c >= '0' && c <= '9') {
            return None;
        }
        let d: u64 = (c as u32 - '0' as u32) as u64;
        proof {
            assert(s@.take(i + 1).drop_last() =~= s@.take(i as int));
            assert(s@.take(i + 1).last() == c);
            assert(digits_value(s@.take(i + 1)) == acc * 10 + d);
            lemma_digits_value_prefix(s@, i + 1);
        }
        let shifted = match acc.checked_mul(10) {
            Some(m) => m,
            None => {
                return None;
            },
        };
        acc = match shifted.checked_add(d) {
            Some(v) => v,
            None => {
                return None;
            },
        };
        i += 1;
    }
    proof {
        assert(s@.take(n as int) =~= s@);
    }
    Some(acc)
}

/// `s` without the zeros at its end.
pub open spec fn trim_zeros(s: Seq<char>) -> Seq<char>
    decreases s.len(),
{
    if s.len() > 0 && s.last() == '0' {
        trim_zeros(s.drop_last())
    } else {
        s
    }
}

/// Whether `s` begins with a minus sign.
pub open spec fn has_sign(s: Seq<char>) -> bool {
    s.len() > 0 && s[0] == '-'
}

/// `s` without its minus sign, if it has one.
pub open spec fn unsigned_part(s: Seq<char>) -> Seq<char> {
    if has_sign(s) {
        s.subrange(1, s.len() as int)
    } else {
        s
    }
}

/// The digits before the decimal point of an unsigned number.
pub open spec fn whole_digits(body: Seq<char>) -> Seq<char> {
    body.subrange(0, find_from(body, '.', 0))
}

/// The digits after the decimal point; empty when there is no point.
pub open spec fn fraction_digits(body: Seq<char>) -> Seq<char> {
    let dot = find_from(body, '.', 0);
    if dot < body.len() {
        body.subrange(dot + 1, body.len() as int)
    } else {
        Seq::empty()
    }
}

/// The shape of a decimal number: an optional minus sign, one or more digits,
/// and optionally a point followed by one or more digits.
pub open spec fn decimal_shape(s: Seq<char>) -> bool {
    let body = unsigned_part(s);
    let dot = find_from(body, '.', 0);
    &&& whole_digits(body).len() > 0
    &&& all_digits(whole_digits(body))
    &&& all_digits(fraction_digits(body))
    &&& (dot < body.len() ==> fraction_digits(body).len() > 0)
}

/// The significant digits of a number of that shape: the whole part followed
/// by the fraction without its trailing zeros.
pub open spec fn significant_digits(s: Seq<char>) -> Seq<char> {
    let body = unsigned_part(s);
    whole_digits(body) + trim_zeros(fraction_digits(body))
}

/// The decimal number that `s` denotes, when `s` has the shape of one and its
/// canonical form fits the representation.
pub open spec fn decimal_number(s: Seq<char>) -> Option<Decimal> {
    let scale = trim_zeros(fraction_digits(unsigned_part(s))).len();
    let mantissa = digits_value(significant_digits(s));
    if decimal_shape(s) && mantissa <= u64::MAX && scale <= u32::MAX {
        Some(
            Decimal {
                negative: has_sign(s) && mantissa != 0,
                mantissa: mantissa as u64,
                scale: scale as u32,
            },
        )
    } else {
        None
    }
}

/// Trimming leaves a prefix that is empty or ends in a character other than
/// zero.
pub proof fn lemma_trim_zeros(s: Seq<char>)
    ensures
        trim_zeros(s).len() <= s.len(),
        trim_zeros(s) == s.take(trim_zeros(s).len() as int),
        trim_zeros(s).len() > 0 ==> trim_zeros(s).last() != '0',
    decreases s.len(),
{
    if s.len() > 0 && s.last() == '0' {
        lemma_trim_zeros(s.drop_last());
        let t = trim_zeros(s.drop_last());
        assert(s.drop_last().take(t.len() as int) =~= s.take(t.len() as int));
    } else {
        assert(s.take(s.len() as int) =~= s);
    }
}

/// A prefix followed only by zeros trims to what the prefix trims to.
pub proof fn lemma_trim_zeros_prefix(s: Seq<char>, k: int)
    requires
        0 <= k <= s.len(),
        forall|j: int| k <= j < s.len() ==> s[j] == '0',
    ensures
        trim_zeros(s) == trim_zeros(s.take(k)),
    decreases s.len() - k,
{
    if k < s.len() {
        assert(s.drop_last().take(k) =~= s.take(k));
        lemma_trim_zeros_prefix(s.drop_last(), k);
    } else {
        assert(s.take(k) =~= s);
    }
}

/// The last digit of a run is the remainder of its value by ten.
pub proof fn lemma_digits_value_last(s: Seq<char>)
    requires
        s.len() > 0,
    ensures
        digits_value(s) % 10 == digit_of(s.last()),
{
    let high = digits_value(s.drop_last());
    let low = digit_of(s.last());
    assert(low < 10);
    assert((high * 10 + low) % 10 == low) by (nonlinear_arith)
        requires
            low < 10,
    ;
}

/// Every number that `decimal_number` gives is in canonical form.
pub proof fn lemma_decimal_number_wf(s: Seq<char>)
    ensures
        decimal_number(s) matches Some(d) ==> d.wf(),
{
    if decimal_number(s) is Some {
        let body = unsigned_part(s);
        let frac = trim_zeros(fraction_digits(body));
        lemma_trim_zeros(fraction_digits(body));
        if frac.len() > 0 {
            let digits = significant_digits(s);
            assert(digits.last() == frac.last());
            assert(is_digit(fraction_digits(body)[frac.len() - 1]));
            assert(frac.last() == fraction_digits(body)[frac.len() - 1]);
            lemma_digits_value_last(digits);
        }
    }
}

/// Ten to the power `n`.
pub open spec fn pow10(n: nat) -> nat
    decreases n,
{
    if n == 0 {
        1
    } else {
        10 * pow10((n - 1) as nat)
    }
}

/// Powers of ten multiply as their exponents add.
pub proof fn lemma_pow10_add(a: nat, b: nat)
    ensures
        pow10(a + b) == pow10(a) * pow10(b),
        pow10(a) > 0,
    decreases a,
{
    if a > 0 {
        let lower = pow10((a - 1) as nat);
        let other = pow10(b);
        lemma_pow10_add((a - 1) as nat, b);
        assert(((a - 1) as nat) + b == (a + b - 1) as nat);
        assert(pow10(a + b) == 10 * pow10((a + b - 1) as nat));
        assert(10 * (lower * other) == (10 * lower) * other) by (nonlinear_arith);
        assert(10 * lower > 0) by (nonlinear_arith)
            requires
                lower > 0,
        ;
    } else {
        assert(1 * pow10(b) == pow10(b));
    }
}

/// A number in canonical form whose value another one shares at a scale that
/// is not smaller has the same mantissa and scale.
proof fn lemma_canonical_scale(a: Decimal, b: Decimal)
    requires
        b.wf(),
        a.scale <= b.scale,
        a.mantissa * pow10(b.scale as nat) == b.mantissa * pow10(a.scale as nat),
    ensures
        a.scale == b.scale,
        a.mantissa == b.mantissa,
{
    let k = (b.scale - a.scale) as nat;
    let unit = pow10(a.scale as nat);
    lemma_pow10_add(k, a.scale as nat);
    lemma_pow10_add(a.scale as nat, 0);
    let step = pow10(k);
    let ma = a.mantissa as int;
    let mb = b.mantissa as int;
    let left = ma * step;
    assert(ma * (step * unit) == left * unit) by (nonlinear_arith)
        requires
            left == ma * step,
    ;
    assert(left == mb) by (nonlinear_arith)
        requires
            left * unit == mb * unit,
            unit > 0,
    ;
    if k > 0 {
        let rest = pow10((k - 1) as nat);
        assert(step == 10 * rest);
        let tenth = ma * rest;
        assert(ma * (10 * rest) == tenth * 10) by (nonlinear_arith)
            requires
                tenth == ma * rest,
        ;
        assert((tenth * 10) % 10 == 0) by (nonlinear_arith);
    } else {
        assert(ma * 1 == ma);
    }
}

/// Two numbers in canonical form that denote the same value are equal in
/// every part.
pub proof fn lemma_canonical_is_unique(a: Decimal, b: Decimal)
    requires
        a.wf(),
        b.wf(),
        a.same_value(b),
    ensures
        a == b,
{
    if a.scale <= b.scale {
        lemma_canonical_scale(a, b);
    } else {
        lemma_canonical_scale(b, a);
    }
}

/// Trimming the zeros at the end of a fraction divides the number that the
/// digits denote by ten for each zero, without remainder.
pub proof fn lemma_trimmed_value(whole: Seq<char>, frac: Seq<char>)
    ensures
        trim_zeros(frac).len() <= frac.len(),
        digits_value(whole + frac) == digits_value(whole + trim_zeros(frac)) * pow10(
            (frac.len() - trim_zeros(frac).len()) as nat,
        ),
    decreases frac.len(),
{
    lemma_trim_zeros(frac);
    if frac.len() > 0 && frac.last() == '0' {
        let shorter = frac.drop_last();
        lemma_trimmed_value(whole, shorter);
        lemma_trim_zeros(shorter);
        assert((whole + frac).drop_last() =~= whole + shorter);
        assert((whole + frac).last() == '0');
        let kept = digits_value(whole + trim_zeros(frac));
        let k = (shorter.len() - trim_zeros(shorter).len()) as nat;
        assert(digits_value(whole + frac) == kept * pow10(k) * 10);
        assert(kept * pow10(k) * 10 == kept * (10 * pow10(k))) by (nonlinear_arith);
    } else {
        assert(digits_value(whole + frac) * 1 == digits_value(whole + frac));
    }
}

/// The number that `decimal_number` gives is the number that was written:
/// its mantissa, with as many zeros behind it as were trimmed, is what the
/// digits of the whole part and of the fraction denote together.
pub proof fn lemma_decimal_number_value(s: Seq<char>)
    ensures
        decimal_number(s) matches Some(d) ==> {
            let body = unsigned_part(s);
            &&& d.scale <= fraction_digits(body).len()
            &&& digits_value(whole_digits(body) + fraction_digits(body)) == d.mantissa * pow10(
                (fraction_digits(body).len() - d.scale) as nat,
            )
        },
{
    let body = unsigned_part(s);
    lemma_trimmed_value(whole_digits(body), fraction_digits(body));
}

/// Reads a decimal number, with or without sign and fraction.
pub fn parse_decimal(s: &[char]) -> (res: Option<Decimal>)
    ensures
        res == decimal_number(s@),
        res matches Some(d) ==> d.wf(),
{
    proof {
        lemma_decimal_number_wf(s@);
    }
    let n = s.len();
    let negative = n > 0 && s[0] == '-';
    let body = if negative {
        slice_subrange(s, 1, n)
    } else {
        s
    };
    let m = body.len();
    let dot = find_char(body, '.', 0);
    let whole = slice_subrange(body, 0, dot);
    let frac = if dot < m {
        slice_subrange(body, dot + 1, m)
    } else {
        slice_subrange(body, m, m)
    };
    assert(body@ == unsigned_part(s@));
    assert(whole@ == whole_digits(body@));
    assert(frac@ =~= fraction_digits(body@));
    if whole.len() == 0 || !is_digits(whole) || !is_digits(frac) || (dot < m && frac.len() == 0) {
        return None;
    }
    let mut end: usize = frac.len();
    while end > 0 && frac[end - 1] == '0'
        invariant
            end <= frac@.len(),
            forall|j: int| end <= j < frac@.len() ==> frac@[j] == '0',
        decreases end,
    {
        end -= 1;
    }
    proof {
        lemma_trim_zeros_prefix(frac@, end as int);
        assert(trim_zeros(frac@.take(end as int)) == frac@.take(end as int));
    }
    if end > u32::MAX as usize {
        return None;
    }
    let mut digits: Vec<char> = Vec::new();
    let mut i: usize = 0;
    while i < whole.len()
        invariant
            i <= whole@.len(),
            digits@ == whole@.take(i as int),
        decreases whole@.len() - i,
    {
        digits.push(whole[i]);
        i += 1;
        assert(whole@.take(i as int) =~= whole@.take(i - 1).push(whole@[i - 1]));
    }
    assert(whole@.take(whole@.len() as int) =~= whole@);
    let mut k: usize = 0;
    while k < end
        invariant
            k <= end <= frac@.len(),
            digits@ == whole@ + frac@.take(k as int),
        decreases end - k,
    {
        digits.push(frac[k]);
        k += 1;
        assert(whole@ + frac@.take(k as int) =~= (whole@ + frac@.take(k - 1)).push(frac@[k - 1]));
    }
    assert(digits@ == significant_digits(s@));
    match parse_u64(digits.as_slice()) {
        Some(mantissa) => Some(
            Decimal { negative: negative && mantissa != 0, mantissa, scale: end as u32 },
        ),
        None => {
            proof {
                assert(all_digits(digits@)) by {
                    assert forall|j: int| 0 <= j < digits@.len() implies is_digit(
                        #[trigger] digits@[j],
                    ) by {
                        if j < whole@.len() {
                            assert(digits@[j] == whole@[j]);
                        } else {
                            assert(digits@[j] == frac@[j - whole@.len()]);
                        }
                    }
                }
            }
            None
        },
    }
}

/// A resolution: two decimal integers with an `x` between them.
#[derive(Clone, Copy, Debug, PartialEq, Eq)]
pub struct Resolution {
    pub width: u64,
    pub height: u64,
}

/// The resolution that `s` denotes, when it has that shape.
pub open spec fn resolution_of(s: Seq<char>) -> Option<Resolution> {
    let x = find_from(s, 'x', 0);
    if x < s.len() {
        match (decimal_integer(s.subrange(0, x)), decimal_integer(s.subrange(x + 1, s.len() as int))) {
            (Some(w), Some(h)) => Some(Resolution { width: w, height: h }),
            _ => None,
        }
    } else {
        None
    }
}

/// Reads a resolution.
pub fn parse_resolution(s: &[char]) -> (res: Option<Resolution>)
    ensures
        res == resolution_of(s@),
{
    let n = s.len();
    let x = find_char(s, 'x', 0);
    if x >= n {
        return None;
    }
    match parse_u64(slice_subrange(s, 0, x)) {
        Some(width) => match parse_u64(slice_subrange(s, x + 1, n)) {
            Some(height) => Some(Resolution { width, height }),
            None => None,
        },
        None => None,
    }
}

/// Whether a character is a hexadecimal digit.
pub open spec fn is_hex_digit(c: char) -> bool {
    is_digit(c) || ('a' <= c && c <= 'f') || ('A' <= c && c <= 'F')
}

/// A hexadecimal sequence: `0x` or `0X` and then one or more hex digits.
pub open spec fn is_hex_sequence(s: Seq<char>) -> bool {
    &&& s.len() > 2
    &&& s[0] == '0'
    &&& (s[1] == 'x' || s[1] == 'X')
    &&& forall|i: int| 2 <= i < s.len() ==> is_hex_digit(#[trigger] s[i])
}

/// Whether `s` is a hexadecimal sequence.
pub fn is_hex(s: &[char]) -> (hex: bool)
    ensures
        hex == is_hex_sequence(s@),
{
    let n = s.len();
    if n <= 2 || s[0] != '0' || !(s[1] == 'x' || s[1] == 'X') {
        return false;
    }
    let mut i: usize = 2;
    while i < n
        invariant
            2 <= i <= n,
            n == s@.len(),
            forall|j: int| 2 <= j < i ==> is_hex_digit(#[trigger] s@[j]),
        decreases n - i,
    {
        let c = s[i];
        let digit = (c >= '0' && c <= '9') || (c >= 'a' && c <= 'f') || (c >= 'A' && c <= 'F');
        if !digit {
            return false;
        }
        i += 1;
    }
    true
}

} // verus!
