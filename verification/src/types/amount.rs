//! Fixed-point monetary amounts with four decimal places.

use vstd::prelude::*;

use crate::error::AmountError;
use crate::text;
use crate::text::{
    all_digits_in, digit, parse_digits, push_char, push_chars, push_decimal, str_chars, trim_bounds,
    utf8_len_exceeds,
};

verus! {

/// Fixed-point decimal amount with four decimal places of precision,
/// stored as an `i64` scaled by 10,000 (1.2345 is stored as 12345).
#[derive(Debug, Clone, Copy, PartialEq, Eq, Structural, PartialOrd, Ord, Hash)]
pub struct Amount(pub i64);

impl View for Amount {
    type V = int;

    open spec fn view(&self) -> int {
        self.0 as int
    }
}

/// Whether `v` can be held as the raw value of an amount.
pub open spec fn fits_raw(v: int) -> bool {
    i64::MIN <= v <= i64::MAX
}

/// What `add_checked` gives for two raw values.
pub open spec fn spec_add_checked(a: int, b: int) -> Result<Amount, AmountError> {
    if fits_raw(a + b) {
        Ok(Amount((a + b) as i64))
    } else {
        Err(AmountError::Overflow)
    }
}

/// What `sub_checked` gives for two raw values.
pub open spec fn spec_sub_checked(a: int, b: int) -> Result<Amount, AmountError> {
    if fits_raw(a - b) {
        Ok(Amount((a - b) as i64))
    } else {
        Err(AmountError::Underflow)
    }
}

impl Amount {
    /// Creates an amount from its raw scaled value (12345 stands for 1.2345).
    pub fn from_raw(raw: i64) -> (a: Amount)
        ensures
            a.0 == raw,
    {
        Amount(raw)
    }

    /// Returns the raw scaled value.
    pub fn as_raw(&self) -> (r: i64)
        ensures
            r == self.0,
    {
        self.0
    }

    /// The amount zero.
    pub fn zero() -> (a: Amount)
        ensures
            a.0 == 0,
    {
        Amount(0)
    }

    /// Whether the amount is zero.
    pub fn is_zero(&self) -> (b: bool)
        ensures
            b == (self.0 == 0),
    {
        self.0 == 0
    }

    /// Whether the amount is strictly positive.
    pub fn is_positive(&self) -> (b: bool)
        ensures
            b == (self.0 > 0),
    {
        self.0 > 0
    }

    /// Whether the amount is strictly negative.
    pub fn is_negative(&self) -> (b: bool)
        ensures
            b == (self.0 < 0),
    {
        self.0 < 0
    }

    /// Adds two amounts; fails with `Overflow` when the sum leaves the `i64` range.
    pub fn add_checked(self, other: Self) -> (r: Result<Amount, AmountError>)
        ensures
            r == spec_add_checked(self@, other@),
    {
        match self.0.checked_add(other.0) {
            Some(v) => Ok(Amount(v)),
            None => Err(AmountError::Overflow),
        }
    }

    /// Subtracts `other`; fails with `Underflow` when the difference leaves the `i64` range.
    pub fn sub_checked(self, other: Self) -> (r: Result<Amount, AmountError>)
        ensures
            r == spec_sub_checked(self@, other@),
    {
        match self.0.checked_sub(other.0) {
            Some(v) => Ok(Amount(v)),
            None => Err(AmountError::Underflow),
        }
    }

    /// Whether this amount is greater than or equal to `other`.
    pub fn gte(&self, other: &Self) -> (b: bool)
        ensures
            b == (self.0 >= other.0),
    {
        self.0 >= other.0
    }
}

/// Subtracting what was added gives the amount back: where `a + b` fits, adding `b`
/// succeeds and subtracting `b` from the sum gives `a`.
pub proof fn lemma_sub_undoes_add(a: Amount, b: Amount)
    requires
        fits_raw(a@ + b@),
    ensures
        spec_add_checked(a@, b@) matches Ok(c) && spec_sub_checked(c@, b@) == Ok::<
            Amount,
            AmountError,
        >(a),
{
}

/// The absolute value of `v`.
pub open spec fn abs(v: int) -> int {
    if v < 0 {
        -v
    } else {
        v
    }
}

/// The four digits of `d` (0 to 9999), with leading zeros.
pub open spec fn pad4(d: int) -> Seq<char> {
    seq![
        text::digit_char(d / 1000),
        text::digit_char((d / 100) % 10),
        text::digit_char((d / 10) % 10),
        text::digit_char(d % 10),
    ]
}

/// The text of the amount with raw value `raw`: a minus sign where negative, the integer
/// part, a point, and exactly four decimal digits ("-5.5000" for -55000).
pub open spec fn amount_text(raw: int) -> Seq<char> {
    (if raw < 0 {
        seq!['-']
    } else {
        Seq::<char>::empty()
    }) + text::dec((abs(raw) / 10000) as nat) + seq!['.'] + pad4(abs(raw) % 10000)
}

impl Amount {
    /// Formats the amount with exactly four decimal places ("1.2345", "-5.5000").
    pub fn to_string(&self) -> (s: String)
        ensures
            s@ == amount_text(self@),
    {
        let mag: u64 = if self.0 < 0 {
            ((-(self.0 + 1)) as u64) + 1
        } else {
            self.0 as u64
        };
        assert(mag == abs(self@));
        let mut s = String::new();
        if self.0 < 0 {
            push_char(&mut s, '-');
        }
        push_decimal(&mut s, mag / 10000);
        push_char(&mut s, '.');
        let frac = mag % 10000;
        push_char(&mut s, digit(frac / 1000));
        push_char(&mut s, digit((frac / 100) % 10));
        push_char(&mut s, digit((frac / 10) % 10));
        push_char(&mut s, digit(frac % 10));
        assert(s@ =~= amount_text(self@));
        s
    }
}

/// What parsing a text as an amount gives: a raw value, an overflow, or a failure
/// with its message.
pub enum AmountParse {
    Value(int),
    Overflow,
    Invalid(Seq<char>),
}

/// The position of the first decimal point of `u`, or its length where it has none.
pub open spec fn point_index(u: Seq<char>) -> int
    decreases u.len(),
{
    if u.len() == 0 || u[0] == '.' {
        0
    } else {
        1 + point_index(u.drop_first())
    }
}

/// Whether `u` holds a decimal point.
pub open spec fn has_point(u: Seq<char>) -> bool {
    point_index(u) < u.len()
}

/// The text before the first decimal point.
pub open spec fn integer_text(u: Seq<char>) -> Seq<char> {
    u.take(point_index(u))
}

/// The text after the first decimal point.
pub open spec fn decimal_text(u: Seq<char>) -> Seq<char> {
    u.skip(point_index(u) + 1)
}

/// The decimal digits `dp` (at most four) padded on the right with zeros to four
/// digits, as a number of ten-thousandths.
pub open spec fn padded_value(dp: Seq<char>) -> int {
    text::digits_value(dp + Seq::new((4 - dp.len()) as nat, |i: int| '0'))
}

/// What parsing gives for an integer part `ip`, the decimal part `dp` where `point`, and
/// the sign: the checks come in this order, each with its message.
pub open spec fn parse_parts(ip: Seq<char>, point: bool, dp: Seq<char>, neg: bool) -> AmountParse {
    if ip.len() == 0 || !text::all_digits(ip) || text::digits_value(ip) > i64::MAX {
        AmountParse::Invalid("invalid integer part: "@ + ip)
    } else if point && text::utf8_len(dp) > 4 {
        AmountParse::Invalid("too many decimal places (max 4)"@)
    } else if point && !text::all_digits(dp) {
        AmountParse::Invalid("invalid decimal part: "@ + dp)
    } else {
        let frac = if point {
            padded_value(dp)
        } else {
            0
        };
        let mag = text::digits_value(ip) * 10000 + frac;
        if mag > i64::MAX {
            AmountParse::Overflow
        } else if neg {
            AmountParse::Value(-mag)
        } else {
            AmountParse::Value(mag)
        }
    }
}

/// What parsing gives for the unsigned text `u`: it must not be empty nor hold two points.
pub open spec fn parse_unsigned(u: Seq<char>, neg: bool) -> AmountParse {
    if u.len() == 0 {
        AmountParse::Invalid("missing numeric value"@)
    } else if has_point(u) && has_point(decimal_text(u)) {
        AmountParse::Invalid("multiple decimal points"@)
    } else {
        parse_parts(integer_text(u), has_point(u), decimal_text(u), neg)
    }
}

/// What parsing gives for a trimmed text `t`: it must not be empty; an optional sign
/// comes first.
pub open spec fn parse_trimmed(t: Seq<char>) -> AmountParse {
    if t.len() == 0 {
        AmountParse::Invalid("empty string"@)
    } else if t[0] == '+' || t[0] == '-' {
        parse_unsigned(t.drop_first(), t[0] == '-')
    } else {
        parse_unsigned(t, false)
    }
}

/// What `Amount::from_str` gives for the text `s`.
///
/// The text is trimmed of white space; an optional sign follows; then digits, and
/// optionally a point and at most four decimal digits (counted in UTF-8 bytes, as
/// `str::len` counts them). The checks come in this order, each with its message.
pub open spec fn spec_parse_amount(s: Seq<char>) -> AmountParse {
    parse_trimmed(text::trim(s))
}

/// Whether `r` is what `Amount::from_str` owes for the parse outcome `p`.
pub open spec fn parse_result_matches(p: AmountParse, r: Result<Amount, AmountError>) -> bool {
    match p {
        AmountParse::Value(v) => r == Ok::<Amount, AmountError>(Amount(v as i64)),
        AmountParse::Overflow => r == Err::<Amount, AmountError>(AmountError::Overflow),
        AmountParse::Invalid(msg) => r matches Err(AmountError::ParseError(m)) && m@ == msg,
    }
}

/// Where `i` is the first decimal point of `u` (or its length), it is `point_index(u)`.
proof fn lemma_point_index(u: Seq<char>, i: int)
    requires
        0 <= i <= u.len(),
        forall|j: int| 0 <= j < i ==> u[j] != '.',
        i == u.len() || u[i] == '.',
    ensures
        has_point(u) == (i < u.len()),
        point_index(u) == i,
    decreases i,
{
    if i > 0 {
        let w = u.drop_first();
        assert forall|j: int| 0 <= j < i - 1 implies w[j] != '.' by {
            assert(w[j] == u[j + 1]);
        }
        if i < u.len() {
            assert(w[i - 1] == u[i]);
        }
        lemma_point_index(w, i - 1);
        assert(u[0] != '.');
    }
}

/// The position of the first decimal point in `cs[lo..hi]`, or `hi` where it has none.
fn find_point(cs: &Vec<char>, lo: usize, hi: usize) -> (k: usize)
    requires
        lo <= hi <= cs@.len(),
    ensures
        lo <= k <= hi,
        has_point(cs@.subrange(lo as int, hi as int)) == (k < hi),
        point_index(cs@.subrange(lo as int, hi as int)) == k - lo,
{
    let ghost u = cs@.subrange(lo as int, hi as int);
    let mut k = lo;
    while k < hi && cs[k] != '.'
        invariant
            lo <= k <= hi <= cs@.len(),
            forall|j: int| lo <= j < k ==> cs@[j] != '.',
        decreases hi - k,
    {
        k = k + 1;
    }
    proof {
        assert forall|j: int| 0 <= j < k - lo implies u[j] != '.' by {
            assert(u[j] == cs@[lo + j]);
        }
        if k < hi {
            assert(u[k - lo] == cs@[k as int]);
        }
        lemma_point_index(u, k - lo);
    }
    k
}

/// The decimal digits `cs[lo..hi]` as ten-thousandths, checked as `from_str` checks them:
/// at most four bytes, then digits only.
fn parse_fraction(cs: &Vec<char>, lo: usize, hi: usize) -> (r: Result<i64, AmountError>)
    requires
        lo <= hi <= cs@.len(),
    ensures
        ({
            let dp = cs@.subrange(lo as int, hi as int);
            if text::utf8_len(dp) > 4 {
                r matches Err(AmountError::ParseError(m)) && m@ == "too many decimal places (max 4)"@
            } else if !text::all_digits(dp) {
                r matches Err(AmountError::ParseError(m)) && m@ == "invalid decimal part: "@ + dp
            } else {
                &&& 0 <= padded_value(dp) < 10000
                &&& r == Ok::<i64, AmountError>(padded_value(dp) as i64)
            }
        }),
{
    let ghost dp = cs@.subrange(lo as int, hi as int);
    if utf8_len_exceeds(cs, lo, hi, 4) {
        return Err(AmountError::ParseError("too many decimal places (max 4)".to_string()));
    }
    if !all_digits_in(cs, lo, hi) {
        let mut msg = "invalid decimal part: ".to_string();
        push_chars(&mut msg, cs, lo, hi);
        return Err(AmountError::ParseError(msg));
    }
    proof {
        text::lemma_utf8_len_ge_len(dp);
    }
    let mut padded: Vec<char> = Vec::new();
    let mut j = lo;
    while j < hi
        invariant
            lo <= j <= hi <= cs@.len(),
            hi - lo <= 4,
            padded@ == cs@.subrange(lo as int, j as int),
        decreases hi - j,
    {
        padded.push(cs[j]);
        assert(cs@.subrange(lo as int, j + 1) =~= cs@.subrange(lo as int, j as int).push(
            cs@[j as int],
        ));
        j = j + 1;
    }
    while padded.len() < 4
        invariant
            dp == cs@.subrange(lo as int, hi as int),
            dp.len() <= padded@.len() <= 4,
            padded@ =~= dp + Seq::new((padded@.len() - dp.len()) as nat, |i: int| '0'),
        decreases 4 - padded@.len(),
    {
        padded.push('0');
    }
    assert(padded@ =~= dp + Seq::new((4 - dp.len()) as nat, |i: int| '0'));
    assert(padded@.subrange(0, 4) =~= padded@);
    assert(text::all_digits(padded@)) by {
        assert forall|i: int| 0 <= i < 4 implies text::is_digit(#[trigger] padded@[i]) by {
            if i < dp.len() {
                assert(padded@[i] == dp[i]);
            }
        }
    }
    proof {
        text::lemma_digits_bound(padded@);
        assert(text::pow10(4) == 10000) by {
            reveal_with_fuel(text::pow10, 5);
        }
    }
    match parse_digits(&padded, 0, 4) {
        Some(v) => Ok(v),
        None => Ok(0),
    }
}

/// Parses the digits `cs[p..k]`, the decimal digits `cs[k + 1..b]` where `point`, and
/// the sign into an amount.
fn parse_number(cs: &Vec<char>, p: usize, k: usize, b: usize, point: bool, neg: bool) -> (r: Result<
    Amount,
    AmountError,
>)
    requires
        p <= k <= b <= cs@.len(),
        point ==> k < b,
    ensures
        parse_result_matches(
            parse_parts(
                cs@.subrange(p as int, k as int),
                point,
                if point {
                    cs@.subrange(k + 1, b as int)
                } else {
                    Seq::<char>::empty()
                },
                neg,
            ),
            r,
        ),
{
    if k == p || !all_digits_in(cs, p, k) {
        let mut msg = "invalid integer part: ".to_string();
        push_chars(&mut msg, cs, p, k);
        return Err(AmountError::ParseError(msg));
    }
    proof {
        text::lemma_digits_bound(cs@.subrange(p as int, k as int));
    }
    let ip = match parse_digits(cs, p, k) {
        Some(v) => v,
        None => {
            let mut msg = "invalid integer part: ".to_string();
            push_chars(&mut msg, cs, p, k);
            return Err(AmountError::ParseError(msg));
        },
    };
    let frac: i64 = if point {
        match parse_fraction(cs, k + 1, b) {
            Ok(f) => f,
            Err(e) => return Err(e),
        }
    } else {
        0
    };
    let mag = match ip.checked_mul(10000) {
        Some(x) => match x.checked_add(frac) {
            Some(y) => y,
            None => return Err(AmountError::Overflow),
        },
        None => return Err(AmountError::Overflow),
    };
    if neg {
        Ok(Amount(-mag))
    } else {
        Ok(Amount(mag))
    }
}

/// Parses the unsigned text `cs[p..b]` with the given sign.
fn parse_unsigned_text(cs: &Vec<char>, p: usize, b: usize, neg: bool) -> (r: Result<Amount, AmountError>)
    requires
        p <= b <= cs@.len(),
    ensures
        parse_result_matches(parse_unsigned(cs@.subrange(p as int, b as int), neg), r),
{
    let ghost u = cs@.subrange(p as int, b as int);
    if p == b {
        return Err(AmountError::ParseError("missing numeric value".to_string()));
    }
    let k = find_point(cs, p, b);
    let point = k < b;
    assert(integer_text(u) =~= cs@.subrange(p as int, k as int));
    if point {
        assert(decimal_text(u) =~= cs@.subrange(k + 1, b as int));
        let m = find_point(cs, k + 1, b);
        if m < b {
            return Err(AmountError::ParseError("multiple decimal points".to_string()));
        }
    }
    parse_number(cs, p, k, b, point, neg)
}

/// Parses the trimmed text `cs[a..b]`.
fn parse_trimmed_text(cs: &Vec<char>, a: usize, b: usize) -> (r: Result<Amount, AmountError>)
    requires
        a <= b <= cs@.len(),
    ensures
        parse_result_matches(parse_trimmed(cs@.subrange(a as int, b as int)), r),
{
    let ghost t = cs@.subrange(a as int, b as int);
    if a == b {
        return Err(AmountError::ParseError("empty string".to_string()));
    }
    assert(t[0] == cs@[a as int]);
    if cs[a] == '+' || cs[a] == '-' {
        assert(t.drop_first() =~= cs@.subrange(a + 1, b as int));
        parse_unsigned_text(cs, a + 1, b, cs[a] == '-')
    } else {
        parse_unsigned_text(cs, a, b, false)
    }
}

impl Amount {
    /// Parses a decimal text with at most four decimal places ("123.4567", "-5.5", "+0.5").
    pub fn from_str(s: &str) -> (r: Result<Amount, AmountError>)
        ensures
            parse_result_matches(spec_parse_amount(s@), r),
    {
        let cs = str_chars(s);
        let (a, b) = trim_bounds(&cs);
        parse_trimmed_text(&cs, a, b)
    }
}

impl std::str::FromStr for Amount {
    type Err = AmountError;

    fn from_str(s: &str) -> (r: Result<Amount, AmountError>)
        ensures
            parse_result_matches(spec_parse_amount(s@), r),
    {
        Amount::from_str(s)
    }
}

/// The four digits of `r`: ASCII digits worth `r`, four bytes long, with no point.
proof fn lemma_pad4(r: int)
    requires
        0 <= r < 10000,
    ensures
        pad4(r).len() == 4,
        text::utf8_len(pad4(r)) == 4,
        text::all_digits(pad4(r)),
        text::digits_value(pad4(r)) == r,
        !has_point(pad4(r)),
        !text::is_ws(pad4(r)[0]),
        !text::is_ws(pad4(r)[3]),
{
    let fr = pad4(r);
    assert(text::utf8_len(fr) == 4) by {
        reveal_with_fuel(text::utf8_len, 5);
    }
    assert(text::all_digits(fr));
    assert(text::digits_value(fr) == r) by {
        reveal_with_fuel(text::digits_value, 5);
        assert(fr.drop_last().drop_last().drop_last().drop_last() =~= Seq::<char>::empty());
    }
    lemma_point_index(fr, 4);
}

/// Reading back the text of an amount gives the amount: parsing `amount_text(v)` yields
/// `v`, for every raw value but `i64::MIN`, whose magnitude has no `i64`.
pub proof fn lemma_text_round_trip(v: int)
    requires
        i64::MIN < v <= i64::MAX,
    ensures
        spec_parse_amount(amount_text(v)) == AmountParse::Value(v),
{
    let q = (abs(v) / 10000) as nat;
    let r = abs(v) % 10000;
    let sign = if v < 0 {
        seq!['-']
    } else {
        Seq::<char>::empty()
    };
    let ds = text::dec(q);
    let fr = pad4(r);
    let u = ds + seq!['.'] + fr;
    let s = amount_text(v);
    text::lemma_dec_digits(q);
    lemma_pad4(r);
    assert(s =~= sign + u);
    assert(s.last() == fr[3]);
    assert(!text::is_ws(s[0]));
    text::lemma_trim_unchanged(s);
    let t = text::trim(s);
    let u2 = if t[0] == '+' || t[0] == '-' {
        t.drop_first()
    } else {
        t
    };
    if v < 0 {
        assert(t[0] == '-');
        assert(u2 =~= u);
    } else {
        assert(t[0] == ds[0]);
        assert(u2 =~= u);
    }
    assert forall|j: int| 0 <= j < ds.len() implies u[j] != '.' by {
        assert(u[j] == ds[j]);
    }
    assert(u[ds.len() as int] == '.');
    lemma_point_index(u, ds.len() as int);
    assert(integer_text(u) =~= ds);
    assert(decimal_text(u) =~= fr);
    assert(fr + Seq::new(0, |i: int| '0') =~= fr);
    assert(padded_value(fr) == r);
    assert(q * 10000 + r == abs(v));
}
} // verus!
