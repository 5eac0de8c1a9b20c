//! Character-level text handling: whitespace trimming, decimal digits, and building
//! strings, with the specifications the parsers and formatters are stated in.

use vstd::prelude::*;

verus! {

broadcast use vstd::string::group_string_axioms;

/// Whether `c` is white space: the Unicode `White_Space` property, which is what
/// `char::is_whitespace` tests.
pub open spec fn is_ws(c: char) -> bool {
    let u = c as u32;
    ||| 0x09 <= u <= 0x0D
    ||| u == 0x20
    ||| u == 0x85
    ||| u == 0xA0
    ||| u == 0x1680
    ||| 0x2000 <= u <= 0x200A
    ||| u == 0x2028
    ||| u == 0x2029
    ||| u == 0x202F
    ||| u == 0x205F
    ||| u == 0x3000
}

/// `s` without its leading white space.
pub open spec fn trim_start(s: Seq<char>) -> Seq<char>
    decreases s.len(),
{
    if s.len() > 0 && is_ws(s[0]) {
        trim_start(s.drop_first())
    } else {
        s
    }
}

/// `s` without its trailing white space.
pub open spec fn trim_end(s: Seq<char>) -> Seq<char>
    decreases s.len(),
{
    if s.len() > 0 && is_ws(s.last()) {
        trim_end(s.drop_last())
    } else {
        s
    }
}

/// `s` without leading and trailing white space, as `str::trim` gives it.
pub open spec fn trim(s: Seq<char>) -> Seq<char> {
    trim_end(trim_start(s))
}

/// Whether `c` is white space.
pub fn is_whitespace(c: char) -> (b: bool)
    ensures
        b == is_ws(c),
{
    let u = c as u32;
    (0x09 <= u && u <= 0x0D) || u == 0x20 || u == 0x85 || u == 0xA0 || u == 0x1680 || (0x2000
        <= u && u <= 0x200A) || u == 0x2028 || u == 0x2029 || u == 0x202F || u == 0x205F || u
        == 0x3000
}

/// The characters of `s`, in order.
pub fn str_chars(s: &str) -> (v: Vec<char>)
    ensures
        v@ == s@,
{
    let mut v: Vec<char> = Vec::new();
    for c in it: s.chars()
        invariant
            it.seq() == s@,
            v@ == it.seq().take(it.index()),
    {
        v.push(c);
    }
    proof {
        assert(s@.take(s@.len() as int) =~= s@);
    }
    v
}

/// The bounds of `cs` without its leading and trailing white space.
pub fn trim_bounds(cs: &Vec<char>) -> (r: (usize, usize))
    ensures
        r.0 <= r.1 <= cs@.len(),
        cs@.subrange(r.0 as int, r.1 as int) == trim(cs@),
{
    let n = cs.len();
    let mut i: usize = 0;
    assert(cs@.subrange(0, n as int) =~= cs@);
    while i < n && is_whitespace(cs[i])
        invariant
            i <= n == cs@.len(),
            trim_start(cs@) == trim_start(cs@.subrange(i as int, n as int)),
        decreases n - i,
    {
        assert(cs@.subrange(i as int, n as int).drop_first() =~= cs@.subrange(i + 1, n as int));
        i = i + 1;
    }
    assert(trim_start(cs@) == cs@.subrange(i as int, n as int));
    let mut j: usize = n;
    while j > i && is_whitespace(cs[j - 1])
        invariant
            i <= j <= n == cs@.len(),
            trim(cs@) == trim_end(cs@.subrange(i as int, j as int)),
        decreases j - i,
    {
        assert(cs@.subrange(i as int, j as int).drop_last() =~= cs@.subrange(i as int, j - 1));
        j = j - 1;
    }
    (i, j)
}


/// Whether `c` is an ASCII decimal digit.
pub open spec fn is_digit(c: char) -> bool {
    '0' <= c <= '9'
}

/// Whether every character of `s` is an ASCII decimal digit.
pub open spec fn all_digits(s: Seq<char>) -> bool {
    forall|i: int| 0 <= i < s.len() ==> is_digit(#[trigger] s[i])
}

/// The numeric value of the digit `c`.
pub open spec fn digit_value(c: char) -> int {
    c as int - '0' as int
}

/// The value of the decimal numeral `s` (most significant digit first).
pub open spec fn digits_value(s: Seq<char>) -> int
    decreases s.len(),
{
    if s.len() == 0 {
        0
    } else {
        digits_value(s.drop_last()) * 10 + digit_value(s.last())
    }
}

/// 10 to the power `n`.
pub open spec fn pow10(n: nat) -> int
    decreases n,
{
    if n == 0 {
        1
    } else {
        10 * pow10((n - 1) as nat)
    }
}

/// A numeral's value is non-negative and has fewer digits than the numeral.
pub proof fn lemma_digits_bound(s: Seq<char>)
    requires
        all_digits(s),
    ensures
        0 <= digits_value(s) < pow10(s.len()),
    decreases s.len(),
{
    if s.len() > 0 {
        let t = s.drop_last();
        assert(all_digits(t)) by {
            assert forall|i: int| 0 <= i < t.len() implies is_digit(#[trigger] t[i]) by {
                assert(t[i] == s[i]);
            }
        }
        lemma_digits_bound(t);
        assert(is_digit(s[s.len() - 1]));
        let v = digits_value(t);
        let p = pow10(t.len());
        let d = digit_value(s.last());
        assert(v * 10 + d < 10 * p) by (nonlinear_arith)
            requires
                0 <= v < p,
                0 <= d <= 9,
        ;
    }
}

/// A prefix of a numeral is worth no more than the numeral.
pub proof fn lemma_digits_prefix_le(s: Seq<char>, k: int)
    requires
        all_digits(s),
        0 <= k <= s.len(),
    ensures
        digits_value(s.take(k)) <= digits_value(s),
    decreases s.len(),
{
    if k == s.len() {
        assert(s.take(k) =~= s);
    } else {
        let t = s.drop_last();
        assert(all_digits(t)) by {
            assert forall|i: int| 0 <= i < t.len() implies is_digit(#[trigger] t[i]) by {
                assert(t[i] == s[i]);
            }
        }
        lemma_digits_prefix_le(t, k);
        assert(t.take(k) =~= s.take(k));
        lemma_digits_bound(t);
        assert(is_digit(s[s.len() - 1]));
    }
}

/// The value of the numeral `cs[lo..hi]`, or `None` where it exceeds `i64::MAX`.
pub fn parse_digits(cs: &Vec<char>, lo: usize, hi: usize) -> (r: Option<i64>)
    requires
        lo <= hi <= cs@.len(),
        all_digits(cs@.subrange(lo as int, hi as int)),
    ensures
        r == if digits_value(cs@.subrange(lo as int, hi as int)) <= i64::MAX {
            Some(digits_value(cs@.subrange(lo as int, hi as int)) as i64)
        } else {
            None::<i64>
        },
{
    let ghost whole = cs@.subrange(lo as int, hi as int);
    let mut v: i64 = 0;
    let mut k: usize = lo;
    assert(cs@.subrange(lo as int, lo as int) =~= Seq::<char>::empty());
    while k < hi
        invariant
            lo <= k <= hi <= cs@.len(),
            whole == cs@.subrange(lo as int, hi as int),
            all_digits(whole),
            v == digits_value(cs@.subrange(lo as int, k as int)),
        decreases hi - k,
    {
        let ghost prev = cs@.subrange(lo as int, k as int);
        let ghost next = cs@.subrange(lo as int, k + 1);
        assert(next.drop_last() =~= prev);
        assert(whole[k - lo] == cs@[k as int]);
        assert(is_digit(cs@[k as int]));
        let d = (cs[k] as u32 - '0' as u32) as i64;
        assert(whole.take(k + 1 - lo) =~= next);
        proof {
            lemma_digits_prefix_le(whole, k + 1 - lo);
            assert(whole.take(k - lo) =~= prev);
            lemma_digits_bound(prev);
        }
        let m = match v.checked_mul(10) {
            Some(m) => m,
            None => return None,
        };
        v = match m.checked_add(d) {
            Some(x) => x,
            None => return None,
        };
        k = k + 1;
    }
    Some(v)
}

/// The length in bytes of the UTF-8 encoding of `c`.
pub open spec fn char_utf8_len(c: char) -> int {
    let u = c as u32;
    if u < 0x80 {
        1
    } else if u < 0x800 {
        2
    } else if u < 0x10000 {
        3
    } else {
        4
    }
}

/// The length in bytes of the UTF-8 encoding of `s`.
pub open spec fn utf8_len(s: Seq<char>) -> int
    decreases s.len(),
{
    if s.len() == 0 {
        0
    } else {
        utf8_len(s.drop_last()) + char_utf8_len(s.last())
    }
}

/// The UTF-8 length of a prefix is at most that of the whole.
pub proof fn lemma_utf8_prefix_le(s: Seq<char>, k: int)
    requires
        0 <= k <= s.len(),
    ensures
        0 <= utf8_len(s.take(k)) <= utf8_len(s),
    decreases s.len(),
{
    if k == s.len() {
        assert(s.take(k) =~= s);
        if s.len() > 0 {
            lemma_utf8_prefix_le(s.drop_last(), 0);
        }
    } else {
        let t = s.drop_last();
        lemma_utf8_prefix_le(t, k);
        assert(t.take(k) =~= s.take(k));
    }
}

/// Whether `cs[lo..hi]` takes more than `limit` bytes in UTF-8.
pub fn utf8_len_exceeds(cs: &Vec<char>, lo: usize, hi: usize, limit: usize) -> (b: bool)
    requires
        lo <= hi <= cs@.len(),
        limit < usize::MAX - 4,
    ensures
        b == (utf8_len(cs@.subrange(lo as int, hi as int)) > limit),
{
    let ghost whole = cs@.subrange(lo as int, hi as int);
    let mut total: usize = 0;
    let mut k: usize = lo;
    assert(cs@.subrange(lo as int, lo as int) =~= Seq::<char>::empty());
    while k < hi
        invariant
            lo <= k <= hi <= cs@.len(),
            whole == cs@.subrange(lo as int, hi as int),
            total == utf8_len(cs@.subrange(lo as int, k as int)),
            total <= limit,
            limit < usize::MAX - 4,
        decreases hi - k,
    {
        let ghost next = cs@.subrange(lo as int, k + 1);
        assert(next.drop_last() =~= cs@.subrange(lo as int, k as int));
        let u = cs[k] as u32;
        let w: usize = if u < 0x80 {
            1
        } else if u < 0x800 {
            2
        } else if u < 0x10000 {
            3
        } else {
            4
        };
        total = total + w;
        k = k + 1;
        if total > limit {
            proof {
                assert(whole.take(k - lo) =~= next);
                lemma_utf8_prefix_le(whole, k - lo);
            }
            return true;
        }
    }
    false
}

/// Appends `c` to `s`.
///
/// Trusted: calls `String::push`, which std documents as appending the character to
/// the end of the string.
#[verifier::external_body]
pub(crate) fn push_char(s: &mut String, c: char)
    ensures
        final(s)@ == old(s)@.push(c),
{
    s.push(c);
}

/// Appends `cs[lo..hi]` to `s`.
pub fn push_chars(s: &mut String, cs: &Vec<char>, lo: usize, hi: usize)
    requires
        lo <= hi <= cs@.len(),
    ensures
        final(s)@ == old(s)@ + cs@.subrange(lo as int, hi as int),
{
    let mut k = lo;
    while k < hi
        invariant
            lo <= k <= hi <= cs@.len(),
            s@ == old(s)@ + cs@.subrange(lo as int, k as int),
        decreases hi - k,
    {
        push_char(s, cs[k]);
        assert(old(s)@ + cs@.subrange(lo as int, k + 1) =~= (old(s)@ + cs@.subrange(
            lo as int,
            k as int,
        )).push(cs@[k as int]));
        k = k + 1;
    }
    assert(old(s)@ + cs@.subrange(lo as int, lo as int) =~= old(s)@);
}

/// The character of the digit `d` (0 to 9).
pub open spec fn digit_char(d: int) -> char {
    (d + '0' as int) as char
}

/// The decimal numeral of `n`, without leading zeros.
pub open spec fn dec(n: nat) -> Seq<char>
    decreases n,
{
    if n < 10 {
        seq![digit_char(n as int)]
    } else {
        dec(n / 10).push(digit_char((n % 10) as int))
    }
}

/// The character of the digit `d`.
pub fn digit(d: u64) -> (c: char)
    requires
        d < 10,
    ensures
        c == digit_char(d as int),
{
    let b: u8 = 48u8 + (d as u8);
    b as char
}

/// Appends the decimal numeral of `n` to `s`.
pub fn push_decimal(s: &mut String, n: u64)
    ensures
        final(s)@ == old(s)@ + dec(n as nat),
    decreases n,
{
    if n >= 10 {
        push_decimal(s, n / 10);
    }
    push_char(s, digit(n % 10));
    proof {
        if n >= 10 {
            assert(old(s)@ + dec(n as nat) =~= (old(s)@ + dec((n / 10) as nat)).push(
                digit_char((n % 10) as int),
            ));
        } else {
            assert(old(s)@ + dec(n as nat) =~= old(s)@.push(digit_char((n % 10) as int)));
        }
    }
}


/// Whether every character of `cs[lo..hi]` is an ASCII decimal digit.
pub fn all_digits_in(cs: &Vec<char>, lo: usize, hi: usize) -> (b: bool)
    requires
        lo <= hi <= cs@.len(),
    ensures
        b == all_digits(cs@.subrange(lo as int, hi as int)),
{
    let mut k = lo;
    while k < hi
        invariant
            lo <= k <= hi <= cs@.len(),
            forall|j: int| lo <= j < k ==> is_digit(#[trigger] cs@[j]),
        decreases hi - k,
    {
        if cs[k] < '0' || cs[k] > '9' {
            assert(cs@.subrange(lo as int, hi as int)[k - lo] == cs@[k as int]);
            return false;
        }
        k = k + 1;
    }
    assert forall|i: int| 0 <= i < hi - lo implies is_digit(
        #[trigger] cs@.subrange(lo as int, hi as int)[i],
    ) by {
        assert(cs@.subrange(lo as int, hi as int)[i] == cs@[lo + i]);
    }
    true
}

/// Every character takes at least one byte in UTF-8.
pub proof fn lemma_utf8_len_ge_len(s: Seq<char>)
    ensures
        utf8_len(s) >= s.len(),
    decreases s.len(),
{
    if s.len() > 0 {
        lemma_utf8_len_ge_len(s.drop_last());
    }
}

/// `c` lower-cased where its lower case is an ASCII letter: an ASCII capital becomes
/// small, and the Kelvin sign (U+212A) becomes `k`; every other character is kept.
pub open spec fn fold_case_char(c: char) -> char {
    if 'A' <= c <= 'Z' {
        ((c as int) + 32) as char
    } else if c == '\u{212A}' {
        'k'
    } else {
        c
    }
}

/// `s` with every character lower-cased where its lower case is an ASCII letter.
///
/// Compared with a text made only of ASCII small letters, this gives the same answer as
/// comparing the full Unicode lower case (`str::to_lowercase`): a character whose lower
/// case is not an ASCII letter keeps, or lowers to, some non-ASCII character (U+0130
/// lowers to `i` followed by U+0307), and so matches no such text either way.
pub open spec fn fold_case(s: Seq<char>) -> Seq<char> {
    s.map_values(|c: char| fold_case_char(c))
}

/// Whether `cs[lo..hi]`, lower-cased as `fold_case` does, is the text `word`.
pub fn lower_equals(cs: &Vec<char>, lo: usize, hi: usize, word: &str) -> (b: bool)
    requires
        lo <= hi <= cs@.len(),
    ensures
        b == (fold_case(cs@.subrange(lo as int, hi as int)) == word@),
{
    let w = str_chars(word);
    let ghost sub = fold_case(cs@.subrange(lo as int, hi as int));
    if hi - lo != w.len() {
        return false;
    }
    let mut k: usize = 0;
    while k < w.len()
        invariant
            w@ == word@,
            hi - lo == w@.len(),
            lo <= hi <= cs@.len(),
            sub == fold_case(cs@.subrange(lo as int, hi as int)),
            k <= w@.len(),
            forall|j: int| 0 <= j < k ==> sub[j] == w@[j],
        decreases w@.len() - k,
    {
        let c = cs[lo + k];
        let lc = if 'A' <= c && c <= 'Z' {
            ((c as u32) + 32) as u8 as char
        } else if c == '\u{212A}' {
            'k'
        } else {
            c
        };
        assert(sub[k as int] == fold_case_char(cs@[lo + k]));
        if lc != w[k] {
            return false;
        }
        k = k + 1;
    }
    assert(sub =~= w@);
    true
}


/// A decimal numeral is non-empty, made of digits, and worth the number it was made of.
pub proof fn lemma_dec_digits(n: nat)
    ensures
        dec(n).len() > 0,
        all_digits(dec(n)),
        digits_value(dec(n)) == n,
        forall|i: int| 0 <= i < dec(n).len() ==> #[trigger] dec(n)[i] != '.' && !is_ws(dec(n)[i]),
    decreases n,
{
    if n >= 10 {
        lemma_dec_digits(n / 10);
        let p = dec(n / 10);
        let d = digit_char((n % 10) as int);
        assert(digit_value(d) == n % 10);
        assert(dec(n) == p.push(d));
        assert(dec(n).drop_last() =~= p);
        assert(dec(n).last() == d);
        assert(digits_value(dec(n)) == digits_value(p) * 10 + digit_value(d));
        assert((n / 10) * 10 + n % 10 == n);
        assert forall|i: int| 0 <= i < dec(n).len() implies is_digit(#[trigger] dec(n)[i]) by {
            if i < p.len() {
                assert(dec(n)[i] == p[i]);
            }
        }
        assert forall|i: int| 0 <= i < dec(n).len() implies #[trigger] dec(n)[i] != '.' && !is_ws(
            dec(n)[i],
        ) by {
            if i < p.len() {
                assert(dec(n)[i] == p[i]);
            }
        }
    } else {
        assert(digit_value(digit_char(n as int)) == n);
        assert(dec(n).drop_last() =~= Seq::<char>::empty());
        assert(digits_value(Seq::<char>::empty()) == 0);
        assert(digits_value(dec(n)) == digits_value(dec(n).drop_last()) * 10 + digit_value(dec(n).last()));
    }
}

/// A text with no white space at either end is its own trimming.
pub proof fn lemma_trim_unchanged(s: Seq<char>)
    requires
        s.len() > 0,
        !is_ws(s[0]),
        !is_ws(s.last()),
    ensures
        trim(s) == s,
{
    assert(trim_start(s) == s);
    assert(trim_end(s) == s);
}

} // verus!
