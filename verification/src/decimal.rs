//! Positive decimal quantities (display scales, refresh rates) read from text.
//!
//! Text is read with the grammar of std's `f64` parser: an optional sign,
//! then `inf`, `infinity` or `nan` in any letter case, or digits with an
//! optional fraction and an optional exponent. The value is kept as a
//! decimal `mantissa * 10^exponent` whose mantissa holds the first seventeen
//! significant digits, rounded half up at the eighteenth. Magnitudes of
//! `10^309` and above read as infinite, and magnitudes below `10^-323` read as
//! zero.
use vstd::prelude::*;
use crate::text::{
    all_digits, find_first_of, first_of, chars_of, digit_value, digits_value, digits_value_capped, is_ascii_digit, is_digit,
    lemma_digits_value_leading_zero, nat_text, push_char, signed_text_value, slice_chars, string_of,
    strip_plus, u64_text,
};

verus! {

// ---------------------------------------------------------------------------
// Powers of ten and digit counts
// ---------------------------------------------------------------------------

pub open spec fn pow10(k: nat) -> nat
    decreases k,
{
    if k == 0 {
        1
    } else {
        10 * pow10((k - 1) as nat)
    }
}

/// Number of decimal digits of `n` (one for zero).
pub open spec fn num_digits(n: nat) -> nat
    decreases n,
{
    if n < 10 {
        1
    } else {
        1 + num_digits(n / 10)
    }
}

pub proof fn lemma_pow10_positive(k: nat)
    ensures
        pow10(k) >= 1,
    decreases k,
{
    if k > 0 {
        lemma_pow10_positive((k - 1) as nat);
    }
}

pub proof fn lemma_pow10_add(a: nat, b: nat)
    ensures
        pow10(a + b) == pow10(a) * pow10(b),
    decreases a,
{
    if a > 0 {
        let a1 = (a - 1) as nat;
        lemma_pow10_add(a1, b);
        assert((a + b - 1) as nat == a1 + b);
        assert(pow10(a + b) == 10 * pow10(a1 + b));
        assert(pow10(a) == 10 * pow10(a1));
        let x = pow10(a1);
        let y = pow10(b);
        assert(10 * (x * y) == (10 * x) * y) by (nonlinear_arith);
        assert(pow10(a + b) == pow10(a) * pow10(b));
    } else {
        assert(pow10(0) == 1);
        assert(a + b == b);
    }
}

pub proof fn lemma_pow10_monotone(a: nat, b: nat)
    requires
        a <= b,
    ensures
        pow10(a) <= pow10(b),
    decreases b,
{
    if a < b {
        lemma_pow10_monotone(a, (b - 1) as nat);
        lemma_pow10_positive((b - 1) as nat);
    }
}

pub proof fn lemma_num_digits_bounds(n: nat)
    ensures
        num_digits(n) >= 1,
        n < pow10(num_digits(n)),
        n >= 1 ==> pow10((num_digits(n) - 1) as nat) <= n,
    decreases n,
{
    if n >= 10 {
        let q = n / 10;
        lemma_num_digits_bounds(q);
        let k = num_digits(q);
        assert(pow10(k + 1) == 10 * pow10(k));
        assert((num_digits(n) - 1) as nat == k);
        let pk = pow10(k);
        assert(n < 10 * pk) by (nonlinear_arith)
            requires
                q == n / 10,
                q < pk,
        ;
        assert(k >= 1);
        let pk1 = pow10((k - 1) as nat);
        assert(pk == 10 * pk1);
        assert(pk <= n) by (nonlinear_arith)
            requires
                q == n / 10,
                pk1 <= q,
                pk == 10 * pk1,
        ;
    } else {
        assert(pow10(1) == 10 * pow10(0));
    }
}

pub proof fn lemma_pow10_17()
    ensures
        pow10(17) == 100000000000000000,
{
    reveal_with_fuel(pow10, 18);
}

pub proof fn lemma_pow10_37()
    ensures
        pow10(37) == 10000000000000000000000000000000000000,
{
    reveal_with_fuel(pow10, 38);
}

/// A `u64` has at most twenty decimal digits.
pub proof fn lemma_num_digits_u64(n: u64)
    ensures
        num_digits(n as nat) <= 20,
{
    lemma_num_digits_bounds(n as nat);
    if num_digits(n as nat) > 20 {
        lemma_pow10_monotone(20, (num_digits(n as nat) - 1) as nat);
        reveal_with_fuel(pow10, 21);
        assert(pow10(20) == 100000000000000000000);
    }
}

/// Counts decimal digits.
pub fn count_digits(n: u64) -> (r: u32)
    ensures
        r == num_digits(n as nat),
        1 <= r <= 20,
    decreases n,
{
    proof {
        lemma_num_digits_u64(n);
        lemma_num_digits_bounds(n as nat);
    }
    if n < 10 {
        1
    } else {
        1 + count_digits(n / 10)
    }
}

/// `10^k` for small `k`.
pub fn pow10_u128(k: u32) -> (r: u128)
    requires
        k <= 38,
    ensures
        r == pow10(k as nat),
    decreases k,
{
    if k == 0 {
        1
    } else {
        let p = pow10_u128(k - 1);
        proof {
            lemma_pow10_monotone((k - 1) as nat, 37);
            lemma_pow10_37();
        }
        10 * p
    }
}

// ---------------------------------------------------------------------------
// The grammar of number text
// ---------------------------------------------------------------------------

/// Lower-case of an ASCII letter; other characters are unchanged.
pub open spec fn lower_ascii(c: char) -> char {
    if 'A' <= c && c <= 'Z' {
        ((c as int) + 32) as char
    } else {
        c
    }
}

/// `s` spells the lower-case `word` in any letter case.
pub open spec fn eq_ignore_case(s: Seq<char>, word: Seq<char>) -> bool {
    s.len() == word.len() && forall|i: int| 0 <= i < s.len() ==> lower_ascii(s[i]) == word[i]
}

/// The sign of a number text and the text after it.
pub open spec fn split_sign(s: Seq<char>) -> (bool, Seq<char>) {
    if s.len() > 0 && s[0] == '-' {
        (true, s.drop_first())
    } else if s.len() > 0 && s[0] == '+' {
        (false, s.drop_first())
    } else {
        (false, s)
    }
}

pub enum Reading {
    Invalid,
    NotANumber,
    Infinite { negative: bool },
    /// Value: `digits` read as an integer, times `10^(exponent - frac_len)`.
    Number { negative: bool, digits: Seq<char>, frac_len: nat, exponent: int },
}

/// The parts of a number text after its sign: all digits of the mantissa
/// (integer part, then fraction), the number of fraction digits, and the
/// exponent; `None` when the text is not a number.
pub open spec fn number_body(body: Seq<char>) -> Option<(Seq<char>, nat, int)> {
    let e = first_of(body, 'e', 'E');
    let mantissa = body.take(e);
    let exponent = if e < body.len() {
        signed_text_value(body.skip(e + 1))
    } else {
        Some(0int)
    };
    let p = first_of(mantissa, '.', '.');
    let int_part = mantissa.take(p);
    let frac_part = if p < mantissa.len() {
        mantissa.skip(p + 1)
    } else {
        Seq::<char>::empty()
    };
    if all_digits(int_part) && all_digits(frac_part) && int_part.len() + frac_part.len() > 0
        && exponent is Some {
        Some((int_part + frac_part, frac_part.len(), exponent.unwrap()))
    } else {
        None
    }
}

/// How std's `f64` parser reads a text.
pub open spec fn reading(s: Seq<char>) -> Reading {
    let (negative, body) = split_sign(s);
    if eq_ignore_case(body, seq!['i', 'n', 'f']) || eq_ignore_case(
        body,
        seq!['i', 'n', 'f', 'i', 'n', 'i', 't', 'y'],
    ) {
        Reading::Infinite { negative }
    } else if eq_ignore_case(body, seq!['n', 'a', 'n']) {
        Reading::NotANumber
    } else {
        match number_body(body) {
            Some((digits, frac_len, exponent)) => Reading::Number {
                negative,
                digits,
                frac_len,
                exponent,
            },
            None => Reading::Invalid,
        }
    }
}

/// A digit string without its leading zeros.
pub open spec fn strip_zeros(d: Seq<char>) -> Seq<char>
    decreases d.len(),
{
    if d.len() > 0 && d[0] == '0' {
        strip_zeros(d.drop_first())
    } else {
        d
    }
}

/// Significant digits kept in a mantissa.
pub open spec fn kept_digits() -> nat {
    17
}

/// The mantissa kept for the significant digits `sig`: the first seventeen,
/// rounded half up at the eighteenth.
pub open spec fn kept_mantissa(sig: Seq<char>) -> nat {
    if sig.len() <= kept_digits() {
        digits_value(sig)
    } else {
        digits_value(sig.take(kept_digits() as int)) + if digit_value(sig[kept_digits() as int])
            >= 5 {
            1nat
        } else {
            0nat
        }
    }
}

/// Powers of ten dropped from `sig` when keeping its mantissa.
pub open spec fn dropped_digits(sig: Seq<char>) -> nat {
    if sig.len() <= kept_digits() {
        0
    } else {
        (sig.len() - kept_digits()) as nat
    }
}

/// A positive decimal `mant * 10^exp`.
#[derive(Clone, Copy, Debug, PartialEq, Eq)]
pub struct Decimal {
    pub mant: u64,
    pub exp: i32,
}

/// A positive quantity read from text: finite, or infinite.
#[derive(Clone, Copy, Debug, PartialEq, Eq)]
pub enum Magnitude {
    Finite(Decimal),
    Infinite,
}

/// Position of the leading digit: the value lies in `[10^(m-1), 10^m)`.
pub open spec fn magnitude_of(mant: nat, exp: int) -> int {
    num_digits(mant) + exp
}

pub open spec fn magnitude_min() -> int {
    -323
}

pub open spec fn magnitude_max() -> int {
    309
}

impl Decimal {
    /// A mantissa within the kept precision and a magnitude within range.
    pub open spec fn wf(self) -> bool {
        &&& 1 <= self.mant <= pow10(kept_digits())
        &&& magnitude_min() <= magnitude_of(self.mant as nat, self.exp as int) <= magnitude_max()
    }
}

impl Magnitude {
    pub open spec fn wf(self) -> bool {
        match self {
            Magnitude::Finite(d) => d.wf(),
            Magnitude::Infinite => true,
        }
    }
}

/// The quantity of a non-negative number with mantissa digits `digits`,
/// `frac_len` of them after the point, and exponent `exponent`; `None` when it
/// is zero or too small to be told from zero.
pub open spec fn number_magnitude(digits: Seq<char>, frac_len: nat, exponent: int) -> Option<
    Magnitude,
> {
    let sig = strip_zeros(digits);
    let mant = kept_mantissa(sig);
    let exp = exponent - frac_len + dropped_digits(sig);
    if sig.len() == 0 {
        None
    } else if magnitude_of(mant, exp) > magnitude_max() {
        Some(Magnitude::Infinite)
    } else if magnitude_of(mant, exp) < magnitude_min() {
        None
    } else {
        Some(Magnitude::Finite(Decimal { mant: mant as u64, exp: exp as i32 }))
    }
}

/// The positive quantity a text denotes, or `None` when the text is not a
/// number, is not a positive number, or is too small to be told from zero.
pub open spec fn positive_reading(s: Seq<char>) -> Option<Magnitude> {
    match reading(s) {
        Reading::Invalid => None,
        Reading::NotANumber => None,
        Reading::Infinite { negative } => if negative {
            None
        } else {
            Some(Magnitude::Infinite)
        },
        Reading::Number { negative, digits, frac_len, exponent } => if negative {
            None
        } else {
            number_magnitude(digits, frac_len, exponent)
        },
    }
}

// ---------------------------------------------------------------------------
// Reading
// ---------------------------------------------------------------------------

/// Lower-case of an ASCII letter; other characters are unchanged.
pub fn lower_char(c: char) -> (r: char)
    ensures
        r == lower_ascii(c),
{
    if 'A' <= c && c <= 'Z' {
        ((c as u32) + 32) as u8 as char
    } else {
        c
    }
}

/// Whether `s[from..]` spells `word` (given in lower case) in any case.
fn matches_word(s: &[char], from: usize, word: &[char]) -> (r: bool)
    requires
        from <= s@.len(),
    ensures
        r == eq_ignore_case(s@.skip(from as int), word@),
{
    let n = s.len();
    if n - from != word.len() {
        return false;
    }
    let mut i: usize = 0;
    while i < word.len()
        invariant
            n == s@.len(),
            from <= n,
            n - from == word@.len(),
            i <= word@.len(),
            forall|j: int| 0 <= j < i ==> lower_ascii(s@.skip(from as int)[j]) == word@[j],
        decreases word@.len() - i,
    {
        if lower_char(s[from + i]) != word[i] {
            return false;
        }
        i = i + 1;
    }
    true
}

pub proof fn lemma_strip_zeros(d: Seq<char>, z: int)
    requires
        0 <= z <= d.len(),
        forall|j: int| 0 <= j < z ==> d[j] == '0',
        z == d.len() || d[z] != '0',
    ensures
        strip_zeros(d) == d.skip(z),
        digits_value(strip_zeros(d)) == digits_value(d),
    decreases z,
{
    if z > 0 {
        lemma_strip_zeros(d.drop_first(), z - 1);
        lemma_digits_value_leading_zero(d);
        assert(d.drop_first().skip(z - 1) == d.skip(z));
    } else {
        assert(d.skip(0) == d);
    }
}

/// Saturating value of the digit string `s[start..end]`: the exact value, or
/// `cap` when it exceeds `cap`.
fn digits_value_saturating(s: &[char], start: usize, end: usize, cap: u128) -> (r: u128)
    requires
        start <= end <= s@.len(),
        all_digits(s@.subrange(start as int, end as int)),
        cap <= 0x1_0000_0000_0000_0000_0000_0000_0000,
    ensures
        r <= cap,
        r == cap || r == digits_value(s@.subrange(start as int, end as int)),
        digits_value(s@.subrange(start as int, end as int)) >= r,
{
    match digits_value_capped(s, start, end, cap) {
        Some(v) => v,
        None => cap,
    }
}

/// The saturation bound used for exponents: `2^100`.
pub open spec fn exponent_cap() -> int {
    0x10_0000_0000_0000_0000_0000_0000
}

/// Reads the exponent text `s[from..to]` (optional sign, then digits),
/// saturating its magnitude at `2^100`.
fn read_exponent(s: &[char], from: usize, to: usize) -> (r: Option<i128>)
    requires
        from <= to <= s@.len(),
    ensures
        r is Some <==> signed_text_value(s@.subrange(from as int, to as int)) is Some,
        r is Some ==> {
            let v = signed_text_value(s@.subrange(from as int, to as int)).unwrap();
            let x = r.unwrap() as int;
            &&& -exponent_cap() <= x <= exponent_cap()
            &&& (x == v || (x == exponent_cap() && v >= exponent_cap()) || (x == -exponent_cap()
                && v <= -exponent_cap()))
        },
{
    let ghost t = s@.subrange(from as int, to as int);
    let negative = from < to && s[from] == '-';
    let start = if from < to && (s[from] == '-' || s[from] == '+') {
        from + 1
    } else {
        from
    };
    assert(negative ==> s@.subrange(start as int, to as int) == t.drop_first());
    assert(!negative ==> s@.subrange(start as int, to as int) == strip_plus(t));
    if start == to || !all_digits_in(s, start, to) {
        return None;
    }
    let cap: u128 = 0x10_0000_0000_0000_0000_0000_0000;
    let v = digits_value_saturating(s, start, to, cap);
    if negative {
        Some(-(v as i128))
    } else {
        Some(v as i128)
    }
}

/// Whether `s[start..end]` holds only ASCII digits.
pub fn all_digits_in(s: &[char], start: usize, end: usize) -> (r: bool)
    requires
        start <= end <= s@.len(),
    ensures
        r == all_digits(s@.subrange(start as int, end as int)),
{
    let mut i = start;
    while i < end
        invariant
            start <= i <= end <= s@.len(),
            forall|j: int| start <= j < i ==> is_digit(s@[j]),
        decreases end - i,
    {
        if !is_ascii_digit(s[i]) {
            assert(!is_digit(s@.subrange(start as int, end as int)[i - start]));
            return false;
        }
        i = i + 1;
    }
    assert forall|j: int| 0 <= j < end - start implies is_digit(
        #[trigger] s@.subrange(start as int, end as int)[j],
    ) by {
        assert(s@.subrange(start as int, end as int)[j] == s@[start + j]);
    }
    true
}

/// Splits the number text `s[i0..]` into its mantissa digits, fraction
/// length and exponent (saturated at `2^100`), as `number_body` describes.
fn scan_number(s: &[char], i0: usize) -> (r: Option<(Vec<char>, usize, i128)>)
    requires
        i0 <= s@.len(),
    ensures
        r is Some <==> number_body(s@.skip(i0 as int)) is Some,
        r matches Some((digits, frac_len, x)) ==> {
            let (d, f, v) = number_body(s@.skip(i0 as int)).unwrap();
            &&& digits@ == d
            &&& frac_len == f
            &&& frac_len <= s@.len()
            &&& all_digits(d)
            &&& -exponent_cap() <= x <= exponent_cap()
            &&& (x == v || (x == exponent_cap() && v >= exponent_cap()) || (x == -exponent_cap()
                && v <= -exponent_cap()))
        },
{
    let n = s.len();
    let ghost body = s@.skip(i0 as int);
    let e = find_first_of(s, i0, n, 'e', 'E');
    assert(s@.subrange(i0 as int, n as int) == body);
    let ghost mantissa = body.take(e - i0);
    assert(mantissa == s@.subrange(i0 as int, e as int));
    let p = find_first_of(s, i0, e, '.', '.');
    let ghost int_part = mantissa.take(p - i0);
    assert(int_part == s@.subrange(i0 as int, p as int));
    let frac_start = if p < e {
        p + 1
    } else {
        e
    };
    let ghost frac_part = if p - i0 < mantissa.len() {
        mantissa.skip(p - i0 + 1)
    } else {
        Seq::<char>::empty()
    };
    assert(frac_part == s@.subrange(frac_start as int, e as int));
    let exponent: Option<i128> = if e < n {
        assert(body.skip(e - i0 + 1) == s@.subrange(e + 1, n as int));
        read_exponent(s, e + 1, n)
    } else {
        Some(0)
    };
    if !all_digits_in(s, i0, p) || !all_digits_in(s, frac_start, e) || (p - i0) + (e
        - frac_start) == 0 || exponent.is_none() {
        return None;
    }
    let mut digits: Vec<char> = slice_chars(s, i0, p);
    let frac = slice_chars(s, frac_start, e);
    let mut j: usize = 0;
    while j < frac.len()
        invariant
            j <= frac@.len(),
            digits@ == int_part + frac@.take(j as int),
        decreases frac@.len() - j,
    {
        digits.push(frac[j]);
        j = j + 1;
        assert(frac@.take(j as int) == frac@.take((j - 1) as int).push(frac@[j - 1]));
    }
    assert(frac@.take(frac@.len() as int) == frac@);
    assert(digits@ == int_part + frac_part);
    Some((digits, e - frac_start, exponent.unwrap()))
}

/// The quantity of a non-negative number, as `number_magnitude` describes,
/// from its mantissa digits, fraction length and saturated exponent.
fn magnitude_of_number(digits: &Vec<char>, frac_len: usize, x: i128) -> (r: Option<Magnitude>)
    requires
        all_digits(digits@),
        -exponent_cap() <= x <= exponent_cap(),
    ensures
        forall|v: int|
            (x == v || (x == exponent_cap() && v >= exponent_cap()) || (x == -exponent_cap() && v
                <= -exponent_cap())) ==> r == number_magnitude(digits@, frac_len as nat, v),
        r matches Some(m) ==> m.wf(),
{
    let ghost all = digits@;
    let mut z: usize = 0;
    while z < digits.len() && digits[z] == '0'
        invariant
            z <= digits@.len(),
            forall|k: int| 0 <= k < z ==> digits@[k] == '0',
        decreases digits@.len() - z,
    {
        z = z + 1;
    }
    proof {
        lemma_strip_zeros(all, z as int);
    }
    let ghost sig = strip_zeros(all);
    if z == digits.len() {
        return None;
    }
    assert(sig == digits@.subrange(z as int, digits@.len() as int));
    let sig_len = digits.len() - z;
    let kept = if sig_len > 17 {
        z + 17
    } else {
        digits.len()
    };
    assert(all_digits(digits@.subrange(z as int, kept as int))) by {
        assert forall|k: int| 0 <= k < kept - z implies is_digit(
            #[trigger] digits@.subrange(z as int, kept as int)[k],
        ) by {
            assert(digits@.subrange(z as int, kept as int)[k] == all[z + k]);
        }
    }
    proof {
        lemma_digits_below_pow10(digits@.subrange(z as int, kept as int));
        lemma_pow10_17();
        lemma_pow10_monotone((kept - z) as nat, 17);
    }
    let head = match digits_value_capped(digits, z, kept, 99_999_999_999_999_999) {
        Some(v) => v,
        None => {
            return None;
        },
    };
    let round_up = sig_len > 17 && digits[z + 17] >= '5';
    let mant: u64 = if round_up {
        (head + 1) as u64
    } else {
        head as u64
    };
    proof {
        assert(all_digits(sig)) by {
            assert forall|k: int| 0 <= k < sig.len() implies is_digit(#[trigger] sig[k]) by {
                assert(sig[k] == all[z + k]);
            }
        }
        if sig_len > 17 {
            assert(sig.take(17) == digits@.subrange(z as int, kept as int));
            assert(sig[17] == digits@[z + 17]);
        } else {
            assert(digits@.subrange(z as int, kept as int) == sig);
        }
        assert(mant == kept_mantissa(sig));
        lemma_sig_value_positive(sig);
    }
    let dropped: usize = sig_len - (kept - z);
    assert(dropped == dropped_digits(sig));
    let exp10: i128 = x - (frac_len as i128) + (dropped as i128);
    let nd = count_digits(mant);
    let mag: i128 = (nd as i128) + exp10;
    if mag > 309 {
        return Some(Magnitude::Infinite);
    }
    if mag < -323 {
        return None;
    }
    Some(Magnitude::Finite(Decimal { mant, exp: exp10 as i32 }))
}

/// Reads the positive quantity a text denotes, as `positive_reading`
/// describes.
pub fn read_positive(text: &str) -> (r: Option<Magnitude>)
    ensures
        r == positive_reading(text@),
        r matches Some(m) ==> m.wf(),
{
    let s = chars_of(text);
    let n = s.len();
    let negative = n > 0 && s[0] == '-';
    let i0: usize = if n > 0 && (s[0] == '-' || s[0] == '+') {
        1
    } else {
        0
    };
    let ghost body = s@.skip(i0 as int);
    assert(split_sign(s@) == (negative, body));
    let inf_word = ['i', 'n', 'f'];
    let infinity_word = ['i', 'n', 'f', 'i', 'n', 'i', 't', 'y'];
    let nan_word = ['n', 'a', 'n'];
    assert(inf_word@ == seq!['i', 'n', 'f']);
    assert(infinity_word@ == seq!['i', 'n', 'f', 'i', 'n', 'i', 't', 'y']);
    assert(nan_word@ == seq!['n', 'a', 'n']);
    if matches_word(&s, i0, &inf_word) || matches_word(&s, i0, &infinity_word) {
        if negative {
            return None;
        }
        return Some(Magnitude::Infinite);
    }
    if matches_word(&s, i0, &nan_word) {
        return None;
    }
    match scan_number(&s, i0) {
        None => None,
        Some((digits, frac_len, x)) => {
            if negative {
                None
            } else {
                magnitude_of_number(&digits, frac_len, x)
            }
        },
    }
}

/// A digit string of length `k` has value below `10^k`.
pub proof fn lemma_digits_below_pow10(d: Seq<char>)
    requires
        all_digits(d),
    ensures
        digits_value(d) < pow10(d.len()),
    decreases d.len(),
{
    if d.len() > 0 {
        lemma_digits_below_pow10(d.drop_last());
        assert(digit_value(d.last()) <= 9);
        assert(pow10(d.len()) == 10 * pow10((d.len() - 1) as nat));
    }
}

/// A digit string that starts with a non-zero digit has a positive value.
pub proof fn lemma_sig_value_positive(d: Seq<char>)
    requires
        all_digits(d),
        d.len() > 0,
        d[0] != '0',
    ensures
        digits_value(d) >= 1,
        d.len() > kept_digits() ==> digits_value(d.take(kept_digits() as int)) >= 1,
    decreases d.len(),
{
    if d.len() > 1 {
        lemma_sig_value_positive(d.drop_last());
        assert(d.drop_last()[0] == d[0]);
        if d.len() > kept_digits() {
            if d.len() - 1 > kept_digits() {
                assert(d.drop_last().take(17) == d.take(17));
            } else {
                assert(d.drop_last() == d.take(17));
            }
        }
    } else {
        assert(d.drop_last().len() == 0);
        assert(d.last() == d[0]);
    }
}

// ---------------------------------------------------------------------------
// Display
// ---------------------------------------------------------------------------

/// The mantissa and exponent with trailing zeros of the mantissa moved into
/// the exponent.
pub open spec fn strip_tens(mant: nat, exp: int) -> (nat, int)
    decreases mant,
{
    if mant > 0 && mant % 10 == 0 {
        strip_tens(mant / 10, exp + 1)
    } else {
        (mant, exp)
    }
}

/// `k` zero characters.
pub open spec fn zeros(k: nat) -> Seq<char> {
    Seq::new(k, |i: int| '0')
}

/// How the value `mant * 10^exp` displays: a whole value as an `i64`
/// (saturating at `i64::MAX`), otherwise in plain decimal notation with no
/// trailing zeros.
pub open spec fn decimal_text(mant: nat, exp: int) -> Seq<char> {
    let (m, e) = strip_tens(mant, exp);
    if e >= 0 {
        let v = m * pow10(e as nat);
        if v > i64::MAX {
            nat_text(i64::MAX as nat)
        } else {
            nat_text(v)
        }
    } else {
        let t = nat_text(m);
        let k = (-e) as nat;
        if k < t.len() {
            t.take(t.len() - k) + seq!['.'] + t.skip(t.len() - k)
        } else {
            seq!['0', '.'] + zeros((k - t.len()) as nat) + t
        }
    }
}

/// How a positive quantity displays; infinity displays as `inf`.
pub open spec fn magnitude_text(m: Magnitude) -> Seq<char> {
    match m {
        Magnitude::Finite(d) => decimal_text(d.mant as nat, d.exp as int),
        Magnitude::Infinite => seq!['i', 'n', 'f'],
    }
}

proof fn lemma_strip_tens_bounds(mant: nat, exp: int)
    requires
        mant >= 1,
    ensures
        strip_tens(mant, exp).0 >= 1,
        strip_tens(mant, exp).0 <= mant,
        strip_tens(mant, exp).1 >= exp,
        strip_tens(mant, exp).1 - exp < num_digits(mant),
    decreases mant,
{
    if mant % 10 == 0 {
        lemma_strip_tens_bounds(mant / 10, exp + 1);
    }
}

/// Formats a positive quantity as `magnitude_text` describes.
pub fn magnitude_to_text(m: Magnitude) -> (out: String)
    requires
        m.wf(),
    ensures
        out@ == magnitude_text(m),
{
    match m {
        Magnitude::Infinite => {
            let mut out = String::new();
            push_char(&mut out, 'i');
            push_char(&mut out, 'n');
            push_char(&mut out, 'f');
            out
        },
        Magnitude::Finite(d) => decimal_to_text(d),
    }
}

/// Formats a decimal as `decimal_text` describes.
pub fn decimal_to_text(d: Decimal) -> (out: String)
    requires
        d.wf(),
    ensures
        out@ == decimal_text(d.mant as nat, d.exp as int),
{
    let mut m: u64 = d.mant;
    let mut e: i32 = d.exp;
    proof {
        lemma_pow10_17();
        assert(pow10(0) == 1);
        assert((e - d.exp) as nat == 0);
    }
    while m % 10 == 0
        invariant
            1 <= m <= d.mant,
            d.wf(),
            pow10(17) == 100000000000000000,
            strip_tens(m as nat, e as int) == strip_tens(d.mant as nat, d.exp as int),
            d.exp <= e,
            (m as nat) * pow10((e - d.exp) as nat) == d.mant as nat,
        decreases m,
    {
        let ghost c = (e - d.exp) as nat;
        proof {
            let q = (m / 10) as nat;
            assert(q * pow10(c + 1) == (m as nat) * pow10(c)) by (nonlinear_arith)
                requires
                    pow10(c + 1) == 10 * pow10(c),
                    q * 10 == m,
            ;
            assert(pow10(c + 1) <= d.mant) by (nonlinear_arith)
                requires
                    q * pow10(c + 1) == d.mant as nat,
                    q >= 1,
            ;
            if c + 1 > 17 {
                lemma_pow10_monotone(18, c + 1);
                reveal_with_fuel(pow10, 19);
            }
        }
        m = m / 10;
        e = e + 1;
    }
    assert(strip_tens(m as nat, e as int) == (m as nat, e as int));
    if e >= 0 {
        if e > 19 {
            proof {
                lemma_pow10_monotone(20, e as nat);
                reveal_with_fuel(pow10, 21);
                assert(pow10(20) == 100000000000000000000);
                assert(m as nat * pow10(e as nat) >= pow10(e as nat)) by (nonlinear_arith)
                    requires
                        m >= 1,
                ;
            }
            let t = u64_text(9_223_372_036_854_775_807);
            return t;
        }
        let p = pow10_u128(e as u32);
        proof {
            lemma_pow10_monotone(e as nat, 19);
            reveal_with_fuel(pow10, 20);
            lemma_pow10_17();
            assert(m as nat * p <= 100000000000000000 * 10000000000000000000) by (nonlinear_arith)
                requires
                    m <= 100000000000000000,
                    p <= 10000000000000000000,
            ;
        }
        let v: u128 = (m as u128) * p;
        if v > 9_223_372_036_854_775_807 {
            u64_text(9_223_372_036_854_775_807)
        } else {
            u64_text(v as u64)
        }
    } else {
        let t = chars_of(u64_text(m).as_str());
        let k: usize = (-(e as i64)) as usize;
        let mut out: Vec<char> = Vec::new();
        if k < t.len() {
            let cut = t.len() - k;
            let mut i: usize = 0;
            while i < t.len()
                invariant
                    cut < t@.len(),
                    i <= t@.len(),
                    i <= cut ==> out@ == t@.take(i as int),
                    i > cut ==> out@ == t@.take(cut as int) + seq!['.'] + t@.subrange(
                        cut as int,
                        i as int,
                    ),
                decreases t@.len() - i,
            {
                if i == cut {
                    out.push('.');
                    assert(t@.take(cut as int) + seq!['.'] + t@.subrange(cut as int, cut as int)
                        == out@);
                }
                out.push(t[i]);
                i = i + 1;
                assert(i <= cut ==> t@.take(i as int) == t@.take((i - 1) as int).push(
                    t@[i - 1],
                ));
                assert(i > cut ==> t@.subrange(cut as int, i as int) == t@.subrange(
                    cut as int,
                    (i - 1) as int,
                ).push(t@[i - 1]));
            }
            assert(t@.subrange(cut as int, t@.len() as int) == t@.skip(cut as int));
        } else {
            out.push('0');
            out.push('.');
            let mut z: usize = 0;
            let fill = k - t.len();
            while z < fill
                invariant
                    z <= fill,
                    out@ == seq!['0', '.'] + zeros(z as nat),
                decreases fill - z,
            {
                out.push('0');
                z = z + 1;
                assert(zeros(z as nat) == zeros((z - 1) as nat).push('0'));
            }
            let mut i: usize = 0;
            while i < t.len()
                invariant
                    i <= t@.len(),
                    out@ == seq!['0', '.'] + zeros(fill as nat) + t@.take(i as int),
                decreases t@.len() - i,
            {
                out.push(t[i]);
                i = i + 1;
                assert(t@.take(i as int) == t@.take((i - 1) as int).push(t@[i - 1]));
            }
            assert(t@.take(t@.len() as int) == t@);
        }
        string_of(&out)
    }
}

// ---------------------------------------------------------------------------
// Comparisons
// ---------------------------------------------------------------------------

/// `mant * 10^exp <= a / b`.
pub open spec fn dec_le_ratio(mant: nat, exp: int, a: nat, b: nat) -> bool {
    if exp >= 0 {
        mant * pow10(exp as nat) * b <= a
    } else {
        mant * b <= a * pow10((-exp) as nat)
    }
}

/// `mant * 10^exp >= a / b`.
pub open spec fn dec_ge_ratio(mant: nat, exp: int, a: nat, b: nat) -> bool {
    if exp >= 0 {
        mant * pow10(exp as nat) * b >= a
    } else {
        mant * b >= a * pow10((-exp) as nat)
    }
}

/// The quantity is at most `a / b`; infinity never is.
pub open spec fn at_most(m: Magnitude, a: nat, b: nat) -> bool {
    match m {
        Magnitude::Finite(d) => dec_le_ratio(d.mant as nat, d.exp as int, a, b),
        Magnitude::Infinite => false,
    }
}

/// The quantity is at least `a / b`; infinity always is.
pub open spec fn at_least(m: Magnitude, a: nat, b: nat) -> bool {
    match m {
        Magnitude::Finite(d) => dec_ge_ratio(d.mant as nat, d.exp as int, a, b),
        Magnitude::Infinite => true,
    }
}

proof fn lemma_big_product(m: nat, p: nat, b: nat)
    requires
        m >= 1,
        b >= 1,
    ensures
        m * p * b >= p,
        m * b >= 1,
{
    assert(m * p * b >= p) by (nonlinear_arith)
        requires
            m >= 1,
            b >= 1,
    ;
    assert(m * b >= 1) by (nonlinear_arith)
        requires
            m >= 1,
            b >= 1,
    ;
}

proof fn lemma_pow10_20()
    ensures
        pow10(20) == 100000000000000000000,
{
    reveal_with_fuel(pow10, 21);
}

/// Whether the quantity is at most `a / b`.
pub fn magnitude_at_most(m: Magnitude, a: u64, b: u64) -> (r: bool)
    requires
        m.wf(),
        a <= 1000,
        1 <= b <= 10,
    ensures
        r == at_most(m, a as nat, b as nat),
{
    match m {
        Magnitude::Infinite => false,
        Magnitude::Finite(d) => {
            proof {
                lemma_pow10_17();
                lemma_pow10_20();
            }
            if d.exp >= 0 {
                if d.exp > 20 {
                    proof {
                        lemma_pow10_monotone(20, d.exp as nat);
                        lemma_big_product(d.mant as nat, pow10(d.exp as nat), b as nat);
                    }
                    false
                } else {
                    let p = pow10_u128(d.exp as u32);
                    proof {
                        lemma_pow10_monotone(d.exp as nat, 20);
                        assert((d.mant as nat) * p <= 100000000000000000 * 100000000000000000000)
                            by (nonlinear_arith)
                            requires
                                d.mant <= 100000000000000000,
                                p <= 100000000000000000000,
                        ;
                        assert((d.mant as nat) * p * (b as nat) <= 100000000000000000
                            * 100000000000000000000 * 10) by (nonlinear_arith)
                            requires
                                d.mant <= 100000000000000000,
                                p <= 100000000000000000000,
                                b <= 10,
                        ;
                    }
                    (d.mant as u128) * p * (b as u128) <= a as u128
                }
            } else {
                let k: u32 = (-(d.exp as i64)) as u32;
                if k > 20 {
                    proof {
                        lemma_pow10_monotone(20, k as nat);
                        assert((d.mant as nat) * (b as nat) <= 100000000000000000 * 10)
                            by (nonlinear_arith)
                            requires
                                d.mant <= 100000000000000000,
                                b <= 10,
                        ;
                        if a == 0 {
                            lemma_big_product(d.mant as nat, 1, b as nat);
                        } else {
                            assert((a as nat) * pow10(k as nat) >= pow10(k as nat))
                                by (nonlinear_arith)
                                requires
                                    a >= 1,
                            ;
                        }
                    }
                    a != 0
                } else {
                    let p = pow10_u128(k);
                    proof {
                        lemma_pow10_monotone(k as nat, 20);
                        assert((a as nat) * p <= 1000 * 100000000000000000000) by (nonlinear_arith)
                            requires
                                a <= 1000,
                                p <= 100000000000000000000,
                        ;
                        assert((d.mant as nat) * (b as nat) <= 100000000000000000 * 10)
                            by (nonlinear_arith)
                            requires
                                d.mant <= 100000000000000000,
                                b <= 10,
                        ;
                    }
                    (d.mant as u128) * (b as u128) <= (a as u128) * p
                }
            }
        },
    }
}

/// Whether the quantity is at least `a / b`.
pub fn magnitude_at_least(m: Magnitude, a: u64, b: u64) -> (r: bool)
    requires
        m.wf(),
        a <= 1000,
        1 <= b <= 10,
    ensures
        r == at_least(m, a as nat, b as nat),
{
    match m {
        Magnitude::Infinite => true,
        Magnitude::Finite(d) => {
            proof {
                lemma_pow10_17();
                lemma_pow10_20();
            }
            if d.exp >= 0 {
                if d.exp > 20 {
                    proof {
                        lemma_pow10_monotone(20, d.exp as nat);
                        lemma_big_product(d.mant as nat, pow10(d.exp as nat), b as nat);
                    }
                    true
                } else {
                    let p = pow10_u128(d.exp as u32);
                    proof {
                        lemma_pow10_monotone(d.exp as nat, 20);
                        assert((d.mant as nat) * p <= 100000000000000000 * 100000000000000000000)
                            by (nonlinear_arith)
                            requires
                                d.mant <= 100000000000000000,
                                p <= 100000000000000000000,
                        ;
                        assert((d.mant as nat) * p * (b as nat) <= 100000000000000000
                            * 100000000000000000000 * 10) by (nonlinear_arith)
                            requires
                                d.mant <= 100000000000000000,
                                p <= 100000000000000000000,
                                b <= 10,
                        ;
                    }
                    (d.mant as u128) * p * (b as u128) >= a as u128
                }
            } else {
                let k: u32 = (-(d.exp as i64)) as u32;
                if k > 20 {
                    proof {
                        lemma_pow10_monotone(20, k as nat);
                        assert((d.mant as nat) * (b as nat) <= 100000000000000000 * 10)
                            by (nonlinear_arith)
                            requires
                                d.mant <= 100000000000000000,
                                b <= 10,
                        ;
                        if a != 0 {
                            assert((a as nat) * pow10(k as nat) >= pow10(k as nat))
                                by (nonlinear_arith)
                                requires
                                    a >= 1,
                            ;
                        }
                    }
                    a == 0
                } else {
                    let p = pow10_u128(k);
                    proof {
                        lemma_pow10_monotone(k as nat, 20);
                        assert((a as nat) * p <= 1000 * 100000000000000000000) by (nonlinear_arith)
                            requires
                                a <= 1000,
                                p <= 100000000000000000000,
                        ;
                        assert((d.mant as nat) * (b as nat) <= 100000000000000000 * 10)
                            by (nonlinear_arith)
                            requires
                                d.mant <= 100000000000000000,
                                b <= 10,
                        ;
                    }
                    (d.mant as u128) * (b as u128) >= (a as u128) * p
                }
            }
        },
    }
}

/// `m1 * 10^e1 < m2 * 10^e2`.
pub open spec fn dec_lt(m1: nat, e1: int, m2: nat, e2: int) -> bool {
    if e1 >= e2 {
        m1 * pow10((e1 - e2) as nat) < m2
    } else {
        m1 < m2 * pow10((e2 - e1) as nat)
    }
}

/// Strict order of positive quantities; infinity is above every finite one.
pub open spec fn less_than(a: Magnitude, b: Magnitude) -> bool {
    match (a, b) {
        (Magnitude::Finite(x), Magnitude::Finite(y)) => dec_lt(
            x.mant as nat,
            x.exp as int,
            y.mant as nat,
            y.exp as int,
        ),
        (Magnitude::Finite(_), Magnitude::Infinite) => true,
        (Magnitude::Infinite, _) => false,
    }
}

/// The larger of two quantities (the first when neither is larger).
pub open spec fn larger(a: Magnitude, b: Magnitude) -> Magnitude {
    if less_than(a, b) {
        b
    } else {
        a
    }
}

/// Whether `a` is below `b`.
pub fn magnitude_less(a: Magnitude, b: Magnitude) -> (r: bool)
    requires
        a.wf(),
        b.wf(),
    ensures
        r == less_than(a, b),
{
    match (a, b) {
        (Magnitude::Finite(x), Magnitude::Finite(y)) => {
            proof {
                lemma_pow10_17();
                reveal_with_fuel(pow10, 20);
            }
            if x.exp >= y.exp {
                let k: i64 = (x.exp as i64) - (y.exp as i64);
                if k > 18 {
                    proof {
                        lemma_pow10_monotone(18, k as nat);
                        assert((x.mant as nat) * pow10(k as nat) >= pow10(k as nat))
                            by (nonlinear_arith)
                            requires
                                x.mant >= 1,
                        ;
                    }
                    false
                } else {
                    let p = pow10_u128(k as u32);
                    proof {
                        lemma_pow10_monotone(k as nat, 18);
                        assert((x.mant as nat) * p <= 100000000000000000 * 1000000000000000000)
                            by (nonlinear_arith)
                            requires
                                x.mant <= 100000000000000000,
                                p <= 1000000000000000000,
                        ;
                    }
                    (x.mant as u128) * p < (y.mant as u128)
                }
            } else {
                let k: i64 = (y.exp as i64) - (x.exp as i64);
                if k > 18 {
                    proof {
                        lemma_pow10_monotone(18, k as nat);
                        assert((y.mant as nat) * pow10(k as nat) >= pow10(k as nat))
                            by (nonlinear_arith)
                            requires
                                y.mant >= 1,
                        ;
                    }
                    true
                } else {
                    let p = pow10_u128(k as u32);
                    proof {
                        lemma_pow10_monotone(k as nat, 18);
                        assert((y.mant as nat) * p <= 100000000000000000 * 1000000000000000000)
                            by (nonlinear_arith)
                            requires
                                y.mant <= 100000000000000000,
                                p <= 1000000000000000000,
                        ;
                    }
                    (x.mant as u128) < (y.mant as u128) * p
                }
            }
        },
        (Magnitude::Finite(_), Magnitude::Infinite) => true,
        (Magnitude::Infinite, _) => false,
    }
}

// ---------------------------------------------------------------------------
// Rounding arithmetic
// ---------------------------------------------------------------------------

/// `n / d` rounded to the nearest integer, halves rounded up.
pub open spec fn round_div(n: nat, d: nat) -> nat {
    ((2 * n + d) / (2 * d)) as nat
}

/// `w / m` rounded to the nearest integer, halves rounded up; zero for
/// infinity.
pub open spec fn divided_rounded(w: nat, m: Magnitude) -> nat {
    match m {
        Magnitude::Infinite => 0,
        Magnitude::Finite(d) => if d.exp >= 0 {
            round_div(w, (d.mant as nat) * pow10(d.exp as nat))
        } else {
            round_div(w * pow10((-d.exp) as nat), d.mant as nat)
        },
    }
}

/// `round(w / m)` clamped to `1..=u32::MAX`.
pub open spec fn divided_extent(w: nat, m: Magnitude) -> nat {
    let r = divided_rounded(w, m);
    if r < 1 {
        1
    } else if r > u32::MAX {
        u32::MAX as nat
    } else {
        r
    }
}

/// `k * m` rounded to the nearest integer, halves rounded up, saturated at
/// `i64::MAX`; infinity gives `i64::MAX`.
pub open spec fn multiplied_rounded(k: nat, m: Magnitude) -> nat {
    let r: nat = match m {
        Magnitude::Infinite => i64::MAX as nat,
        Magnitude::Finite(d) => if d.exp >= 0 {
            k * (d.mant as nat) * pow10(d.exp as nat)
        } else {
            round_div(k * (d.mant as nat), pow10((-d.exp) as nat))
        },
    };
    if r > i64::MAX {
        i64::MAX as nat
    } else {
        r
    }
}

proof fn lemma_round_div_zero(n: nat, d: nat)
    requires
        d > 0,
        2 * n < d,
    ensures
        round_div(n, d) == 0,
{
    assert((2 * n + d) / (2 * d) == 0) by (nonlinear_arith)
        requires
            d > 0,
            2 * n < d,
    ;
}

proof fn lemma_round_div_big(n: nat, d: nat, bound: nat)
    requires
        d > 0,
        n >= d * bound,
    ensures
        round_div(n, d) >= bound,
{
    assert((2 * n + d) / (2 * d) >= bound) by (nonlinear_arith)
        requires
            d > 0,
            n >= d * bound,
    ;
}

/// `round(w / m)` clamped to `1..=u32::MAX`, as `divided_extent` describes.
pub fn divide_extent(w: u32, m: Magnitude) -> (r: u32)
    requires
        m.wf(),
    ensures
        r == divided_extent(w as nat, m),
{
    proof {
        lemma_pow10_17();
        reveal_with_fuel(pow10, 29);
    }
    match m {
        Magnitude::Infinite => 1,
        Magnitude::Finite(d) => {
            if d.exp >= 0 {
                if d.exp > 10 {
                    proof {
                        lemma_pow10_monotone(11, d.exp as nat);
                        let den = (d.mant as nat) * pow10(d.exp as nat);
                        assert(den >= pow10(d.exp as nat)) by (nonlinear_arith)
                            requires
                                d.mant >= 1,
                                den == (d.mant as nat) * pow10(d.exp as nat),
                        ;
                        lemma_round_div_zero(w as nat, den);
                    }
                    1
                } else {
                    let p = pow10_u128(d.exp as u32);
                    proof {
                        lemma_pow10_monotone(d.exp as nat, 10);
                        assert((d.mant as nat) * p <= 100000000000000000 * 10000000000)
                            by (nonlinear_arith)
                            requires
                                d.mant <= 100000000000000000,
                                p <= 10000000000,
                        ;
                        assert((d.mant as nat) * p >= 1) by (nonlinear_arith)
                            requires
                                d.mant >= 1,
                                p >= 1,
                        ;
                    }
                    let den: u128 = (d.mant as u128) * p;
                    let q: u128 = (2 * (w as u128) + den) / (2 * den);
                    proof {
                        assert(q <= w) by (nonlinear_arith)
                            requires
                                den >= 1,
                                q == (2 * (w as nat) + den) / (2 * den),
                        ;
                    }
                    if q < 1 {
                        1
                    } else {
                        q as u32
                    }
                }
            } else {
                let k: u32 = (-(d.exp as i64)) as u32;
                if k > 27 {
                    if w == 0 {
                        proof {
                            let pk = pow10((-d.exp) as nat);
                            assert((w as nat) * pk == 0) by (nonlinear_arith)
                                requires
                                    w == 0,
                            ;
                            lemma_round_div_zero(0, d.mant as nat);
                            assert(divided_rounded(w as nat, m) == 0);
                        }
                        return 1;
                    }
                    proof {
                        lemma_pow10_monotone(28, k as nat);
                        let num = (w as nat) * pow10(k as nat);
                        assert(num >= (d.mant as nat) * 10000000000) by (nonlinear_arith)
                            requires
                                num == (w as nat) * pow10(k as nat),
                                w >= 1,
                                pow10(k as nat) >= 10000000000000000000000000000,
                                d.mant <= 100000000000000000,
                        ;
                        lemma_round_div_big(num, d.mant as nat, 10000000000);
                    }
                    u32::MAX
                } else {
                    let p = pow10_u128(k);
                    proof {
                        lemma_pow10_monotone(k as nat, 27);
                        assert((w as nat) * p <= 4294967295 * 1000000000000000000000000000)
                            by (nonlinear_arith)
                            requires
                                w <= 4294967295,
                                p <= 1000000000000000000000000000,
                        ;
                    }
                    let num: u128 = (w as u128) * p;
                    let q: u128 = (2 * num + (d.mant as u128)) / (2 * (d.mant as u128));
                    if q < 1 {
                        1
                    } else if q > 4294967295 {
                        u32::MAX
                    } else {
                        q as u32
                    }
                }
            }
        },
    }
}

/// `round(k * m)` saturated at `i64::MAX`, as `multiplied_rounded` describes.
pub fn multiply_rounded(k: u32, m: Magnitude) -> (r: u64)
    requires
        m.wf(),
        k <= 100,
    ensures
        r == multiplied_rounded(k as nat, m),
{
    proof {
        lemma_pow10_17();
        reveal_with_fuel(pow10, 23);
    }
    match m {
        Magnitude::Infinite => {
            let top: u64 = 9_223_372_036_854_775_807;
            assert(multiplied_rounded(k as nat, m) == i64::MAX as nat);
            assert(top as nat == i64::MAX as nat);
            top
        },
        Magnitude::Finite(d) => {
            if d.exp >= 0 {
                if d.exp > 19 {
                    proof {
                        lemma_pow10_monotone(20, d.exp as nat);
                        if k >= 1 {
                            assert(k * (d.mant as nat) * pow10(d.exp as nat) >= pow10(
                                d.exp as nat,
                            )) by (nonlinear_arith)
                                requires
                                    k >= 1,
                                    d.mant >= 1,
                            ;
                        }
                    }
                    if k == 0 {
                        assert((k as nat) * (d.mant as nat) * pow10(d.exp as nat) == 0)
                            by (nonlinear_arith)
                            requires
                                k == 0,
                        ;
                        assert(multiplied_rounded(k as nat, m) == 0);
                        0
                    } else {
                        assert(multiplied_rounded(k as nat, m) == i64::MAX as nat);
                        9_223_372_036_854_775_807
                    }
                } else {
                    let p = pow10_u128(d.exp as u32);
                    proof {
                        lemma_pow10_monotone(d.exp as nat, 19);
                        assert((k as nat) * (d.mant as nat) <= 100 * 100000000000000000)
                            by (nonlinear_arith)
                            requires
                                d.mant <= 100000000000000000,
                                k <= 100,
                        ;
                        assert((k as nat) * (d.mant as nat) * p <= 100 * 100000000000000000
                            * 10000000000000000000) by (nonlinear_arith)
                            requires
                                (k as nat) * (d.mant as nat) <= 100 * 100000000000000000,
                                p <= 10000000000000000000,
                        ;
                    }
                    let v: u128 = (k as u128) * (d.mant as u128) * p;
                    if v > 9_223_372_036_854_775_807 {
                        assert(multiplied_rounded(k as nat, m) == i64::MAX as nat);
                        9_223_372_036_854_775_807
                    } else {
                        assert(multiplied_rounded(k as nat, m) == v as nat);
                        v as u64
                    }
                }
            } else {
                let e: u32 = (-(d.exp as i64)) as u32;
                proof {
                    assert((k as nat) * (d.mant as nat) <= 100 * 100000000000000000)
                        by (nonlinear_arith)
                        requires
                            d.mant <= 100000000000000000,
                            k <= 100,
                    ;
                }
                let num: u128 = (k as u128) * (d.mant as u128);
                if e > 22 {
                    proof {
                        lemma_pow10_monotone(23, e as nat);
                        lemma_pow10_positive(e as nat);
                        lemma_round_div_zero(num as nat, pow10(e as nat));
                    }
                    assert(multiplied_rounded(k as nat, m) == 0);
                    0
                } else {
                    let p = pow10_u128(e);
                    proof {
                        lemma_pow10_positive(e as nat);
                        lemma_pow10_monotone(e as nat, 22);
                        assert(round_div(num as nat, p as nat) <= num) by (nonlinear_arith)
                            requires
                                p >= 1,
                        ;
                    }
                    let q: u128 = (2 * num + p) / (2 * p);
                    if q > 9_223_372_036_854_775_807 {
                        assert(multiplied_rounded(k as nat, m) == i64::MAX as nat);
                        9_223_372_036_854_775_807
                    } else {
                        assert(multiplied_rounded(k as nat, m) == q as nat);
                        q as u64
                    }
                }
            }
        },
    }
}

} // verus!
