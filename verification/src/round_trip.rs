//! Displayed quantities read back as themselves: the text `decimal_text`
//! gives for a quantity below `10^17` reads, under `positive_reading`, as a
//! quantity of the same value that displays as the same text.
use vstd::prelude::*;
use crate::decimal::{
    dec_ge_ratio, dec_le_ratio, decimal_text, kept_digits, kept_mantissa, lemma_num_digits_bounds,
    lemma_pow10_17, lemma_pow10_add, lemma_pow10_monotone, lemma_pow10_positive, lower_ascii,
    magnitude_max, magnitude_min, magnitude_of, num_digits, number_body, number_magnitude,
    positive_reading, pow10, reading, split_sign, strip_tens, strip_zeros, zeros, eq_ignore_case,
    dropped_digits, lemma_strip_zeros, lemma_digits_below_pow10, lemma_sig_value_positive,
    Decimal, Magnitude, Reading,
};
use crate::text::{all_digits, digit_char, digit_value, digits_value, first_of, is_digit, lemma_first_of, nat_text};

verus! {

proof fn lemma_digit_char(d: nat)
    requires
        d < 10,
    ensures
        is_digit(digit_char(d)),
        digit_value(digit_char(d)) == d,
        digit_char(d) == '0' <==> d == 0,
{
}

/// The text of a natural number: its digits, with no leading zero.
pub proof fn lemma_nat_text(n: nat)
    ensures
        nat_text(n).len() == num_digits(n),
        all_digits(nat_text(n)),
        digits_value(nat_text(n)) == n,
        n >= 1 ==> nat_text(n)[0] != '0',
    decreases n,
{
    let s = nat_text(n);
    if n < 10 {
        lemma_digit_char(n);
        assert(s.drop_last() =~= Seq::<char>::empty());
        assert(s.last() == digit_char(n));
        assert(digits_value(s.drop_last()) == 0);
        assert(digits_value(s) == digits_value(s.drop_last()) * 10 + digit_value(s.last()));
    } else {
        lemma_nat_text(n / 10);
        lemma_digit_char(n % 10);
        let t = nat_text(n / 10);
        assert(s == t.push(digit_char(n % 10)));
        assert(s.drop_last() == t);
        assert(s.last() == digit_char(n % 10));
        assert(s[0] == t[0]);
        assert(forall|i: int| 0 <= i < t.len() ==> s[i] == t[i]);
        assert(digits_value(s) == digits_value(t) * 10 + digit_value(s.last()));
        assert((n / 10) * 10 + n % 10 == n);
    }
}


/// Appending zeros adds digits: `m * 10^c` has `c` more digits than `m`.
pub proof fn lemma_num_digits_shift(m: nat, c: nat)
    requires
        m >= 1,
    ensures
        num_digits(m * pow10(c)) == num_digits(m) + c,
        m * pow10(c) >= 1,
    decreases c,
{
    if c > 0 {
        let c1 = (c - 1) as nat;
        lemma_num_digits_shift(m, c1);
        let x = m * pow10(c1);
        assert(pow10(c) == 10 * pow10(c1));
        assert(m * pow10(c) == x * 10) by (nonlinear_arith)
            requires
                pow10(c) == 10 * pow10(c1),
                x == m * pow10(c1),
        ;
        assert((x * 10) / 10 == x);
    } else {
        assert(pow10(0) == 1);
        assert(m * 1 == m);
    }
}

/// What `strip_tens` gives: a mantissa without trailing zeros, of the same
/// value and the same magnitude, that `strip_tens` leaves as it is.
pub proof fn lemma_strip_tens(mant: nat, exp: int)
    requires
        mant >= 1,
    ensures
        ({
            let (m, e) = strip_tens(mant, exp);
            &&& 1 <= m <= mant
            &&& m % 10 != 0
            &&& e >= exp
            &&& m * pow10((e - exp) as nat) == mant
            &&& num_digits(mant) == num_digits(m) + (e - exp)
            &&& strip_tens(m, e) == (m, e)
        }),
    decreases mant,
{
    if mant % 10 == 0 {
        let q = mant / 10;
        assert(q >= 1);
        lemma_strip_tens(q, exp + 1);
        let (m, e) = strip_tens(q, exp + 1);
        let c = (e - exp - 1) as nat;
        assert((e - exp) as nat == c + 1);
        assert(pow10(c + 1) == 10 * pow10(c));
        assert(m * pow10(c + 1) == mant) by (nonlinear_arith)
            requires
                pow10(c + 1) == 10 * pow10(c),
                m * pow10(c) == q,
                q == mant / 10,
                mant % 10 == 0,
        ;
        assert(strip_tens(mant, exp) == strip_tens(q, exp + 1));
        assert(mant >= 10);
        assert(num_digits(mant) == 1 + num_digits(q));
        assert(q <= mant);
        assert(m * pow10((e - exp) as nat) == mant);
    } else {
        assert(pow10(0) == 1);
        assert(strip_tens(mant, exp) == (mant, exp));
        assert((exp - exp) as nat == 0);
        assert(mant * pow10(0) == mant);
    }
}

proof fn lemma_cancel(x: int, y: int, p: int)
    requires
        p > 0,
    ensures
        (x * p <= y * p) == (x <= y),
        (x * p >= y * p) == (x >= y),
{
    if x <= y {
        assert(x * p <= y * p) by (nonlinear_arith)
            requires
                x <= y,
                p > 0,
        ;
    } else {
        assert(x * p > y * p) by (nonlinear_arith)
            requires
                x > y,
                p > 0,
        ;
    }
    if x >= y {
        assert(x * p >= y * p) by (nonlinear_arith)
            requires
                x >= y,
                p > 0,
        ;
    } else {
        assert(x * p < y * p) by (nonlinear_arith)
            requires
                x < y,
                p > 0,
        ;
    }
}

/// Moving zeros between the mantissa and the exponent keeps the value:
/// `(m * 10^c) * 10^e` compares with any ratio as `m * 10^(e + c)` does.
pub proof fn lemma_shift_value(m: nat, c: nat, e: int, a: nat, b: nat)
    ensures
        dec_le_ratio(m * pow10(c), e, a, b) == dec_le_ratio(m, e + c, a, b),
        dec_ge_ratio(m * pow10(c), e, a, b) == dec_ge_ratio(m, e + c, a, b),
{
    let pc = pow10(c);
    lemma_pow10_positive(c);
    if e >= 0 {
        let pe = pow10(e as nat);
        lemma_pow10_add(e as nat, c);
        assert((e + c) as nat == e as nat + c);
        assert((m * pc) * pe * b == m * pow10((e + c) as nat) * b) by (nonlinear_arith)
            requires
                pow10((e + c) as nat) == pe * pc,
        ;
    } else if e + c >= 0 {
        let k = (-e) as nat;
        let j = (e + c) as nat;
        lemma_pow10_add(j, k);
        assert(j + k == c);
        let pk = pow10(k);
        let pj = pow10(j);
        lemma_pow10_positive(k);
        assert((m * pc) * b == (m * pj * b) * pk) by (nonlinear_arith)
            requires
                pc == pj * pk,
        ;
        lemma_cancel((m * pj * b) as int, a as int, pk as int);
    } else {
        let k = (-e) as nat;
        let k2 = (-(e + c)) as nat;
        lemma_pow10_add(k2, c);
        assert(k2 + c == k);
        let pk = pow10(k);
        let pk2 = pow10(k2);
        assert((m * pc) * b == (m * b) * pc) by (nonlinear_arith);
        assert(a * pk == (a * pk2) * pc) by (nonlinear_arith)
            requires
                pk == pk2 * pc,
        ;
        lemma_cancel((m * b) as int, (a * pk2) as int, pc as int);
    }
}


/// A text that starts with a digit has no sign and is no word.
proof fn lemma_digit_first(s: Seq<char>)
    requires
        s.len() > 0,
        is_digit(s[0]),
    ensures
        split_sign(s) == (false, s),
        !eq_ignore_case(s, seq!['i', 'n', 'f']),
        !eq_ignore_case(s, seq!['i', 'n', 'f', 'i', 'n', 'i', 't', 'y']),
        !eq_ignore_case(s, seq!['n', 'a', 'n']),
{
    assert(lower_ascii(s[0]) == s[0]);
    assert(seq!['i', 'n', 'f'][0] == 'i');
    assert(seq!['i', 'n', 'f', 'i', 'n', 'i', 't', 'y'][0] == 'i');
    assert(seq!['n', 'a', 'n'][0] == 'n');
}

/// A whole number text reads as its digits.
proof fn lemma_reading_whole(a: Seq<char>)
    requires
        a.len() > 0,
        all_digits(a),
    ensures
        reading(a) == (Reading::Number { negative: false, digits: a, frac_len: 0, exponent: 0 }),
{
    lemma_digit_first(a);
    lemma_first_of(a, 'e', 'E', a.len() as int);
    assert(a.take(a.len() as int) == a);
    lemma_first_of(a, '.', '.', a.len() as int);
    assert(a + Seq::<char>::empty() == a);
}

/// A text with a point between two digit strings reads as their digits,
/// with the second as the fraction.
proof fn lemma_reading_point(a: Seq<char>, b: Seq<char>)
    requires
        a.len() > 0,
        all_digits(a),
        all_digits(b),
    ensures
        reading(a + seq!['.'] + b) == (Reading::Number {
            negative: false,
            digits: a + b,
            frac_len: b.len(),
            exponent: 0,
        }),
{
    let s = a + seq!['.'] + b;
    assert(s[0] == a[0]);
    lemma_digit_first(s);
    assert forall|j: int| 0 <= j < s.len() implies s[j] != 'e' && s[j] != 'E' by {
        if j < a.len() {
            assert(s[j] == a[j]);
        } else if j > a.len() {
            assert(s[j] == b[j - a.len() - 1]);
        }
    }
    lemma_first_of(s, 'e', 'E', s.len() as int);
    assert(s.take(s.len() as int) == s);
    assert forall|j: int| 0 <= j < a.len() implies s[j] != '.' by {
        assert(s[j] == a[j]);
    }
    lemma_first_of(s, '.', '.', a.len() as int);
    assert(s.take(a.len() as int) == a);
    assert(s.skip(a.len() + 1int) == b);
}


/// The decimal a displayed quantity reads back as: the whole value when it
/// is whole, otherwise the mantissa without its trailing zeros.
pub open spec fn read_back(d: Decimal) -> Decimal {
    let (m, e) = strip_tens(d.mant as nat, d.exp as int);
    if e >= 0 {
        Decimal { mant: (m * pow10(e as nat)) as u64, exp: 0 }
    } else {
        Decimal { mant: m as u64, exp: e as i32 }
    }
}

/// The digits of a digit string's prefix and suffix are digits.
proof fn lemma_all_digits_parts(t: Seq<char>, i: int)
    requires
        all_digits(t),
        0 <= i <= t.len(),
    ensures
        all_digits(t.take(i)),
        all_digits(t.skip(i)),
{
    assert forall|j: int| 0 <= j < t.take(i).len() implies is_digit(#[trigger] t.take(i)[j]) by {
        assert(t.take(i)[j] == t[j]);
    }
    assert forall|j: int| 0 <= j < t.skip(i).len() implies is_digit(#[trigger] t.skip(i)[j]) by {
        assert(t.skip(i)[j] == t[i + j]);
    }
}

/// Digits with no leading zero and at most seventeen of them keep their
/// value and exponent when read.
proof fn lemma_short_magnitude(t: Seq<char>, lead: Seq<char>, frac_len: nat)
    requires
        0 < t.len() <= kept_digits(),
        all_digits(t),
        t[0] != '0',
        forall|j: int| 0 <= j < lead.len() ==> lead[j] == '0',
        magnitude_min() <= magnitude_of(digits_value(t), -frac_len) <= magnitude_max(),
    ensures
        number_magnitude(lead + t, frac_len, 0) == Some(
            Magnitude::Finite(Decimal { mant: digits_value(t) as u64, exp: (-frac_len) as i32 }),
        ),
{
    let dd = lead + t;
    assert(dd[lead.len() as int] == t[0]);
    lemma_strip_zeros(dd, lead.len() as int);
    assert(dd.skip(lead.len() as int) == t);
    assert(strip_zeros(dd) == t);
    assert(kept_mantissa(t) == digits_value(t));
    assert(dropped_digits(t) == 0);
}

/// What a displayed decimal below `10^17` reads back as.
pub proof fn lemma_decimal_text_reads_back(d: Decimal)
    requires
        d.wf(),
        magnitude_of(d.mant as nat, d.exp as int) <= 17,
    ensures
        positive_reading(decimal_text(d.mant as nat, d.exp as int)) == Some(
            Magnitude::Finite(read_back(d)),
        ),
        read_back(d).wf(),
        decimal_text(read_back(d).mant as nat, read_back(d).exp as int) == decimal_text(
            d.mant as nat,
            d.exp as int,
        ),
        decimal_text(d.mant as nat, d.exp as int).len() > 0,
        is_digit(decimal_text(d.mant as nat, d.exp as int)[0]),
        is_digit(decimal_text(d.mant as nat, d.exp as int).last()),
{
    let mant = d.mant as nat;
    let exp = d.exp as int;
    lemma_strip_tens(mant, exp);
    let (m, e) = strip_tens(mant, exp);
    lemma_pow10_17();
    assert(magnitude_of(m, e) == magnitude_of(mant, exp));
    let rb = read_back(d);
    let s = decimal_text(mant, exp);
    if e >= 0 {
        let v = m * pow10(e as nat);
        lemma_num_digits_shift(m, e as nat);
        lemma_num_digits_bounds(v);
        lemma_pow10_monotone(num_digits(v), 17);
        assert(v < 100000000000000000);
        let t = nat_text(v);
        assert(s == t);
        lemma_nat_text(v);
        lemma_reading_whole(t);
        assert(strip_zeros(t) == t);
        assert(kept_mantissa(t) == v);
        assert(dropped_digits(t) == 0);
        assert(rb == Decimal { mant: v as u64, exp: 0 });
        assert(number_magnitude(t, 0, 0) == Some(Magnitude::Finite(rb)));
        lemma_strip_tens(v, 0);
        let (m2, e2) = strip_tens(v, 0);
        assert(m2 * pow10((e2 - 0) as nat) == v);
        assert(decimal_text(v, 0) == nat_text(m2 * pow10(e2 as nat)));
        assert(is_digit(t[t.len() - 1]));
    } else {
        let k = (-e) as nat;
        let t = nat_text(m);
        lemma_nat_text(m);
        lemma_num_digits_bounds(m);
        let len = t.len();
        if len > 17 {
            lemma_pow10_monotone(17, (len - 1) as nat);
        }
        assert(len <= 17);
        assert(strip_tens(m, e) == (m, e));
        if k < len {
            let a = t.take(len - k);
            let b = t.skip(len - k);
            lemma_all_digits_parts(t, len - k);
            assert(s == a + seq!['.'] + b);
            lemma_reading_point(a, b);
            assert(a + b == t);
            assert(Seq::<char>::empty() + t == t);
            lemma_short_magnitude(t, Seq::<char>::empty(), k);
            assert(s.last() == b.last());
            assert(is_digit(b[b.len() - 1]));
        } else {
            let lead = zeros((k - len) as nat);
            let b = lead + t;
            assert(s == seq!['0'] + seq!['.'] + b);
            assert(all_digits(b)) by {
                assert forall|j: int| 0 <= j < b.len() implies is_digit(#[trigger] b[j]) by {
                    if j < lead.len() {
                        assert(b[j] == '0');
                    } else {
                        assert(b[j] == t[j - lead.len()]);
                    }
                }
            }
            assert(all_digits(seq!['0']));
            lemma_reading_point(seq!['0'], b);
            let lead2 = seq!['0'] + lead;
            assert(seq!['0'] + b == lead2 + t);
            assert forall|j: int| 0 <= j < lead2.len() implies lead2[j] == '0' by {
                if j > 0 {
                    assert(lead2[j] == lead[j - 1]);
                }
            }
            assert(b.len() == k);
            lemma_short_magnitude(t, lead2, k);
            assert(s.last() == t.last());
            assert(is_digit(t[t.len() - 1]));
        }
        assert(rb == Decimal { mant: m as u64, exp: e as i32 });
    }
}


/// A read-back decimal has the value of the decimal it was displayed from.
pub proof fn lemma_read_back_value(d: Decimal, a: nat, b: nat)
    requires
        d.wf(),
        magnitude_of(d.mant as nat, d.exp as int) <= 17,
    ensures
        dec_le_ratio(read_back(d).mant as nat, read_back(d).exp as int, a, b) == dec_le_ratio(
            d.mant as nat,
            d.exp as int,
            a,
            b,
        ),
        dec_ge_ratio(read_back(d).mant as nat, read_back(d).exp as int, a, b) == dec_ge_ratio(
            d.mant as nat,
            d.exp as int,
            a,
            b,
        ),
{
    let mant = d.mant as nat;
    let exp = d.exp as int;
    lemma_strip_tens(mant, exp);
    let (m, e) = strip_tens(mant, exp);
    let c = (e - exp) as nat;
    lemma_shift_value(m, c, exp, a, b);
    assert(exp + c == e);
    if e >= 0 {
        let v = m * pow10(e as nat);
        lemma_num_digits_shift(m, e as nat);
        lemma_num_digits_bounds(v);
        lemma_pow10_monotone(num_digits(v), 17);
        lemma_pow10_17();
        assert(v < 100000000000000000);
        lemma_shift_value(m, e as nat, 0, a, b);
        assert(0 + e as nat == e);
        assert(read_back(d).mant as nat == v);
    }
}

/// A quantity at most `a < 10^17` has magnitude at most seventeen.
pub proof fn lemma_small_magnitude(d: Decimal, a: nat)
    requires
        d.mant >= 1,
        dec_le_ratio(d.mant as nat, d.exp as int, a, 1),
        a < pow10(17),
    ensures
        magnitude_of(d.mant as nat, d.exp as int) <= 17,
{
    let mant = d.mant as nat;
    let exp = d.exp as int;
    let l = num_digits(mant);
    lemma_num_digits_bounds(mant);
    let lo = pow10((l - 1) as nat);
    if exp >= 0 {
        let pe = pow10(exp as nat);
        lemma_pow10_add((l - 1) as nat, exp as nat);
        assert(lo * pe <= mant * pe) by (nonlinear_arith)
            requires
                lo <= mant,
        ;
        assert(mant * pe * 1 == mant * pe);
        if l + exp > 17 {
            lemma_pow10_monotone(17, (l - 1 + exp) as nat);
            assert(((l - 1) as nat + exp as nat) == (l - 1 + exp) as nat);
        }
    } else {
        let k = (-exp) as nat;
        let pk = pow10(k);
        lemma_pow10_add(17, k);
        lemma_pow10_positive(k);
        assert(a * pk < pow10(17) * pk) by (nonlinear_arith)
            requires
                a < pow10(17),
                pk >= 1,
        ;
        assert(mant * 1 == mant);
        if l - 1 >= 17 + k {
            lemma_pow10_monotone(17 + k, (l - 1) as nat);
        }
    }
}

/// The digits left when leading zeros are stripped.
proof fn lemma_strip_zeros_shape(d: Seq<char>)
    requires
        all_digits(d),
    ensures
        all_digits(strip_zeros(d)),
        strip_zeros(d).len() > 0 ==> strip_zeros(d)[0] != '0',
    decreases d.len(),
{
    if d.len() > 0 && d[0] == '0' {
        assert forall|j: int| 0 <= j < d.drop_first().len() implies is_digit(
            #[trigger] d.drop_first()[j],
        ) by {
            assert(d.drop_first()[j] == d[j + 1]);
        }
        lemma_strip_zeros_shape(d.drop_first());
    }
}

/// Every quantity a digit string reads as is well formed.
pub proof fn lemma_number_magnitude_wf(digits: Seq<char>, frac_len: nat, exponent: int)
    requires
        all_digits(digits),
    ensures
        number_magnitude(digits, frac_len, exponent) matches Some(m) ==> m.wf(),
{
    let sig = strip_zeros(digits);
    lemma_strip_zeros_shape(digits);
    if sig.len() > 0 {
        lemma_pow10_17();
        lemma_sig_value_positive(sig);
        let mant = kept_mantissa(sig);
        if sig.len() <= 17 {
            lemma_digits_below_pow10(sig);
            lemma_pow10_monotone(sig.len(), 17);
        } else {
            lemma_all_digits_parts(sig, 17);
            lemma_digits_below_pow10(sig.take(17));
        }
        assert(1 <= mant <= pow10(17));
        lemma_num_digits_bounds(mant);
        if num_digits(mant) > 18 {
            lemma_pow10_monotone(18, (num_digits(mant) - 1) as nat);
            assert(pow10(18) == 10 * pow10(17));
        }
    }
}

/// Every quantity `positive_reading` gives is well formed.
pub proof fn lemma_positive_reading_wf(s: Seq<char>)
    ensures
        positive_reading(s) matches Some(m) ==> m.wf(),
{
    let (negative, body) = split_sign(s);
    if let Some((digits, frac_len, exponent)) = number_body(body) {
        let e = first_of(body, 'e', 'E');
        let mantissa = body.take(e);
        let p = first_of(mantissa, '.', '.');
        let int_part = mantissa.take(p);
        let frac_part = if p < mantissa.len() {
            mantissa.skip(p + 1)
        } else {
            Seq::<char>::empty()
        };
        assert(digits == int_part + frac_part);
        assert forall|j: int| 0 <= j < digits.len() implies is_digit(#[trigger] digits[j]) by {
            if j < int_part.len() {
                assert(digits[j] == int_part[j]);
            } else {
                assert(digits[j] == frac_part[j - int_part.len()]);
            }
        }
        lemma_number_magnitude_wf(digits, frac_len, exponent);
    }
}

}
