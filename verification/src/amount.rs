//! Parsing and formatting of monetary amounts.
//!
//! A user-supplied amount arrives as a decimal string ("12.345"). It is
//! normalized to an exact minor-unit (cent) count: the value is rounded to
//! the cent boundary, half away from zero, and clamped to the `i64` range.
//! A cent count can be formatted back to a canonical two-decimal string.
//!
//! The accepted grammar is deliberately exactly the decimal numerals: an
//! optional sign, digits, at most one decimal point, at least one digit.
//! Exponent forms ("1e5") and non-finite forms ("inf", "NaN"), which a
//! float parser would take, are no amounts of money and are rejected;
//! parsing goes straight to fixed point, with no float intermediate and
//! no precision loss.

use vstd::prelude::*;

verus! {

/// Rejection of a malformed amount string.
#[derive(Clone, Copy, Debug, PartialEq, Eq)]
pub struct ValidationError {
    pub message: &'static str,
}

/// Magnitudes at or above this bound saturate when converted to `i64` cents.
const MAG_CAP: i128 = 9223372036854775808;

pub open spec fn is_digit_char(c: char) -> bool {
    48 <= c as int && c as int <= 57
}

pub open spec fn digit_val(c: char) -> int {
    c as int - 48
}

pub open spec fn all_digits(s: Seq<char>) -> bool {
    forall|i: int| 0 <= i < s.len() ==> is_digit_char(#[trigger] s[i])
}

/// Numeric value of a digit string, most significant digit first.
pub open spec fn digits_val(s: Seq<char>) -> int
    decreases s.len(),
{
    if s.len() == 0 {
        0
    } else {
        digits_val(s.drop_last()) * 10 + digit_val(s.last())
    }
}

pub open spec fn has_sign(s: Seq<char>) -> bool {
    s.len() > 0 && (s[0] == '+' || s[0] == '-')
}

pub open spec fn is_negative_amount(s: Seq<char>) -> bool {
    s.len() > 0 && s[0] == '-'
}

/// The string with any leading sign removed.
pub open spec fn body_of(s: Seq<char>) -> Seq<char> {
    if has_sign(s) {
        s.subrange(1, s.len() as int)
    } else {
        s
    }
}

/// Index of the first '.' in `b`, or `b.len()` if there is none.
pub open spec fn dot_index(b: Seq<char>) -> int
    decreases b.len(),
{
    if b.len() == 0 {
        0
    } else if b[0] == '.' {
        0
    } else {
        1 + dot_index(b.subrange(1, b.len() as int))
    }
}

/// A valid amount: an optional sign, then digits with at most one decimal
/// point among them, and at least one digit.
pub open spec fn is_valid_amount(s: Seq<char>) -> bool {
    let b = body_of(s);
    let k = dot_index(b);
    &&& b.len() > 0
    &&& all_digits(b.subrange(0, k))
    &&& (k < b.len() ==> all_digits(b.subrange(k + 1, b.len() as int)))
    &&& (k > 0 || k + 1 < b.len())
}

/// Cent contribution of the fractional digit string: the first two digits
/// give the cents, and a third digit of five or more rounds the magnitude up
/// (half away from zero at the cent boundary).
pub open spec fn frac_cents(f: Seq<char>) -> int {
    (if f.len() >= 1 {
        10 * digit_val(f[0])
    } else {
        0
    }) + (if f.len() >= 2 {
        digit_val(f[1])
    } else {
        0
    }) + (if f.len() >= 3 && digit_val(f[2]) >= 5 {
        1int
    } else {
        0int
    })
}

/// Exact value in cents of a valid amount string, before clamping.
pub open spec fn amount_cents(s: Seq<char>) -> int {
    let b = body_of(s);
    let k = dot_index(b);
    let whole = digits_val(b.subrange(0, k));
    let f = if k < b.len() {
        b.subrange(k + 1, b.len() as int)
    } else {
        Seq::<char>::empty()
    };
    let mag = whole * 100 + frac_cents(f);
    if is_negative_amount(s) {
        -mag
    } else {
        mag
    }
}

pub open spec fn clamp_i64(v: int) -> int {
    if v > i64::MAX as int {
        i64::MAX as int
    } else if v < i64::MIN as int {
        i64::MIN as int
    } else {
        v
    }
}

spec fn clamped_mag(v: int) -> int {
    if v > MAG_CAP as int {
        MAG_CAP as int
    } else {
        v
    }
}

proof fn lemma_digits_val_nonneg(s: Seq<char>)
    requires
        all_digits(s),
    ensures
        digits_val(s) >= 0,
    decreases s.len(),
{
    if s.len() > 0 {
        assert(all_digits(s.drop_last())) by {
            assert(forall|i: int|
                0 <= i < s.len() - 1 ==> is_digit_char(#[trigger] s.drop_last()[i]) == is_digit_char(
                    s[i],
                ));
        }
        lemma_digits_val_nonneg(s.drop_last());
        assert(is_digit_char(s.last()));
    }
}

proof fn lemma_dot_index_is(b: Seq<char>, i: int)
    requires
        0 <= i <= b.len(),
        forall|j: int| 0 <= j < i ==> b[j] != '.',
        i < b.len() ==> b[i] == '.',
    ensures
        dot_index(b) == i,
    decreases b.len(),
{
    if b.len() == 0 {
    } else if b[0] == '.' {
        assert(i == 0);
    } else {
        assert(i >= 1);
        let t = b.subrange(1, b.len() as int);
        assert(forall|j: int| 0 <= j < i - 1 ==> #[trigger] t[j] == b[j + 1]);
        lemma_dot_index_is(t, i - 1);
    }
}

/// Parse a decimal amount string to cents, rounding half away from zero at
/// the cent boundary and saturating at the `i64` bounds. Rejects any string
/// that is not an optionally signed decimal number, with the fixed message
/// "Invalid checkout amount format".
#[verifier::rlimit(100)]
#[verifier::loop_isolation(false)]
pub fn normalize_amount(s: &str) -> (r: Result<i64, ValidationError>)
    ensures
        r is Ok <==> is_valid_amount(s@),
        r matches Ok(c) ==> c as int == clamp_i64(amount_cents(s@)),
        r matches Err(e) ==> e.message@ == "Invalid checkout amount format"@,
{
    let n = s.unicode_len();
    if n == 0 {
        return Err(ValidationError { message: "Invalid checkout amount format" });
    }
    let c0 = s.get_char(0);
    let neg = c0 == '-';
    let start: usize = if c0 == '-' || c0 == '+' {
        1
    } else {
        0
    };
    let ghost b = body_of(s@);

    // Locate the first decimal point, if any.
    let mut dot: usize = n;
    let mut j: usize = start;
    while j < n
        invariant
            start <= j <= n,
            start <= dot <= n,
            n == s@.len(),
            dot == n ==> forall|t: int| start <= t < j ==> s@[t] != '.',
            dot < n ==> start <= dot && s@[dot as int] == '.' && forall|t: int|
                start <= t < dot ==> s@[t] != '.',
        decreases n - j,
    {
        if dot == n {
            let c = s.get_char(j);
            if c == '.' {
                dot = j;
            }
        }
        j += 1;
    }
    proof {
        assert(b =~= s@.subrange(start as int, n as int));
        assert forall|t: int| 0 <= t < dot as int - start as int implies b[t] != '.' by {
            assert(b[t] == s@[t + start as int]);
        }
        if dot < n {
            assert(b[dot as int - start as int] == s@[dot as int]);
        }
        lemma_dot_index_is(b, dot as int - start as int);
    }
    let ghost k = dot_index(b);

    // Scan the whole part, accumulating its clamped magnitude.
    proof {
        assert(s@.subrange(start as int, start as int) =~= Seq::<char>::empty());
        assert(digits_val(Seq::<char>::empty()) == 0);
    }
    let mut acc: i128 = 0;
    let mut i: usize = start;
    while i < dot
        invariant
            start <= i <= dot <= n,
            n == s@.len(),
            forall|t: int| start <= t < i ==> is_digit_char(#[trigger] s@[t]),
            acc == clamped_mag(digits_val(s@.subrange(start as int, i as int))),
            0 <= acc <= MAG_CAP,
            dot < n ==> s@[dot as int] == '.',
        decreases dot - i,
    {
        let c = s.get_char(i);
        let u = c as u32;
        if u < 48 || u > 57 {
            proof {
                assert(b =~= s@.subrange(start as int, n as int));
                assert(!is_digit_char(s@[i as int]));
                assert(b.subrange(0, k)[i as int - start as int] == b[i as int - start as int]);
                assert(b[i as int - start as int] == s@[i as int]);
                assert(!all_digits(b.subrange(0, k)));
            }
            return Err(ValidationError { message: "Invalid checkout amount format" });
        }
        let ghost pre = s@.subrange(start as int, i as int);
        let ghost post = s@.subrange(start as int, i + 1 as int);
        proof {
            assert(is_digit_char(s@[i as int]));
            assert(digit_val(s@[i as int]) == u as int - 48);
            assert(post.drop_last() =~= pre);
            assert(post.last() == s@[i as int]);
            assert(digits_val(post) == digits_val(pre) * 10 + digit_val(s@[i as int]));
            if digits_val(pre) > MAG_CAP as int {
                assert(digits_val(pre) * 10 >= digits_val(pre)) by (nonlinear_arith)
                    requires
                        digits_val(pre) >= 0,
                ;
            }
        }
        acc = acc * 10 + ((u - 48) as i128);
        if acc > MAG_CAP {
            acc = MAG_CAP;
        }
        i += 1;
    }
    let ghost whole_digits = b.subrange(0, k);
    proof {
        assert(b =~= s@.subrange(start as int, n as int));
        assert(whole_digits =~= s@.subrange(start as int, dot as int));
    }

    // Scan the fractional part: first two digits are cents, a third digit of
    // five or more rounds the magnitude up.
    let mut f0: i128 = 0;
    let mut f1: i128 = 0;
    let mut round_up = false;
    if dot < n {
        let mut p: usize = dot + 1;
        while p < n
            invariant
                dot + 1 <= p <= n,
                n == s@.len(),
                forall|t: int| dot + 1 <= t < p ==> is_digit_char(#[trigger] s@[t]),
                if p > dot + 1 {
                    f0 == digit_val(s@[dot + 1])
                } else {
                    f0 == 0
                },
                if p > dot + 2 {
                    f1 == digit_val(s@[dot + 2])
                } else {
                    f1 == 0
                },
                round_up == (p > dot + 3 && digit_val(s@[dot + 3]) >= 5),
                0 <= f0 <= 9,
                0 <= f1 <= 9,
            decreases n - p,
        {
            let c = s.get_char(p);
            let u = c as u32;
            if u < 48 || u > 57 {
                proof {
                    assert(b =~= s@.subrange(start as int, n as int));
                    assert(!is_digit_char(s@[p as int]));
                    let ghost q = b.subrange(k + 1, b.len() as int);
                    assert(q[p as int - dot as int - 1] == b[p as int - start as int]);
                    assert(b[p as int - start as int] == s@[p as int]);
                    assert(!all_digits(q));
                }
                return Err(ValidationError { message: "Invalid checkout amount format" });
            }
            if p == dot + 1 {
                f0 = (u - 48) as i128;
            } else if p == dot + 2 {
                f1 = (u - 48) as i128;
            } else if p == dot + 3 {
                round_up = u >= 53;
            }
            p += 1;
        }
    }
    let ghost f = if k < b.len() {
        b.subrange(k + 1, b.len() as int)
    } else {
        Seq::<char>::empty()
    };
    proof {
        assert(b =~= s@.subrange(start as int, n as int));
        if dot < n {
            assert(f =~= s@.subrange(dot + 1, n as int));
            if n > dot + 1 {
                assert(f[0] == s@[dot + 1]);
            }
            if n > dot + 2 {
                assert(f[1] == s@[dot + 2]);
            }
            if n > dot + 3 {
                assert(f[2] == s@[dot + 3]);
            }
        } else {
            assert(f =~= Seq::<char>::empty());
        }
        assert(frac_cents(f) == f0 * 10 + f1 + (if round_up {
            1int
        } else {
            0int
        }));
    }

    // Reject a string with no digit at all.
    if dot == start && dot + 1 >= n {
        return Err(ValidationError { message: "Invalid checkout amount format" });
    }
    proof {
        assert(b =~= s@.subrange(start as int, n as int));
        assert forall|t: int| 0 <= t < k implies is_digit_char(#[trigger] whole_digits[t]) by {
            assert(whole_digits[t] == s@[t + start]);
        }
        if k < b.len() {
            assert forall|t: int| 0 <= t < f.len() implies is_digit_char(#[trigger] f[t]) by {
                assert(f[t] == s@[t + dot + 1]);
            }
        }
        assert(is_valid_amount(s@));
    }

    // Assemble the cent count and saturate to the i64 range.
    let ghost whole = digits_val(whole_digits);
    let ghost true_mag = whole * 100 + frac_cents(f);
    let mut mag: i128 = acc * 100 + f0 * 10 + f1;
    if round_up {
        mag = mag + 1;
    }
    proof {
        lemma_digits_val_nonneg(whole_digits);
        if whole > MAG_CAP as int {
            assert(acc == MAG_CAP);
            assert(whole * 100 >= (MAG_CAP as int + 1) * 100) by (nonlinear_arith)
                requires
                    whole >= MAG_CAP as int + 1,
            ;
            assert(true_mag > i64::MAX as int);
            assert(mag >= MAG_CAP * 100);
        } else {
            assert(acc == whole);
            assert(mag as int == true_mag);
        }
        assert(is_negative_amount(s@) == neg);
        assert(amount_cents(s@) == (if neg {
            -true_mag
        } else {
            true_mag
        }));
    }
    let out: i64 = if neg {
        if mag >= MAG_CAP {
            proof {
                assert(true_mag >= MAG_CAP as int);
                assert(clamp_i64(-true_mag) == i64::MIN as int);
            }
            i64::MIN
        } else {
            proof {
                assert(whole <= MAG_CAP as int);
                assert(0 <= mag < MAG_CAP);
                assert(clamp_i64(-true_mag) == -(mag as int));
            }
            (-mag) as i64
        }
    } else {
        if mag > i64::MAX as i128 {
            proof {
                assert(true_mag > i64::MAX as int);
                assert(clamp_i64(true_mag) == i64::MAX as int);
            }
            i64::MAX
        } else {
            proof {
                assert(whole <= MAG_CAP as int);
                assert(0 <= mag <= i64::MAX as i128);
                assert(clamp_i64(true_mag) == mag as int);
            }
            mag as i64
        }
    };
    assert(out as int == clamp_i64(amount_cents(s@)));
    Ok(out)
}

pub open spec fn spec_digit_char(d: int) -> char {
    if d == 0 {
        '0'
    } else if d == 1 {
        '1'
    } else if d == 2 {
        '2'
    } else if d == 3 {
        '3'
    } else if d == 4 {
        '4'
    } else if d == 5 {
        '5'
    } else if d == 6 {
        '6'
    } else if d == 7 {
        '7'
    } else if d == 8 {
        '8'
    } else {
        '9'
    }
}

/// Decimal digit string of a non-negative number, most significant first.
pub open spec fn spec_digits(n: int) -> Seq<char>
    decreases n,
{
    if n < 10 {
        seq![spec_digit_char(n)]
    } else {
        spec_digits(n / 10).push(spec_digit_char(n % 10))
    }
}

/// Canonical two-decimal rendering of a cent count: an optional minus sign,
/// the whole units, a point, and exactly two fractional digits.
pub open spec fn spec_format_cents(c: int) -> Seq<char> {
    let mag = if c < 0 {
        -c
    } else {
        c
    };
    let sign: Seq<char> = if c < 0 {
        seq!['-']
    } else {
        Seq::<char>::empty()
    };
    sign + spec_digits(mag / 100) + seq![
        '.',
        spec_digit_char((mag % 100) / 10),
        spec_digit_char((mag % 100) % 10),
    ]
}

proof fn lemma_digit_char_val(d: int)
    requires
        0 <= d < 10,
    ensures
        is_digit_char(spec_digit_char(d)),
        digit_val(spec_digit_char(d)) == d,
{
}

proof fn lemma_spec_digits_props(n: int)
    requires
        n >= 0,
    ensures
        all_digits(spec_digits(n)),
        spec_digits(n).len() >= 1,
        digits_val(spec_digits(n)) == n,
    decreases n,
{
    if n < 10 {
        lemma_digit_char_val(n);
        let s = spec_digits(n);
        assert(s.len() == 1);
        assert(s.last() == spec_digit_char(n));
        assert(s.drop_last() =~= Seq::<char>::empty());
        assert(digits_val(s.drop_last()) == 0);
        assert(digits_val(s) == n);
    } else {
        lemma_spec_digits_props(n / 10);
        lemma_digit_char_val(n % 10);
        let p = spec_digits(n / 10);
        let s = spec_digits(n);
        assert(s == p.push(spec_digit_char(n % 10)));
        assert(s.drop_last() =~= p);
        assert(s.last() == spec_digit_char(n % 10));
        assert(s.len() == p.len() + 1);
        assert(digits_val(s) == digits_val(s.drop_last()) * 10 + digit_val(s.last()));
        assert(digits_val(s.drop_last()) == n / 10);
        assert(digit_val(s.last()) == n % 10);
        vstd::arithmetic::div_mod::lemma_fundamental_div_mod(n, 10);
        assert(digits_val(s) == n);
        assert forall|i: int| 0 <= i < s.len() implies is_digit_char(#[trigger] s[i]) by {
            if i < p.len() {
                assert(s[i] == p[i]);
            }
        }
    }
}

/// Formatting a cent count to two decimal places and reading the result back
/// yields the same cent count: the canonical rendering is a valid amount
/// string, and its exact value in cents is the number it was made from.
#[verifier::rlimit(100)]
pub proof fn lemma_format_round_trip(c: int)
    requires
        i64::MIN <= c <= i64::MAX,
    ensures
        is_valid_amount(spec_format_cents(c)),
        amount_cents(spec_format_cents(c)) == c,
{
    let mag = if c < 0 {
        -c
    } else {
        c
    };
    let w = mag / 100;
    let fr = mag % 100;
    let d1 = spec_digit_char(fr / 10);
    let d2 = spec_digit_char(fr % 10);
    lemma_spec_digits_props(w);
    lemma_digit_char_val(fr / 10);
    lemma_digit_char_val(fr % 10);
    let ds = spec_digits(w);
    let body = ds + seq!['.', d1, d2];
    let full = spec_format_cents(c);

    if c < 0 {
        assert(full == seq!['-'] + body);
        assert(full[0] == '-');
        assert(has_sign(full));
        assert(is_negative_amount(full));
        assert(body_of(full) =~= body);
    } else {
        assert(full =~= body);
        assert(is_digit_char(body[0]));
        assert(body[0] != '+' && body[0] != '-');
        assert(!has_sign(full));
        assert(!is_negative_amount(full));
        assert(body_of(full) == full);
    }
    let b = body_of(full);
    assert(b =~= body);

    assert forall|j: int| 0 <= j < ds.len() implies b[j] != '.' by {
        assert(b[j] == ds[j]);
        assert(is_digit_char(ds[j]));
    }
    assert(b[ds.len() as int] == '.');
    lemma_dot_index_is(b, ds.len() as int);
    let k = dot_index(b);
    assert(k == ds.len());

    assert(b.subrange(0, k) =~= ds);
    let f = b.subrange(k + 1, b.len() as int);
    assert(f =~= seq![d1, d2]);
    assert(is_valid_amount(full));

    assert(frac_cents(f) == 10 * (fr / 10) + fr % 10);
    vstd::arithmetic::div_mod::lemma_fundamental_div_mod(fr, 10);
    assert(frac_cents(f) == fr);
    vstd::arithmetic::div_mod::lemma_fundamental_div_mod(mag, 100);
    assert(digits_val(b.subrange(0, k)) * 100 + frac_cents(f) == mag);
    assert(amount_cents(full) == (if c < 0 {
        -mag
    } else {
        mag
    }));
}

/// The cent-count law behind amount normalization: formatting a normalized
/// amount back to two decimal places reproduces the numeric value of the
/// input string rounded to cents.
pub proof fn lemma_normalize_format_round_trip(s: Seq<char>)
    requires
        is_valid_amount(s),
        i64::MIN <= amount_cents(s) <= i64::MAX,
    ensures
        is_valid_amount(spec_format_cents(amount_cents(s))),
        amount_cents(spec_format_cents(amount_cents(s))) == amount_cents(s),
{
    lemma_format_round_trip(amount_cents(s));
}

fn digit_str(d: u64) -> (r: &'static str)
    requires
        d < 10,
    ensures
        r@ == seq![spec_digit_char(d as int)],
{
    proof {
        reveal_strlit("0");
        reveal_strlit("1");
        reveal_strlit("2");
        reveal_strlit("3");
        reveal_strlit("4");
        reveal_strlit("5");
        reveal_strlit("6");
        reveal_strlit("7");
        reveal_strlit("8");
        reveal_strlit("9");
    }
    let r = if d == 0 {
        "0"
    } else if d == 1 {
        "1"
    } else if d == 2 {
        "2"
    } else if d == 3 {
        "3"
    } else if d == 4 {
        "4"
    } else if d == 5 {
        "5"
    } else if d == 6 {
        "6"
    } else if d == 7 {
        "7"
    } else if d == 8 {
        "8"
    } else {
        "9"
    };
    proof {
        assert(r@ =~= seq![spec_digit_char(d as int)]);
    }
    r
}

fn digits_string(n: u64) -> (r: String)
    ensures
        r@ == spec_digits(n as int),
    decreases n,
{
    if n < 10 {
        String::from_str(digit_str(n))
    } else {
        let rest = digits_string(n / 10);
        let r = rest.concat(digit_str(n % 10));
        proof {
            assert(r@ =~= spec_digits(n as int / 10).push(spec_digit_char(n as int % 10)));
        }
        r
    }
}

/// Render a cent count as a decimal string with exactly two fractional
/// digits, the fixed-scale form sent to the payment gateway.
pub fn format_cents(cents: i64) -> (r: String)
    ensures
        r@ == spec_format_cents(cents as int),
{
    proof {
        reveal_strlit("-");
        reveal_strlit(".");
    }
    let mag: u64 = if cents < 0 {
        (-(cents as i128)) as u64
    } else {
        cents as u64
    };
    let mut out = if cents < 0 {
        String::from_str("-")
    } else {
        String::new()
    };
    let whole = digits_string(mag / 100);
    out.append(whole.as_str());
    out.append(".");
    let fr = mag % 100;
    out.append(digit_str(fr / 10));
    out.append(digit_str(fr % 10));
    proof {
        assert(out@ =~= spec_format_cents(cents as int));
    }
    out
}

} // verus!
