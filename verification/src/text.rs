//! Decimal text: parsing and rendering of the integers and fixed-point
//! second counts that appear in the encoder's textual output and in task
//! identifiers.

use vstd::prelude::*;

verus! {

/// Is `c` a decimal digit?
pub open spec fn is_dec_digit(c: char) -> bool {
    '0' <= c && c <= '9'
}

/// Numeric value of a decimal digit.
pub open spec fn digit_val(c: char) -> nat
    recommends
        is_dec_digit(c),
{
    (c as nat - '0' as nat) as nat
}

/// Every character of `s` is a decimal digit.
pub open spec fn all_digits(s: Seq<char>) -> bool {
    forall|i: int| 0 <= i < s.len() ==> is_dec_digit(#[trigger] s[i])
}

/// The value of a digit string, most significant digit first.
pub open spec fn digits_value(s: Seq<char>) -> nat
    decreases s.len(),
{
    if s.len() == 0 {
        0
    } else {
        digits_value(s.drop_last()) * 10 + digit_val(s.last())
    }
}

/// The canonical decimal digit string of `n`: no sign, no leading zero
/// (except for zero itself).
pub open spec fn dec_digits(n: nat) -> Seq<char>
    decreases n,
{
    if n < 10 {
        seq![digit_char(n)]
    } else {
        dec_digits(n / 10).push(digit_char(n % 10))
    }
}

/// The digit character for a value below ten.
pub open spec fn digit_char(n: nat) -> char
    recommends
        n < 10,
{
    if n == 0 {
        '0'
    } else if n == 1 {
        '1'
    } else if n == 2 {
        '2'
    } else if n == 3 {
        '3'
    } else if n == 4 {
        '4'
    } else if n == 5 {
        '5'
    } else if n == 6 {
        '6'
    } else if n == 7 {
        '7'
    } else if n == 8 {
        '8'
    } else {
        '9'
    }
}

/// Reading back the canonical digit string of `n` gives `n` again.
pub proof fn lemma_digits_value_of_dec_digits(n: nat)
    ensures
        digits_value(dec_digits(n)) == n,
        all_digits(dec_digits(n)),
        dec_digits(n).len() >= 1,
    decreases n,
{
    if n < 10 {
        let s0 = seq![digit_char(n)];
        assert(dec_digits(n) =~= s0);
        assert(s0.drop_last() =~= Seq::<char>::empty());
        assert(digits_value(Seq::<char>::empty()) == 0);
        assert(digits_value(s0) == digits_value(s0.drop_last()) * 10 + digit_val(s0.last()));
        assert(digit_val(digit_char(n)) == n);
        assert(digits_value(dec_digits(n)) == n);
    } else {
        lemma_digits_value_of_dec_digits(n / 10);
        let s = dec_digits(n / 10).push(digit_char(n % 10));
        assert(s.drop_last() =~= dec_digits(n / 10));
        assert(digit_val(digit_char(n % 10)) == n % 10);
        assert(digits_value(s) == digits_value(dec_digits(n / 10)) * 10 + n % 10);
        assert(n / 10 * 10 + n % 10 == n) by {
            vstd::arithmetic::div_mod::lemma_fundamental_div_mod(n as int, 10);
        }
        assert(forall|i: int|
            0 <= i < s.len() ==> is_dec_digit(#[trigger] s[i]));
    }
}

/// A longer digit string never has a smaller value: appending a digit
/// multiplies the old value by ten.
pub proof fn lemma_digits_value_prefix_le(s: Seq<char>, i: int, j: int)
    requires
        0 <= i <= j <= s.len(),
    ensures
        digits_value(s.take(i)) <= digits_value(s.take(j)),
    decreases j - i,
{
    if i < j {
        lemma_digits_value_prefix_le(s, i, j - 1);
        assert(s.take(j).drop_last() =~= s.take(j - 1));
        assert(digits_value(s.take(j)) == digits_value(s.take(j - 1)) * 10 + digit_val(
            s.take(j).last(),
        ));
    } else {
        assert(s.take(i) =~= s.take(j));
    }
}

/// What `parse_u64` returns: the value of a non-empty digit string that
/// fits in 64 bits; nothing otherwise.
pub open spec fn spec_parse_u64(s: Seq<char>) -> Option<u64> {
    if s.len() > 0 && all_digits(s) && digits_value(s) <= u64::MAX {
        Some(digits_value(s) as u64)
    } else {
        None
    }
}

/// Parse a string of decimal digits into a 64-bit value.
///
/// Returns the value exactly when the string is non-empty, holds only
/// digits, and the value fits; anything else is rejected.
pub fn parse_u64(s: &str) -> (r: Option<u64>)
    ensures
        r == spec_parse_u64(s@),
        r is Some <==> s@.len() > 0 && all_digits(s@) && digits_value(s@) <= u64::MAX,
        r is Some ==> r->0 == digits_value(s@),
{
    let n = s.unicode_len();
    if n == 0 {
        return None;
    }
    let mut acc: u64 = 0;
    let mut i: usize = 0;
    while i < n
        invariant
            0 <= i <= n,
            n == s@.len(),
            all_digits(s@.take(i as int)),
            acc == digits_value(s@.take(i as int)),
        decreases n - i,
    {
        let c = s.get_char(i);
        if c < '0' || c > '9' {
            proof {
                assert(!is_dec_digit(s@[i as int]));
            }
            return None;
        }
        let d: u64 = (c as u32 as u64) - 48;
        proof {
            assert(d == digit_val(s@[i as int]));
        }
        if acc > (u64::MAX - d) / 10 {
            proof {
                let t = s@.take(i + 1);
                assert(t.drop_last() =~= s@.take(i as int));
                assert(t.last() == s@[i as int]);
                assert(digits_value(t) == acc * 10 + d);
                assert(acc * 10 + d > u64::MAX) by {
                    vstd::arithmetic::div_mod::lemma_fundamental_div_mod(
                        u64::MAX - d,
                        10,
                    );
                }
                lemma_digits_value_prefix_le(s@, i + 1, s@.len() as int);
                assert(s@.take(s@.len() as int) =~= s@);
                assert(digits_value(s@) > u64::MAX);
            }
            return None;
        }
        proof {
            let t = s@.take(i + 1);
            assert(t.drop_last() =~= s@.take(i as int));
            assert(t.last() == s@[i as int]);
            assert(acc * 10 + d <= u64::MAX) by {
                vstd::arithmetic::div_mod::lemma_fundamental_div_mod(u64::MAX - d, 10);
            }
        }
        acc = acc * 10 + d;
        i = i + 1;
    }
    proof {
        assert(s@.take(n as int) =~= s@);
    }
    Some(acc)
}

/// The single-character string for a digit value.
fn digit_str(d: u64) -> (r: &'static str)
    requires
        d < 10,
    ensures
        r@ =~= seq![digit_char(d as nat)],
{
    proof {
        reveal_strlit("0");
        reveal_strlit("1");
        reveal_strlit("2");
        reveal_strlit("3");
        reveal_strlit("4");
        reveal_strlit("5");
        reveal_strlit("6");
        reveal_strlit("7");
        reveal_strlit("8");
        reveal_strlit("9");
    }
    if d == 0 {
        "0"
    } else if d == 1 {
        "1"
    } else if d == 2 {
        "2"
    } else if d == 3 {
        "3"
    } else if d == 4 {
        "4"
    } else if d == 5 {
        "5"
    } else if d == 6 {
        "6"
    } else if d == 7 {
        "7"
    } else if d == 8 {
        "8"
    } else {
        "9"
    }
}

/// Render `n` as its canonical decimal digit string.
pub fn render_u64(n: u64) -> (r: String)
    ensures
        r@ == dec_digits(n as nat),
    decreases n,
{
    if n < 10 {
        String::from_str(digit_str(n))
    } else {
        let mut prefix = render_u64(n / 10);
        prefix.append(digit_str(n % 10));
        prefix
    }
}

/// Ten to the `n`th power.
pub open spec fn pow10(n: nat) -> nat
    decreases n,
{
    if n == 0 {
        1
    } else {
        10 * pow10((n - 1) as nat)
    }
}

/// A decimal number with an optional fractional part splits at `k`: digits,
/// then (unless the string ends there) a dot and more digits.
pub open spec fn fixed_split(s: Seq<char>, k: int) -> bool {
    &&& 1 <= k <= s.len()
    &&& all_digits(s.take(k))
    &&& (k == s.len() || (s[k] == '.' && all_digits(s.skip(k + 1))))
}

/// The string is a decimal number, optionally with a fractional part.
pub open spec fn valid_fixed(s: Seq<char>) -> bool {
    exists|k: int| fixed_split(s, k)
}

/// Microseconds denoted by an integer part and a fractional part, the
/// fraction read to six places (further places are dropped).
pub open spec fn fixed_value_micros(int_digits: Seq<char>, frac_digits: Seq<char>) -> nat {
    digits_value(int_digits) * 1_000_000 + frac_micros(frac_digits)
}

/// Microseconds denoted by a fractional digit string.
pub open spec fn frac_micros(f: Seq<char>) -> nat {
    if f.len() >= 6 {
        digits_value(f.take(6))
    } else {
        digits_value(f) * pow10((6 - f.len()) as nat)
    }
}

/// Microseconds denoted by a whole fixed-point string.
pub open spec fn fixed_micros(s: Seq<char>) -> nat {
    let k = choose|k: int| fixed_split(s, k);
    if k == s.len() {
        fixed_value_micros(s.take(k), Seq::empty())
    } else {
        fixed_value_micros(s.take(k), s.skip(k + 1))
    }
}

/// A fixed-point string splits in only one way: the split point is the
/// first character that is not a digit.
pub proof fn lemma_fixed_split_unique(s: Seq<char>, k1: int, k2: int)
    requires
        fixed_split(s, k1),
        fixed_split(s, k2),
    ensures
        k1 == k2,
{
    if k1 < k2 {
        assert(is_dec_digit(s.take(k2)[k1]));
        assert(!is_dec_digit('.'));
    }
    if k2 < k1 {
        assert(is_dec_digit(s.take(k1)[k2]));
        assert(!is_dec_digit('.'));
    }
}

/// With a known split point the value of the whole string is the value of
/// its two parts.
pub proof fn lemma_fixed_micros_at(s: Seq<char>, k: int)
    requires
        fixed_split(s, k),
    ensures
        k == s.len() ==> fixed_micros(s) == fixed_value_micros(s.take(k), Seq::empty()),
        k < s.len() ==> fixed_micros(s) == fixed_value_micros(s.take(k), s.skip(k + 1)),
{
    let kc = choose|k0: int| fixed_split(s, k0);
    lemma_fixed_split_unique(s, k, kc);
}

/// A digit string's value is below ten to its length.
pub proof fn lemma_digits_value_bound(s: Seq<char>)
    requires
        all_digits(s),
    ensures
        digits_value(s) < pow10(s.len()),
    decreases s.len(),
{
    if s.len() == 0 {
    } else {
        assert(all_digits(s.drop_last())) by {
            assert(forall|i: int|
                0 <= i < s.len() - 1 ==> is_dec_digit(#[trigger] s.drop_last()[i]));
        }
        lemma_digits_value_bound(s.drop_last());
        assert(is_dec_digit(s.last()));
        assert(digit_val(s.last()) <= 9);
        assert(digits_value(s.drop_last()) * 10 <= (pow10((s.len() - 1) as nat) - 1) * 10)
            by {
            vstd::arithmetic::mul::lemma_mul_inequality(
                digits_value(s.drop_last()) as int,
                pow10((s.len() - 1) as nat) - 1,
                10,
            );
        }
    }
}

/// Powers of ten multiply by adding exponents.
pub proof fn lemma_pow10_add(a: nat, b: nat)
    ensures
        pow10(a) * pow10(b) == pow10(a + b),
    decreases a,
{
    if a == 0 {
        assert(pow10(0) == 1);
        assert(pow10(0 + b) == pow10(b));
        assert(1 * pow10(b) == pow10(b));
    } else {
        lemma_pow10_add((a - 1) as nat, b);
        assert(pow10(a) == 10 * pow10((a - 1) as nat));
        assert(pow10(a + b) == 10 * pow10((a - 1) as nat + b));
        assert(pow10(a) * pow10(b) == 10 * (pow10((a - 1) as nat) * pow10(b))) by {
            vstd::arithmetic::mul::lemma_mul_is_associative(
                10,
                pow10((a - 1) as nat) as int,
                pow10(b) as int,
            );
        }
    }
}

/// The first seven powers of ten, spelled out.
pub proof fn lemma_pow10_vals()
    ensures
        pow10(0) == 1,
        pow10(1) == 10,
        pow10(2) == 100,
        pow10(3) == 1_000,
        pow10(4) == 10_000,
        pow10(5) == 100_000,
        pow10(6) == 1_000_000,
{
    reveal_with_fuel(pow10, 8);
}

/// Ten to a small power, as a machine word.
pub fn pow10_small(e: u64) -> (r: u64)
    requires
        e <= 6,
    ensures
        r == pow10(e as nat),
{
    proof {
        lemma_pow10_vals();
    }
    if e == 0 {
        1
    } else if e == 1 {
        10
    } else if e == 2 {
        100
    } else if e == 3 {
        1_000
    } else if e == 4 {
        10_000
    } else if e == 5 {
        100_000
    } else {
        1_000_000
    }
}

/// First index at or after `from` that does not hold a decimal digit.
fn scan_digits(s: &str, from: usize) -> (r: usize)
    requires
        from <= s@.len(),
    ensures
        from <= r <= s@.len(),
        forall|m: int| from <= m < r ==> is_dec_digit(#[trigger] s@[m]),
        r < s@.len() ==> !is_dec_digit(s@[r as int]),
{
    let n = s.unicode_len();
    let mut i: usize = from;
    while i < n
        invariant
            from <= i <= n,
            n == s@.len(),
            forall|m: int| from <= m < i ==> is_dec_digit(#[trigger] s@[m]),
        decreases n - i,
    {
        let c = s.get_char(i);
        if c < '0' || c > '9' {
            return i;
        }
        i = i + 1;
    }
    i
}

/// Parse a decimal number with an optional fractional part into
/// microseconds, reading the fraction to six places.
///
/// Returns the value exactly when the string has the shape
/// digits-optionally-dot-digits and the value fits; anything else is
/// rejected.
pub fn parse_fixed_micros(s: &str) -> (r: Option<u64>)
    ensures
        r is Some <==> valid_fixed(s@) && fixed_micros(s@) <= u64::MAX,
        r is Some ==> r->0 == fixed_micros(s@),
{
    let n = s.unicode_len();
    if n == 0 {
        proof {
            assert(forall|k: int| !fixed_split(s@, k));
        }
        return None;
    }
    // Scan the integer digits.
    let i = scan_digits(s, 0);
    proof {
        assert(all_digits(s@.take(i as int))) by {
            assert(forall|j: int|
                0 <= j < i ==> is_dec_digit(#[trigger] s@.take(i as int)[j]));
        }
    }
    if i == 0 {
        proof {
            assert forall|k: int| !fixed_split(s@, k) by {
                if fixed_split(s@, k) {
                    assert(is_dec_digit(s@.take(k)[0]));
                }
            }
        }
        return None;
    }
    let ghost k = i as int;
    let mut frac_len: usize = 0;
    if i < n {
        if s.get_char(i) != '.' {
            proof {
                assert forall|k0: int| !fixed_split(s@, k0) by {
                    if fixed_split(s@, k0) {
                        if k0 < i {
                            assert(is_dec_digit(s@.take(i as int)[k0]));
                            assert(s@[k0] == '.');
                            assert(!is_dec_digit('.'));
                        } else if k0 == i {
                            assert(s@[k0] == '.');
                        } else {
                            assert(is_dec_digit(s@.take(k0)[i as int]));
                        }
                    }
                }
            }
            return None;
        }
        // Scan the fractional digits.
        let j = scan_digits(s, i + 1);
        if j < n {
            proof {
                assert forall|k0: int| !fixed_split(s@, k0) by {
                    if fixed_split(s@, k0) {
                        if k0 < i {
                            assert(is_dec_digit(s@.take(i as int)[k0]));
                            assert(s@[k0] == '.');
                            assert(!is_dec_digit('.'));
                        } else if k0 == i {
                            assert(is_dec_digit(s@.skip(i + 1)[j - i - 1]));
                        } else {
                            assert(is_dec_digit(s@.take(k0)[i as int]));
                        }
                    }
                }
            }
            return None;
        }
        frac_len = n - (i + 1);
    }
    proof {
        if i < n {
            assert(all_digits(s@.skip(i + 1))) by {
                assert(forall|m: int|
                    0 <= m < s@.skip(i + 1).len() ==> is_dec_digit(
                        #[trigger] s@.skip(i + 1)[m],
                    ));
            }
        }
        assert(fixed_split(s@, k));
    }
    // Value of the integer part.
    let int_str = s.substring_char(0, i);
    proof {
        assert(int_str@ =~= s@.take(k));
    }
    let int_val_opt = parse_u64(int_str);
    // Value of the fractional part, read to six places.
    let mut fm: u64 = 0;
    let mut m: usize = 0;
    let take6: usize = if frac_len < 6 {
        frac_len
    } else {
        6
    };
    let ghost frac: Seq<char> = if k == s@.len() {
        Seq::empty()
    } else {
        s@.skip(k + 1)
    };
    proof {
        if i < n {
            assert(frac =~= s@.skip(k + 1));
        }
    }
    while m < take6
        invariant
            0 <= m <= take6,
            take6 <= 6,
            n == s@.len(),
            1 <= i <= n,
            k == i as int,
            take6 == (if frac_len < 6 { frac_len as int } else { 6int }),
            frac_len > 0 ==> (i < n && frac_len == n - i - 1),
            frac == (if k == s@.len() { Seq::<char>::empty() } else { s@.skip(k + 1) }),
            all_digits(frac),
            frac.len() == frac_len,
            fm == digits_value(frac.take(m as int)),
            fm < pow10(m as nat),
        decreases take6 - m,
    {
        proof {
            lemma_pow10_vals();
            lemma_pow10_le(m as nat, 5);
        }
        let c = s.get_char(i + 1 + m);
        proof {
            assert(frac[m as int] == s@[k + 1 + m]);
            assert(is_dec_digit(frac[m as int]));
        }
        let d: u64 = (c as u32 as u64) - 48;
        proof {
            assert(d == digit_val(frac[m as int]));
            let t = frac.take(m + 1);
            assert(t.drop_last() =~= frac.take(m as int));
            assert(t.last() == frac[m as int]);
            assert(digits_value(t) == fm * 10 + d);
        }
        fm = fm * 10 + d;
        m = m + 1;
    }
    proof {
        lemma_pow10_vals();
        if frac_len >= 6 {
            assert(fm == digits_value(frac.take(6)));
            assert(fm == frac_micros(frac));
        }
    }
    if take6 < 6 {
        proof {
            assert(frac.take(take6 as int) =~= frac);
            lemma_digits_value_bound(frac);
            lemma_pow10_le(frac.len(), 6);
            vstd::arithmetic::mul::lemma_mul_inequality(
                fm as int,
                pow10(frac.len()) - 1,
                pow10((6 - frac.len()) as nat) as int,
            );
            vstd::arithmetic::mul::lemma_mul_is_distributive_sub_other_way(
                pow10((6 - frac.len()) as nat) as int,
                pow10(frac.len()) as int,
                1,
            );
            lemma_pow10_add(frac.len(), (6 - frac.len()) as nat);
            lemma_pow10_vals();
        }
        fm = fm * pow10_small(6 - (take6 as u64));
    }
    proof {
        lemma_pow10_vals();
        assert(fm == frac_micros(frac));
        assert(fm <= 1_000_000) by {
            if frac.len() >= 6 {
                lemma_digits_value_bound(frac.take(6));
            }
        }
        lemma_fixed_micros_at(s@, k);
        assert(fixed_micros(s@) == digits_value(s@.take(k)) * 1_000_000 + frac_micros(frac));
    }
    let int_val = match int_val_opt {
        Some(v) => v,
        None => {
            proof {
                assert(digits_value(s@.take(k)) > u64::MAX);
                vstd::arithmetic::mul::lemma_mul_inequality(
                    u64::MAX as int + 1,
                    digits_value(s@.take(k)) as int,
                    1_000_000,
                );
            }
            return None;
        },
    };
    if int_val > (u64::MAX - fm) / 1_000_000 {
        proof {
            vstd::arithmetic::div_mod::lemma_fundamental_div_mod(
                u64::MAX - fm,
                1_000_000,
            );
            vstd::arithmetic::mul::lemma_mul_inequality(
                (u64::MAX - fm) / 1_000_000 + 1,
                int_val as int,
                1_000_000,
            );
        }
        return None;
    }
    proof {
        vstd::arithmetic::div_mod::lemma_fundamental_div_mod(u64::MAX - fm, 1_000_000);
        vstd::arithmetic::mul::lemma_mul_inequality(
            int_val as int,
            (u64::MAX - fm) / 1_000_000,
            1_000_000,
        );
    }
    Some(int_val * 1_000_000 + fm)
}

/// Powers of ten grow with the exponent.
pub proof fn lemma_pow10_le(a: nat, b: nat)
    requires
        a <= b,
    ensures
        pow10(a) <= pow10(b),
        pow10(a) >= 1,
    decreases b,
{
    if a == b {
        if a > 0 {
            lemma_pow10_le((a - 1) as nat, (b - 1) as nat);
        }
    } else {
        lemma_pow10_le(a, (b - 1) as nat);
    }
}

/// `pat` occurs in `s` at position `i`.
pub open spec fn match_at(s: Seq<char>, pat: Seq<char>, i: int) -> bool {
    &&& 0 <= i
    &&& i + pat.len() <= s.len()
    &&& s.subrange(i, i + pat.len() as int) == pat
}

/// Position of the first occurrence of `pat` in `s`, if any.
pub fn find_sub(s: &str, pat: &str) -> (r: Option<usize>)
    ensures
        r is Some ==> match_at(s@, pat@, r->0 as int) && (forall|j: int|
            0 <= j < r->0 ==> !match_at(s@, pat@, j)),
        r is None ==> forall|j: int| !match_at(s@, pat@, j),
{
    let n = s.unicode_len();
    let p = pat.unicode_len();
    if p > n {
        proof {
            assert(forall|j: int| !match_at(s@, pat@, j));
        }
        return None;
    }
    let mut i: usize = 0;
    while i <= n - p
        invariant
            0 <= i <= n - p + 1,
            p <= n,
            n == s@.len(),
            p == pat@.len(),
            forall|j: int| 0 <= j < i ==> !match_at(s@, pat@, j),
        decreases n - i,
    {
        let mut j: usize = 0;
        let mut ok: bool = true;
        while j < p
            invariant
                0 <= j <= p,
                0 <= i <= n - p,
                p <= n,
                n == s@.len(),
                p == pat@.len(),
                ok <==> (forall|m: int|
                    0 <= m < j ==> s@[i + m] == pat@[m]),
            decreases p - j,
        {
            let sc = s.get_char(i + j);
            let pc = pat.get_char(j);
            if sc != pc {
                proof {
                    assert(s@[i + j] != pat@[j as int]);
                }
                ok = false;
                j = p;
            } else {
                proof {
                    if ok {
                        assert(forall|m: int|
                            0 <= m < j + 1 ==> s@[i + m] == #[trigger] pat@[m]);
                    }
                }
                j = j + 1;
            }
        }
        if ok {
            proof {
                assert(s@.subrange(i as int, i + p) =~= pat@);
            }
            return Some(i);
        }
        proof {
            if match_at(s@, pat@, i as int) {
                assert(forall|m: int|
                    0 <= m < p ==> #[trigger] s@.subrange(i as int, i + p)[m] == s@[i + m]);
            }
        }
        i = i + 1;
    }
    proof {
        assert forall|j: int| !match_at(s@, pat@, j) by {
            if match_at(s@, pat@, j) {
                assert(0 <= j < i);
            }
        }
    }
    None
}

/// Does `pat` occur anywhere in `s`?
pub fn contains_sub(s: &str, pat: &str) -> (r: bool)
    ensures
        r <==> exists|j: int| match_at(s@, pat@, j),
{
    match find_sub(s, pat) {
        Some(_) => true,
        None => false,
    }
}

/// The string denotes a fixed-point value that fits in 64 bits of
/// microseconds.
pub open spec fn spec_fixed_ok(s: Seq<char>) -> bool {
    valid_fixed(s) && fixed_micros(s) <= u64::MAX
}

/// The string denotes a clock reading that fits in 64 bits of
/// microseconds.
pub open spec fn spec_clock_ok(s: Seq<char>) -> bool {
    valid_clock(s) && clock_micros(s) <= u64::MAX
}

/// `pat` occurs somewhere in `s`.
pub open spec fn has_match(s: Seq<char>, pat: Seq<char>) -> bool {
    exists|i: int| match_at(s, pat, i)
}

/// Position of the first occurrence of `pat` in `s`.
pub open spec fn first_match(s: Seq<char>, pat: Seq<char>) -> int {
    choose|i: int|
        match_at(s, pat, i) && (forall|j: int| 0 <= j < i ==> !match_at(s, pat, j))
}

/// The first occurrence is the one `find_sub` returns.
pub proof fn lemma_first_match_at(s: Seq<char>, pat: Seq<char>, i: int)
    requires
        match_at(s, pat, i),
        forall|j: int| 0 <= j < i ==> !match_at(s, pat, j),
    ensures
        has_match(s, pat),
        first_match(s, pat) == i,
{
    let w = first_match(s, pat);
    assert(match_at(s, pat, w) && (forall|j: int| 0 <= j < w ==> !match_at(s, pat, j)));
    if w < i {
        assert(!match_at(s, pat, w));
    }
    if i < w {
        assert(!match_at(s, pat, i));
    }
}

/// Does `s` begin with `pre`?
pub fn has_prefix(s: &str, pre: &str) -> (r: bool)
    ensures
        r == (s@.len() >= pre@.len() && s@.take(pre@.len() as int) == pre@),
{
    let n = s.unicode_len();
    let p = pre.unicode_len();
    if p > n {
        return false;
    }
    let mut j: usize = 0;
    while j < p
        invariant
            0 <= j <= p,
            p <= n,
            n == s@.len(),
            p == pre@.len(),
            forall|m: int| 0 <= m < j ==> s@[m] == #[trigger] pre@[m],
        decreases p - j,
    {
        let sc = s.get_char(j);
        let pc = pre.get_char(j);
        if sc != pc {
            proof {
                assert(s@.take(p as int)[j as int] != pre@[j as int]);
            }
            return false;
        }
        j = j + 1;
    }
    proof {
        assert(s@.take(p as int) =~= pre@);
    }
    true
}

/// The pieces of `s` between occurrences of the separator, in order; a
/// string without the separator is one piece.
pub open spec fn spec_split(s: Seq<char>, sep: char) -> Seq<Seq<char>>
    decreases s.len(),
{
    if !has_match(s, seq![sep]) {
        seq![s]
    } else {
        let k = first_match(s, seq![sep]);
        if 0 <= k < s.len() {
            seq![s.take(k)] + spec_split(s.skip(k + 1), sep)
        } else {
            seq![s]
        }
    }
}

/// Split `s` at every occurrence of the one-character separator.
#[verifier::rlimit(60)]
pub fn split_str(s: &str, sep: &str) -> (r: Vec<String>)
    requires
        sep@.len() == 1,
    ensures
        r@.map_values(|p: String| p@) == spec_split(s@, sep@[0]),
{
    let ghost c = sep@[0];
    let mut parts: Vec<String> = Vec::new();
    let mut rest: &str = s;
    let ghost done: Seq<Seq<char>> = Seq::empty();
    proof {
        assert(parts@.map_values(|p: String| p@) =~= done);
        assert(done + spec_split(rest@, c) =~= spec_split(s@, c));
    }
    loop
        invariant
            sep@.len() == 1,
            c == sep@[0],
            parts@.map_values(|p: String| p@) == done,
            done + spec_split(rest@, c) == spec_split(s@, c),
        decreases rest@.len(),
    {
        match find_sub(rest, sep) {
            Some(k) => {
                proof {
                    lemma_first_match_at(rest@, sep@, k as int);
                    assert(sep@ =~= seq![c]);
                }
                let n = rest.unicode_len();
                let piece = rest.substring_char(0, k);
                let ghost old_done = done;
                let ghost old_rest = rest@;
                parts.push(String::from_str(piece));
                proof {
                    assert(piece@ =~= old_rest.take(k as int));
                    done = done.push(old_rest.take(k as int));
                    assert(parts@.map_values(|p: String| p@) =~= done);
                }
                rest = rest.substring_char(k + 1, n);
                proof {
                    assert(rest@ =~= old_rest.skip(k + 1));
                    assert(rest@.len() < old_rest.len());
                    assert(spec_split(old_rest, c) =~= seq![old_rest.take(k as int)]
                        + spec_split(old_rest.skip(k + 1), c));
                    assert(done + spec_split(rest@, c) =~= old_done + spec_split(
                        old_rest,
                        c,
                    ));
                }
            },
            None => {
                proof {
                    assert(sep@ =~= seq![c]);
                    assert(spec_split(rest@, c) =~= seq![rest@]);
                }
                parts.push(String::from_str(rest));
                proof {
                    assert(parts@.map_values(|p: String| p@) =~= done.push(rest@));
                    assert(done.push(rest@) =~= done + spec_split(rest@, c));
                }
                return parts;
            },
        }
    }
}

/// Every occurrence of `pat` replaced by `rep`, left to right, without
/// re-reading what was already written.
pub open spec fn spec_replace(s: Seq<char>, pat: Seq<char>, rep: Seq<char>) -> Seq<char>
    decreases s.len(),
{
    if !has_match(s, pat) {
        s
    } else {
        let k = first_match(s, pat);
        if 0 <= k && k + pat.len() <= s.len() && pat.len() >= 1 {
            s.take(k) + rep + spec_replace(s.skip(k + pat.len()), pat, rep)
        } else {
            s
        }
    }
}

/// Replace every occurrence of `pat` by `rep`, left to right.
#[verifier::rlimit(60)]
pub fn replace_all(s: &str, pat: &str, rep: &str) -> (r: String)
    requires
        pat@.len() >= 1,
    ensures
        r@ == spec_replace(s@, pat@, rep@),
{
    let mut out = String::new();
    let mut rest: &str = s;
    let ghost done: Seq<char> = Seq::empty();
    proof {
        assert(out@ =~= done);
        assert(done + spec_replace(rest@, pat@, rep@) =~= spec_replace(s@, pat@, rep@));
    }
    loop
        invariant
            pat@.len() >= 1,
            out@ == done,
            done + spec_replace(rest@, pat@, rep@) == spec_replace(s@, pat@, rep@),
        decreases rest@.len(),
    {
        match find_sub(rest, pat) {
            Some(k) => {
                proof {
                    lemma_first_match_at(rest@, pat@, k as int);
                }
                let n = rest.unicode_len();
                let plen = pat.unicode_len();
                let head = rest.substring_char(0, k);
                let ghost old_done = done;
                let ghost old_rest = rest@;
                out.append(head);
                out.append(rep);
                proof {
                    assert(head@ =~= old_rest.take(k as int));
                    done = done + old_rest.take(k as int) + rep@;
                    assert(out@ =~= done);
                }
                rest = rest.substring_char(k + plen, n);
                proof {
                    assert(rest@ =~= old_rest.skip(k + plen));
                    assert(rest@.len() < old_rest.len());
                    assert(spec_replace(old_rest, pat@, rep@) =~= old_rest.take(k as int)
                        + rep@ + spec_replace(old_rest.skip(k + plen), pat@, rep@));
                    assert(done + spec_replace(rest@, pat@, rep@) =~= old_done
                        + spec_replace(old_rest, pat@, rep@));
                }
            },
            None => {
                proof {
                    assert(spec_replace(rest@, pat@, rep@) =~= rest@);
                }
                out.append(rest);
                proof {
                    assert(out@ =~= done + rest@);
                }
                return out;
            },
        }
    }
}

/// A clock reading splits at colon positions `k1 < k2`: hours, a colon,
/// minutes, a colon, then fixed-point seconds.
pub open spec fn clock_split(s: Seq<char>, k1: int, k2: int) -> bool {
    &&& 1 <= k1
    &&& k1 + 2 <= k2
    &&& k2 + 2 <= s.len()
    &&& s[k1] == ':'
    &&& s[k2] == ':'
    &&& all_digits(s.take(k1))
    &&& all_digits(s.subrange(k1 + 1, k2))
    &&& valid_fixed(s.skip(k2 + 1))
}

/// The string is an `H:M:S` clock reading with fixed-point seconds.
pub open spec fn valid_clock(s: Seq<char>) -> bool {
    exists|k1: int, k2: int| clock_split(s, k1, k2)
}

/// Microseconds denoted by a clock reading.
pub open spec fn clock_micros(s: Seq<char>) -> nat {
    let (k1, k2) = choose|k1: int, k2: int| clock_split(s, k1, k2);
    digits_value(s.take(k1)) * 3_600_000_000 + digits_value(s.subrange(k1 + 1, k2))
        * 60_000_000 + fixed_micros(s.skip(k2 + 1))
}

/// A clock reading splits in only one way: at its first two colons.
pub proof fn lemma_clock_split_unique(s: Seq<char>, k1: int, k2: int, j1: int, j2: int)
    requires
        clock_split(s, k1, k2),
        clock_split(s, j1, j2),
    ensures
        k1 == j1,
        k2 == j2,
{
    assert(!is_dec_digit(':'));
    if j1 < k1 {
        assert(is_dec_digit(s.take(k1)[j1]));
    }
    if k1 < j1 {
        assert(is_dec_digit(s.take(j1)[k1]));
    }
    if j2 < k2 {
        assert(is_dec_digit(s.subrange(k1 + 1, k2)[j2 - k1 - 1]));
    }
    if k2 < j2 {
        assert(is_dec_digit(s.subrange(j1 + 1, j2)[k2 - j1 - 1]));
    }
}

/// With known colon positions the value of a clock reading is the value of
/// its three parts.
pub proof fn lemma_clock_micros_at(s: Seq<char>, k1: int, k2: int)
    requires
        clock_split(s, k1, k2),
    ensures
        clock_micros(s) == digits_value(s.take(k1)) * 3_600_000_000 + digits_value(
            s.subrange(k1 + 1, k2),
        ) * 60_000_000 + fixed_micros(s.skip(k2 + 1)),
{
    let (c1, c2) = choose|c1: int, c2: int| clock_split(s, c1, c2);
    lemma_clock_split_unique(s, k1, k2, c1, c2);
}

/// Parse an `H:M:S` clock reading into microseconds. The seconds may have
/// a fractional part, read to six places.
///
/// Returns the value exactly when the string has the clock shape and the
/// value fits; anything else is rejected.
pub fn parse_clock_micros(s: &str) -> (r: Option<u64>)
    ensures
        r is Some <==> valid_clock(s@) && clock_micros(s@) <= u64::MAX,
        r is Some ==> r->0 == clock_micros(s@),
{
    let n = s.unicode_len();
    let i1 = scan_digits(s, 0);
    proof {
        assert(!is_dec_digit(':'));
    }
    if i1 == 0 || i1 >= n {
        proof {
            assert forall|k1: int, k2: int| !clock_split(s@, k1, k2) by {
                if clock_split(s@, k1, k2) {
                    if i1 == 0 {
                        assert(is_dec_digit(s@.take(k1)[0]));
                    } else {
                        assert(k1 < n ==> is_dec_digit(s@[k1]));
                    }
                }
            }
        }
        return None;
    }
    let c1 = s.get_char(i1);
    if c1 != ':' {
        proof {
            assert forall|k1: int, k2: int| !clock_split(s@, k1, k2) by {
                if clock_split(s@, k1, k2) {
                    if k1 < i1 {
                        assert(is_dec_digit(s@.take(i1 as int)[k1]));
                    } else if k1 > i1 {
                        assert(is_dec_digit(s@.take(k1)[i1 as int]));
                    }
                }
            }
        }
        return None;
    }
    let i2 = scan_digits(s, i1 + 1);
    if i2 == i1 + 1 || i2 >= n {
        proof {
            assert forall|k1: int, k2: int| !clock_split(s@, k1, k2) by {
                if clock_split(s@, k1, k2) {
                    assert(k1 == i1 as int) by {
                        if k1 < i1 {
                            assert(is_dec_digit(s@.take(i1 as int)[k1]));
                        } else if k1 > i1 {
                            assert(is_dec_digit(s@.take(k1)[i1 as int]));
                        }
                    }
                    if i2 == i1 + 1 {
                        assert(is_dec_digit(s@.subrange(k1 + 1, k2)[0]));
                    } else {
                        assert(k2 < n ==> is_dec_digit(s@[k2]));
                        assert(k2 >= i2 ==> k2 >= n);
                        if k2 < i2 {
                            assert(is_dec_digit(s@.subrange(i1 + 1, i2 as int)[k2 - i1 - 1]));
                        }
                    }
                }
            }
        }
        return None;
    }
    let c2 = s.get_char(i2);
    if c2 != ':' {
        proof {
            assert forall|k1: int, k2: int| !clock_split(s@, k1, k2) by {
                if clock_split(s@, k1, k2) {
                    assert(k1 == i1 as int) by {
                        if k1 < i1 {
                            assert(is_dec_digit(s@.take(i1 as int)[k1]));
                        } else if k1 > i1 {
                            assert(is_dec_digit(s@.take(k1)[i1 as int]));
                        }
                    }
                    if k2 < i2 {
                        assert(is_dec_digit(s@.subrange(i1 + 1, i2 as int)[k2 - i1 - 1]));
                    } else if k2 > i2 {
                        assert(is_dec_digit(s@.subrange(k1 + 1, k2)[i2 - i1 - 1]));
                    }
                }
            }
        }
        return None;
    }
    let hours_str = s.substring_char(0, i1);
    let minutes_str = s.substring_char(i1 + 1, i2);
    let seconds_str = s.substring_char(i2 + 1, n);
    proof {
        assert(hours_str@ =~= s@.take(i1 as int));
        assert(minutes_str@ =~= s@.subrange(i1 + 1, i2 as int));
        assert(seconds_str@ =~= s@.skip(i2 + 1));
    }
    let sec_us = parse_fixed_micros(seconds_str);
    let ghost valid_here = valid_fixed(s@.skip(i2 + 1));
    proof {
        if valid_here {
            assert(clock_split(s@, i1 as int, i2 as int)) by {
                assert(all_digits(s@.take(i1 as int))) by {
                    assert(forall|m: int|
                        0 <= m < i1 ==> is_dec_digit(#[trigger] s@.take(i1 as int)[m]));
                }
                assert(all_digits(s@.subrange(i1 + 1, i2 as int))) by {
                    assert(forall|m: int|
                        0 <= m < i2 - i1 - 1 ==> is_dec_digit(
                            #[trigger] s@.subrange(i1 + 1, i2 as int)[m],
                        ));
                }
            }
            lemma_clock_micros_at(s@, i1 as int, i2 as int);
        } else {
            assert forall|k1: int, k2: int| !clock_split(s@, k1, k2) by {
                if clock_split(s@, k1, k2) {
                    assert(k1 == i1 as int) by {
                        if k1 < i1 {
                            assert(is_dec_digit(s@.take(i1 as int)[k1]));
                        } else if k1 > i1 {
                            assert(is_dec_digit(s@.take(k1)[i1 as int]));
                        }
                    }
                    assert(k2 == i2 as int) by {
                        if k2 < i2 {
                            assert(is_dec_digit(s@.subrange(i1 + 1, i2 as int)[k2 - i1 - 1]));
                        } else if k2 > i2 {
                            assert(is_dec_digit(s@.subrange(k1 + 1, k2)[i2 - i1 - 1]));
                        }
                    }
                }
            }
        }
    }
    let hours = parse_u64(hours_str);
    let minutes = parse_u64(minutes_str);
    let ghost hv = digits_value(s@.take(i1 as int));
    let ghost mv = digits_value(s@.subrange(i1 + 1, i2 as int));
    let ghost sv = fixed_micros(s@.skip(i2 + 1));
    match (hours, minutes, sec_us) {
        (Some(h), Some(mn), Some(sc)) => {
            let total: u128 = (h as u128) * 3_600_000_000 + (mn as u128) * 60_000_000 + (
            sc as u128);
            proof {
                assert(h as u128 * 3_600_000_000 == hv * 3_600_000_000);
                assert(mn as u128 * 60_000_000 == mv * 60_000_000);
                assert(total == clock_micros(s@));
            }
            if total > 0xffff_ffff_ffff_ffffu128 {
                None
            } else {
                Some(total as u64)
            }
        },
        _ => {
            proof {
                if valid_clock(s@) {
                    assert(valid_here);
                    if hours is None {
                        assert(hv > u64::MAX);
                        assert(hv * 3_600_000_000 >= hv) by (nonlinear_arith);
                    } else if minutes is None {
                        assert(mv > u64::MAX);
                        assert(mv * 60_000_000 >= mv) by (nonlinear_arith);
                    } else {
                        assert(sv > u64::MAX);
                    }
                }
            }
            None
        },
    }
}

/// A run of `k` zero characters.
pub open spec fn zeros(k: nat) -> Seq<char> {
    Seq::new(k, |i: int| '0')
}

/// Remove trailing zero characters.
pub open spec fn trim_zeros(s: Seq<char>) -> Seq<char>
    decreases s.len(),
{
    if s.len() > 0 && s.last() == '0' {
        trim_zeros(s.drop_last())
    } else {
        s
    }
}

/// Left-pad a digit string with zeros to six places.
pub open spec fn zero_pad6(s: Seq<char>) -> Seq<char> {
    if s.len() >= 6 {
        s
    } else {
        zeros((6 - s.len()) as nat) + s
    }
}

/// The decimal representation of a microsecond count read as seconds:
/// the whole seconds, then — unless the fraction is zero — a dot and the
/// six-place fraction with trailing zeros dropped.
pub open spec fn secs_repr(us: nat) -> Seq<char> {
    if us % 1_000_000 == 0 {
        dec_digits(us / 1_000_000)
    } else {
        dec_digits(us / 1_000_000) + seq!['.'] + trim_zeros(zero_pad6(dec_digits(us % 1_000_000)))
    }
}

/// A value below ten to the `k` has at most `k` digits.
pub proof fn lemma_dec_digits_len(n: nat, k: nat)
    requires
        k >= 1,
        n < pow10(k),
    ensures
        dec_digits(n).len() <= k,
    decreases k,
{
    if n < 10 {
    } else {
        assert(pow10(k) == 10 * pow10((k - 1) as nat));
        assert(n / 10 < pow10((k - 1) as nat)) by {
            vstd::arithmetic::div_mod::lemma_fundamental_div_mod(n as int, 10);
        }
        lemma_dec_digits_len(n / 10, (k - 1) as nat);
    }
}

/// Appending a zero digit multiplies the value by ten.
pub proof fn lemma_dec_digits_mul10(n: nat)
    requires
        n >= 1,
    ensures
        dec_digits(n * 10) == dec_digits(n).push('0'),
{
    assert(n * 10 >= 10);
    assert(n * 10 / 10 == n);
    assert(n * 10 % 10 == 0);
    assert(digit_char(0) == '0');
}

/// Multiplying by ten to the `k` appends `k` zero digits.
pub proof fn lemma_dec_digits_mul_pow10(n: nat, k: nat)
    requires
        n >= 1,
    ensures
        dec_digits(n * pow10(k)) == dec_digits(n) + zeros(k),
    decreases k,
{
    if k == 0 {
        assert(pow10(0) == 1);
        assert(n * 1 == n) by (nonlinear_arith);
        assert(dec_digits(n) + zeros(0) =~= dec_digits(n));
    } else {
        lemma_dec_digits_mul_pow10(n, (k - 1) as nat);
        assert(n * pow10(k) == (n * pow10((k - 1) as nat)) * 10) by {
            assert(pow10(k) == 10 * pow10((k - 1) as nat));
            vstd::arithmetic::mul::lemma_mul_is_associative(
                n as int,
                pow10((k - 1) as nat) as int,
                10,
            );
        }
        assert(n * pow10((k - 1) as nat) >= n) by {
            lemma_pow10_le(0, (k - 1) as nat);
            assert(n * pow10((k - 1) as nat) >= n * 1) by (nonlinear_arith)
                requires
                    pow10((k - 1) as nat) >= 1,
                    n >= 1,
            ;
        }
        lemma_dec_digits_mul10(n * pow10((k - 1) as nat));
        assert(dec_digits(n * pow10(k)) =~= dec_digits(n) + zeros(k)) by {
            assert(dec_digits(n * pow10(k)) == (dec_digits(n) + zeros((k - 1) as nat)).push(
                '0',
            ));
        }
    }
}

/// Trailing zeros vanish under `trim_zeros`.
pub proof fn lemma_trim_zeros_append(s: Seq<char>, k: nat)
    ensures
        trim_zeros(s + zeros(k)) == trim_zeros(s),
    decreases k,
{
    if k == 0 {
        assert(s + zeros(0) =~= s);
    } else {
        lemma_trim_zeros_append(s, (k - 1) as nat);
        let t = s + zeros(k);
        assert(t.len() > 0 && t.last() == '0');
        assert(t.drop_last() =~= s + zeros((k - 1) as nat));
    }
}

/// A string without a trailing zero is untouched by `trim_zeros`.
pub proof fn lemma_trim_zeros_id(s: Seq<char>)
    requires
        s.len() == 0 || s.last() != '0',
    ensures
        trim_zeros(s) == s,
{
}

/// The last digit of a rendering is the value's last digit.
pub proof fn lemma_dec_digits_last(n: nat)
    ensures
        dec_digits(n).last() == digit_char(n % 10),
{
    if n < 10 {
        assert(n % 10 == n);
    }
}

/// Format a microsecond count as decimal seconds, exactly as `secs_repr`
/// describes.
pub fn format_secs(us: u64) -> (r: String)
    ensures
        r@ == secs_repr(us as nat),
{
    proof {
        lemma_pow10_vals();
    }
    let whole = render_u64(us / 1_000_000);
    let frac: u64 = us % 1_000_000;
    if frac == 0 {
        return whole;
    }
    // Strip the factors of ten: frac == f * 10^k with f not ending in zero.
    let mut f: u64 = frac;
    let mut k: u64 = 0;
    while f % 10 == 0
        invariant
            1 <= f <= frac,
            frac < 1_000_000,
            frac == f * pow10(k as nat),
            k <= 6,
        decreases f,
    {
        proof {
            vstd::arithmetic::div_mod::lemma_fundamental_div_mod(f as int, 10);
            assert(f / 10 * 10 * pow10(k as nat) == (f / 10) * pow10(k as nat + 1)) by {
                assert(pow10(k as nat + 1) == 10 * pow10(k as nat));
                vstd::arithmetic::mul::lemma_mul_is_associative(
                    (f / 10) as int,
                    10,
                    pow10(k as nat) as int,
                );
            }
            assert((f / 10) * pow10(k as nat + 1) >= pow10(k as nat + 1)) by {
                vstd::arithmetic::mul::lemma_mul_inequality(
                    1,
                    (f / 10) as int,
                    pow10(k as nat + 1) as int,
                );
            }
            assert(k as nat + 1 <= 6) by {
                if k as nat + 1 > 6 {
                    lemma_pow10_le(7, k as nat + 1);
                    lemma_pow10_vals();
                    assert(pow10(7) == 10_000_000) by {
                        reveal_with_fuel(pow10, 8);
                    }
                }
            }
        }
        f = f / 10;
        k = k + 1;
    }
    // Digits of the fraction, padded to six places, trailing zeros gone.
    let f_str = render_u64(f);
    let f_len = f_str.as_str().unicode_len();
    proof {
        lemma_digits_value_of_dec_digits(f as nat);
        lemma_dec_digits_mul_pow10(f as nat, k as nat);
        assert(dec_digits(frac as nat) == dec_digits(f as nat) + zeros(k as nat));
        lemma_dec_digits_len(frac as nat, 6);
        assert(f_len + k <= 6);
        lemma_dec_digits_last(f as nat);
        assert(dec_digits(f as nat).last() != '0');
        lemma_trim_zeros_append(zeros((6 - f_len - k) as nat) + dec_digits(f as nat), k as nat);
        lemma_trim_zeros_id(zeros((6 - f_len - k) as nat) + dec_digits(f as nat));
        assert(zero_pad6(dec_digits(frac as nat)) =~= zeros((6 - f_len - k) as nat)
            + dec_digits(f as nat) + zeros(k as nat));
        assert((zeros((6 - f_len - k) as nat) + dec_digits(f as nat)) + zeros(k as nat)
            =~= zeros((6 - f_len - k) as nat) + dec_digits(f as nat) + zeros(k as nat));
        assert(trim_zeros(zero_pad6(dec_digits(frac as nat))) == zeros((6 - f_len - k) as nat)
            + dec_digits(f as nat));
    }
    let mut out = whole;
    out.append(".");
    proof {
        reveal_strlit(".");
        assert("."@ =~= seq!['.']);
    }
    let pad: usize = 6 - f_len - (k as usize);
    let mut p: usize = 0;
    while p < pad
        invariant
            0 <= p <= pad,
            out@ == dec_digits((us as nat) / 1_000_000) + seq!['.'] + zeros(p as nat),
        decreases pad - p,
    {
        out.append("0");
        proof {
            reveal_strlit("0");
            assert(out@ =~= dec_digits((us as nat) / 1_000_000) + seq!['.'] + zeros(
                p as nat + 1,
            ));
        }
        p = p + 1;
    }
    out.append(f_str.as_str());
    proof {
        assert(out@ =~= dec_digits((us as nat) / 1_000_000) + seq!['.'] + (zeros(pad as nat)
            + dec_digits(f as nat)));
        assert(us as nat % 1_000_000 == frac as nat);
        assert(us as nat / 1_000_000 == us / 1_000_000);
    }
    out
}

/// Are the two strings the same text?
pub fn str_eq(a: &str, b: &str) -> (r: bool)
    ensures
        r == (a@ == b@),
{
    let la = a.unicode_len();
    let lb = b.unicode_len();
    if la != lb {
        return false;
    }
    let mut i: usize = 0;
    while i < la
        invariant
            0 <= i <= la,
            la == a@.len(),
            la == b@.len(),
            forall|m: int| 0 <= m < i ==> a@[m] == #[trigger] b@[m],
        decreases la - i,
    {
        let ca = a.get_char(i);
        let cb = b.get_char(i);
        if ca != cb {
            return false;
        }
        i = i + 1;
    }
    proof {
        assert(a@ =~= b@);
    }
    true
}

/// Parsing the rendering of any 64-bit value gives the value back.
///
/// Task identifiers travel to clients as decimal strings and come back as
/// lookups; this is the law that the round trip is the identity.
pub proof fn lemma_u64_decimal_round_trip(n: u64)
    ensures
        digits_value(dec_digits(n as nat)) == n,
        all_digits(dec_digits(n as nat)),
        dec_digits(n as nat).len() > 0,
        digits_value(dec_digits(n as nat)) <= u64::MAX,
{
    lemma_digits_value_of_dec_digits(n as nat);
}

} // verus!
