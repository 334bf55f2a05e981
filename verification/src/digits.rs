//! Decimal numerals: formatting and parsing, with the round-trip facts the
//! read-description encoding and the file-name builders rest on.

use vstd::prelude::*;

verus! {

/// Whether `c` is a decimal digit.
pub open spec fn spec_is_digit(c: char) -> bool {
    '0' <= c && c <= '9'
}

/// The numeric value of a digit character.
pub open spec fn spec_digit_val(c: char) -> int {
    c as int - '0' as int
}

/// The digit character for a value below ten.
pub open spec fn spec_digit_char(d: int) -> char {
    if d == 0 {
        '0'
    } else if d == 1 {
        '1'
    } else if d == 2 {
        '2'
    } else if d == 3 {
        '3'
    } else if d == 4 {
        '4'
    } else if d == 5 {
        '5'
    } else if d == 6 {
        '6'
    } else if d == 7 {
        '7'
    } else if d == 8 {
        '8'
    } else {
        '9'
    }
}

/// The decimal numeral of `n`, most significant digit first, with no leading
/// zeros (`0` itself is the one-character numeral `"0"`).
pub open spec fn spec_udec(n: nat) -> Seq<char>
    decreases n,
{
    if n < 10 {
        seq![spec_digit_char(n as int)]
    } else {
        spec_udec(n / 10) + seq![spec_digit_char((n % 10) as int)]
    }
}

/// The value of a digit string, read left to right; `0` for the empty string.
pub open spec fn spec_dec_value(s: Seq<char>) -> int
    decreases s.len(),
{
    if s.len() == 0 {
        0
    } else {
        spec_dec_value(s.drop_last()) * 10 + spec_digit_val(s.last())
    }
}

/// Whether every character of `s` is a decimal digit.
pub open spec fn spec_all_digits(s: Seq<char>) -> bool {
    forall|i: int| 0 <= i < s.len() ==> spec_is_digit(#[trigger] s[i])
}

/// A digit character carries its digit's value.
pub proof fn lemma_digit_roundtrip(d: int)
    requires
        0 <= d < 10,
    ensures
        spec_is_digit(spec_digit_char(d)),
        spec_digit_val(spec_digit_char(d)) == d,
{
}

/// A numeral is non-empty, all digits, and evaluates back to its number.
pub proof fn lemma_udec_value(n: nat)
    ensures
        spec_udec(n).len() >= 1,
        spec_all_digits(spec_udec(n)),
        spec_dec_value(spec_udec(n)) == n,
    decreases n,
{
    if n < 10 {
        lemma_digit_roundtrip(n as int);
        let one = seq![spec_digit_char(n as int)];
        assert(spec_udec(n) == one);
        assert(one.drop_last() =~= Seq::<char>::empty());
        assert(spec_dec_value(Seq::<char>::empty()) == 0);
        assert(spec_dec_value(one) == spec_dec_value(one.drop_last()) * 10 + spec_digit_val(
            one.last(),
        ));
        assert(spec_dec_value(one) == spec_digit_val(spec_digit_char(n as int)));
    } else {
        lemma_udec_value(n / 10);
        lemma_digit_roundtrip((n % 10) as int);
        let prefix = spec_udec(n / 10);
        let whole = spec_udec(n);
        assert(whole == prefix + seq![spec_digit_char((n % 10) as int)]);
        assert(whole.drop_last() =~= prefix);
        assert(whole.last() == spec_digit_char((n % 10) as int));
        assert(spec_dec_value(whole) == spec_dec_value(prefix) * 10 + spec_digit_val(whole.last()));
    }
}

/// How many digits the numeral of `n` has, for the zero-padded forms.
pub proof fn lemma_udec_len(n: nat)
    ensures
        n < 10 ==> spec_udec(n).len() == 1,
        10 <= n && n < 100 ==> spec_udec(n).len() == 2,
        100 <= n && n < 1000 ==> spec_udec(n).len() == 3,
        1000 <= n ==> spec_udec(n).len() >= 4,
    decreases n,
{
    if n >= 10 {
        lemma_udec_len(n / 10);
    }
}

/// The value of a longer digit string is at least the value of its prefix.
pub proof fn lemma_dec_value_prefix(s: Seq<char>, i: int)
    requires
        spec_all_digits(s),
        0 <= i <= s.len(),
    ensures
        0 <= spec_dec_value(s.take(i)),
        spec_dec_value(s.take(i)) <= spec_dec_value(s),
    decreases s.len() - i,
{
    if i == s.len() {
        assert(s.take(i) =~= s);
        lemma_dec_value_nonneg(s);
    } else {
        lemma_dec_value_prefix(s, i + 1);
        assert(s.take(i + 1).drop_last() =~= s.take(i));
        assert(s.take(i + 1).last() == s[i]);
        lemma_dec_value_nonneg(s.take(i));
    }
}

/// A digit string never evaluates to a negative number.
pub proof fn lemma_dec_value_nonneg(s: Seq<char>)
    requires
        spec_all_digits(s),
    ensures
        0 <= spec_dec_value(s),
    decreases s.len(),
{
    if s.len() > 0 {
        assert(spec_all_digits(s.drop_last())) by {
            assert(forall|i: int|
                0 <= i < s.len() - 1 ==> spec_is_digit(#[trigger] s.drop_last()[i]));
        }
        lemma_dec_value_nonneg(s.drop_last());
    }
}

/// Append one digit character to `out`.
fn push_digit(out: &mut String, d: u32)
    requires
        d < 10,
    ensures
        final(out)@ == old(out)@ + seq![spec_digit_char(d as int)],
{
    let s: &str = if d == 0 {
        "0"
    } else if d == 1 {
        "1"
    } else if d == 2 {
        "2"
    } else if d == 3 {
        "3"
    } else if d == 4 {
        "4"
    } else if d == 5 {
        "5"
    } else if d == 6 {
        "6"
    } else if d == 7 {
        "7"
    } else if d == 8 {
        "8"
    } else {
        "9"
    };
    proof {
        reveal_strlit("0");
        reveal_strlit("1");
        reveal_strlit("2");
        reveal_strlit("3");
        reveal_strlit("4");
        reveal_strlit("5");
        reveal_strlit("6");
        reveal_strlit("7");
        reveal_strlit("8");
        reveal_strlit("9");
        assert(s@ =~= seq![spec_digit_char(d as int)]);
    }
    out.append(s);
}

/// Append the decimal numeral of `n` to `out`.
pub fn push_udec(out: &mut String, n: u32)
    ensures
        final(out)@ == old(out)@ + spec_udec(n as nat),
    decreases n,
{
    if n < 10 {
        push_digit(out, n);
    } else {
        push_udec(out, n / 10);
        push_digit(out, n % 10);
        assert(old(out)@ + spec_udec((n / 10) as nat) + seq![
            spec_digit_char((n % 10) as int),
        ] =~= old(out)@ + spec_udec(n as nat));
    }
}

/// The decimal numeral of `n`.
pub fn u32_to_string(n: u32) -> (r: String)
    ensures
        r@ == spec_udec(n as nat),
{
    let mut out = String::new();
    push_udec(&mut out, n);
    proof {
        assert(out@ =~= spec_udec(n as nat));
    }
    out
}

/// The numeral of `n` left-padded with zeros to at least four characters,
/// as the per-cycle base-call files of some layouts are named.
pub open spec fn spec_udec_pad4(n: nat) -> Seq<char> {
    if spec_udec(n).len() >= 4 {
        spec_udec(n)
    } else {
        Seq::new((4 - spec_udec(n).len()) as nat, |i: int| '0') + spec_udec(n)
    }
}

/// Append the four-character zero-padded numeral of `n` to `out`.
pub fn push_udec_pad4(out: &mut String, n: u32)
    ensures
        final(out)@ == old(out)@ + spec_udec_pad4(n as nat),
{
    proof {
        lemma_udec_len(n as nat);
        reveal_strlit("000");
        reveal_strlit("00");
        reveal_strlit("0");
    }
    if n < 10 {
        out.append("000");
        assert("000"@ =~= Seq::new(3, |i: int| '0'));
    } else if n < 100 {
        out.append("00");
        assert("00"@ =~= Seq::new(2, |i: int| '0'));
    } else if n < 1000 {
        out.append("0");
        assert("0"@ =~= Seq::new(1, |i: int| '0'));
    }
    push_udec(out, n);
    proof {
        assert(final(out)@ =~= old(out)@ + spec_udec_pad4(n as nat));
    }
}

/// The decimal numeral of a signed number: a minus sign for negatives,
/// then the magnitude's numeral.
pub open spec fn spec_idec(n: int) -> Seq<char> {
    if n >= 0 {
        spec_udec(n as nat)
    } else {
        seq!['-'] + spec_udec((-n) as nat)
    }
}

/// Append the decimal numeral of the signed `n` to `out`.
pub fn push_idec(out: &mut String, n: i32)
    ensures
        final(out)@ == old(out)@ + spec_idec(n as int),
{
    if n >= 0 {
        push_udec(out, n as u32);
    } else {
        proof {
            reveal_strlit("-");
            assert("-"@ =~= seq!['-']);
        }
        out.append("-");
        let magnitude: u32 = if n == i32::MIN {
            0x8000_0000
        } else {
            (-n) as u32
        };
        push_udec(out, magnitude);
        proof {
            assert(final(out)@ =~= old(out)@ + spec_idec(n as int));
        }
    }
}

/// The numeral of `n` left-padded with zeros to at least two characters, as
/// months and days are written in dates.
pub open spec fn spec_udec_pad2(n: nat) -> Seq<char> {
    if spec_udec(n).len() >= 2 {
        spec_udec(n)
    } else {
        seq!['0'] + spec_udec(n)
    }
}

/// Append the two-character zero-padded numeral of `n` to `out`.
pub fn push_udec_pad2(out: &mut String, n: u32)
    ensures
        final(out)@ == old(out)@ + spec_udec_pad2(n as nat),
{
    proof {
        lemma_udec_len(n as nat);
        reveal_strlit("0");
    }
    if n < 10 {
        out.append("0");
        assert("0"@ =~= seq!['0']);
    }
    push_udec(out, n);
    proof {
        assert(final(out)@ =~= old(out)@ + spec_udec_pad2(n as nat));
    }
}

/// Parse a non-empty all-digit string as a `u32`; `None` exactly when the
/// string is empty, holds a non-digit, or encodes a value above `u32::MAX`.
pub fn parse_u32_str(s: &str) -> (r: Option<u32>)
    ensures
        r matches Some(v) ==> s@.len() > 0 && spec_all_digits(s@)
            && v == spec_dec_value(s@),
        r is None ==> s@.len() == 0 || !spec_all_digits(s@)
            || spec_dec_value(s@) > u32::MAX,
{
    let n = s.unicode_len();
    if n == 0 {
        return None;
    }
    let mut acc: u64 = 0;
    let mut i: usize = 0;
    while i < n
        invariant
            0 <= i <= n,
            n == s@.len(),
            spec_all_digits(s@.take(i as int)),
            acc == spec_dec_value(s@.take(i as int)),
            acc <= u32::MAX,
        decreases n - i,
    {
        let c = s.get_char(i);
        if c < '0' || c > '9' {
            return None;
        }
        let d: u32 = c as u32 - 48;
        assert(d == spec_digit_val(c));
        proof {
            assert(s@.take(i + 1).drop_last() =~= s@.take(i as int));
            assert(s@.take(i + 1).last() == s@[i as int]);
        }
        let next: u64 = acc * 10 + d as u64;
        if next > u32::MAX as u64 {
            proof {
                if spec_all_digits(s@) {
                    lemma_dec_value_prefix(s@, i + 1);
                }
            }
            return None;
        }
        acc = next;
        i += 1;
    }
    proof {
        assert(s@.take(n as int) =~= s@);
    }
    Some(acc as u32)
}

/// The number of consecutive digit characters of `s` starting at `i`.
pub open spec fn spec_digit_run_len(s: Seq<char>, i: int) -> nat
    decreases s.len() - i when i >= 0
{
    if i < 0 || i >= s.len() {
        0
    } else if spec_is_digit(s[i]) {
        1 + spec_digit_run_len(s, i + 1)
    } else {
        0
    }
}

/// The digit run starting at `i` covers digits only and ends at the string's
/// end or at a non-digit.
pub proof fn lemma_run_len_bounds(s: Seq<char>, i: int)
    requires
        0 <= i <= s.len(),
    ensures
        i + spec_digit_run_len(s, i) <= s.len(),
        forall|m: int|
            i <= m < i + spec_digit_run_len(s, i) ==> spec_is_digit(#[trigger] s[m]),
        i + spec_digit_run_len(s, i) == s.len()
            || !spec_is_digit(s[i + spec_digit_run_len(s, i)]),
    decreases s.len() - i,
{
    if i < s.len() && spec_is_digit(s[i]) {
        lemma_run_len_bounds(s, i + 1);
    }
}

/// The digit run is exactly the stretch of digits before the first non-digit.
pub proof fn lemma_run_len_char(s: Seq<char>, i: int, j: int)
    requires
        0 <= i <= j <= s.len(),
        forall|m: int| i <= m < j ==> spec_is_digit(#[trigger] s[m]),
        j == s.len() || !spec_is_digit(s[j]),
    ensures
        spec_digit_run_len(s, i) == j - i,
    decreases j - i,
{
    if i < j {
        lemma_run_len_char(s, i + 1, j);
    }
}

/// Scanning from inside the left part of a concatenation matches scanning
/// the right part once the left part is exhausted.
pub proof fn lemma_run_len_shift(u: Seq<char>, v: Seq<char>, j: int)
    requires
        0 <= j <= v.len(),
    ensures
        spec_digit_run_len(u + v, u.len() + j) == spec_digit_run_len(v, j),
    decreases v.len() - j,
{
    if j < v.len() {
        assert((u + v)[u.len() + j] == v[j]);
        if spec_is_digit(v[j]) {
            lemma_run_len_shift(u, v, j + 1);
        }
    }
}

/// A concatenation whose left part is all digits scans through the left part
/// and continues into the right part.
pub proof fn lemma_run_len_concat(u: Seq<char>, v: Seq<char>)
    requires
        spec_all_digits(u),
    ensures
        spec_digit_run_len(u + v, 0) == u.len() + spec_digit_run_len(v, 0),
    decreases u.len(),
{
    if u.len() == 0 {
        assert(u + v =~= v);
    } else {
        let w = u.drop_first();
        assert(spec_all_digits(w)) by {
            assert(forall|m: int| 0 <= m < w.len() ==> #[trigger] w[m] == u[m + 1]);
        }
        lemma_run_len_concat(w, v);
        assert((u + v)[0] == u[0]);
        assert(w + v =~= (u + v).drop_first());
        assert(spec_digit_run_len(u + v, 0) == 1 + spec_digit_run_len(u + v, 1));
        lemma_run_len_shift(seq![u[0]], w + v, 0);
        assert(seq![u[0]] + (w + v) =~= u + v);
    }
}

/// Whether `s` is a well-formed optionally negated digit string.
pub open spec fn spec_is_signed_decimal(s: Seq<char>) -> bool {
    if s.len() > 0 && s[0] == '-' {
        s.len() > 1 && spec_all_digits(s.subrange(1, s.len() as int))
    } else {
        s.len() > 0 && spec_all_digits(s)
    }
}

/// The signed value of an optionally negated digit string.
pub open spec fn spec_signed_value(s: Seq<char>) -> int {
    if s.len() > 0 && s[0] == '-' {
        -spec_dec_value(s.subrange(1, s.len() as int))
    } else {
        spec_dec_value(s)
    }
}

/// Parse an optionally negated digit string as an `i32`; `None` exactly when
/// the string is malformed or its value does not fit.
pub fn parse_i32_str(s: &str) -> (r: Option<i32>)
    ensures
        r matches Some(v) ==> spec_is_signed_decimal(s@)
            && v == spec_signed_value(s@),
        r is None ==> !spec_is_signed_decimal(s@)
            || spec_signed_value(s@) > i32::MAX
            || spec_signed_value(s@) < i32::MIN,
{
    let n = s.unicode_len();
    if n == 0 {
        return None;
    }
    let neg = s.get_char(0) == '-';
    let rest: &str = if neg {
        s.substring_char(1, n)
    } else {
        s
    };
    let magnitude = parse_u32_str(rest);
    match magnitude {
        None => {
            proof {
                if neg {
                    if spec_is_signed_decimal(s@) {
                        // The magnitude part is all digits, so `None` means
                        // its value exceeds `u32::MAX`, far out of `i32` range.
                        assert(spec_dec_value(rest@) > u32::MAX);
                    }
                } else {
                    if spec_is_signed_decimal(s@) {
                        assert(spec_dec_value(s@) > u32::MAX);
                    }
                }
            }
            None
        },
        Some(m) => {
            if neg {
                if m <= 0x8000_0000 {
                    proof {
                        assert(spec_is_signed_decimal(s@));
                    }
                    if m == 0x8000_0000 {
                        Some(i32::MIN)
                    } else {
                        Some(-(m as i32))
                    }
                } else {
                    None
                }
            } else {
                if m <= i32::MAX as u32 {
                    Some(m as i32)
                } else {
                    None
                }
            }
        },
    }
}

} // verus!
