//! Decimal numerals: reading an unsigned integer written in ASCII digits, and
//! writing one back out as bytes.
use vstd::prelude::*;

verus! {

/// An ASCII decimal digit.
pub open spec fn is_digit(c: char) -> bool {
    '0' <= c && c <= '9'
}

/// The value of an ASCII decimal digit.
pub open spec fn digit_value(c: char) -> nat {
    ((c as int) - ('0' as int)) as nat
}

/// Every character of `s` is an ASCII decimal digit.
#[verifier::opaque]
pub open spec fn all_digits(s: Seq<char>) -> bool {
    forall|i: int| 0 <= i < s.len() ==> is_digit(#[trigger] s[i])
}

/// The number that the digits `s` denote, most significant first.
pub open spec fn decimal_value(s: Seq<char>) -> nat
    decreases s.len(),
{
    if s.len() == 0 {
        0
    } else {
        decimal_value(s.drop_last()) * 10 + digit_value(s.last())
    }
}

/// What `u32::from_str` gives for the text `s`: an optional `+` followed by at
/// least one decimal digit, with a value that fits in a `u32`.
pub open spec fn u32_from_text(s: Seq<char>) -> Option<u32> {
    let digits = if s.len() > 0 && s[0] == '+' { s.drop_first() } else { s };
    if digits.len() > 0 && all_digits(digits) && decimal_value(digits) <= u32::MAX {
        Some(decimal_value(digits) as u32)
    } else {
        None
    }
}

/// A longer run of digits never denotes a smaller number than its prefix.
pub proof fn lemma_decimal_value_prefix(s: Seq<char>, k: int)
    requires
        0 <= k <= s.len(),
        all_digits(s),
    ensures
        decimal_value(s.take(k)) <= decimal_value(s),
    decreases s.len() - k,
{
    reveal(all_digits);
    if k < s.len() {
        lemma_decimal_value_prefix(s, k + 1);
        assert(s.take(k + 1).drop_last() =~= s.take(k));
    } else {
        assert(s.take(k) =~= s);
    }
}

/// Extending a run of digits by one digit multiplies its value by ten and adds
/// the new digit.
proof fn lemma_digits_step(s: Seq<char>, lo: int, i: int)
    requires
        0 <= lo <= i < s.len(),
        all_digits(s.subrange(lo, i)),
        is_digit(s[i]),
    ensures
        all_digits(s.subrange(lo, i + 1)),
        decimal_value(s.subrange(lo, i + 1)) == decimal_value(s.subrange(lo, i)) * 10
            + digit_value(s[i]),
{
    reveal(all_digits);
    let prefix = s.subrange(lo, i);
    let next = s.subrange(lo, i + 1);
    assert(next.drop_last() =~= prefix);
    assert forall|j: int| 0 <= j < next.len() implies is_digit(#[trigger] next[j]) by {
        if j < prefix.len() {
            assert(next[j] == prefix[j]);
        }
    }
}

/// Once a prefix of the digits is too large for a `u32`, so is the whole run.
proof fn lemma_digits_overflow(s: Seq<char>, lo: int, i: int, hi: int)
    requires
        0 <= lo <= i <= hi <= s.len(),
        decimal_value(s.subrange(lo, i)) > u32::MAX,
    ensures
        all_digits(s.subrange(lo, hi)) ==> decimal_value(s.subrange(lo, hi)) > u32::MAX,
{
    let digits = s.subrange(lo, hi);
    if all_digits(digits) {
        assert(digits.take(i - lo) =~= s.subrange(lo, i));
        lemma_decimal_value_prefix(digits, i - lo);
    }
}

/// Reads `chars[lo..hi]` as `u32::from_str` does.
pub fn parse_u32(chars: &Vec<char>, lo: usize, hi: usize) -> (r: Option<u32>)
    requires
        lo <= hi <= chars@.len(),
    ensures
        r == u32_from_text(chars@.subrange(lo as int, hi as int)),
{
    let ghost s = chars@.subrange(lo as int, hi as int);
    let mut start = lo;
    if lo < hi && chars[lo] == '+' {
        start = lo + 1;
    }
    let ghost digits = chars@.subrange(start as int, hi as int);
    assert(digits =~= (if s.len() > 0 && s[0] == '+' { s.drop_first() } else { s }));
    if start == hi {
        return None;
    }
    let mut acc: u64 = 0;
    let mut i = start;
    assert(all_digits(chars@.subrange(start as int, start as int))) by {
        reveal(all_digits);
    }
    while i < hi
        invariant
            lo <= start <= i <= hi <= chars@.len(),
            digits == chars@.subrange(start as int, hi as int),
            s == chars@.subrange(lo as int, hi as int),
            digits == (if s.len() > 0 && s[0] == '+' { s.drop_first() } else { s }),
            digits.len() > 0,
            all_digits(chars@.subrange(start as int, i as int)),
            acc == decimal_value(chars@.subrange(start as int, i as int)),
            acc <= u32::MAX,
        decreases hi - i,
    {
        let c = chars[i];
        if !('0' <= c && c <= '9') {
            assert(!all_digits(digits)) by {
                reveal(all_digits);
                assert(digits[i - start] == c);
            }
            return None;
        }
        let d: u64 = ((c as u32) - 48) as u64;
        assert(d == digit_value(c));
        proof {
            lemma_digits_step(chars@, start as int, i as int);
        }
        acc = acc * 10 + d;
        if acc > 0xffff_ffff {
            proof {
                lemma_digits_overflow(chars@, start as int, i + 1, hi as int);
            }
            return None;
        }
        i = i + 1;
    }
    Some(acc as u32)
}

/// The decimal numeral of `n`, as ASCII bytes, with no leading zeros.
pub open spec fn decimal_bytes(n: nat) -> Seq<u8>
    decreases n,
{
    if n < 10 {
        seq![(n + 48) as u8]
    } else {
        decimal_bytes(n / 10).push((n % 10 + 48) as u8)
    }
}

/// A numeral is never empty.
pub proof fn lemma_decimal_bytes_len(n: nat)
    ensures
        1 <= decimal_bytes(n).len(),
    decreases n,
{
    if n >= 10 {
        lemma_decimal_bytes_len(n / 10);
    }
}

/// The decimal numeral of `n`, left-padded with zeros to at least ten digits
/// (the `{:010}` format).
pub open spec fn padded_decimal_bytes(n: nat) -> Seq<u8> {
    let d = decimal_bytes(n);
    if d.len() < 10 {
        Seq::new((10 - d.len()) as nat, |i: int| 48u8) + d
    } else {
        d
    }
}

/// Writes the decimal numeral of `n`.
pub fn write_decimal(n: u64) -> (r: Vec<u8>)
    ensures
        r@ == decimal_bytes(n as nat),
    decreases n,
{
    if n < 10 {
        let mut v: Vec<u8> = Vec::new();
        v.push((n as u8) + 48);
        v
    } else {
        let mut v = write_decimal(n / 10);
        v.push(((n % 10) as u8) + 48);
        v
    }
}

/// Writes the decimal numeral of `n`, zero-padded to ten digits.
pub fn write_padded_decimal(n: u64) -> (r: Vec<u8>)
    ensures
        r@ == padded_decimal_bytes(n as nat),
{
    let digits = write_decimal(n);
    proof {
        lemma_decimal_bytes_len(n as nat);
    }
    if digits.len() >= 10 {
        return digits;
    }
    let pad = 10 - digits.len();
    let mut r: Vec<u8> = Vec::new();
    let mut i: usize = 0;
    while i < pad
        invariant
            i <= pad,
            r@ == Seq::new(i as nat, |k: int| 48u8),
        decreases pad - i,
    {
        r.push(48u8);
        i = i + 1;
        assert(r@ =~= Seq::new(i as nat, |k: int| 48u8));
    }
    let mut j: usize = 0;
    let ghost zeros = r@;
    while j < digits.len()
        invariant
            j <= digits@.len(),
            r@ == zeros + digits@.take(j as int),
        decreases digits@.len() - j,
    {
        r.push(digits[j]);
        j = j + 1;
        assert(r@ =~= zeros + digits@.take(j as int));
    }
    assert(digits@.take(j as int) =~= digits@);
    r
}

/// The numeral written for `n` is a non-empty run of ASCII digits, with no
/// leading zero, that read back denotes `n`; its padded form is at least ten
/// bytes long and is that numeral with zeros in front of it.
pub proof fn law_numerals_denote_their_number(n: nat)
    ensures
        ({
            let d = decimal_bytes(n);
            let p = padded_decimal_bytes(n);
            &&& 1 <= d.len()
            &&& d.len() > 1 <==> n >= 10
            &&& forall|i: int| 0 <= i < d.len() ==> 48 <= #[trigger] d[i] <= 57
            &&& d.len() > 1 ==> d[0] != 48u8
            &&& decimal_value(d.map_values(|b: u8| b as char)) == n
            &&& p.len() == (if d.len() < 10 { 10 } else { d.len() })
            &&& forall|i: int| 0 <= i < p.len() - d.len() ==> #[trigger] p[i] == 48u8
            &&& p.subrange(p.len() - d.len(), p.len() as int) == d
        }),
    decreases n,
{
    let d = decimal_bytes(n);
    let c = d.map_values(|b: u8| b as char);
    if n >= 10 {
        law_numerals_denote_their_number(n / 10);
        let q = decimal_bytes(n / 10);
        let last = ((n % 10) + 48) as u8;
        assert(d == q.push(last));
        assert(c.drop_last() =~= q.map_values(|b: u8| b as char));
        assert(c.last() == last as char);
        assert((last as char) as int == last as int);
        assert(digit_value(c.last()) == n % 10);
        assert(d[0] == q[0]);
        if n / 10 < 10 {
            assert(q[0] == ((n / 10) + 48) as u8);
        }
        assert(decimal_value(c.drop_last()) == n / 10);
        assert(decimal_value(c) == decimal_value(c.drop_last()) * 10 + digit_value(c.last()));
        assert(n == (n / 10) * 10 + n % 10);
        assert forall|i: int| 0 <= i < d.len() implies 48 <= #[trigger] d[i] <= 57 by {
            if i < q.len() {
                assert(d[i] == q[i]);
            }
        }
    } else {
        assert(c.drop_last() =~= Seq::<char>::empty());
        let only = (n + 48) as u8;
        assert(c.last() == only as char);
        assert((only as char) as int == only as int);
        assert(digit_value(c.last()) == n);
        assert(decimal_value(c) == decimal_value(c.drop_last()) * 10 + digit_value(c.last()));
    }
    let p = padded_decimal_bytes(n);
    assert(p.subrange(p.len() - d.len(), p.len() as int) =~= d);
}

/// The decimal numeral of `n` as characters, with no leading zeros.
pub open spec fn decimal_chars(n: nat) -> Seq<char>
    decreases n,
{
    if n < 10 {
        seq![((n + 48) as u32) as char]
    } else {
        decimal_chars(n / 10).push((((n % 10) + 48) as u32) as char)
    }
}

/// A numeral is a non-empty run of digits that denotes its number.
pub proof fn lemma_decimal_chars(n: nat)
    ensures
        decimal_chars(n).len() > 0,
        all_digits(decimal_chars(n)),
        decimal_value(decimal_chars(n)) == n,
    decreases n,
{
    reveal(all_digits);
    let d = decimal_chars(n);
    if n >= 10 {
        lemma_decimal_chars(n / 10);
        assert(d.drop_last() =~= decimal_chars(n / 10));
        let ch = ((((n % 10) + 48) as u32) as char);
        assert(d.last() == ch);
        assert((ch as int) == (n % 10) + 48);
        assert(digit_value(ch) == n % 10);
        assert(decimal_value(d) == decimal_value(d.drop_last()) * 10 + digit_value(d.last()));
        assert forall|i: int| 0 <= i < d.len() implies is_digit(#[trigger] d[i]) by {
            if i < d.len() - 1 {
                assert(d[i] == decimal_chars(n / 10)[i]);
            }
        }
    } else {
        assert(d.drop_last() =~= Seq::<char>::empty());
        let ch = (((n + 48) as u32) as char);
        assert((ch as int) == n + 48);
        assert(decimal_value(d.drop_last()) == 0);
        assert(decimal_value(d) == decimal_value(d.drop_last()) * 10 + digit_value(d.last()));
    }
}

} // verus!
