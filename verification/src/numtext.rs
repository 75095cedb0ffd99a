//! Decimal text for signed 64-bit integers: exact printing and parsing
//! specifications, executable conversions, and the round-trip law used by
//! the numeric custom fields of the container codec.

use vstd::prelude::*;
use vstd::string::*;

verus! {

pub open spec fn dec_digit(d: int) -> char {
    ((d + 48) as char)
}

pub open spec fn is_dec_digit(c: char) -> bool {
    '0' <= c && c <= '9'
}

pub open spec fn digit_val(c: char) -> int {
    c as int - 48
}

/// The decimal digits of a natural number, most significant first.
pub open spec fn dec_str_nat(n: nat) -> Seq<char>
    decreases n,
{
    if n < 10 {
        seq![dec_digit(n as int)]
    } else {
        dec_str_nat(n / 10).push(dec_digit((n % 10) as int))
    }
}

/// The decimal text of a signed number: a minus sign for negatives, no sign
/// otherwise.
pub open spec fn dec_str_i64(n: int) -> Seq<char> {
    if n < 0 {
        seq!['-'] + dec_str_nat((-n) as nat)
    } else {
        dec_str_nat(n as nat)
    }
}

/// The value of a digit sequence read as decimal.
pub open spec fn dec_val(s: Seq<char>) -> int
    decreases s.len(),
{
    if s.len() == 0 {
        0
    } else {
        dec_val(s.drop_last()) * 10 + digit_val(s.last())
    }
}

pub open spec fn all_digits(s: Seq<char>) -> bool {
    forall|i: int| 0 <= i < s.len() ==> is_dec_digit(#[trigger] s[i])
}

/// What parsing yields: an optional sign, then at least one digit, and a
/// value that fits in an i64; anything else is no number.
pub open spec fn spec_parse_i64(s: Seq<char>) -> Option<i64> {
    if s.len() > 0 && (s[0] == '-' || s[0] == '+') {
        let ds = s.drop_first();
        if ds.len() > 0 && all_digits(ds) {
            if s[0] == '-' {
                if dec_val(ds) <= 0x8000_0000_0000_0000 {
                    Some((-dec_val(ds)) as i64)
                } else {
                    None
                }
            } else {
                if dec_val(ds) <= 0x7fff_ffff_ffff_ffff {
                    Some(dec_val(ds) as i64)
                } else {
                    None
                }
            }
        } else {
            None
        }
    } else if s.len() > 0 && all_digits(s) {
        if dec_val(s) <= 0x7fff_ffff_ffff_ffff {
            Some(dec_val(s) as i64)
        } else {
            None
        }
    } else {
        None
    }
}

pub proof fn lemma_dec_str_nat_digits(n: nat)
    ensures
        all_digits(dec_str_nat(n)),
        dec_str_nat(n).len() >= 1,
    decreases n,
{
    if n >= 10 {
        lemma_dec_str_nat_digits(n / 10);
        let s = dec_str_nat(n);
        assert(s == dec_str_nat(n / 10).push(dec_digit((n % 10) as int)));
        assert(forall|i: int|
            0 <= i < s.len() - 1 ==> #[trigger] s[i] == dec_str_nat(n / 10)[i]);
    }
}

/// Printing and then reading a natural number gives the number back.
pub proof fn lemma_dec_val_of_dec_str(n: nat)
    ensures
        dec_val(dec_str_nat(n)) == n,
    decreases n,
{
    if n < 10 {
        let s = dec_str_nat(n);
        assert(s =~= seq![dec_digit(n as int)]);
        assert(s.drop_last() =~= Seq::<char>::empty());
        assert(dec_val(s) == dec_val(s.drop_last()) * 10 + digit_val(s.last()));
        assert(s.last() == dec_digit(n as int));
    } else {
        lemma_dec_val_of_dec_str(n / 10);
        let s = dec_str_nat(n);
        assert(s.drop_last() =~= dec_str_nat(n / 10));
    }
}

/// A longer run of digits never reads as a smaller value.
pub proof fn lemma_dec_val_monotone(s: Seq<char>, i: int)
    requires
        0 <= i <= s.len(),
        all_digits(s),
    ensures
        dec_val(s) >= dec_val(s.take(i)),
        dec_val(s.take(i)) >= 0,
    decreases s.len() - i,
{
    if i == s.len() {
        assert(s.take(i) =~= s);
        lemma_dec_val_nonneg(s);
    } else {
        lemma_dec_val_monotone(s, i + 1);
        let t1 = s.take(i + 1);
        assert(t1.drop_last() =~= s.take(i));
        assert(t1.last() == s[i]);
        lemma_dec_val_nonneg(s.take(i));
        assert(dec_val(t1) == dec_val(s.take(i)) * 10 + digit_val(s[i]));
        assert(is_dec_digit(s[i]));
    }
}

pub proof fn lemma_dec_val_nonneg(s: Seq<char>)
    requires
        all_digits(s),
    ensures
        dec_val(s) >= 0,
    decreases s.len(),
{
    if s.len() > 0 {
        assert(forall|i: int|
            0 <= i < s.drop_last().len() ==> is_dec_digit(#[trigger] s.drop_last()[i]));
        lemma_dec_val_nonneg(s.drop_last());
        assert(is_dec_digit(s.last()));
    }
}

/// The first digit of the printed form of a value of ten or more is never
/// zero, so printed numbers parse back unambiguously.
pub proof fn lemma_parse_of_dec_str(n: int)
    requires
        -0x8000_0000_0000_0000 <= n <= 0x7fff_ffff_ffff_ffff,
    ensures
        spec_parse_i64(dec_str_i64(n)) == Some(n as i64),
{
    if n < 0 {
        let m = (-n) as nat;
        lemma_dec_str_nat_digits(m);
        lemma_dec_val_of_dec_str(m);
        let s = dec_str_i64(n);
        assert(s[0] == '-');
        assert(s.drop_first() =~= dec_str_nat(m));
        assert(!is_dec_digit('-'));
        assert(dec_val(s.drop_first()) == m);
    } else {
        let m = n as nat;
        lemma_dec_str_nat_digits(m);
        lemma_dec_val_of_dec_str(m);
        let s = dec_str_i64(n);
        assert(s == dec_str_nat(m));
        assert(is_dec_digit(s[0]));
        assert(s[0] != '-' && s[0] != '+');
    }
}

/// Prints an unsigned 64-bit integer in decimal.
pub fn u64_to_string(n: u64) -> (r: String)
    ensures
        r@ == dec_str_nat(n as nat),
{
    let mut m: u64 = n;
    let ghost m0 = m as nat;
    let mut digits: Vec<char> = Vec::new();
    if m == 0 {
        digits.push('0');
        assert(digits@.reverse() =~= seq![dec_digit(0)]);
    } else {
        while m > 0
            invariant
                m <= m0,
                m > 0 ==> dec_str_nat(m0) == dec_str_nat(m as nat) + digits@.reverse(),
                m == 0 ==> dec_str_nat(m0) == digits@.reverse(),
            decreases m,
        {
            let d: u64 = m % 10;
            let c: char = ((48 + d as u8) as char);
            proof {
                assert(c == dec_digit(d as int));
                let rev = digits@.reverse();
                assert(digits@.push(c).reverse() =~= seq![c] + rev);
                if m >= 10 {
                    assert(dec_str_nat(m as nat) == dec_str_nat((m as nat) / 10).push(c));
                    assert(dec_str_nat((m as nat) / 10).push(c) + rev =~= dec_str_nat(
                        (m as nat) / 10,
                    ) + (seq![c] + rev));
                } else {
                    assert(dec_str_nat(m as nat) =~= seq![c]);
                    assert(seq![c] + rev =~= dec_str_nat(m as nat) + rev);
                }
            }
            digits.push(c);
            m = m / 10;
        }
    }
    let mut r = String::new();
    let ghost rev = digits@.reverse();
    assert(r@ =~= Seq::<char>::empty() + rev.take(0));
    let k = digits.len();
    let mut j: usize = 0;
    while j < k
        invariant
            j <= k,
            k == digits@.len(),
            rev == digits@.reverse(),
            r@ == rev.take(j as int),
        decreases k - j,
    {
        r.push(digits[k - 1 - j]);
        proof {
            assert(rev.take(j + 1) =~= rev.take(j as int).push(rev[j as int]));
            assert(rev[j as int] == digits@[k - 1 - j]);
        }
        j = j + 1;
    }
    proof {
        assert(rev.take(k as int) =~= rev);
    }
    r
}

/// Prints a signed 64-bit integer in decimal.
pub fn i64_to_string(n: i64) -> (r: String)
    ensures
        r@ == dec_str_i64(n as int),
{
    if n < 0 {
        let m: u64 = (-(n as i128)) as u64;
        let ds = u64_to_string(m);
        let mut r = String::from_str("-");
        r.append(ds.as_str());
        proof {
            reveal_strlit("-");
            assert("-"@ =~= seq!['-']);
            assert(m as nat == (-(n as int)) as nat);
        }
        r
    } else {
        u64_to_string(n as u64)
    }
}

/// Parses decimal text as an i64; `None` on malformed text or overflow.
pub fn parse_i64(s: &str) -> (r: Option<i64>)
    ensures
        r == spec_parse_i64(s@),
{
    let n = s.unicode_len();
    if n == 0 {
        return None;
    }
    let c0 = s.get_char(0);
    let signed = c0 == '-' || c0 == '+';
    assert(signed == (s@[0] == '-' || s@[0] == '+'));
    let neg = c0 == '-';
    let start: usize = if signed {
        1
    } else {
        0
    };
    if n == start {
        return None;
    }
    let ghost ds: Seq<char> = if signed {
        s@.drop_first()
    } else {
        s@
    };
    let limit: u64 = if neg {
        0x8000_0000_0000_0000
    } else {
        0x7fff_ffff_ffff_ffff
    };
    let mut acc: u64 = 0;
    let mut i: usize = start;
    while i < n
        invariant
            start <= i <= n,
            n == s@.len(),
            start == (if signed { 1int } else { 0int }),
            ds == (if signed { s@.drop_first() } else { s@ }),
            ds.len() == n - start,
            forall|t: int| 0 <= t < ds.len() ==> ds[t] == s@[t + start],
            all_digits(ds.take(i - start)),
            acc == dec_val(ds.take(i - start)),
            acc <= limit,
            limit == (if neg { 0x8000_0000_0000_0000u64 } else { 0x7fff_ffff_ffff_ffffu64 }),
            signed == (s@[0] == '-' || s@[0] == '+'),
            neg == (s@[0] == '-'),
            n > start,
        decreases n - i,
    {
        let c = s.get_char(i);
        if !('0' <= c && c <= '9') {
            proof {
                assert(ds[i - start] == c);
                assert(!is_dec_digit(c));
                assert(!all_digits(ds));
            }
            return None;
        }
        let d: u64 = ((c as u32) - 48) as u64;
        proof {
            let t1 = ds.take(i - start + 1);
            assert(t1.drop_last() =~= ds.take(i - start));
            assert(t1.last() == ds[i - start]);
            assert(dec_val(t1) == acc * 10 + d);
        }
        if acc > limit / 10 || (acc == limit / 10 && d > limit % 10) {
            proof {
                let pref = ds.take(i - start + 1);
                assert(dec_val(pref) > limit);
                if all_digits(ds) {
                    lemma_dec_val_monotone(ds, i - start + 1);
                    assert(dec_val(ds) > limit);
                }
            }
            return None;
        }
        acc = acc * 10 + d;
        i = i + 1;
    }
    proof {
        assert(ds.take(i - start) =~= ds);
    }
    let v: i64 = if neg {
        (-(acc as i128)) as i64
    } else {
        acc as i64
    };
    Some(v)
}

} // verus!
