//! Decimal integer text: reading as `i32::from_str` does, and writing.
use vstd::prelude::*;

verus! {

pub open spec fn is_digit(c: char) -> bool {
    '0' <= c && c <= '9'
}

pub open spec fn digit_value(c: char) -> int {
    c as int - '0' as int
}

pub open spec fn all_digits(s: Seq<char>) -> bool {
    forall|k: int| 0 <= k < s.len() ==> is_digit(#[trigger] s[k])
}

/// The number that a run of decimal digits denotes.
pub open spec fn digits_value(s: Seq<char>) -> int
    decreases s.len(),
{
    if s.len() == 0 {
        0
    } else {
        digits_value(s.drop_last()) * 10 + digit_value(s.last())
    }
}

/// An optional sign followed by one or more decimal digits, and its value.
pub open spec fn int_of(s: Seq<char>) -> Option<int> {
    if s.len() > 0 && (s[0] == '+' || s[0] == '-') {
        let d = s.subrange(1, s.len() as int);
        if d.len() > 0 && all_digits(d) {
            Some(
                if s[0] == '-' {
                    -digits_value(d)
                } else {
                    digits_value(d)
                },
            )
        } else {
            None
        }
    } else if s.len() > 0 && all_digits(s) {
        Some(digits_value(s))
    } else {
        None
    }
}

/// The `i32` that `s` denotes, if it is integer text whose value fits.
pub open spec fn i32_of(s: Seq<char>) -> Option<i32> {
    match int_of(s) {
        Some(n) => if i32::MIN <= n <= i32::MAX {
            Some(n as i32)
        } else {
            None
        },
        None => None,
    }
}

/// The `u32` that `s` denotes, if it is integer text whose value fits.
pub open spec fn u32_of(s: Seq<char>) -> Option<u32> {
    if s.len() > 0 && s[0] == '-' {
        None
    } else {
        match int_of(s) {
        Some(n) => if 0 <= n <= u32::MAX {
            Some(n as u32)
        } else {
            None
        },
        None => None,
        }
    }
}

pub proof fn lemma_digits_value_nonneg(s: Seq<char>)
    requires
        all_digits(s),
    ensures
        digits_value(s) >= 0,
    decreases s.len(),
{
    if s.len() > 0 {
        assert(all_digits(s.drop_last())) by {
            assert forall|k: int| 0 <= k < s.drop_last().len() implies is_digit(
                #[trigger] s.drop_last()[k],
            ) by {
                assert(s.drop_last()[k] == s[k]);
            }
        }
        lemma_digits_value_nonneg(s.drop_last());
        assert(is_digit(s[s.len() - 1]));
    }
}

/// A longer prefix of a digit run never denotes a smaller number.
pub proof fn lemma_digits_prefix_grows(s: Seq<char>, i: int, j: int)
    requires
        all_digits(s),
        0 <= i <= j <= s.len(),
    ensures
        digits_value(s.subrange(0, i)) <= digits_value(s.subrange(0, j)),
    decreases j - i,
{
    if i < j {
        lemma_digits_prefix_grows(s, i, j - 1);
        let p = s.subrange(0, j);
        assert(p.drop_last() =~= s.subrange(0, j - 1));
        assert(all_digits(s.subrange(0, j - 1))) by {
            assert forall|k: int| 0 <= k < j - 1 implies is_digit(
                #[trigger] s.subrange(0, j - 1)[k],
            ) by {
                assert(s.subrange(0, j - 1)[k] == s[k]);
            }
        }
        lemma_digits_value_nonneg(s.subrange(0, j - 1));
        assert(is_digit(s[j - 1]));
    }
}

/// Reads the digits `v[start..]` into a number, or `None` once it exceeds `limit`.
fn digits_up_to(v: &Vec<char>, start: usize, limit: i64) -> (r: Option<i64>)
    requires
        start <= v.len(),
        0 <= limit < 1_000_000_000_000,
    ensures
        all_digits(v@.subrange(start as int, v@.len() as int)) ==> match r {
            Some(n) => n == digits_value(v@.subrange(start as int, v@.len() as int)) && 0 <= n
                <= limit,
            None => digits_value(v@.subrange(start as int, v@.len() as int)) > limit,
        },
{
    let ghost d = v@.subrange(start as int, v@.len() as int);
    let mut acc: i64 = 0;
    let mut i: usize = start;
    while i < v.len()
        invariant
            start <= i <= v.len(),
            d == v@.subrange(start as int, v@.len() as int),
            0 <= acc <= limit,
            0 <= limit < 1_000_000_000_000,
            all_digits(d) ==> acc == digits_value(d.subrange(0, i - start)),
        decreases v.len() - i,
    {
        let c = v[i];
        if !('0' <= c && c <= '9') {
            assert(!is_digit(d[i - start]));
            return None;
        }
        let dv = (c as u32 - '0' as u32) as i64;
        let next = acc * 10 + dv;
        proof {
            if all_digits(d) {
                assert(d.subrange(0, i - start + 1).drop_last() =~= d.subrange(0, i - start));
                assert(d.subrange(0, i - start + 1).last() == c);
            }
        }
        if next > limit {
            proof {
                if all_digits(d) {
                    lemma_digits_prefix_grows(d, i - start + 1, d.len() as int);
                    assert(d.subrange(0, d.len() as int) =~= d);
                }
            }
            return None;
        }
        acc = next;
        i = i + 1;
    }
    assert(d.subrange(0, i - start) =~= d);
    Some(acc)
}

/// Reads `v` as an `i32`, as `i32::from_str` does.
pub fn parse_i32(v: &Vec<char>) -> (r: Option<i32>)
    ensures
        r == i32_of(v@),
{
    if v.len() == 0 {
        return None;
    }
    let neg = v[0] == '-';
    let signed = v[0] == '+' || neg;
    let start: usize = if signed {
        1
    } else {
        0
    };
    if start >= v.len() {
        return None;
    }
    let ghost d = v@.subrange(start as int, v@.len() as int);
    if signed {
        assert(d == v@.subrange(1, v@.len() as int));
    } else {
        assert(d =~= v@);
    }
    let mut k: usize = start;
    while k < v.len()
        invariant
            start <= k <= v.len(),
            v.len() > 0,
            signed == (v@[0] == '+' || v@[0] == '-'),
            start == (if signed { 1usize } else { 0usize }),
            d == v@.subrange(start as int, v@.len() as int),
            forall|m: int| start <= m < k ==> is_digit(#[trigger] v@[m]),
        decreases v.len() - k,
    {
        if !('0' <= v[k] && v[k] <= '9') {
            assert(!is_digit(d[k - start]));
            assert(!all_digits(d));
            return None;
        }
        k = k + 1;
    }
    assert(all_digits(d)) by {
        assert forall|m: int| 0 <= m < d.len() implies is_digit(#[trigger] d[m]) by {
            assert(d[m] == v@[m + start]);
        }
    }
    let neg = v[0] == '-';
    let limit: i64 = if neg {
        2147483648
    } else {
        2147483647
    };
    let res = digits_up_to(v, start, limit);
    assert(all_digits(v@.subrange(start as int, v@.len() as int)));
    match res {
        Some(n) => {
            assert(n <= limit);
            if neg {
                Some((-n) as i32)
            } else {
                Some(n as i32)
            }
        },
        None => None,
    }
}

/// Reads `v` as a `u32`, as `u32::from_str` does (a `+` sign is allowed, a `-` is not).
pub fn parse_u32(v: &Vec<char>) -> (r: Option<u32>)
    ensures
        r == u32_of(v@),
{
    if v.len() == 0 || v[0] == '-' {
        return None;
    }
    let signed = v[0] == '+';
    let start: usize = if signed {
        1
    } else {
        0
    };
    if start >= v.len() {
        return None;
    }
    let ghost d = v@.subrange(start as int, v@.len() as int);
    if signed {
        assert(d == v@.subrange(1, v@.len() as int));
    } else {
        assert(d =~= v@);
    }
    let mut k: usize = start;
    while k < v.len()
        invariant
            start <= k <= v.len(),
            v.len() > 0,
            signed == (v@[0] == '+' || v@[0] == '-'),
            start == (if signed { 1usize } else { 0usize }),
            d == v@.subrange(start as int, v@.len() as int),
            forall|m: int| start <= m < k ==> is_digit(#[trigger] v@[m]),
        decreases v.len() - k,
    {
        if !('0' <= v[k] && v[k] <= '9') {
            assert(!is_digit(d[k - start]));
            assert(!all_digits(d));
            return None;
        }
        k = k + 1;
    }
    assert(all_digits(d)) by {
        assert forall|m: int| 0 <= m < d.len() implies is_digit(#[trigger] d[m]) by {
            assert(d[m] == v@[m + start]);
        }
    }
    match digits_up_to(v, start, 4294967295) {
        Some(n) => Some(n as u32),
        None => None,
    }
}

pub open spec fn digit_char(d: int) -> char {
    if d == 0 {
        '0'
    } else if d == 1 {
        '1'
    } else if d == 2 {
        '2'
    } else if d == 3 {
        '3'
    } else if d == 4 {
        '4'
    } else if d == 5 {
        '5'
    } else if d == 6 {
        '6'
    } else if d == 7 {
        '7'
    } else if d == 8 {
        '8'
    } else {
        '9'
    }
}

/// The decimal digits of `n`, without leading zeros.
pub open spec fn nat_text(n: nat) -> Seq<char>
    decreases n,
{
    if n < 10 {
        seq![digit_char(n as int)]
    } else {
        nat_text(n / 10).push(digit_char((n % 10) as int))
    }
}

/// The decimal text of `n`, with a leading `-` when negative.
pub open spec fn int_text(n: int) -> Seq<char> {
    if n < 0 {
        seq!['-'] + nat_text((-n) as nat)
    } else {
        nat_text(n as nat)
    }
}

pub proof fn lemma_digit_char(d: int)
    requires
        0 <= d < 10,
    ensures
        is_digit(digit_char(d)),
        digit_value(digit_char(d)) == d,
{
}

pub proof fn lemma_nat_text(n: nat)
    ensures
        nat_text(n).len() > 0,
        all_digits(nat_text(n)),
        digits_value(nat_text(n)) == n,
    decreases n,
{
    lemma_digit_char((n % 10) as int);
    if n >= 10 {
        lemma_nat_text(n / 10);
        let t = nat_text(n);
        assert(t.last() == digit_char((n % 10) as int));
        assert(digits_value(t) == digits_value(t.drop_last()) * 10 + digit_value(t.last()));
        assert((n / 10) * 10 + n % 10 == n);
        assert(t.drop_last() =~= nat_text(n / 10));
        assert(all_digits(t)) by {
            assert forall|k: int| 0 <= k < t.len() implies is_digit(#[trigger] t[k]) by {
                if k < t.len() - 1 {
                    assert(t[k] == nat_text(n / 10)[k]);
                }
            }
        }
    } else {
        let t = nat_text(n);
        assert(t.drop_last() =~= Seq::<char>::empty());
        assert(digits_value(t) == digits_value(t.drop_last()) * 10 + digit_value(t.last()));
    }
}

/// Integer text reads back as the integer it was written from.
pub proof fn lemma_int_text_round_trip(n: int)
    ensures
        int_of(int_text(n)) == Some(n),
        forall|k: int| 0 <= k < int_text(n).len() ==> is_digit(#[trigger] int_text(n)[k]) || int_text(n)[k] == '-',
        int_text(n).len() > 0,
{
    if n < 0 {
        let m = (-n) as nat;
        lemma_nat_text(m);
        let t = int_text(n);
        assert(t.subrange(1, t.len() as int) =~= nat_text(m));
        assert forall|k: int| 0 <= k < t.len() implies is_digit(#[trigger] t[k]) || t[k] == '-' by {
            if k > 0 {
                assert(t[k] == nat_text(m)[k - 1]);
            }
        }
    } else {
        lemma_nat_text(n as nat);
        assert(is_digit(int_text(n)[0]));
    }
}

/// Appends the decimal digits of `n`.
fn push_nat_text(out: &mut String, n: u64)
    ensures
        final(out)@ == old(out)@ + nat_text(n as nat),
    decreases n,
{
    if n >= 10 {
        push_nat_text(out, n / 10);
        let d = n % 10;
        crate::text::push_char(out, digit_char_exec(d));
        assert(nat_text(n as nat) == nat_text((n / 10) as nat).push(digit_char((n % 10) as int)));
    } else {
        crate::text::push_char(out, digit_char_exec(n));
        assert(nat_text(n as nat) =~= seq![digit_char(n as int)]);
    }
    assert(out@ =~= old(out)@ + nat_text(n as nat));
}

fn digit_char_exec(d: u64) -> (c: char)
    requires
        d < 10,
    ensures
        c == digit_char(d as int),
{
    if d == 0 {
        '0'
    } else if d == 1 {
        '1'
    } else if d == 2 {
        '2'
    } else if d == 3 {
        '3'
    } else if d == 4 {
        '4'
    } else if d == 5 {
        '5'
    } else if d == 6 {
        '6'
    } else if d == 7 {
        '7'
    } else if d == 8 {
        '8'
    } else {
        '9'
    }
}

/// Appends the decimal text of `n`.
pub fn push_int_text(out: &mut String, n: i64)
    requires
        n > i64::MIN,
    ensures
        final(out)@ == old(out)@ + int_text(n as int),
{
    if n < 0 {
        crate::text::push_char(out, '-');
        push_nat_text(out, (-n) as u64);
        assert(out@ =~= old(out)@ + int_text(n as int));
    } else {
        push_nat_text(out, n as u64);
    }
}

} // verus!
