//! Decimal text for unsigned integers, in both directions: rendering a value
//! as its shortest decimal digits, and reading an optionally `+`-signed run of
//! decimal digits back, bounded by a maximum, after trimming white space.

use vstd::arithmetic::power::pow;
use vstd::prelude::*;

verus! {

/// The ASCII digit character for a value below ten.
pub open spec fn digit_char(d: nat) -> char
    recommends
        d < 10,
{
    ((d + 48) as u32) as char
}

/// The numeric value of an ASCII digit character.
pub open spec fn digit_value(c: char) -> nat {
    ((c as u32) - 48) as nat
}

/// `c` is one of `'0'..='9'`.
pub open spec fn is_digit(c: char) -> bool {
    '0' <= c && c <= '9'
}

/// The shortest decimal rendering of `n` (no sign, no leading zeros; `0` is `"0"`).
pub open spec fn decimal(n: nat) -> Seq<char>
    decreases n,
{
    if n < 10 {
        seq![digit_char(n)]
    } else {
        decimal(n / 10).push(digit_char(n % 10))
    }
}

/// The value of a run of decimal digits, most significant first.
pub open spec fn digits_value(s: Seq<char>) -> nat
    decreases s.len(),
{
    if s.len() == 0 {
        0
    } else {
        digits_value(s.drop_last()) * 10 + digit_value(s.last())
    }
}

/// Every character of `s` is an ASCII digit.
pub open spec fn all_digits(s: Seq<char>) -> bool {
    forall|i: int| 0 <= i < s.len() ==> is_digit(#[trigger] s[i])
}

/// A character with the Unicode `White_Space` property, the set that
/// `char::is_whitespace` and `str::trim` use.
pub open spec fn is_white_space(c: char) -> bool {
    let u = c as u32;
    ||| 0x09 <= u && u <= 0x0D
    ||| u == 0x20
    ||| u == 0x85
    ||| u == 0xA0
    ||| u == 0x1680
    ||| 0x2000 <= u && u <= 0x200A
    ||| u == 0x2028
    ||| u == 0x2029
    ||| u == 0x202F
    ||| u == 0x205F
    ||| u == 0x3000
}

/// `s` with its leading white space removed.
pub open spec fn trim_start(s: Seq<char>) -> Seq<char>
    decreases s.len(),
{
    if s.len() > 0 && is_white_space(s[0]) {
        trim_start(s.drop_first())
    } else {
        s
    }
}

/// `s` with its trailing white space removed.
pub open spec fn trim_end(s: Seq<char>) -> Seq<char>
    decreases s.len(),
{
    if s.len() > 0 && is_white_space(s.last()) {
        trim_end(s.drop_last())
    } else {
        s
    }
}

/// `s` with white space removed at both ends.
pub open spec fn trim(s: Seq<char>) -> Seq<char> {
    trim_end(trim_start(s))
}

/// The unsigned integer that `s` denotes: an optional single `+`, then one or
/// more ASCII digits, whose value is at most `max`; `None` for anything else
/// (empty, a lone `+`, a `-`, any other character, or a value above `max`).
pub open spec fn parse_unsigned(s: Seq<char>, max: nat) -> Option<nat> {
    let body = if s.len() > 0 && s[0] == '+' {
        s.drop_first()
    } else {
        s
    };
    if body.len() > 0 && all_digits(body) && digits_value(body) <= max {
        Some(digits_value(body))
    } else {
        None
    }
}

/// The exec rendering of one digit.
fn digit_str(d: u64) -> (s: &'static str)
    requires
        d < 10,
    ensures
        s@ == seq![digit_char(d as nat)],
{
    proof {
        reveal_strlit("0");
        reveal_strlit("1");
        reveal_strlit("2");
        reveal_strlit("3");
        reveal_strlit("4");
        reveal_strlit("5");
        reveal_strlit("6");
        reveal_strlit("7");
        reveal_strlit("8");
        reveal_strlit("9");
    }
    if d == 0 {
        "0"
    } else if d == 1 {
        "1"
    } else if d == 2 {
        "2"
    } else if d == 3 {
        "3"
    } else if d == 4 {
        "4"
    } else if d == 5 {
        "5"
    } else if d == 6 {
        "6"
    } else if d == 7 {
        "7"
    } else if d == 8 {
        "8"
    } else {
        "9"
    }
}

/// Append the decimal rendering of `n` to `out`.
pub fn push_decimal(out: &mut String, n: u64)
    ensures
        final(out)@ == old(out)@ + decimal(n as nat),
    decreases n,
{
    if n >= 10 {
        push_decimal(out, n / 10);
    }
    let d = digit_str(n % 10);
    out.append(d);
    proof {
        if n >= 10 {
            assert(decimal(n as nat) == decimal((n / 10) as nat).push(digit_char((n % 10) as nat)));
        }
    }
}

/// The value of a run of digits is at least the value of any of its prefixes.
pub proof fn lemma_digits_value_prefix(s: Seq<char>, k: int)
    requires
        0 <= k <= s.len(),
    ensures
        digits_value(s.subrange(0, k)) <= digits_value(s),
    decreases s.len() - k,
{
    if k < s.len() {
        lemma_digits_value_prefix(s, k + 1);
        assert(s.subrange(0, k + 1).drop_last() =~= s.subrange(0, k));
    } else {
        assert(s.subrange(0, k) =~= s);
    }
}

/// Digits are read positionally, most significant first: the value of `a`
/// followed by `b` is the value of `a` shifted left by the length of `b`,
/// plus the value of `b`.
pub proof fn lemma_digits_value_positional(a: Seq<char>, b: Seq<char>)
    ensures
        digits_value(a + b) == digits_value(a) * pow(10, b.len()) + digits_value(b),
    decreases b.len(),
{
    if b.len() == 0 {
        assert(a + b =~= a);
        assert(pow(10, 0) == 1) by {
            vstd::arithmetic::power::lemma_pow0(10);
        }
    } else {
        let b0 = b.drop_last();
        lemma_digits_value_positional(a, b0);
        assert((a + b).drop_last() =~= a + b0);
        assert((a + b).last() == b.last());
        vstd::arithmetic::power::lemma_pow_adds(10, b0.len(), 1);
        vstd::arithmetic::power::lemma_pow1(10);
        assert(b0.len() + 1 == b.len());
        let va = digits_value(a);
        let p = pow(10, b0.len());
        assert((va * p + digits_value(b0)) * 10 + digit_value(b.last()) == va * (p * 10) + (
        digits_value(b0) * 10 + digit_value(b.last()))) by (nonlinear_arith);
    }
}

/// Each digit character reads as the digit it renders.
pub proof fn lemma_digit_round_trip(d: nat)
    requires
        d < 10,
    ensures
        is_digit(digit_char(d)),
        digit_value(digit_char(d)) == d,
{
}

/// Exec test for the `White_Space` property.
pub fn char_is_white_space(c: char) -> (b: bool)
    ensures
        b == is_white_space(c),
{
    let u = c as u32;
    (0x09 <= u && u <= 0x0D) || u == 0x20 || u == 0x85 || u == 0xA0 || u == 0x1680 || (0x2000
        <= u && u <= 0x200A) || u == 0x2028 || u == 0x2029 || u == 0x202F || u == 0x205F || u
        == 0x3000
}

/// The characters of `s`, in order.
fn chars_of(s: &str) -> (v: Vec<char>)
    ensures
        v@ == s@,
{
    let n = s.unicode_len();
    let mut v: Vec<char> = Vec::new();
    let mut i: usize = 0;
    while i < n
        invariant
            n == s@.len(),
            i <= n,
            v@ == s@.subrange(0, i as int),
        decreases n - i,
    {
        let c = s.get_char(i);
        v.push(c);
        i = i + 1;
        assert(v@ =~= s@.subrange(0, i as int));
    }
    assert(v@ =~= s@);
    v
}

/// Read `s`, trimmed of white space, as an unsigned integer no larger than `max`.
pub fn parse_trimmed_unsigned(s: &str, max: u64) -> (r: Option<u64>)
    ensures
        r is Some == parse_unsigned(trim(s@), max as nat) is Some,
        r matches Some(v) ==> parse_unsigned(trim(s@), max as nat) == Some(v as nat),
{
    let v = chars_of(s);
    let n = v.len();
    let ghost full = v@;

    // Leading white space.
    let mut lo: usize = 0;
    assert(full.subrange(0, n as int) =~= full);
    while lo < n && char_is_white_space(v[lo])
        invariant
            n == full.len(),
            full == v@,
            lo <= n,
            trim_start(full) == trim_start(full.subrange(lo as int, n as int)),
        decreases n - lo,
    {
        assert(full.subrange(lo as int, n as int).drop_first() =~= full.subrange(
            lo as int + 1,
            n as int,
        ));
        lo = lo + 1;
    }
    let ghost rest = full.subrange(lo as int, n as int);
    assert(trim_start(full) == rest) by {
        if lo < n {
            assert(rest[0] == full[lo as int]);
        }
    }

    // Trailing white space.
    let mut hi: usize = n;
    while hi > lo && char_is_white_space(v[hi - 1])
        invariant
            n == full.len(),
            full == v@,
            lo <= hi <= n,
            rest == full.subrange(lo as int, n as int),
            trim_end(rest) == trim_end(full.subrange(lo as int, hi as int)),
        decreases hi - lo,
    {
        let ghost cur = full.subrange(lo as int, hi as int);
        assert(cur.drop_last() =~= full.subrange(lo as int, hi as int - 1));
        assert(cur.last() == full[hi as int - 1]);
        hi = hi - 1;
    }
    let ghost t = full.subrange(lo as int, hi as int);
    assert(trim(s@) == t) by {
        if hi > lo {
            assert(t.last() == full[hi as int - 1]);
        }
    }

    // Optional plus sign.
    let mut start = lo;
    if lo < hi && v[lo] == '+' {
        start = lo + 1;
    }
    let ghost body = full.subrange(start as int, hi as int);
    assert(body =~= (if t.len() > 0 && t[0] == '+' {
        t.drop_first()
    } else {
        t
    }));
    if start == hi {
        return None;
    }
    let ghost expected: Option<nat> = if body.len() > 0 && all_digits(body) && digits_value(body)
        <= max {
        Some(digits_value(body))
    } else {
        None
    };
    assert(parse_unsigned(trim(s@), max as nat) == expected);
    let mut acc: u64 = 0;
    let mut k: usize = start;
    while k < hi
        invariant
            n == full.len(),
            full == v@,
            start <= k <= hi <= n,
            body == full.subrange(start as int, hi as int),
            all_digits(full.subrange(start as int, k as int)),
            acc as nat == digits_value(full.subrange(start as int, k as int)),
            acc <= max,
            parse_unsigned(trim(s@), max as nat) == expected,
            expected == (if body.len() > 0 && all_digits(body) && digits_value(body) <= max {
                Some(digits_value(body))
            } else {
                None
            }),
        decreases hi - k,
    {
        let c = v[k];
        let ghost pre = full.subrange(start as int, k as int);
        let ghost next = full.subrange(start as int, k as int + 1);
        assert(next.drop_last() =~= pre);
        assert(next.last() == c);
        assert(next =~= body.subrange(0, k - start + 1));
        if !('0' <= c && c <= '9') {
            assert(body[k - start] == c);
            return None;
        }
        let d = (c as u32 - 48) as u64;
        assert(d as nat == digit_value(c));
        let wide = (acc as u128) * 10 + (d as u128);
        assert(wide == digits_value(next));
        if wide > max as u128 {
            proof {
                if all_digits(body) {
                    lemma_digits_value_prefix(body, k - start + 1);
                }
            }
            return None;
        }
        acc = wide as u64;
        k = k + 1;
        assert(all_digits(full.subrange(start as int, k as int))) by {
            assert forall|i: int| 0 <= i < next.len() implies is_digit(#[trigger] next[i]) by {
                if i < pre.len() {
                    assert(next[i] == pre[i]);
                }
            }
        }
    }
    assert(full.subrange(start as int, k as int) =~= body);
    Some(acc)
}

/// A decimal rendering is a non-empty run of digits denoting the value rendered.
pub proof fn lemma_decimal_is_digits(n: nat)
    ensures
        decimal(n).len() >= 1,
        all_digits(decimal(n)),
        digits_value(decimal(n)) == n,
    decreases n,
{
    if n < 10 {
        let s = decimal(n);
        assert(s.drop_last() =~= Seq::<char>::empty());
        assert(s.last() == digit_char(n));
        assert(digit_value(digit_char(n)) == n);
        assert(digits_value(s) == digits_value(s.drop_last()) * 10 + digit_value(s.last()));
    } else {
        lemma_decimal_is_digits(n / 10);
        let s = decimal(n);
        assert(s.drop_last() =~= decimal(n / 10));
        assert(s.last() == digit_char(n % 10));
        assert(digit_value(digit_char(n % 10)) == n % 10);
        assert(digits_value(s) == digits_value(decimal(n / 10)) * 10 + digit_value(s.last()));
        assert(n == (n / 10) * 10 + n % 10);
        assert forall|i: int| 0 <= i < s.len() implies is_digit(#[trigger] s[i]) by {
            if i < s.len() - 1 {
                assert(s[i] == decimal(n / 10)[i]);
            }
        }
    }
}

/// Every character of `s` is white space.
pub open spec fn all_white_space(s: Seq<char>) -> bool {
    forall|i: int| 0 <= i < s.len() ==> is_white_space(#[trigger] s[i])
}

/// Removing leading white space removes all of it and nothing else: what is
/// left is a suffix of `s` that does not start with white space, and what was
/// removed is all white space.
pub proof fn lemma_trim_start_shape(s: Seq<char>)
    ensures
        trim_start(s).len() <= s.len(),
        trim_start(s) == s.subrange(s.len() - trim_start(s).len(), s.len() as int),
        all_white_space(s.subrange(0, s.len() - trim_start(s).len())),
        trim_start(s).len() > 0 ==> !is_white_space(trim_start(s)[0]),
    decreases s.len(),
{
    if s.len() > 0 && is_white_space(s[0]) {
        let t = s.drop_first();
        lemma_trim_start_shape(t);
        let k = t.len() - trim_start(t).len();
        assert(t.subrange(k, t.len() as int) =~= s.subrange(k + 1, s.len() as int));
        assert forall|i: int| 0 <= i < k + 1 implies is_white_space(
            #[trigger] s.subrange(0, k + 1)[i],
        ) by {
            if i > 0 {
                assert(s.subrange(0, k + 1)[i] == t.subrange(0, k)[i - 1]);
            }
        }
    } else {
        assert(s.subrange(0, s.len() as int) =~= s);
    }
}

/// Removing trailing white space removes all of it and nothing else: what is
/// left is a prefix of `s` that does not end with white space, and what was
/// removed is all white space.
pub proof fn lemma_trim_end_shape(s: Seq<char>)
    ensures
        trim_end(s).len() <= s.len(),
        trim_end(s) == s.subrange(0, trim_end(s).len() as int),
        all_white_space(s.subrange(trim_end(s).len() as int, s.len() as int)),
        trim_end(s).len() > 0 ==> !is_white_space(trim_end(s).last()),
    decreases s.len(),
{
    if s.len() > 0 && is_white_space(s.last()) {
        let t = s.drop_last();
        lemma_trim_end_shape(t);
        let k = trim_end(t).len() as int;
        assert(t.subrange(0, k) =~= s.subrange(0, k));
        assert forall|i: int| 0 <= i < s.len() - k implies is_white_space(
            #[trigger] s.subrange(k, s.len() as int)[i],
        ) by {
            if k + i < t.len() {
                assert(s.subrange(k, s.len() as int)[i] == t.subrange(k, t.len() as int)[i]);
            }
        }
    } else {
        assert(s.subrange(0, s.len() as int) =~= s);
    }
}

/// Trimming removes all white space at both ends and nothing in between: the
/// result is a contiguous piece of `s`, everything before and after it is
/// white space, and it neither starts nor ends with white space.
pub proof fn lemma_trim_shape(s: Seq<char>)
    ensures
        exists|a: int, b: int|
            0 <= a <= b <= s.len() && trim(s) == s.subrange(a, b) && all_white_space(
                s.subrange(0, a),
            ) && all_white_space(s.subrange(b, s.len() as int)),
        trim(s).len() > 0 ==> !is_white_space(trim(s)[0]) && !is_white_space(trim(s).last()),
{
    lemma_trim_start_shape(s);
    let u = trim_start(s);
    lemma_trim_end_shape(u);
    let a = s.len() - u.len();
    let b = a + trim_end(u).len();
    assert(trim(s) =~= s.subrange(a, b));
    assert(all_white_space(s.subrange(b, s.len() as int))) by {
        assert(s.subrange(b, s.len() as int) =~= u.subrange(
            trim_end(u).len() as int,
            u.len() as int,
        ));
    }
    if trim(s).len() > 0 {
        assert(trim(s)[0] == u[0]);
    }
}

/// Surrounding white space does not change what a number reads as: for every
/// `n <= max` and any white space before and after, the decimal text of `n`
/// parses to `n`.
pub proof fn lemma_parse_ignores_surrounding_white_space(
    n: nat,
    max: nat,
    before: Seq<char>,
    after: Seq<char>,
)
    requires
        n <= max,
        all_white_space(before),
        all_white_space(after),
    ensures
        parse_unsigned(trim(before + decimal(n) + after), max) == Some(n),
{
    lemma_decimal_is_digits(n);
    let d = decimal(n);
    let s = before + d + after;
    lemma_trim_shape(s);
    let (a, b) = choose|a: int, b: int|
        0 <= a <= b <= s.len() && trim(s) == s.subrange(a, b) && all_white_space(
            s.subrange(0, a),
        ) && all_white_space(s.subrange(b, s.len() as int));
    let lo = before.len() as int;
    let hi = lo + d.len();
    // The kept piece cannot start inside the leading white space or the digits.
    assert(a == lo) by {
        if a < lo {
            assert(s[a] == before[a]);
            if a < b {
                assert(trim(s)[0] == s[a]);
            } else {
                assert(s.subrange(b, s.len() as int)[lo - b] == s[lo]);
                assert(s[lo] == d[0]);
            }
        } else if a > lo {
            assert(s.subrange(0, a)[lo] == s[lo]);
            assert(s[lo] == d[0]);
        }
    }
    assert(b == hi) by {
        if b > hi {
            assert(trim(s).last() == s[b - 1]);
            assert(s[b - 1] == after[b - 1 - hi]);
        } else if b < hi {
            assert(s.subrange(b, s.len() as int)[hi - 1 - b] == s[hi - 1]);
            assert(s[hi - 1] == d[d.len() - 1]);
        }
    }
    assert(trim(s) =~= d);
    assert(d[0] != '+');
}

/// Reading back what `decimal` renders gives the value rendered: for every
/// `n <= max`, the decimal text of `n` parses to `n`.
pub proof fn lemma_parse_reads_back_decimal(n: nat, max: nat)
    requires
        n <= max,
    ensures
        parse_unsigned(trim(decimal(n)), max) == Some(n),
{
    lemma_decimal_is_digits(n);
    let s = decimal(n);
    assert(is_digit(s[0]));
    assert(is_digit(s.last()));
    assert(trim_start(s) == s);
    assert(trim_end(s) == s);
}

} // verus!
