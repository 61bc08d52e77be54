//! Decimal numbers as probes print them: digit strings, their values, and
//! parsers with exact contracts.
use vstd::prelude::*;

verus! {

pub open spec fn is_digit(c: char) -> bool {
    '0' as u32 <= c as u32 && c as u32 <= '9' as u32
}

pub open spec fn all_digits(s: Seq<char>) -> bool {
    forall|i: int| 0 <= i < s.len() ==> is_digit(#[trigger] s[i])
}

pub open spec fn digit_value(c: char) -> nat {
    (c as u32 - '0' as u32) as nat
}

/// The number that a string of decimal digits writes, most significant first.
pub open spec fn digits_value(s: Seq<char>) -> nat
    decreases s.len(),
{
    if s.len() == 0 {
        0
    } else {
        digits_value(s.drop_last()) * 10 + digit_value(s.last())
    }
}

proof fn lemma_digits_push(s: Seq<char>, c: char)
    ensures
        digits_value(s.push(c)) == digits_value(s) * 10 + digit_value(c),
{
    assert(s.push(c).drop_last() =~= s);
}

/// `s` with the characters that end a line (`'\r'`, `'\n'`) taken off its end.
pub open spec fn trim_line_end(s: Seq<char>) -> Seq<char>
    decreases s.len(),
{
    if s.len() > 0 && (s.last() == '\r' || s.last() == '\n') {
        trim_line_end(s.drop_last())
    } else {
        s
    }
}

/// `s` without the characters that end a line at its end.
pub fn trim_line_end_str(s: &str) -> (r: &str)
    ensures
        r@ == trim_line_end(s@),
{
    let mut end: usize = s.unicode_len();
    assert(s@.take(end as int) =~= s@);
    while end > 0 && (s.get_char(end - 1) == '\r' || s.get_char(end - 1) == '\n')
        invariant
            end <= s@.len(),
            trim_line_end(s@) == trim_line_end(s@.take(end as int)),
        decreases end,
    {
        assert(s@.take(end as int).drop_last() =~= s@.take(end - 1));
        end = end - 1;
    }
    assert(s@.take(end as int) =~= s@.take(end as int));
    assert(trim_line_end(s@.take(end as int)) == s@.take(end as int));
    s.substring_char(0, end)
}

fn digit_of(c: char) -> (r: u64)
    requires
        is_digit(c),
    ensures
        r == digit_value(c),
        r < 10,
{
    (c as u32 - '0' as u32) as u64
}

fn char_is_digit(c: char) -> (r: bool)
    ensures
        r == is_digit(c),
{
    '0' as u32 <= c as u32 && c as u32 <= '9' as u32
}

/// A decimal number: `mantissa / 10^scale`, negated where `negative` holds.
/// `-0` and `0` are both zero; `2350` at scale 2 and `235` at scale 1 are the
/// same number written two ways.
#[derive(PartialEq, Eq, Structural, Clone, Copy, Debug)]
pub struct Decimal {
    pub negative: bool,
    pub mantissa: u64,
    pub scale: usize,
}

impl Decimal {
    /// Below zero.
    pub open spec fn spec_is_negative(&self) -> bool {
        self.negative && self.mantissa > 0
    }

    pub fn is_negative(&self) -> (r: bool)
        ensures
            r == self.spec_is_negative(),
    {
        self.negative && self.mantissa > 0
    }
}

/// Where a sign opens `t`, the one character it takes.
pub open spec fn sign_len(t: Seq<char>) -> int {
    if t.len() > 0 && (t[0] == '-' || t[0] == '+') {
        1
    } else {
        0
    }
}

/// `body` holds its decimal point at `p` and digits everywhere else.
pub open spec fn dot_at(body: Seq<char>, p: int) -> bool {
    &&& 0 <= p < body.len()
    &&& body[p] == '.'
    &&& all_digits(body.take(p))
    &&& all_digits(body.skip(p + 1))
}

/// The decimal number written by `digits` with a point before its last
/// `scale` digits, if there is at least one digit and the mantissa fits.
pub open spec fn decimal_from_digits(negative: bool, digits: Seq<char>, scale: nat) -> Option<Decimal> {
    if digits.len() > 0 && digits_value(digits) <= u64::MAX {
        Some(Decimal { negative, mantissa: digits_value(digits) as u64, scale: scale as usize })
    } else {
        None
    }
}

/// The number that `t` writes: an optional sign (`+` or `-`), then digits
/// with at most one decimal point among them, at least one digit in all.
pub open spec fn decimal_of(t: Seq<char>) -> Option<Decimal> {
    let body = t.skip(sign_len(t));
    let negative = t.len() > 0 && t[0] == '-';
    if all_digits(body) {
        decimal_from_digits(negative, body, 0)
    } else if exists|p: int| dot_at(body, p) {
        let p = choose|p: int| dot_at(body, p);
        decimal_from_digits(negative, body.take(p) + body.skip(p + 1), (body.len() - p - 1) as nat)
    } else {
        None
    }
}

/// The number that `s` writes, read as `decimal_of` says.
pub fn parse_decimal(s: &str) -> (r: Option<Decimal>)
    ensures
        r == decimal_of(s@),
{
    let n = s.unicode_len();
    let mut negative = false;
    let mut start: usize = 0;
    if n > 0 {
        let c = s.get_char(0);
        if c == '-' {
            negative = true;
            start = 1;
        } else if c == '+' {
            start = 1;
        }
    }
    let ghost t = s@;
    let ghost body = t.skip(start as int);
    assert(start == sign_len(t));
    assert(negative == (t.len() > 0 && t[0] == '-'));
    let mut i: usize = start;
    let mut mantissa: u64 = 0;
    let mut overflow = false;
    let mut dot: Option<usize> = None;
    let ghost mut digits: Seq<char> = Seq::empty();
    while i < n
        invariant
            n == t.len(),
            t == s@,
            body == t.skip(start as int),
            start == sign_len(t),
            negative == (t.len() > 0 && t[0] == '-'),
            start <= i <= n,
            match dot {
                None => digits == t.subrange(start as int, i as int) && all_digits(digits),
                Some(p) => start <= p < i && t[p as int] == '.' && all_digits(
                    t.subrange(start as int, p as int),
                ) && all_digits(t.subrange(p + 1, i as int)) && digits == t.subrange(
                    start as int,
                    p as int,
                ) + t.subrange(p + 1, i as int),
            },
            overflow ==> digits_value(digits) > u64::MAX,
            !overflow ==> mantissa == digits_value(digits),
        decreases n - i,
    {
        let c = s.get_char(i);
        if c == '.' {
            if dot.is_some() {
                proof {
                    lemma_no_decimal(t, i as int, dot);
                }
                return None;
            }
            dot = Some(i);
            assert(t.subrange(i + 1, i + 1) =~= Seq::<char>::empty());
            assert(digits + Seq::<char>::empty() =~= digits);
        } else if char_is_digit(c) {
            let d = digit_of(c);
            proof {
                lemma_digits_push(digits, c);
                match dot {
                    None => {
                        assert(t.subrange(start as int, i + 1) =~= digits.push(c));
                    },
                    Some(p) => {
                        assert(t.subrange(p + 1, i + 1) =~= t.subrange(p + 1, i as int).push(c));
                        assert(t.subrange(start as int, p as int) + t.subrange(p + 1, i + 1)
                            =~= digits.push(c));
                    },
                }
                digits = digits.push(c);
            }
            if !overflow {
                match mantissa.checked_mul(10) {
                    Some(m) => match m.checked_add(d) {
                        Some(v) => {
                            mantissa = v;
                        },
                        None => {
                            overflow = true;
                        },
                    },
                    None => {
                        overflow = true;
                    },
                }
            }
        } else {
            proof {
                lemma_no_decimal(t, i as int, dot);
            }
            return None;
        }
        i = i + 1;
    }
    match dot {
        None => {
            assert(body =~= t.subrange(start as int, n as int));
            if overflow || i == start {
                return None;
            }
            Some(Decimal { negative, mantissa, scale: 0 })
        },
        Some(p) => {
            let ghost q = p - start;
            proof {
                assert(body.take(q) =~= t.subrange(start as int, p as int));
                assert(body.skip(q + 1) =~= t.subrange(p + 1, n as int));
                assert(body[q] == t[p as int]);
                assert(dot_at(body, q));
                assert(!is_digit(body[q]));
                lemma_dot_unique(body, q);
            }
            if overflow || n - start == 1 {
                return None;
            }
            Some(Decimal { negative, mantissa, scale: n - p - 1 })
        },
    }
}

/// Only one place can hold the point.
proof fn lemma_dot_unique(body: Seq<char>, q: int)
    requires
        dot_at(body, q),
    ensures
        forall|p: int| dot_at(body, p) ==> p == q,
{
    assert forall|p: int| dot_at(body, p) implies p == q by {
        if p < q {
            assert(body.take(q)[p] == body[p]);
        } else if p > q {
            assert(body.skip(q + 1)[p - q - 1] == body[p]);
        }
    }
}

/// A second point, or a character that is neither a digit nor a point, at
/// position `i` leaves `t` without a number.
proof fn lemma_no_decimal(t: Seq<char>, i: int, dot: Option<usize>)
    requires
        sign_len(t) <= i < t.len(),
        !is_digit(t[i]),
        t[i] != '.' || dot is Some,
        match dot {
            None => true,
            Some(p) => sign_len(t) <= p < i && t[p as int] == '.',
        },
    ensures
        decimal_of(t) is None,
{
    let start = sign_len(t);
    let body = t.skip(start);
    let w = i - start;
    assert(body[w] == t[i]);
    assert(!all_digits(body));
    assert forall|p: int| !dot_at(body, p) by {
        if dot_at(body, p) {
            if p != w {
                if w < p {
                    assert(body.take(p)[w] == body[w]);
                } else {
                    assert(body.skip(p + 1)[w - p - 1] == body[w]);
                }
            } else {
                let pp = dot->0 - start;
                assert(body[pp] == '.');
                assert(body.take(p)[pp] == body[pp]);
            }
        }
    }
}


/// Where `t` opens with a `+`, the one character it takes.
pub open spec fn plus_len(t: Seq<char>) -> int {
    if t.len() > 0 && t[0] == '+' {
        1
    } else {
        0
    }
}

/// The `u16` that `t` writes: an optional `+`, then one or more digits whose
/// value is at most `u16::MAX`.
pub open spec fn u16_of(t: Seq<char>) -> Option<u16> {
    let d = t.skip(plus_len(t));
    if d.len() > 0 && all_digits(d) && digits_value(d) <= u16::MAX {
        Some(digits_value(d) as u16)
    } else {
        None
    }
}

/// The number that `s` writes, read as `u16_of` says.
pub fn parse_u16(s: &str) -> (r: Option<u16>)
    ensures
        r == u16_of(s@),
{
    let n = s.unicode_len();
    let mut start: usize = 0;
    if n > 0 && s.get_char(0) == '+' {
        start = 1;
    }
    let ghost t = s@;
    assert(start == plus_len(t));
    if start == n {
        assert(t.skip(start as int).len() == 0);
        return None;
    }
    let mut i: usize = start;
    let mut value: u64 = 0;
    let mut over = false;
    while i < n
        invariant
            n == t.len(),
            t == s@,
            start == plus_len(t),
            start <= i <= n,
            all_digits(t.subrange(start as int, i as int)),
            over ==> digits_value(t.subrange(start as int, i as int)) > u16::MAX,
            !over ==> value == digits_value(t.subrange(start as int, i as int)) && value <= u16::MAX,
        decreases n - i,
    {
        let c = s.get_char(i);
        if !char_is_digit(c) {
            assert(t.skip(start as int)[i - start] == c);
            return None;
        }
        let d = digit_of(c);
        proof {
            lemma_digits_push(t.subrange(start as int, i as int), c);
            assert(t.subrange(start as int, i + 1) =~= t.subrange(start as int, i as int).push(c));
        }
        if !over {
            value = value * 10 + d;
            if value > 65535 {
                over = true;
            }
        }
        i = i + 1;
    }
    assert(t.skip(start as int) =~= t.subrange(start as int, n as int));
    if over {
        return None;
    }
    Some(value as u16)
}


pub open spec fn digit_char(d: nat) -> char {
    seq!['0', '1', '2', '3', '4', '5', '6', '7', '8', '9'][d as int]
}

/// The decimal digits of `n`, most significant first, with no leading zero.
pub open spec fn digits_of(n: nat) -> Seq<char>
    decreases n,
{
    if n < 10 {
        seq![digit_char(n)]
    } else {
        digits_of(n / 10).push(digit_char(n % 10))
    }
}

fn digit_str(d: u64) -> (r: &'static str)
    requires
        d < 10,
    ensures
        r@ == seq![digit_char(d as nat)],
{
    match d {
        0 => { proof { reveal_strlit("0"); } "0" },
        1 => { proof { reveal_strlit("1"); } "1" },
        2 => { proof { reveal_strlit("2"); } "2" },
        3 => { proof { reveal_strlit("3"); } "3" },
        4 => { proof { reveal_strlit("4"); } "4" },
        5 => { proof { reveal_strlit("5"); } "5" },
        6 => { proof { reveal_strlit("6"); } "6" },
        7 => { proof { reveal_strlit("7"); } "7" },
        8 => { proof { reveal_strlit("8"); } "8" },
        _ => { proof { reveal_strlit("9"); } "9" },
    }
}

fn digits_text(n: u64) -> (r: String)
    ensures
        r@ == digits_of(n as nat),
    decreases n,
{
    if n < 10 {
        digit_str(n).to_owned()
    } else {
        let mut s = digits_text(n / 10);
        s.append(digit_str(n % 10));
        assert(digits_of(n as nat) =~= digits_of((n / 10) as nat) + seq![digit_char((n % 10) as nat)]);
        s
    }
}

/// `d` written out: a `-` where it is below zero, the digits of the mantissa
/// padded with zeros to at least `scale + 1` of them, and a point before the
/// last `scale` digits where `scale` is not zero.
pub open spec fn decimal_text(d: Decimal) -> Seq<char> {
    let digits = digits_of(d.mantissa as nat);
    let padded = if digits.len() <= d.scale {
        Seq::new((d.scale + 1 - digits.len()) as nat, |i: int| '0') + digits
    } else {
        digits
    };
    let body = if d.scale == 0 {
        padded
    } else {
        padded.take(padded.len() - d.scale) + seq!['.'] + padded.skip(padded.len() - d.scale)
    };
    if d.spec_is_negative() {
        seq!['-'] + body
    } else {
        body
    }
}

pub open spec fn pow10(n: nat) -> nat
    decreases n,
{
    if n == 0 {
        1
    } else {
        10 * pow10((n - 1) as nat)
    }
}

pub proof fn lemma_pow10_mono(a: nat, b: nat)
    requires
        a <= b,
    ensures
        pow10(a) <= pow10(b),
    decreases b,
{
    if a < b {
        lemma_pow10_mono(a, (b - 1) as nat);
    }
}

/// Whole milliseconds in `d` seconds, rounded down: zero where `d` is below
/// zero, the largest `u64` where the count does not fit.
pub open spec fn millis_of(d: Decimal) -> u64 {
    if d.spec_is_negative() {
        0
    } else if (d.mantissa as nat) * 1000 / pow10(d.scale as nat) > u64::MAX {
        u64::MAX
    } else {
        ((d.mantissa as nat) * 1000 / pow10(d.scale as nat)) as u64
    }
}

impl Decimal {
    /// The number written out as `decimal_text` says.
    pub fn to_text(&self) -> (r: String)
        requires
            self.scale < usize::MAX,
        ensures
            r@ == decimal_text(*self),
    {
        let digits = digits_text(self.mantissa);
        let len = digits.unicode_len();
        let mut padded = String::new();
        if len <= self.scale {
            let zeros = self.scale + 1 - len;
            let mut k: usize = 0;
            while k < zeros
                invariant
                    k <= zeros,
                    padded@ == Seq::new(k as nat, |i: int| '0'),
                decreases zeros - k,
            {
                proof { reveal_strlit("0"); }
                padded.append("0");
                k = k + 1;
                assert(padded@ =~= Seq::new(k as nat, |i: int| '0'));
            }
        }
        padded.append(digits.as_str());
        let total = padded.unicode_len();
        let body = if self.scale == 0 {
            padded
        } else {
            let mut b = padded.substring_char(0, total - self.scale).to_owned();
            proof { reveal_strlit("."); }
            b.append(".");
            b.append(padded.substring_char(total - self.scale, total));
            b
        };
        if self.is_negative() {
            proof { reveal_strlit("-"); }
            let mut s = "-".to_owned();
            s.append(body.as_str());
            s
        } else {
            body
        }
    }

    /// Whole milliseconds in this many seconds, as `millis_of` says.
    pub fn millis(&self) -> (r: u64)
        ensures
            r == millis_of(*self),
    {
        if self.is_negative() {
            return 0;
        }
        let num: u128 = self.mantissa as u128 * 1000;
        if self.scale > 22 {
            proof {
                reveal_with_fuel(pow10, 24);
                lemma_pow10_mono(23, self.scale as nat);
                assert(pow10(23) == 100000000000000000000000);
                vstd::arithmetic::div_mod::lemma_basic_div(num as int, pow10(self.scale as nat) as int);
            }
            return 0;
        }
        let mut p: u128 = 1;
        let mut k: usize = 0;
        while k < self.scale
            invariant
                k <= self.scale <= 22,
                p == pow10(k as nat),
            decreases self.scale - k,
        {
            proof {
                reveal_with_fuel(pow10, 23);
                lemma_pow10_mono(k as nat, 21);
                assert(pow10(21) == 1000000000000000000000);
            }
            p = p * 10;
            k = k + 1;
        }
        proof {
            lemma_pow10_mono(0, k as nat);
        }
        let m = num / p;
        if m > u64::MAX as u128 {
            u64::MAX
        } else {
            m as u64
        }
    }
}

} // verus!
