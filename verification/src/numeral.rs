//! Decimal numerals: reading and writing whole numbers and plain decimal fractions.
use vstd::prelude::*;
use vstd::arithmetic::power;
use crate::text;

verus! {

/// Every character of `s` is one of `0` to `9`.
pub open spec fn all_digits(s: Seq<char>) -> bool {
    forall|i: int| 0 <= i < s.len() ==> text::is_digit(#[trigger] s[i])
}

/// The number that a row of digits stands for.
pub open spec fn digits_value(s: Seq<char>) -> nat
    decreases s.len(),
{
    if s.len() == 0 {
        0
    } else {
        digits_value(s.drop_last()) * 10 + ((s.last() as u32) - ('0' as u32)) as nat
    }
}

/// The whole number that `s` stands for, if it is a numeral of one that is at most `max`:
/// at least one digit, with or without `+` in front, and nothing else.
pub open spec fn whole_number(s: Seq<char>, max: nat) -> Option<nat> {
    let d = if s.len() > 0 && s[0] == '+' {
        s.skip(1)
    } else {
        s
    };
    if d.len() > 0 && all_digits(d) && digits_value(d) <= max {
        Some(digits_value(d))
    } else {
        None
    }
}

proof fn lemma_value_grows(s: Seq<char>, i: int, j: int)
    requires
        0 <= i <= j <= s.len(),
        all_digits(s.take(j)),
    ensures
        digits_value(s.take(i)) <= digits_value(s.take(j)),
    decreases j,
{
    if i < j {
        assert(s.take(j).drop_last() == s.take(j - 1));
        assert(all_digits(s.take(j - 1))) by {
            assert forall|k: int| 0 <= k < s.take(j - 1).len() implies text::is_digit(
                #[trigger] s.take(j - 1)[k],
            ) by {
                assert(s.take(j)[k] == s.take(j - 1)[k]);
            }
        }
        lemma_value_grows(s, i, j - 1);
    }
}

/// The number that the digits from position `from` on stand for, if there are any, there
/// is nothing else and the number is at most `max`.
fn read_digits(cs: &[char], from: usize, max: u64) -> (r: Option<u64>)
    requires
        from <= cs.len(),
    ensures
        ({
            let d = cs@.skip(from as int);
            match r {
                Some(v) => d.len() > 0 && all_digits(d) && v == digits_value(d) && v <= max,
                None => d.len() == 0 || !all_digits(d) || digits_value(d) > max,
            }
        }),
{
    let ghost d = cs@.skip(from as int);
    if from == cs.len() {
        return None;
    }
    let mut value: u64 = 0;
    let mut i: usize = from;
    assert(d.take(0) =~= Seq::empty());
    while i < cs.len()
        invariant
            from <= i <= cs.len(),
            d == cs@.skip(from as int),
            all_digits(d.take(i - from)),
            value == digits_value(d.take(i - from)),
            value <= max,
        decreases cs.len() - i,
    {
        let c = cs[i];
        if c < '0' || c > '9' {
            assert(!text::is_digit(d[i - from]));
            return None;
        }
        let x: u64 = (c as u8 - 48u8) as u64;
        proof {
            let t = d.take(i - from + 1);
            assert(t.drop_last() == d.take(i - from));
            assert(t.last() == c);
            assert(digits_value(t) == value * 10 + x);
            assert forall|k: int| 0 <= k < t.len() implies text::is_digit(#[trigger] t[k]) by {
                if k < i - from {
                    assert(d.take(i - from)[k] == t[k]);
                }
            }
            if all_digits(d) {
                assert(d.take(d.len() as int) == d);
                lemma_value_grows(d, i - from + 1, d.len() as int);
            }
        }
        if x > max || value > max / 10 || value * 10 > max - x {
            assert(value * 10 + x > max);
            return None;
        }
        value = value * 10 + x;
        i = i + 1;
    }
    assert(d.take(i - from) == d);
    Some(value)
}

/// Reads a whole number of at most `max`.
pub fn read_whole(s: &str, max: u64) -> (r: Option<u64>)
    ensures
        match r {
            Some(v) => whole_number(s@, max as nat) == Some(v as nat),
            None => whole_number(s@, max as nat) is None,
        },
{
    let cs = text::chars_of(s);
    if cs.len() > 0 && cs[0] == '+' {
        read_digits(&cs, 1, max)
    } else {
        assert(s@.skip(0) == s@);
        read_digits(&cs, 0, max)
    }
}

/// The shortest row of digits that stands for `n`.
pub open spec fn decimal(n: nat) -> Seq<char>
    decreases n,
{
    if n < 10 {
        seq![(n + '0' as u32) as char]
    } else {
        decimal(n / 10).push((n % 10 + '0' as u32) as char)
    }
}

/// Writes `n` in decimal digits.
pub fn number_text(n: u64) -> (r: String)
    ensures
        r@ == decimal(n as nat),
    decreases n,
{
    let d: u8 = (n % 10) as u8;
    let c: char = (48u8 + d) as char;
    if n < 10 {
        let mut out = String::new();
        out.push(c);
        assert(out@ == seq![c]);
        out
    } else {
        let mut out = number_text(n / 10);
        out.push(c);
        out
    }
}

/// A number written with a decimal point: `mantissa` divided by ten to the power `scale`.
#[derive(Clone, Copy, Debug, PartialEq, Eq, Structural)]
pub struct Decimal {
    pub mantissa: u64,
    pub scale: u8,
}

/// The most digits that a plain decimal numeral may have.
pub const MAX_DIGITS: usize = 18;

/// The number that a plain decimal numeral stands for, as a mantissa and the number of
/// digits behind the point: one to `MAX_DIGITS` digits with at most one point among,
/// before or behind them.
pub open spec fn plain_decimal(s: Seq<char>) -> Option<(nat, nat)> {
    let head = text::before_first(s, seq!['.']);
    let tail = match text::after_first(s, seq!['.']) {
        Some(t) => t,
        None => Seq::empty(),
    };
    let digits = head + tail;
    if all_digits(digits) && 0 < digits.len() <= MAX_DIGITS {
        Some((digits_value(digits), tail.len()))
    } else {
        None
    }
}

impl Decimal {
    /// The mantissa and the number of digits behind the point.
    pub open spec fn parts(self) -> (nat, nat) {
        (self.mantissa as nat, self.scale as nat)
    }

    /// The numeral has few enough digits for the arithmetic on it.
    pub open spec fn well_formed(self) -> bool {
        self.scale <= MAX_DIGITS && self.mantissa < power::pow(10, MAX_DIGITS as nat)
    }
}

proof fn lemma_value_bound(s: Seq<char>)
    requires
        all_digits(s),
    ensures
        digits_value(s) < power::pow(10, s.len()),
    decreases s.len(),
{
    reveal(power::pow);
    if s.len() > 0 {
        assert(all_digits(s.drop_last())) by {
            assert forall|k: int| 0 <= k < s.drop_last().len() implies text::is_digit(
                #[trigger] s.drop_last()[k],
            ) by {
                assert(s[k] == s.drop_last()[k]);
            }
        }
        lemma_value_bound(s.drop_last());
        assert(text::is_digit(s[s.len() - 1]));
        assert(power::pow(10, s.len()) == 10 * power::pow(10, (s.len() - 1) as nat));
    }
}

pub proof fn lemma_pow10_limit()
    ensures
        power::pow(10, MAX_DIGITS as nat) == 1_000_000_000_000_000_000,
{
    reveal(power::pow);
    assert(power::pow(10, 18) == 1_000_000_000_000_000_000) by {
        reveal_with_fuel(power::pow, 19);
    }
}

/// Reads a plain decimal numeral.
pub fn read_decimal(s: &str) -> (r: Option<Decimal>)
    ensures
        match r {
            Some(d) => plain_decimal(s@) == Some(d.parts()) && d.well_formed(),
            None => plain_decimal(s@) is None,
        },
{
    let set = ['.'];
    assert(set@ == seq!['.']);
    let head = text::head_before(s, &set);
    let tail = match text::rest_after(s, &set) {
        Some(t) => t,
        None => "",
    };
    proof {
        reveal_strlit("");
        assert(tail@ == match text::after_first(s@, seq!['.']) {
            Some(t) => t,
            None => Seq::empty(),
        });
    }
    let mut digits = head.to_string();
    digits.append(tail);
    let cs = text::chars_of(&digits);
    if cs.len() > MAX_DIGITS {
        return None;
    }
    let scale: usize = tail.unicode_len();
    assert(cs@.skip(0) == cs@);
    proof {
        lemma_pow10_limit();
        if all_digits(cs@) {
            lemma_value_bound(cs@);
            power::lemma_pow_increases(10, cs@.len(), MAX_DIGITS as nat);
        }
    }
    match read_digits(&cs, 0, u64::MAX) {
        Some(mantissa) => Some(Decimal { mantissa, scale: scale as u8 }),
        None => None,
    }
}

/// Ten to the power `n`.
fn power_of_ten(n: u8) -> (r: u64)
    requires
        n <= MAX_DIGITS,
    ensures
        r == power::pow(10, n as nat),
        r > 0,
{
    proof {
        lemma_pow10_limit();
        reveal(power::pow);
    }
    let mut out: u64 = 1;
    let mut i: u8 = 0;
    while i < n
        invariant
            i <= n <= MAX_DIGITS,
            out == power::pow(10, i as nat),
            out > 0,
            power::pow(10, MAX_DIGITS as nat) == 1_000_000_000_000_000_000,
        decreases n - i,
    {
        proof {
            reveal(power::pow);
            assert(power::pow(10, (i + 1) as nat) == 10 * power::pow(10, i as nat));
            power::lemma_pow_increases(10, (i + 1) as nat, MAX_DIGITS as nat);
        }
        out = out * 10;
        i = i + 1;
    }
    out
}

impl Decimal {
    /// The number without what stands behind the point.
    pub fn whole(&self) -> (r: u64)
        requires
            self.well_formed(),
        ensures
            r == self.mantissa as int / power::pow(10, self.scale as nat),
    {
        self.mantissa / power_of_ten(self.scale)
    }

    /// Compares this number, taken as billions, with `millions` millions: neither is more
    /// than twice the other.
    pub fn within_factor_two(&self, millions: u64) -> (r: bool)
        requires
            self.well_formed(),
        ensures
            r == within_factor_two(self.parts(), millions as nat),
    {
        proof {
            lemma_pow10_limit();
            power::lemma_pow_increases(10, self.scale as nat, MAX_DIGITS as nat);
        }
        let tag: u128 = self.mantissa as u128 * 1000;
        let p: u64 = power_of_ten(self.scale);
        assert(0 <= millions * p <= 0x1_0000_0000_0000_0000 * 0x1_0000_0000_0000_0000)
            by (nonlinear_arith)
            requires
                0 <= millions < 0x1_0000_0000_0000_0000,
                0 <= p < 1_000_000_000_000_000_001,
        ;
        assert(millions * p < 0x1_0000_0000_0000_0000 * 1_000_000_000_000_000_001) by (nonlinear_arith)
            requires
                0 <= millions < 0x1_0000_0000_0000_0000,
                0 <= p < 1_000_000_000_000_000_001,
        ;
        let catalog: u128 = millions as u128 * p as u128;
        catalog <= 2 * tag && tag <= 2 * catalog
    }
}

/// The decimal `d`, taken as billions, and `millions` millions differ by no more than a
/// factor of two.
pub open spec fn within_factor_two(d: (nat, nat), millions: nat) -> bool {
    let tag = d.0 * 1000;
    let catalog = millions * power::pow(10, d.1);
    catalog <= 2 * tag && tag <= 2 * catalog
}

/// The hexadecimal digit of a number below sixteen.
pub open spec fn hex_digit(n: nat) -> char {
    if n < 10 {
        (0x30 + n) as char
    } else {
        (0x57 + n) as char
    }
}

/// The hexadecimal numeral of a number, with small letters.
pub open spec fn hexadecimal(n: nat) -> Seq<char>
    decreases n,
{
    if n < 16 {
        seq![hex_digit(n)]
    } else {
        hexadecimal(n / 16).push(hex_digit(n % 16))
    }
}

/// The hexadecimal numeral of a number, with small letters.
pub fn hex_text(n: u128) -> (r: String)
    ensures
        r@ == hexadecimal(n as nat),
    decreases n,
{
    let d: u8 = (n % 16) as u8;
    let c: char = if d < 10 {
        (0x30 + d) as char
    } else {
        (0x57 + d) as char
    };
    let mut out = if n < 16 {
        String::new()
    } else {
        hex_text(n / 16)
    };
    out.push(c);
    assert(n < 16 ==> out@ =~= seq![c]);
    out
}

// ---------------------------------------------------------------------------
// Laws
// ---------------------------------------------------------------------------

/// A number that is written is read back as itself: its numeral has digits only, none of them
/// a zero in front of others, and stands for the number.
pub proof fn law_numerals_are_read_back(n: nat, max: nat)
    ensures
        decimal(n).len() > 0,
        all_digits(decimal(n)),
        digits_value(decimal(n)) == n,
        n > 0 ==> decimal(n)[0] != '0',
        n <= max ==> whole_number(decimal(n), max) == Some(n),
        n > max ==> whole_number(decimal(n), max) is None,
    decreases n,
{
    let s = decimal(n);
    if n < 10 {
        assert(s.len() == 1 && s[0] == (n + '0' as u32) as char);
        assert(s.drop_last() =~= Seq::empty());
        assert(digits_value(s.drop_last()) == 0);
        assert(s.last() as u32 == n + 48);
    } else {
        law_numerals_are_read_back(n / 10, max);
        let front = decimal(n / 10);
        assert(s.drop_last() =~= front);
        assert(s.last() as u32 == n % 10 + 48);
        assert forall|i: int| 0 <= i < s.len() implies text::is_digit(#[trigger] s[i]) by {
            if i < front.len() {
                assert(s[i] == front[i]);
                assert(text::is_digit(front[i]));
            }
        }
        assert(s[0] == front[0]);
    }
    assert(text::is_digit(s[0]));
}

/// What is read as a whole number has a digit and nothing but digits, with or without a plus in
/// front.
pub proof fn law_whole_numbers_are_digits(s: Seq<char>, max: nat)
    ensures
        whole_number(s, max) matches Some(n) ==> n <= max && s.len() > 0 && (all_digits(s) || (s[0]
            == '+' && s.len() > 1 && all_digits(s.skip(1)))),
        s.len() > 0 && all_digits(s) && digits_value(s) <= max ==> whole_number(s, max) == Some(
            digits_value(s),
        ),
        s.len() > 0 && all_digits(s) && digits_value(s) <= max ==> whole_number(seq!['+'] + s, max)
            == Some(digits_value(s)),
        whole_number(Seq::empty(), max) is None,
{
    if s.len() > 0 && all_digits(s) {
        assert(text::is_digit(s[0]));
    }
    assert((seq!['+'] + s).skip(1) =~= s);
}

/// A number with a point is the number of its digits, with as many behind the point as stand
/// there.
pub proof fn law_points_are_placed(head: Seq<char>, tail: Seq<char>)
    requires
        all_digits(head),
        all_digits(tail),
        0 < head.len() + tail.len() <= MAX_DIGITS,
    ensures
        plain_decimal(head + seq!['.'] + tail) == Some((digits_value(head + tail), tail.len())),
        head.len() > 0 ==> plain_decimal(head) == Some((digits_value(head), 0nat)),
{
    let s = head + seq!['.'] + tail;
    assert forall|k: int| 0 <= k < head.len() implies #[trigger] s[k] != '.' by {
        assert(s[k] == head[k]);
        assert(text::is_digit(head[k]));
    }
    lemma_point_found(s, head.len() as int, 0);
    assert(s.take(head.len() as int) =~= head);
    assert(s.skip(head.len() as int + 1) =~= tail);
    assert forall|i: int| 0 <= i < (head + tail).len() implies text::is_digit(
        #[trigger] (head + tail)[i],
    ) by {
        if i < head.len() {
            assert(text::is_digit(head[i]));
        } else {
            assert(text::is_digit(tail[i - head.len()]));
        }
    }
    if head.len() > 0 {
        lemma_no_point(head, 0);
        assert(head + Seq::<char>::empty() =~= head);
    }
}

proof fn lemma_point_found(s: Seq<char>, at: int, i: int)
    requires
        0 <= i <= at < s.len(),
        s[at] == '.',
        forall|k: int| i <= k < at ==> #[trigger] s[k] != '.',
    ensures
        text::find_any_from(s, seq!['.'], i) == Some(at),
    decreases at - i,
{
    assert(seq!['.'][0] == '.');
    if i < at {
        assert(!seq!['.'].contains(s[i]));
        lemma_point_found(s, at, i + 1);
    } else {
        assert(seq!['.'].contains(s[i]));
    }
}

proof fn lemma_no_point(s: Seq<char>, i: int)
    requires
        0 <= i,
        all_digits(s),
    ensures
        text::find_any_from(s, seq!['.'], i) is None,
    decreases s.len() - i,
{
    if i < s.len() {
        assert(text::is_digit(s[i]));
        assert(!seq!['.'].contains(s[i]));
        lemma_no_point(s, i + 1);
    }
}

/// A number of billions and one of millions are alike where neither is more than twice the
/// other.
pub proof fn law_alike_within_a_factor_of_two(d: (nat, nat), millions: nat)
    ensures
        ({
            let a = d.0 * 1000;
            let b = millions * power::pow(10, d.1);
            &&& a == b ==> within_factor_two(d, millions)
            &&& a > 2 * b || b > 2 * a ==> !within_factor_two(d, millions)
            &&& a <= 2 * b && b <= 2 * a ==> within_factor_two(d, millions)
        }),
{
    let b = millions * power::pow(10, d.1);
    power::lemma_pow_positive(10, d.1);
    assert(b >= 0) by (nonlinear_arith)
        requires
            millions >= 0,
            power::pow(10, d.1) > 0,
            b == millions * power::pow(10, d.1),
    ;
}

/// A hexadecimal numeral has a digit for each sixteenth part of the number: the digits of what
/// it is divided by sixteen, and the one of what is left.
pub proof fn law_hexadecimal_digits(n: nat, d: nat)
    requires
        d < 16,
    ensures
        n > 0 ==> hexadecimal(16 * n + d) == hexadecimal(n).push(hex_digit(d)),
        hexadecimal(d) == seq![hex_digit(d)],
        d < 10 ==> hex_digit(d) as u32 == '0' as u32 + d,
        d >= 10 ==> hex_digit(d) as u32 == 'a' as u32 + (d - 10),
{
}

} // verus!
