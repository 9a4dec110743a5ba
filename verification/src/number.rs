//! Numbers in text: decimal and hexadecimal digits, written and read.

use vstd::prelude::*;

use crate::text::chars_of;

verus! {

/// The character of a decimal digit.
pub open spec fn digit(d: nat) -> char {
    ('0' as nat + d) as char
}

/// The decimal digits of `n`, without leading zeros.
pub open spec fn decimal(n: nat) -> Seq<char>
    decreases n,
{
    if n < 10 {
        seq![digit(n)]
    } else {
        decimal(n / 10).push(digit(n % 10))
    }
}

/// `v` in decimal, with a minus sign in front if it is negative.
pub open spec fn signed_decimal(v: int) -> Seq<char> {
    if v < 0 {
        seq!['-'] + decimal((-v) as nat)
    } else {
        decimal(v as nat)
    }
}

/// The whole number nearest to `num / den`, where neither is negative. Of two that
/// are as near it is the larger.
pub open spec fn nearest(num: int, den: int) -> int {
    (2 * num + den) / (2 * den)
}

/// How far `v` is from zero.
pub open spec fn magnitude(v: int) -> int {
    if v < 0 {
        -v
    } else {
        v
    }
}

/// `t` ten-thousandths, with four decimals.
pub open spec fn with_four_decimals(t: nat) -> Seq<char> {
    decimal(t / 10000) + seq![
        '.',
        digit(t / 1000 % 10),
        digit(t / 100 % 10),
        digit(t / 10 % 10),
        digit(t % 10),
    ]
}

/// `num / den` ten-thousandths, rounded, with four decimals and with a minus sign
/// in front if it is negative.
pub open spec fn four_decimals(num: int, den: int) -> Seq<char> {
    let t = with_four_decimals(nearest(magnitude(num), den) as nat);
    if num < 0 {
        seq!['-'] + t
    } else {
        t
    }
}

/// The lower-case character of a hexadecimal digit.
pub open spec fn hex_digit(d: nat) -> char {
    if d < 10 {
        digit(d)
    } else {
        ('a' as nat + (d - 10)) as char
    }
}

/// The two hexadecimal digits of a byte.
pub open spec fn hex_byte(b: u8) -> Seq<char> {
    seq![hex_digit((b / 16) as nat), hex_digit((b % 16) as nat)]
}

/// What a hexadecimal digit of either case stands for.
pub open spec fn hex_value(c: char) -> Option<nat> {
    if '0' <= c <= '9' {
        Some((c as nat - '0' as nat) as nat)
    } else if 'a' <= c <= 'f' {
        Some((c as nat - 'a' as nat + 10) as nat)
    } else if 'A' <= c <= 'F' {
        Some((c as nat - 'A' as nat + 10) as nat)
    } else {
        None
    }
}

/// The byte that two hexadecimal digits stand for.
pub open spec fn hex_pair_value(a: char, b: char) -> Option<u8> {
    match (hex_value(a), hex_value(b)) {
        (Some(x), Some(y)) => Some((16 * x + y) as u8),
        _ => None,
    }
}

/// Why a text is not an `i32`.
#[derive(Debug, Clone, Copy, PartialEq, Eq, Structural)]
pub enum IntFault {
    Empty,
    InvalidDigit,
    TooLarge,
    TooSmall,
}

/// Reads the digits of `s` behind those that made `acc`, away from zero: upward,
/// or downward where `minus` holds. The first fault met is the one reported.
pub open spec fn scan_digits(s: Seq<char>, acc: int, minus: bool) -> Result<int, IntFault>
    decreases s.len(),
{
    if s.len() == 0 {
        Ok(acc)
    } else if !('0' <= s[0] <= '9') {
        Err(IntFault::InvalidDigit)
    } else {
        let d = s[0] as int - '0' as int;
        let next = if minus {
            acc * 10 - d
        } else {
            acc * 10 + d
        };
        if next > i32::MAX {
            Err(IntFault::TooLarge)
        } else if next < i32::MIN {
            Err(IntFault::TooSmall)
        } else {
            scan_digits(s.skip(1), next, minus)
        }
    }
}

/// The `i32` that `s` is the decimal text of: an optional sign, then digits.
pub open spec fn int_of(s: Seq<char>) -> Result<int, IntFault> {
    if s.len() == 0 {
        Err(IntFault::Empty)
    } else if s[0] == '+' || s[0] == '-' {
        if s.len() == 1 {
            Err(IntFault::InvalidDigit)
        } else {
            scan_digits(s.skip(1), 0, s[0] == '-')
        }
    } else {
        scan_digits(s, 0, false)
    }
}

/// The sentence that explains a fault.
pub open spec fn fault_text(fault: IntFault) -> Seq<char> {
    match fault {
        IntFault::Empty => "cannot parse integer from empty string"@,
        IntFault::InvalidDigit => "invalid digit found in string"@,
        IntFault::TooLarge => "number too large to fit in target type"@,
        IntFault::TooSmall => "number too small to fit in target type"@,
    }
}

impl IntFault {
    /// The sentence that explains the fault.
    pub fn message(&self) -> (r: &'static str)
        ensures
            r@ == fault_text(*self),
    {
        match self {
            IntFault::Empty => "cannot parse integer from empty string",
            IntFault::InvalidDigit => "invalid digit found in string",
            IntFault::TooLarge => "number too large to fit in target type",
            IntFault::TooSmall => "number too small to fit in target type",
        }
    }
}

fn digit_char(d: u8) -> (r: char)
    requires
        d < 10,
    ensures
        r == digit(d as nat),
{
    (48 + d) as char
}

fn hex_char(d: u8) -> (r: char)
    requires
        d < 16,
    ensures
        r == hex_digit(d as nat),
{
    if d < 10 {
        digit_char(d)
    } else {
        (97 + (d - 10)) as char
    }
}

/// Appends `n` in decimal.
pub fn push_decimal(out: &mut String, n: u128)
    ensures
        final(out)@ == old(out)@ + decimal(n as nat),
    decreases n,
{
    let ghost before = out@;
    if n >= 10 {
        push_decimal(out, n / 10);
    }
    out.push(digit_char((n % 10) as u8));
    assert(out@ =~= before + decimal(n as nat));
}

/// Appends `v` in decimal, with its sign if it is negative.
pub fn push_signed(out: &mut String, v: i64)
    ensures
        final(out)@ == old(out)@ + signed_decimal(v as int),
{
    let ghost before = out@;
    let wide: i128 = v as i128;
    if wide < 0 {
        out.push('-');
        push_decimal(out, (-wide) as u128);
        assert(out@ =~= before + signed_decimal(v as int));
    } else {
        push_decimal(out, wide as u128);
    }
}

/// Appends `num / den` ten-thousandths, rounded, with four decimals.
pub fn push_four_decimals(out: &mut String, num: i128, den: u128)
    requires
        0 < den,
        2 * magnitude(num as int) + den <= u128::MAX,
        2 * den <= u128::MAX,
    ensures
        final(out)@ == old(out)@ + four_decimals(num as int, den as int),
{
    let ghost before = out@;
    let size: u128 = if num < 0 {
        out.push('-');
        (-(num + 1)) as u128 + 1
    } else {
        num as u128
    };
    let t: u128 = (2 * size + den) / (2 * den);
    push_decimal(out, t / 10000);
    out.push('.');
    out.push(digit_char((t / 1000 % 10) as u8));
    out.push(digit_char((t / 100 % 10) as u8));
    out.push(digit_char((t / 10 % 10) as u8));
    out.push(digit_char((t % 10) as u8));
    assert(out@ =~= before + four_decimals(num as int, den as int));
}

/// Rounding goes to the nearest: no further than half away.
pub proof fn law_nearest_is_near(num: int, den: int)
    requires
        0 <= num,
        0 < den,
    ensures
        0 <= nearest(num, den),
        -den <= 2 * (nearest(num, den) * den - num) <= den,
{
    let a = 2 * num + den;
    let q = a / (2 * den);
    vstd::arithmetic::div_mod::lemma_fundamental_div_mod(a, 2 * den);
    vstd::arithmetic::div_mod::lemma_mod_bound(a, 2 * den);
    assert(2 * den * q == 2 * (q * den)) by (nonlinear_arith);
    vstd::arithmetic::div_mod::lemma_div_pos_is_pos(a, 2 * den);
}

/// Appends the two hexadecimal digits of `b`.
pub fn push_hex(out: &mut String, b: u8)
    ensures
        final(out)@ == old(out)@ + hex_byte(b),
{
    let ghost before = out@;
    out.push(hex_char(b / 16));
    out.push(hex_char(b % 16));
    assert(out@ =~= before + hex_byte(b));
}

fn hex_digit_value(c: char) -> (r: Option<u8>)
    ensures
        match r {
            Some(v) => hex_value(c) == Some(v as nat) && v < 16,
            None => hex_value(c) is None,
        },
{
    if '0' <= c && c <= '9' {
        Some((c as u32 - '0' as u32) as u8)
    } else if 'a' <= c && c <= 'f' {
        Some((c as u32 - 'a' as u32 + 10) as u8)
    } else if 'A' <= c && c <= 'F' {
        Some((c as u32 - 'A' as u32 + 10) as u8)
    } else {
        None
    }
}

/// Reads two hexadecimal digits as a byte.
pub fn hex_pair(a: char, b: char) -> (r: Option<u8>)
    ensures
        r == hex_pair_value(a, b),
{
    match (hex_digit_value(a), hex_digit_value(b)) {
        (Some(x), Some(y)) => Some(16 * x + y),
        _ => None,
    }
}

/// Reads `s` as a decimal `i32`.
pub fn parse_i32(s: &str) -> (r: Result<i32, IntFault>)
    ensures
        match r {
            Ok(v) => int_of(s@) == Ok::<int, IntFault>(v as int),
            Err(fault) => int_of(s@) == Err::<int, IntFault>(fault),
        },
{
    let chars = chars_of(s);
    let n: usize = chars.len();
    if n == 0 {
        return Err(IntFault::Empty);
    }
    let signed: bool = chars[0] == '+' || chars[0] == '-';
    if signed && n == 1 {
        return Err(IntFault::InvalidDigit);
    }
    let minus: bool = chars[0] == '-';
    let mut i: usize = if signed {
        1
    } else {
        0
    };
    let mut acc: i64 = 0;
    assert(chars@.skip(0) =~= chars@);
    while i < n
        invariant
            i <= n == chars@.len(),
            chars@ == s@,
            i32::MIN <= acc <= i32::MAX,
            int_of(chars@) == scan_digits(chars@.skip(i as int), acc as int, minus),
        decreases n - i,
    {
        let c = chars[i];
        if !('0' <= c && c <= '9') {
            return Err(IntFault::InvalidDigit);
        }
        let d: i64 = (c as u32 - '0' as u32) as i64;
        let next: i64 = if minus {
            acc * 10 - d
        } else {
            acc * 10 + d
        };
        if next > i32::MAX as i64 {
            return Err(IntFault::TooLarge);
        }
        if next < i32::MIN as i64 {
            return Err(IntFault::TooSmall);
        }
        assert(chars@.skip(i as int).skip(1) =~= chars@.skip(i + 1));
        acc = next;
        i = i + 1;
    }
    Ok(acc as i32)
}

/// A hexadecimal digit in upper case; any other character is kept.
pub open spec fn upper_hex(c: char) -> char {
    if 'a' <= c <= 'f' {
        ('A' as nat + (c as nat - 'a' as nat)) as char
    } else {
        c
    }
}

/// The case of a hexadecimal digit does not matter.
pub proof fn law_hex_case_is_free(c: char)
    ensures
        hex_value(upper_hex(c)) == hex_value(c),
{
}

/// Writing a byte in hexadecimal and reading the two digits back gives the byte.
pub proof fn law_hex_round_trip(b: u8)
    ensures
        hex_byte(b).len() == 2,
        hex_pair_value(hex_byte(b)[0], hex_byte(b)[1]) == Some(b),
{
}

/// No two numbers have the same decimal digits.
pub proof fn law_decimal_is_unique(a: nat, b: nat)
    requires
        decimal(a) == decimal(b),
    ensures
        a == b,
    decreases a,
{
    lemma_decimal_len(a);
    lemma_decimal_len(b);
    assert(decimal(a).last() == digit(a % 10) && decimal(b).last() == digit(b % 10));
    assert(digit(a % 10) as nat == 48 + a % 10 && digit(b % 10) as nat == 48 + b % 10);
    assert(a % 10 == b % 10);
    if a >= 10 && b >= 10 {
        assert(decimal(a).drop_last() =~= decimal(a / 10));
        assert(decimal(b).drop_last() =~= decimal(b / 10));
        law_decimal_is_unique(a / 10, b / 10);
    }
}

proof fn lemma_decimal_len(n: nat)
    ensures
        decimal(n).len() >= 1,
        n >= 10 ==> decimal(n).len() >= 2,
    decreases n,
{
    if n >= 10 {
        lemma_decimal_len(n / 10);
    }
}

/// Reading one digit more.
proof fn lemma_scan_push(s: Seq<char>, c: char, acc: int, minus: bool)
    ensures
        scan_digits(s.push(c), acc, minus) == match scan_digits(s, acc, minus) {
            Err(fault) => Err(fault),
            Ok(v) => scan_digits(seq![c], v, minus),
        },
    decreases s.len(),
{
    let t = s.push(c);
    if s.len() == 0 {
        assert(t =~= seq![c]);
    } else {
        assert(t[0] == s[0]);
        assert(t.skip(1) =~= s.skip(1).push(c));
        let d = s[0] as int - '0' as int;
        let next = if minus {
            acc * 10 - d
        } else {
            acc * 10 + d
        };
        lemma_scan_push(s.skip(1), c, next, minus);
    }
}

proof fn lemma_scan_decimal(n: nat, minus: bool)
    requires
        n <= if minus {
            0x8000_0000nat
        } else {
            0x7fff_ffffnat
        },
    ensures
        scan_digits(decimal(n), 0, minus) == Ok::<int, IntFault>(
            if minus {
                -(n as int)
            } else {
                n as int
            },
        ),
    decreases n,
{
    let c = digit(n % 10);
    assert(c as nat == 48 + n % 10);
    let one = seq![c];
    assert(one.skip(1) =~= Seq::<char>::empty());
    reveal_with_fuel(scan_digits, 2);
    if n >= 10 {
        lemma_scan_decimal(n / 10, minus);
        lemma_scan_push(decimal(n / 10), c, 0, minus);
    }
}

/// An `i32` that is written in decimal is read back as it was.
pub proof fn law_int_round_trip(v: i32)
    ensures
        int_of(signed_decimal(v as int)) == Ok::<int, IntFault>(v as int),
{
    let n = if v < 0 {
        (-(v as int)) as nat
    } else {
        v as nat
    };
    lemma_scan_decimal(n, v < 0);
    lemma_decimal_digits(n);
    let s = signed_decimal(v as int);
    if v < 0 {
        assert(s[0] == '-');
        assert(s.skip(1) =~= decimal(n));
    } else {
        assert('0' <= decimal(n)[0] <= '9');
    }
}

/// Decimal text is made of digits, at least one.
pub proof fn lemma_decimal_digits(n: nat)
    ensures
        decimal(n).len() >= 1,
        forall|i: int| 0 <= i < decimal(n).len() ==> '0' <= #[trigger] decimal(n)[i] <= '9',
    decreases n,
{
    if n >= 10 {
        lemma_decimal_digits(n / 10);
    }
}

/// The number that decimal digits stand for: each digit counts ten times as much as
/// the one behind it.
pub open spec fn denoted(s: Seq<char>) -> int
    decreases s.len(),
{
    if s.len() == 0 {
        0
    } else {
        10 * denoted(s.drop_last()) + (s.last() as int - '0' as int)
    }
}

/// A number is written in the digits that stand for it, with no zero in front.
pub proof fn law_decimal_denotes(n: nat)
    ensures
        denoted(decimal(n)) == n,
        decimal(n).len() > 1 ==> decimal(n)[0] != '0',
        forall|i: int| 0 <= i < decimal(n).len() ==> '0' <= #[trigger] decimal(n)[i] <= '9',
    decreases n,
{
    lemma_decimal_digits(n);
    reveal_with_fuel(denoted, 2);
    let s = decimal(n);
    if n >= 10 {
        law_decimal_denotes(n / 10);
        assert(s.drop_last() =~= decimal(n / 10));
        assert(s.last() == digit(n % 10));
        assert(s[0] == decimal(n / 10)[0]);
        if n / 10 < 10 {
            assert(decimal(n / 10)[0] == digit(n / 10));
        } else {
            lemma_decimal_len(n / 10);
        }
    } else {
        assert(s.drop_last() =~= Seq::<char>::empty());
    }
}

/// A minus sign stands in front of a negative number and of no other.
pub proof fn law_sign_shows_below_zero(v: int)
    ensures
        v < 0 ==> signed_decimal(v)[0] == '-' && denoted(signed_decimal(v).skip(1)) == -v,
        v >= 0 ==> signed_decimal(v)[0] != '-' && denoted(signed_decimal(v)) == v,
{
    law_decimal_denotes(magnitude(v) as nat);
    lemma_decimal_digits(magnitude(v) as nat);
    if v < 0 {
        assert(signed_decimal(v).skip(1) =~= decimal((-v) as nat));
    }
}

proof fn lemma_last_four(t: nat)
    ensures
        1000 * (t / 1000 % 10) + 100 * (t / 100 % 10) + 10 * (t / 10 % 10) + t % 10 == t % 10000,
{
    let t1 = t / 10;
    let t2 = t1 / 10;
    let t3 = t2 / 10;
    let t4 = t3 / 10;
    assert(t / 100 == t2);
    assert(t / 1000 == t3);
    assert(t == 10 * t1 + t % 10);
    assert(t1 == 10 * t2 + t1 % 10);
    assert(t2 == 10 * t3 + t2 % 10);
    assert(t3 == 10 * t4 + t3 % 10);
    let r = 1000 * (t3 % 10) + 100 * (t2 % 10) + 10 * (t1 % 10) + t % 10;
    assert(t == 10000 * t4 + r && 0 <= r < 10000);
}

proof fn lemma_digit_added(s: Seq<char>, d: nat)
    requires
        d < 10,
    ensures
        denoted(s.push(digit(d))) == 10 * denoted(s) + d,
{
    assert(s.push(digit(d)).drop_last() =~= s);
}

proof fn lemma_four_digits(a: nat, b: nat, c: nat, d: nat)
    requires
        a < 10,
        b < 10,
        c < 10,
        d < 10,
    ensures
        denoted(seq![digit(a), digit(b), digit(c), digit(d)]) == 1000 * a + 100 * b + 10 * c + d,
{
    let none = Seq::<char>::empty();
    lemma_digit_added(none, a);
    lemma_digit_added(none.push(digit(a)), b);
    lemma_digit_added(none.push(digit(a)).push(digit(b)), c);
    lemma_digit_added(none.push(digit(a)).push(digit(b)).push(digit(c)), d);
    assert(none.push(digit(a)).push(digit(b)).push(digit(c)).push(digit(d)) =~= seq![
        digit(a),
        digit(b),
        digit(c),
        digit(d),
    ]);
}

/// A number with four decimals has four digits behind its point; put together with
/// those in front they count its ten-thousandths.
pub proof fn law_four_decimals_denote(t: nat)
    ensures
        ({
            let s = with_four_decimals(t);
            let k = s.len() - 5;
            &&& k >= 1
            &&& s[k] == '.'
            &&& denoted(s.take(k)) == t / 10000
            &&& denoted(s.skip(k + 1)) == t % 10000
            &&& s.skip(k + 1).len() == 4
        }),
{
    let s = with_four_decimals(t);
    let k = s.len() - 5;
    law_decimal_denotes(t / 10000);
    lemma_decimal_digits(t / 10000);
    assert(s.take(k) =~= decimal(t / 10000));
    let a = t / 1000 % 10;
    let b = t / 100 % 10;
    let c = t / 10 % 10;
    let d = t % 10;
    assert(s.skip(k + 1) =~= seq![digit(a), digit(b), digit(c), digit(d)]);
    lemma_four_digits(a, b, c, d);
    lemma_last_four(t);
}

/// The digits of base sixteen, in either case, and nothing else.
pub proof fn law_hex_digits(c: char)
    ensures
        '0' <= c <= '9' ==> hex_value(c) == Some((c as int - '0' as int) as nat),
        'a' <= c <= 'f' ==> hex_value(c) == Some((10 + (c as int - 'a' as int)) as nat),
        'A' <= c <= 'F' ==> hex_value(c) == Some((10 + (c as int - 'A' as int)) as nat),
        hex_value(c) is Some ==> '0' <= c <= '9' || 'a' <= c <= 'f' || 'A' <= c <= 'F',
{
}

/// Of two hexadecimal digits the first counts sixteen times as much as the second,
/// and both have to be digits.
pub proof fn law_hex_pair_is_weighed(a: char, b: char)
    ensures
        hex_pair_value(a, b) is Some <==> hex_value(a) is Some && hex_value(b) is Some,
        hex_pair_value(a, b) is Some ==> hex_pair_value(a, b)->0 == 16 * hex_value(a)->0
            + hex_value(b)->0,
{
}

/// A byte is written in two digits of lower case, the heavier one first.
pub proof fn law_hex_byte_is_weighed(b: u8)
    ensures
        hex_byte(b).len() == 2,
        hex_value(hex_byte(b)[0]) == Some((b / 16) as nat),
        hex_value(hex_byte(b)[1]) == Some((b % 16) as nat),
        forall|i: int| 0 <= i < 2 ==> !('A' <= #[trigger] hex_byte(b)[i] <= 'F'),
{
}

/// Digits that stand for a number within the range of `i32` are read as that number, with
/// or without a plus sign in front, and with a minus sign as its opposite.
pub proof fn law_digits_are_read(s: Seq<char>)
    requires
        s.len() > 0,
        forall|i: int| 0 <= i < s.len() ==> '0' <= #[trigger] s[i] <= '9',
        denoted(s) <= i32::MAX,
    ensures
        int_of(s) == Ok::<int, IntFault>(denoted(s)),
        int_of(seq!['+'] + s) == Ok::<int, IntFault>(denoted(s)),
        int_of(seq!['-'] + s) == Ok::<int, IntFault>(-denoted(s)),
{
    lemma_scan_denotes(s, false);
    lemma_scan_denotes(s, true);
    assert((seq!['+'] + s).skip(1) =~= s);
    assert((seq!['-'] + s).skip(1) =~= s);
    assert('0' <= s[0] <= '9');
}

proof fn lemma_scan_denotes(s: Seq<char>, minus: bool)
    requires
        forall|i: int| 0 <= i < s.len() ==> '0' <= #[trigger] s[i] <= '9',
        denoted(s) <= i32::MAX,
    ensures
        denoted(s) >= 0,
        scan_digits(s, 0, minus) == Ok::<int, IntFault>(
            if minus {
                -denoted(s)
            } else {
                denoted(s)
            },
        ),
    decreases s.len(),
{
    if s.len() > 0 {
        let t = s.drop_last();
        let c = s.last();
        assert(s[s.len() - 1] == c);
        assert forall|i: int| 0 <= i < t.len() implies '0' <= #[trigger] t[i] <= '9' by {
            assert(t[i] == s[i]);
        }
        lemma_denoted_is_positive(t);
        lemma_scan_denotes(t, minus);
        lemma_scan_push(t, c, 0, minus);
        assert(t.push(c) =~= s);
        reveal_with_fuel(scan_digits, 2);
        assert(seq![c].skip(1) =~= Seq::<char>::empty());
    }
}

proof fn lemma_denoted_is_positive(s: Seq<char>)
    requires
        forall|i: int| 0 <= i < s.len() ==> '0' <= #[trigger] s[i] <= '9',
    ensures
        denoted(s) >= 0,
    decreases s.len(),
{
    if s.len() > 0 {
        let t = s.drop_last();
        assert(s[s.len() - 1] == s.last());
        assert forall|i: int| 0 <= i < t.len() implies '0' <= #[trigger] t[i] <= '9' by {
            assert(t[i] == s[i]);
        }
        lemma_denoted_is_positive(t);
    }
}

/// Text that begins with anything but a digit, or with nothing behind its sign, is no
/// number, nor is no text at all.
pub proof fn law_other_text_is_no_number(s: Seq<char>)
    ensures
        int_of(seq![]) == Err::<int, IntFault>(IntFault::Empty),
        int_of(seq!['+']) == Err::<int, IntFault>(IntFault::InvalidDigit),
        int_of(seq!['-']) == Err::<int, IntFault>(IntFault::InvalidDigit),
        s.len() > 0 && !('0' <= s[0] <= '9') && s[0] != '+' && s[0] != '-' ==> int_of(s) == Err::<
            int,
            IntFault,
        >(IntFault::InvalidDigit),
        fault_text(IntFault::Empty) == "cannot parse integer from empty string"@,
        fault_text(IntFault::InvalidDigit) == "invalid digit found in string"@,
        fault_text(IntFault::TooLarge) == "number too large to fit in target type"@,
        fault_text(IntFault::TooSmall) == "number too small to fit in target type"@,
{
}

/// Whatever is read as a number comes out as the laws have it.
pub proof fn law_numbers_come_out(
    s: &str,
    r: Result<i32, IntFault>,
    a: char,
    b: char,
    pair: Option<u8>,
    fault: IntFault,
    told: &'static str,
)
    requires
        call_ensures(parse_i32, (s,), r),
        call_ensures(hex_pair, (a, b), pair),
        call_ensures(IntFault::message, (&fault,), told),
    ensures
        r is Ok ==> int_of(s@) == Ok::<int, IntFault>(r->Ok_0 as int),
        r is Err ==> int_of(s@) == Err::<int, IntFault>(r->Err_0),
        pair == hex_pair_value(a, b),
        told@ == fault_text(fault),
{
}

} // verus!
