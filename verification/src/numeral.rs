//! Numerals: decimal, hexadecimal and other positional notations of numbers.
use vstd::arithmetic::div_mod::*;
use vstd::prelude::*;
use vstd::string::*;

verus! {

/// The digit for the value `d` (below 36) in upper or lower case.
pub open spec fn digit(d: int, upper: bool) -> char {
    if d < 10 {
        ((48 + d) as u8) as char
    } else if upper {
        ((55 + d) as u8) as char
    } else {
        ((87 + d) as u8) as char
    }
}

/// The positional numeral of `n` in the given base, without leading zeros.
pub open spec fn numeral(n: nat, base: nat, upper: bool) -> Seq<char>
    decreases n,
{
    if base < 2 || n < base {
        seq![digit(n as int, upper)]
    } else {
        proof {
            lemma_div_decreases(n as int, base as int);
        }
        numeral(n / base, base, upper).push(digit((n % base) as int, upper))
    }
}

/// The decimal numeral of `n`.
pub open spec fn dec(n: nat) -> Seq<char> {
    numeral(n, 10, true)
}

/// The decimal numeral of a signed number.
pub open spec fn dec_int(i: int) -> Seq<char> {
    if i < 0 {
        "-"@ + dec((-i) as nat)
    } else {
        dec(i as nat)
    }
}

/// The upper-case hexadecimal numeral of `n`.
pub open spec fn hex(n: nat) -> Seq<char> {
    numeral(n, 16, true)
}

/// The lower-case hexadecimal numeral of `n`.
pub open spec fn hex_lower(n: nat) -> Seq<char> {
    numeral(n, 16, false)
}

/// `n` zeros.
pub open spec fn zeros(n: nat) -> Seq<char> {
    Seq::new(n, |i: int| '0')
}

/// `s` padded on the left with zeros to at least `width` characters.
pub open spec fn zero_padded(s: Seq<char>, width: nat) -> Seq<char> {
    if s.len() >= width {
        s
    } else {
        zeros((width - s.len()) as nat) + s
    }
}

/// The upper-case hexadecimal numeral of `n` with at least `width` digits.
pub open spec fn hex_padded(n: nat, width: nat) -> Seq<char> {
    zero_padded(hex(n), width)
}

fn digit_char(d: u64, upper: bool) -> (c: char)
    requires
        d < 36,
    ensures
        c == digit(d as int, upper),
{
    if d < 10 {
        (48u8 + d as u8) as char
    } else if upper {
        (55u8 + d as u8) as char
    } else {
        (87u8 + d as u8) as char
    }
}

/// Writes `n` in the given base.
pub fn numeral_string(n: u64, base: u64, upper: bool) -> (r: String)
    requires
        2 <= base <= 36,
    ensures
        r@ == numeral(n as nat, base as nat, upper),
    decreases n,
{
    if n < base {
        let mut s = String::new();
        s.push(digit_char(n, upper));
        assert(s@ =~= seq![digit(n as int, upper)]);
        s
    } else {
        proof {
            lemma_div_decreases(n as int, base as int);
            lemma_mod_bound(n as int, base as int);
        }
        let mut s = numeral_string(n / base, base, upper);
        s.push(digit_char(n % base, upper));
        s
    }
}

/// Writes `n` in decimal.
pub fn dec_string(n: u64) -> (r: String)
    ensures
        r@ == dec(n as nat),
{
    numeral_string(n, 10, true)
}

/// Writes a signed number in decimal.
pub fn dec_int_string(i: i64) -> (r: String)
    ensures
        r@ == dec_int(i as int),
{
    if i < 0 {
        let magnitude: u64 = if i == i64::MIN {
            9223372036854775808
        } else {
            (-i) as u64
        };
        let mut s = String::from_str("-");
        s.append(dec_string(magnitude).as_str());
        s
    } else {
        dec_string(i as u64)
    }
}

/// Writes `n` in upper-case hexadecimal.
pub fn hex_string(n: u64) -> (r: String)
    ensures
        r@ == hex(n as nat),
{
    numeral_string(n, 16, true)
}

/// Writes `n` in lower-case hexadecimal.
pub fn hex_lower_string(n: u64) -> (r: String)
    ensures
        r@ == hex_lower(n as nat),
{
    numeral_string(n, 16, false)
}

/// Writes `n` in upper-case hexadecimal with at least `width` digits.
pub fn hex_padded_string(n: u64, width: usize) -> (r: String)
    ensures
        r@ == hex_padded(n as nat, width as nat),
{
    let plain = hex_string(n);
    let len: usize = plain.as_str().unicode_len();
    if len >= width {
        return plain;
    }
    let mut s = String::new();
    let mut i: usize = 0;
    while i < width - len
        invariant
            i <= width - len,
            len < width,
            s@ == zeros(i as nat),
        decreases width - len - i,
    {
        s.push('0');
        i = i + 1;
        assert(s@ =~= zeros(i as nat));
    }
    s.append(plain.as_str());
    s
}

/// A numeral is never empty.
pub proof fn lemma_numeral_nonempty(n: nat, base: nat, upper: bool)
    ensures
        numeral(n, base, upper).len() >= 1,
    decreases n,
{
    if !(base < 2 || n < base) {
        lemma_div_decreases(n as int, base as int);
        lemma_numeral_nonempty(n / base, base, upper);
    }
}

/// The value of a digit in upper or lower case.
pub open spec fn digit_value(c: char) -> int {
    if '0' <= c <= '9' {
        c as int - 48
    } else if 'A' <= c <= 'Z' {
        c as int - 55
    } else {
        c as int - 87
    }
}

/// The number that digits stand for in the given base.
pub open spec fn value(s: Seq<char>, base: nat) -> int
    decreases s.len(),
{
    if s.len() == 0 {
        0
    } else {
        value(s.drop_last(), base) * base + digit_value(s.last())
    }
}

/// The character is a digit of the given base.
pub open spec fn is_digit(c: char, base: nat, upper: bool) -> bool {
    0 <= digit_value(c) < base && c == digit(digit_value(c), upper)
}

/// A numeral is made of digits, the most significant first and without a leading zero, that stand
/// for its number.
pub proof fn law_numeral(n: nat, base: nat, upper: bool)
    requires
        2 <= base <= 36,
    ensures
        value(numeral(n, base, upper), base) == n,
        numeral(n, base, upper).len() >= 1,
        numeral(n, base, upper)[0] == '0' <==> n == 0,
        forall|i: int|
            0 <= i < numeral(n, base, upper).len() ==> is_digit(
                #[trigger] numeral(n, base, upper)[i],
                base,
                upper,
            ),
    decreases n,
{
    let s = numeral(n, base, upper);
    if n < base {
        assert(s.drop_last() =~= Seq::<char>::empty());
        assert(0 * base == 0) by (nonlinear_arith);
        assert(value(s.drop_last(), base) == 0);
    } else {
        lemma_div_decreases(n as int, base as int);
        lemma_mod_bound(n as int, base as int);
        lemma_fundamental_div_mod(n as int, base as int);
        law_numeral(n / base, base, upper);
        let rest = numeral(n / base, base, upper);
        let last = digit((n % base) as int, upper);
        assert(s == rest.push(last));
        assert(s.drop_last() =~= rest);
        assert(digit_value(last) == n % base);
        assert((n / base) * base == base * (n / base)) by (nonlinear_arith);
        assert(n / base >= 1) by {
            lemma_div_is_ordered(base as int, n as int, base as int);
            lemma_div_by_self(base as int);
        }
        assert forall|i: int| 0 <= i < s.len() implies is_digit(#[trigger] s[i], base, upper) by {
            if i < rest.len() {
                assert(s[i] == rest[i]);
            }
        }
        assert(s[0] == rest[0]);
    }
}

/// Distinct numbers have distinct numerals in the same base.
pub proof fn lemma_numeral_injective(a: nat, b: nat, base: nat, upper: bool)
    requires
        2 <= base <= 36,
        numeral(a, base, upper) == numeral(b, base, upper),
    ensures
        a == b,
{
    law_numeral(a, base, upper);
    law_numeral(b, base, upper);
}

/// `base` to the power of `n`.
pub open spec fn power(base: nat, n: nat) -> nat
    decreases n,
{
    if n == 0 {
        1
    } else {
        base * power(base, (n - 1) as nat)
    }
}

proof fn lemma_hex_len(n: nat, width: nat)
    requires
        n < power(16, width),
        width > 0,
    ensures
        hex(n).len() <= width,
    decreases width,
{
    if n >= 16 {
        if width == 1 {
            assert(power(16, 0) == 1);
        }
        lemma_hex_len(n / 16, (width - 1) as nat);
    }
}

proof fn lemma_value_padded(k: nat, s: Seq<char>, base: nat)
    ensures
        value(zeros(k) + s, base) == value(s, base),
    decreases k + s.len(),
{
    let all = zeros(k) + s;
    if s.len() > 0 {
        lemma_value_padded(k, s.drop_last(), base);
        assert(all.drop_last() =~= zeros(k) + s.drop_last());
    } else if k > 0 {
        lemma_value_padded((k - 1) as nat, s, base);
        assert(all.drop_last() =~= zeros((k - 1) as nat) + s);
        assert(all.last() == '0');
        assert(0 * base == 0) by (nonlinear_arith);
    } else {
        assert(all =~= s);
    }
}

/// A padded hexadecimal numeral has the given width where that is enough, and its digits stand for
/// its number.
pub proof fn law_hex_padded(n: nat, width: nat)
    requires
        n < power(16, width),
        width > 0,
    ensures
        hex_padded(n, width).len() == width,
        value(hex_padded(n, width), 16) == n,
        forall|i: int|
            0 <= i < width ==> is_digit(#[trigger] hex_padded(n, width)[i], 16, true),
{
    law_numeral(n, 16, true);
    lemma_hex_len(n, width);
    let s = hex(n);
    let k = (width - s.len()) as nat;
    lemma_value_padded(k, s, 16);
    let all = hex_padded(n, width);
    assert(all =~= zeros(k) + s);
    assert forall|i: int| 0 <= i < width implies is_digit(#[trigger] all[i], 16, true) by {
        if i >= k {
            assert(all[i] == s[i - k]);
        } else {
            assert(all[i] == '0');
        }
    }
}

} // verus!
