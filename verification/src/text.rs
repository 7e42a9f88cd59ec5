//! Numbers as text.
use vstd::prelude::*;
use vstd::string::*;

verus! {

/// The character that stands for `d` in positional notation, upper case above nine.
pub open spec fn digit_char(d: nat) -> char
    recommends
        d < 16,
{
    if d < 10 {
        (('0' as nat + d) as u8) as char
    } else {
        (('A' as nat + (d - 10)) as u8) as char
    }
}

/// `n` in positional notation to the given base, without leading zeros.
pub open spec fn digits(n: nat, base: nat) -> Seq<char>
    decreases n,
{
    if base < 2 || n < base {
        seq![digit_char(n)]
    } else {
        proof {
            assert(n / base < n) by (nonlinear_arith)
                requires
                    2 <= base <= n,
            ;
        }
        digits(n / base, base).push(digit_char(n % base))
    }
}

/// `n` in decimal notation.
pub open spec fn decimal(n: nat) -> Seq<char> {
    digits(n, 10)
}

/// `n` in hexadecimal notation with upper-case digits.
pub open spec fn upper_hex(n: nat) -> Seq<char> {
    digits(n, 16)
}

fn digit_str(d: u64) -> (res: &'static str)
    requires
        d < 16,
    ensures
        res@ == seq![digit_char(d as nat)],
{
    proof {
        reveal_strlit("0");
        reveal_strlit("1");
        reveal_strlit("2");
        reveal_strlit("3");
        reveal_strlit("4");
        reveal_strlit("5");
        reveal_strlit("6");
        reveal_strlit("7");
        reveal_strlit("8");
        reveal_strlit("9");
        reveal_strlit("A");
        reveal_strlit("B");
        reveal_strlit("C");
        reveal_strlit("D");
        reveal_strlit("E");
        reveal_strlit("F");
    }
    match d {
        0 => "0",
        1 => "1",
        2 => "2",
        3 => "3",
        4 => "4",
        5 => "5",
        6 => "6",
        7 => "7",
        8 => "8",
        9 => "9",
        10 => "A",
        11 => "B",
        12 => "C",
        13 => "D",
        14 => "E",
        _ => "F",
    }
}

fn digits_string(n: u64, base: u64) -> (res: String)
    requires
        2 <= base <= 16,
    ensures
        res@ == digits(n as nat, base as nat),
    decreases n,
{
    if n < base {
        digit_str(n).to_owned()
    } else {
        proof {
            assert(n as int / (base as int) < n) by (nonlinear_arith)
                requires
                    2 <= base <= n,
            ;
            assert(0 <= n as int % (base as int) < base) by (nonlinear_arith)
                requires
                    2 <= base,
            ;
        }
        let mut text = digits_string(n / base, base);
        text.append(digit_str(n % base));
        text
    }
}

/// Writes `n` in decimal notation.
pub fn decimal_string(n: u64) -> (res: String)
    ensures
        res@ == decimal(n as nat),
{
    digits_string(n, 10)
}

/// Writes `n` in hexadecimal notation with upper-case digits.
pub fn upper_hex_string(n: u64) -> (res: String)
    ensures
        res@ == upper_hex(n as nat),
{
    digits_string(n, 16)
}

/// The number that a digit stands for: the characters from `0` on stand for zero to nine, those from
/// `A` on for ten and more.
pub open spec fn digit_value(c: char) -> int {
    if '0' <= c <= '9' {
        c as int - '0' as int
    } else {
        c as int - 'A' as int + 10
    }
}

/// The number that a text stands for in positional notation to the given base.
pub open spec fn number_of(text: Seq<char>, base: int) -> int
    decreases text.len(),
{
    if text.len() == 0 {
        0
    } else {
        number_of(text.drop_last(), base) * base + digit_value(text.last())
    }
}

/// The characters of a text are digits to the base ten, or to the base 16 in upper case.
pub open spec fn all_digits(text: Seq<char>, base: int) -> bool {
    forall|i: int|
        0 <= i < text.len() ==> '0' <= #[trigger] text[i] <= '9' || (base == 16 && 'A' <= text[i]
            <= 'F')
}

proof fn digit_reads_back(d: nat)
    requires
        d < 16,
    ensures
        digit_value(digit_char(d)) == d,
        '0' <= digit_char(d) <= '9' <==> d < 10,
        d >= 10 ==> 'A' <= digit_char(d) <= 'F',
        digit_char(d) == '0' <==> d == 0,
{
}

proof fn digits_read_back(n: nat, base: nat)
    requires
        base == 10 || base == 16,
    ensures
        number_of(digits(n, base), base as int) == n,
        all_digits(digits(n, base), base as int),
        digits(n, base).len() > 0,
        digits(n, base)[0] == '0' ==> n == 0,
        n == 0 ==> digits(n, base).len() == 1,
    decreases n,
{
    let text = digits(n, base);
    if n < base {
        digit_reads_back(n);
        assert(text.drop_last() == Seq::<char>::empty());
        reveal_with_fuel(number_of, 2);
    } else {
        digits_read_back(n / base, base);
        digit_reads_back(n % base);
        assert(text.drop_last() == digits(n / base, base));
        assert(text.last() == digit_char(n % base));
        vstd::arithmetic::div_mod::lemma_fundamental_div_mod(n as int, base as int);
        assert(n / base > 0);
        assert((n / base) * base == base * (n / base)) by (nonlinear_arith);
    }
}

/// A number can be read back from its decimal notation, which has no digits but those from zero to
/// nine and no leading zeros.
pub proof fn decimal_notation_reads_back(n: u64, text: String)
    requires
        call_ensures(decimal_string, (n,), text),
    ensures
        number_of(text@, 10) == n,
        all_digits(text@, 10),
        text@.len() > 0,
        text@[0] == '0' ==> text@.len() == 1,
{
    digits_read_back(n as nat, 10);
}

/// A number can be read back from its hexadecimal notation, which has no digits but those from zero
/// to nine and the upper-case letters from `A` to `F`, and no leading zeros.
pub proof fn hexadecimal_notation_reads_back(n: u64, text: String)
    requires
        call_ensures(upper_hex_string, (n,), text),
    ensures
        number_of(text@, 16) == n,
        all_digits(text@, 16),
        text@.len() > 0,
        text@[0] == '0' ==> text@.len() == 1,
{
    digits_read_back(n as nat, 16);
}

/// The notations that messages and labels use can be read back, whatever the number.
pub proof fn notations_read_back(n: nat)
    ensures
        number_of(decimal(n), 10) == n && all_digits(decimal(n), 10),
        decimal(n)[0] == '0' ==> decimal(n).len() == 1,
        number_of(upper_hex(n), 16) == n && all_digits(upper_hex(n), 16),
        upper_hex(n)[0] == '0' ==> upper_hex(n).len() == 1,
{
    digits_read_back(n, 10);
    digits_read_back(n, 16);
}

} // verus!
