//! Decimal and hexadecimal numerals as character sequences.

use vstd::prelude::*;

verus! {

/// The upper-case digit of value `n` in any base up to sixteen.
pub open spec fn digit_char(n: nat) -> char {
    if n < 10 {
        ('0' as int + n) as char
    } else {
        ('A' as int + (n - 10)) as char
    }
}

/// The numeral of `n` in base `b`, without leading zeros.
pub open spec fn numeral(n: nat, b: nat) -> Seq<char>
    decreases n,
    when b >= 2
{
    if n < b {
        seq![digit_char(n)]
    } else {
        proof {
            assert(n / b < n) by (nonlinear_arith)
                requires
                    n >= b,
                    b >= 2,
            ;
        }
        numeral(n / b, b).push(digit_char(n % b))
    }
}

/// A text widened to `width` by repeating `fill` in front of it.
pub open spec fn pad_left(s: Seq<char>, width: nat, fill: char) -> Seq<char> {
    if s.len() >= width {
        s
    } else {
        Seq::new((width - s.len()) as nat, |i: int| fill) + s
    }
}

/// The upper-case digit of value `n`.
pub fn digit(n: u8) -> (r: char)
    requires
        n < 16,
    ensures
        r == digit_char(n as nat),
{
    if n < 10 {
        (48 + n) as char
    } else {
        (65 + (n - 10)) as char
    }
}

/// Appends a text to a character vector.
pub fn push_text(out: &mut Vec<char>, s: &str)
    ensures
        final(out)@ == old(out)@ + s@,
{
    for c in it: s.chars()
        invariant
            out@ == old(out)@ + it.seq().take(it.index()),
            it.seq() == s@,
    {
        out.push(c);
    }
}

/// Appends characters to a character vector.
pub fn push_slice(out: &mut Vec<char>, s: &[char])
    ensures
        final(out)@ == old(out)@ + s@,
{
    let mut i: usize = 0;
    while i < s.len()
        invariant
            i <= s@.len(),
            out@ == old(out)@ + s@.take(i as int),
        decreases s@.len() - i,
    {
        out.push(s[i]);
        i += 1;
    }
}

/// The numeral of `n` in base `b`.
pub fn write_numeral(n: u64, b: u8) -> (r: Vec<char>)
    requires
        2 <= b <= 16,
    ensures
        r@ == numeral(n as nat, b as nat),
    decreases n,
{
    let base: u64 = b as u64;
    if n < base {
        let mut out: Vec<char> = Vec::new();
        out.push(digit(n as u8));
        assert(out@ =~= numeral(n as nat, b as nat));
        out
    } else {
        assert(n / base < n) by (nonlinear_arith)
            requires
                n >= base,
                base >= 2,
        ;
        let mut out: Vec<char> = write_numeral(n / base, b);
        out.push(digit((n % base) as u8));
        out
    }
}

/// Appends the decimal numeral of `n`, widened by spaces to `width`.
pub fn push_decimal(out: &mut Vec<char>, n: u64, width: usize)
    ensures
        final(out)@ == old(out)@ + pad_left(numeral(n as nat, 10), width as nat, ' '),
{
    push_padded(out, n, 10, width, ' ');
}

/// Appends the upper-case hexadecimal numeral of `n`, widened by zeros to
/// `width`.
pub fn push_hex(out: &mut Vec<char>, n: u64, width: usize)
    ensures
        final(out)@ == old(out)@ + pad_left(numeral(n as nat, 16), width as nat, '0'),
{
    push_padded(out, n, 16, width, '0');
}

/// Appends the numeral of `n` in base `b`, widened by `fill` to `width`.
pub fn push_padded(out: &mut Vec<char>, n: u64, b: u8, width: usize, fill: char)
    requires
        2 <= b <= 16,
    ensures
        final(out)@ == old(out)@ + pad_left(numeral(n as nat, b as nat), width as nat, fill),
{
    let text: Vec<char> = write_numeral(n, b);
    let ghost start = out@;
    let mut missing: usize = 0;
    if text.len() < width {
        missing = width - text.len();
        let mut i: usize = 0;
        while i < missing
            invariant
                i <= missing,
                out@ == start + Seq::new(i as nat, |j: int| fill),
            decreases missing - i,
        {
            out.push(fill);
            i += 1;
            assert(out@ =~= start + Seq::new(i as nat, |j: int| fill));
        }
    }
    assert(out@ =~= start + Seq::new(missing as nat, |j: int| fill));
    push_slice(out, text.as_slice());
    assert(out@ =~= start + pad_left(numeral(n as nat, b as nat), width as nat, fill));
}

/// Whether a character is a decimal digit.
pub open spec fn is_decimal(c: char) -> bool {
    '0' <= c <= '9'
}

/// The number that a sequence of decimal digits denotes.
pub open spec fn decimal_value(s: Seq<char>) -> nat
    decreases s.len(),
{
    if s.len() == 0 {
        0
    } else {
        decimal_value(s.drop_last()) * 10 + (s.last() as int - '0' as int) as nat
    }
}

/// The digits of an unsigned numeral: an optional leading plus sign is dropped.
pub open spec fn unsigned_digits(s: Seq<char>) -> Seq<char> {
    if s.len() > 0 && s[0] == '+' {
        s.drop_first()
    } else {
        s
    }
}

/// The number that an unsigned decimal numeral denotes, if it is one and does
/// not exceed `max`.
pub open spec fn unsigned_value(s: Seq<char>, max: nat) -> Option<nat> {
    let d = unsigned_digits(s);
    if d.len() > 0 && (forall|i: int| 0 <= i < d.len() ==> is_decimal(#[trigger] d[i]))
        && decimal_value(d) <= max {
        Some(decimal_value(d))
    } else {
        None
    }
}

/// More digits never denote a smaller number.
pub proof fn decimal_value_grows(s: Seq<char>, n: int)
    requires
        0 <= n <= s.len(),
        forall|i: int| 0 <= i < s.len() ==> is_decimal(#[trigger] s[i]),
    ensures
        decimal_value(s.take(n)) <= decimal_value(s),
    decreases s.len() - n,
{
    if n == s.len() {
        assert(s.take(n) =~= s);
    } else {
        assert(s.take(n + 1).drop_last() =~= s.take(n));
        decimal_value_grows(s, n + 1);
    }
}

/// Reads an unsigned decimal numeral of at most `max`.
pub fn parse_unsigned(s: &[char], max: u64) -> (r: Option<u64>)
    ensures
        r matches Some(v) ==> unsigned_value(s@, max as nat) == Some(v as nat),
        r is None ==> unsigned_value(s@, max as nat) is None,
{
    let start: usize = if s.len() > 0 && s[0] == '+' {
        1
    } else {
        0
    };
    let ghost d = unsigned_digits(s@);
    assert(d =~= s@.skip(start as int));
    if s.len() == start {
        return None;
    }
    let mut value: u64 = 0;
    let mut i: usize = start;
    assert(d.take(0) =~= Seq::<char>::empty());
    while i < s.len()
        invariant
            start <= i <= s@.len(),
            d == unsigned_digits(s@),
            d == s@.skip(start as int),
            d.len() > 0,
            value <= max,
            forall|j: int| 0 <= j < i - start ==> is_decimal(#[trigger] d[j]),
            value == decimal_value(d.take(i - start)),
        decreases s@.len() - i,
    {
        let c: char = s[i];
        assert(c == d[i - start]);
        if c < '0' || c > '9' {
            return None;
        }
        let digit: u64 = (c as u8 - 48) as u64;
        assert(d.take(i + 1 - start).drop_last() =~= d.take(i - start));
        assert(decimal_value(d.take(i + 1 - start)) == value * 10 + digit);
        if value > max / 10 || digit > max - value * 10 {
            proof {
                if forall|j: int| 0 <= j < d.len() ==> is_decimal(#[trigger] d[j]) {
                    decimal_value_grows(d, i + 1 - start);
                }
            }
            return None;
        }
        value = value * 10 + digit;
        i += 1;
    }
    assert(d.take(d.len() as int) =~= d);
    Some(value)
}

/// The value of a hexadecimal digit of either case.
pub open spec fn hex_value(c: char) -> Option<nat> {
    if '0' <= c <= '9' {
        Some((c as int - '0' as int) as nat)
    } else if 'a' <= c <= 'f' {
        Some((c as int - 'a' as int + 10) as nat)
    } else if 'A' <= c <= 'F' {
        Some((c as int - 'A' as int + 10) as nat)
    } else {
        None
    }
}

/// Reads a hexadecimal digit of either case.
pub fn parse_hex_digit(c: char) -> (r: Option<u8>)
    ensures
        r matches Some(v) ==> hex_value(c) == Some(v as nat) && v < 16,
        r is None ==> hex_value(c) is None,
{
    if '0' <= c && c <= '9' {
        Some(c as u8 - 48)
    } else if 'a' <= c && c <= 'f' {
        Some(c as u8 - 97 + 10)
    } else if 'A' <= c && c <= 'F' {
        Some(c as u8 - 65 + 10)
    } else {
        None
    }
}

/// A numeral in base ten is read back as the number that it was written for, has nothing
/// but digits, and begins with a zero only if it is one.
pub proof fn numerals_are_read_back(n: nat)
    ensures
        decimal_value(numeral(n, 10)) == n,
        numeral(n, 10).len() > 0,
        forall|i: int| 0 <= i < numeral(n, 10).len() ==> is_decimal(#[trigger] numeral(n, 10)[i]),
        n > 0 ==> numeral(n, 10)[0] != '0',
        numeral(0, 10) == seq!['0'],
    decreases n,
{
    let s = numeral(n, 10);
    if n < 10 {
        assert(s =~= seq![digit_char(n)]);
        assert(s.drop_last() =~= Seq::<char>::empty());
        reveal_with_fuel(decimal_value, 2);
    } else {
        numerals_are_read_back(n / 10);
        let front = numeral(n / 10, 10);
        assert(s.drop_last() =~= front);
        assert(s.last() == digit_char(n % 10));
        assert forall|i: int| 0 <= i < s.len() implies is_decimal(#[trigger] s[i]) by {
            if i < front.len() {
                assert(s[i] == front[i]);
            }
        }
        assert(s[0] == front[0]);
    }
    assert(numeral(0, 10) =~= seq!['0']);
}

/// A written number is read back if it is not too great, with or without a plus sign.
pub proof fn written_numbers_are_read_back(n: nat, max: nat)
    ensures
        unsigned_value(numeral(n, 10), max) == (if n <= max {
            Some(n)
        } else {
            None
        }),
        unsigned_value(seq!['+'] + numeral(n, 10), max) == (if n <= max {
            Some(n)
        } else {
            None
        }),
{
    numerals_are_read_back(n);
    let s = numeral(n, 10);
    assert(is_decimal(s[0]));
    assert((seq!['+'] + s).drop_first() =~= s);
}

/// Only digits make a number: any other character, or none at all, makes it none.
pub proof fn only_digits_are_numbers(s: Seq<char>, max: nat, i: int)
    requires
        0 <= i < s.len(),
        !('0' <= s[i] <= '9'),
        i > 0 || s[0] != '+',
    ensures
        unsigned_value(s, max) is None,
        unsigned_value(Seq::empty(), max) is None,
{
    let d = unsigned_digits(s);
    if d == s {
        assert(!is_decimal(d[i]));
    } else {
        assert(!is_decimal(d[i - 1]));
    }
}

/// A hexadecimal digit is read back as the number that it was written for, in either case,
/// and nothing else is one.
pub proof fn hexadecimal_digits_are_read_back(n: nat, c: char)
    ensures
        n < 16 ==> hex_value(digit_char(n)) == Some(n),
        hex_value(c) is Some ==> hex_value(c)->0 < 16 && (digit_char(hex_value(c)->0) == c || digit_char(
            hex_value(c)->0,
        ) as int + 32 == c as int),
        'a' <= c <= 'f' ==> hex_value(c) == hex_value((c as int - 32) as char) && hex_value(c) is Some,
{
}

/// Padding widens a text to a width and keeps it at the end; what is wide enough stays.
pub proof fn padding_stands_in_front(s: Seq<char>, width: nat, fill: char)
    ensures
        pad_left(s, width, fill).len() == (if s.len() < width {
            width
        } else {
            s.len()
        }),
        s.is_suffix_of(pad_left(s, width, fill)),
        forall|i: int|
            0 <= i < pad_left(s, width, fill).len() - s.len() ==> #[trigger] pad_left(
                s,
                width,
                fill,
            )[i] == fill,
{
    let p = pad_left(s, width, fill);
    assert(p.subrange(p.len() - s.len(), p.len() as int) =~= s);
}

} // verus!
