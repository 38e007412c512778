//! Unsigned decimal numbers, written and read.

use vstd::prelude::*;
use crate::text::chars_of;

verus! {

/// The decimal digit for `d`.
pub open spec fn digit(d: int) -> char {
    if d == 0 { '0' }
    else if d == 1 { '1' }
    else if d == 2 { '2' }
    else if d == 3 { '3' }
    else if d == 4 { '4' }
    else if d == 5 { '5' }
    else if d == 6 { '6' }
    else if d == 7 { '7' }
    else if d == 8 { '8' }
    else { '9' }
}

/// The value of a decimal digit, if `c` is one.
pub open spec fn digit_value(c: char) -> Option<nat> {
    if '0' <= c && c <= '9' {
        Some((c as int - '0' as int) as nat)
    } else {
        None
    }
}

/// `n` in decimal, without leading zeros.
pub open spec fn decimal(n: nat) -> Seq<char>
    decreases n,
{
    if n < 10 {
        seq![digit(n as int)]
    } else {
        decimal(n / 10).push(digit((n % 10) as int))
    }
}

/// `n` in decimal, filled up with zeros on the left to at least `width`
/// characters.
pub open spec fn padded(n: nat, width: nat) -> Seq<char> {
    let plain = decimal(n);
    if plain.len() >= width {
        plain
    } else {
        Seq::new((width - plain.len()) as nat, |i: int| '0') + plain
    }
}

fn digit_char(d: usize) -> (r: char)
    requires
        d < 10,
    ensures
        r == digit(d as int),
{
    match d {
        0 => '0',
        1 => '1',
        2 => '2',
        3 => '3',
        4 => '4',
        5 => '5',
        6 => '6',
        7 => '7',
        8 => '8',
        _ => '9',
    }
}

/// Writes `n` in decimal.
pub fn decimal_of(n: usize) -> (r: String)
    ensures
        r@ == decimal(n as nat),
    decreases n,
{
    if n < 10 {
        let mut r: String = String::new();
        r.push(digit_char(n));
        assert(r@ =~= seq![digit(n as int)]);
        r
    } else {
        let mut r: String = decimal_of(n / 10);
        r.push(digit_char(n % 10));
        r
    }
}

/// Writes `n` in decimal with at least `width` characters.
pub fn padded_of(n: usize, width: usize) -> (r: String)
    ensures
        r@ == padded(n as nat, width as nat),
{
    let plain: Vec<char> = chars_of(decimal_of(n).as_str());
    let mut r: String = String::new();
    let fill: usize = if plain.len() >= width {
        0
    } else {
        width - plain.len()
    };
    let mut i: usize = 0;
    while i < fill
        invariant
            i <= fill,
            r@ == Seq::new(i as nat, |k: int| '0'),
        decreases fill - i,
    {
        r.push('0');
        i += 1;
    }
    let ghost zeros = r@;
    let mut k: usize = 0;
    while k < plain.len()
        invariant
            k <= plain@.len(),
            r@ == zeros + plain@.take(k as int),
        decreases plain@.len() - k,
    {
        r.push(plain[k]);
        k += 1;
    }
    assert(r@ =~= zeros + plain@);
    assert(r@ =~= padded(n as nat, width as nat));
    r
}

/// Why a text is no unsigned number.
#[derive(Clone, Copy, Debug, PartialEq, Eq, Structural)]
pub enum NumberError {
    /// There is no digit because there is no text.
    Empty,
    /// A character is no decimal digit.
    InvalidDigit,
    /// The number does not fit in a `usize`.
    TooLarge,
}

/// The number that a run of characters denotes when `so_far` has been read
/// before it.  Reading stops at the first character that is no digit or that
/// takes the number past `usize::MAX`.
pub open spec fn read_digits(s: Seq<char>, so_far: nat) -> Result<nat, NumberError>
    decreases s.len(),
{
    if s.len() == 0 {
        Ok(so_far)
    } else {
        match digit_value(s[0]) {
            None => Err(NumberError::InvalidDigit),
            Some(d) => if so_far * 10 + d > usize::MAX {
                Err(NumberError::TooLarge)
            } else {
                read_digits(s.drop_first(), so_far * 10 + d)
            },
        }
    }
}

/// The `usize` that a text denotes: decimal digits, with one `+` allowed
/// before them.
pub open spec fn parsed_usize(s: Seq<char>) -> Result<nat, NumberError> {
    if s.len() == 0 {
        Err(NumberError::Empty)
    } else if s[0] == '+' {
        if s.len() == 1 {
            Err(NumberError::InvalidDigit)
        } else {
            read_digits(s.drop_first(), 0)
        }
    } else {
        read_digits(s, 0)
    }
}

fn digit_of(c: char) -> (r: Option<usize>)
    ensures
        match r {
            Some(d) => d < 10 && digit_value(c) == Some(d as nat),
            None => digit_value(c) is None,
        },
{
    if '0' <= c && c <= '9' {
        Some((c as u32 - '0' as u32) as usize)
    } else {
        None
    }
}

/// Reads an unsigned decimal number.
pub fn parse_usize(s: &str) -> (r: Result<usize, NumberError>)
    ensures
        match r {
            Ok(n) => parsed_usize(s@) == Ok::<nat, NumberError>(n as nat),
            Err(e) => parsed_usize(s@) == Err::<nat, NumberError>(e),
        },
{
    let chars: Vec<char> = chars_of(s);
    let n: usize = chars.len();
    if n == 0 {
        return Err(NumberError::Empty);
    }
    let mut i: usize = 0;
    if chars[0] == '+' {
        if n == 1 {
            return Err(NumberError::InvalidDigit);
        }
        i = 1;
    }
    let mut value: usize = 0;
    proof {
        assert(chars@.skip(0) =~= chars@);
        assert(chars@.skip(1) =~= chars@.drop_first());
    }
    while i < n
        invariant
            i <= n == chars@.len(),
            parsed_usize(s@) == read_digits(chars@.skip(i as int), value as nat),
        decreases n - i,
    {
        assert(chars@.skip(i as int).drop_first() =~= chars@.skip(i + 1));
        match digit_of(chars[i]) {
            None => {
                return Err(NumberError::InvalidDigit);
            },
            Some(d) => {
                if value > (usize::MAX - d) / 10 {
                    return Err(NumberError::TooLarge);
                }
                value = value * 10 + d;
            },
        }
        i += 1;
    }
    Ok(value)
}

/// Reading digits of a prefix and then the rest is reading them all.
proof fn lemma_read_concat(a: Seq<char>, b: Seq<char>, so_far: nat)
    ensures
        read_digits(a + b, so_far) == match read_digits(a, so_far) {
            Ok(v) => read_digits(b, v),
            Err(e) => Err(e),
        },
    decreases a.len(),
{
    if a.len() == 0 {
        assert(a + b =~= b);
    } else {
        assert((a + b).drop_first() =~= a.drop_first() + b);
        match digit_value(a[0]) {
            None => {},
            Some(d) => {
                if so_far * 10 + d <= usize::MAX {
                    lemma_read_concat(a.drop_first(), b, so_far * 10 + d);
                }
            },
        }
    }
}

proof fn lemma_read_decimal(n: nat)
    requires
        n <= usize::MAX,
    ensures
        read_digits(decimal(n), 0) == Ok::<nat, NumberError>(n),
        decimal(n).len() > 0,
        decimal(n)[0] != '+',
    decreases n,
{
    let d = digit((n % 10) as int);
    assert(seq![d].drop_first() =~= Seq::<char>::empty());
    reveal_with_fuel(read_digits, 2);
    if n < 10 {
        assert(decimal(n) == seq![digit(n as int)]);
    } else {
        lemma_read_decimal(n / 10);
        assert(decimal(n) =~= decimal(n / 10) + seq![d]);
        lemma_read_concat(decimal(n / 10), seq![d], 0);
    }
}

/// What `decimal_of` writes, `parse_usize` reads back.
pub proof fn law_decimal_reads_back(n: usize)
    ensures
        parsed_usize(decimal(n as nat)) == Ok::<nat, NumberError>(n as nat),
{
    lemma_read_decimal(n as nat);
}

proof fn lemma_read_zeros(n: nat)
    ensures
        read_digits(Seq::new(n, |i: int| '0'), 0) == Ok::<nat, NumberError>(0),
    decreases n,
{
    if n > 0 {
        let zeros = Seq::new(n, |i: int| '0');
        let fewer = Seq::new((n - 1) as nat, |i: int| '0');
        assert(zeros.drop_first() =~= fewer);
        lemma_read_zeros((n - 1) as nat);
    }
}

/// What `padded_of` writes, `parse_usize` reads back.
pub proof fn law_padded_reads_back(n: usize, width: nat)
    ensures
        parsed_usize(padded(n as nat, width)) == Ok::<nat, NumberError>(n as nat),
{
    law_decimal_reads_back(n);
    let plain = decimal(n as nat);
    if plain.len() < width {
        let fill = (width - plain.len()) as nat;
        let zeros = Seq::new(fill, |i: int| '0');
        lemma_read_zeros(fill);
        lemma_read_decimal(n as nat);
        lemma_read_concat(zeros, plain, 0);
        assert(padded(n as nat, width)[0] == '0');
    }
}

/// Two numbers with the same padded text are the same number.
pub proof fn law_padded_is_injective(m: usize, n: usize, width: nat)
    requires
        padded(m as nat, width) == padded(n as nat, width),
    ensures
        m == n,
{
    law_padded_reads_back(m, width);
    law_padded_reads_back(n, width);
}

/// Two numbers with the same decimal text are the same number.
pub proof fn law_decimal_is_injective(m: nat, n: nat)
    requires
        decimal(m) == decimal(n),
    ensures
        m == n,
    decreases m,
{
    if m >= 10 && n >= 10 {
        assert(decimal(m).drop_last() =~= decimal(m / 10));
        assert(decimal(n).drop_last() =~= decimal(n / 10));
        assert(decimal(m).last() == digit((m % 10) as int));
        assert(decimal(n).last() == digit((n % 10) as int));
        law_decimal_is_injective(m / 10, n / 10);
    } else {
        lemma_decimal_len(m);
        lemma_decimal_len(n);
        if m < 10 && n < 10 {
            assert(decimal(m)[0] == digit(m as int));
            assert(decimal(n)[0] == digit(n as int));
        }
    }
}

proof fn lemma_decimal_len(n: nat)
    ensures
        n < 10 <==> decimal(n).len() == 1,
        decimal(n).len() >= 1,
    decreases n,
{
    if n >= 10 {
        lemma_decimal_len(n / 10);
    }
}

} // verus!
