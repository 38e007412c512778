//! What writing and reading numbers promise, digit by digit.

use vstd::prelude::*;
use crate::number::{
    decimal, digit_value, padded, parsed_usize, read_digits, NumberError,
};

verus! {

/// A number below ten is one digit; any other is the number without its last
/// digit, and that digit.
pub proof fn law_decimals_grow_by_a_digit(n: nat, d: nat)
    requires
        d < 10,
    ensures
        decimal(d) == seq![(48 + d) as char],
        n > 0 ==> decimal(10 * n + d) == decimal(n).push((48 + d) as char),
{
    assert((10 * n + d) / 10 == n);
    assert((10 * n + d) % 10 == d);
    assert(decimal(d) =~= seq![(48 + d) as char]);
}

/// A padded number ends with its decimal form, has nothing but zeros before
/// it, and is no longer than the width asks for or the number needs.
pub proof fn law_padding(n: nat, width: nat, i: int)
    ensures
        padded(n, width).len() == if decimal(n).len() < width {
            width
        } else {
            decimal(n).len()
        },
        padded(n, width).skip(padded(n, width).len() - decimal(n).len()) == decimal(n),
        0 <= i < padded(n, width).len() - decimal(n).len() ==> padded(n, width)[i] == '0',
{
    let p = padded(n, width);
    assert(p.skip(p.len() - decimal(n).len()) =~= decimal(n));
}

proof fn lemma_read_push(s: Seq<char>, c: char, so_far: nat)
    ensures
        read_digits(s.push(c), so_far) == match read_digits(s, so_far) {
            Ok(v) => read_digits(seq![c], v),
            Err(e) => Err(e),
        },
    decreases s.len(),
{
    let t = s.push(c);
    if s.len() == 0 {
        assert(t =~= seq![c]);
    } else {
        assert(t.drop_first() =~= s.drop_first().push(c));
        match digit_value(s[0]) {
            None => {},
            Some(d) => {
                if so_far * 10 + d <= usize::MAX {
                    lemma_read_push(s.drop_first(), c, so_far * 10 + d);
                }
            },
        }
    }
}

/// Reading one more character of a number: a digit multiplies what was read by
/// ten and adds itself, unless that is too large; anything else is no number,
/// and what was no number stays none.  A plus sign may stand at the start.
pub proof fn law_numbers_are_read_digit_by_digit(s: Seq<char>, c: char)
    ensures
        parsed_usize(Seq::empty()) == Err::<nat, NumberError>(NumberError::Empty),
        48 <= c as u32 <= 57 ==> parsed_usize(seq![c]) == Ok::<nat, NumberError>(
            (c as u32 - 48) as nat,
        ),
        !(48 <= c as u32 <= 57) ==> parsed_usize(seq![c]) == Err::<nat, NumberError>(
            NumberError::InvalidDigit,
        ),
        parsed_usize(seq!['+', c]) == parsed_usize(
            if c == '+' {
                seq!['-']
            } else {
                seq![c]
            },
        ),
        parsed_usize(s) is Ok ==> parsed_usize(s.push(c)) == if !(48 <= c as u32 <= 57) {
            Err::<nat, NumberError>(NumberError::InvalidDigit)
        } else if parsed_usize(s)->Ok_0 * 10 + (c as u32 - 48) > usize::MAX {
            Err::<nat, NumberError>(NumberError::TooLarge)
        } else {
            Ok::<nat, NumberError>((parsed_usize(s)->Ok_0 * 10 + (c as u32 - 48)) as nat)
        },
        parsed_usize(s) is Err && s.len() > 0 && s != seq!['+'] ==> parsed_usize(s.push(c))
            == parsed_usize(s),
{
    let one = seq![c];
    assert(one.drop_first() =~= Seq::<char>::empty());
    assert(seq!['-'].drop_first() =~= Seq::<char>::empty());
    assert(seq!['+', c].drop_first() =~= one);
    reveal_with_fuel(read_digits, 2);
    if s.len() > 0 {
        let t = s.push(c);
        if s[0] == '+' {
            assert(t[0] == '+');
            assert(t.drop_first() =~= s.drop_first().push(c));
            if s.len() == 1 {
                assert(s =~= seq!['+']);
            } else {
                lemma_read_push(s.drop_first(), c, 0);
            }
        } else {
            assert(t[0] == s[0]);
            lemma_read_push(s, c, 0);
        }
    }
}

} // verus!
