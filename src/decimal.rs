//! Unsigned decimal numbers written as ASCII digits.
use vstd::prelude::*;

verus! {

/// The bytes `'0'` to `'9'`.
pub open spec fn is_digit_byte(b: u8) -> bool {
    48 <= b && b <= 57
}

/// The ASCII bytes of a string whose characters are all ASCII.
pub open spec fn ascii_bytes(s: Seq<char>) -> Seq<u8> {
    s.map_values(|c: char| c as u8)
}

/// The decimal spelling of `n`: most significant digit first, no leading zero.
pub open spec fn decimal_digits(n: nat) -> Seq<u8>
    decreases n,
{
    if n < 10 {
        seq![(n + 48) as u8]
    } else {
        decimal_digits(n / 10).push((n % 10 + 48) as u8)
    }
}

/// The number that a run of decimal digits spells.
pub open spec fn digits_value(s: Seq<u8>) -> nat
    decreases s.len(),
{
    if s.len() == 0 {
        0
    } else {
        digits_value(s.drop_last()) * 10 + (s.last() - 48) as nat
    }
}

/// How many decimal digits `s` starts with.
pub open spec fn digit_run_len(s: Seq<u8>) -> nat
    decreases s.len(),
{
    if s.len() > 0 && is_digit_byte(s[0]) {
        1 + digit_run_len(s.drop_first())
    } else {
        0
    }
}

/// The number written in `s` from `pos` on, as long a run of digits as there is:
/// its value and the position after its last digit; `None` where no digit stands
/// at `pos` or the value does not fit in 64 bits.
pub open spec fn number_at(s: Seq<u8>, pos: int) -> Option<(u64, int)> {
    let k = digit_run_len(s.subrange(pos, s.len() as int));
    let v = digits_value(s.subrange(pos, pos + k));
    if k == 0 || v > u64::MAX {
        None
    } else {
        Some((v as u64, pos + k))
    }
}

pub fn is_digit(b: u8) -> (r: bool)
    ensures
        r == is_digit_byte(b),
{
    48 <= b && b <= 57
}

/// The spelling of a number is a non-empty run of digits that spells it.
pub proof fn lemma_decimal_digits(n: nat)
    ensures
        decimal_digits(n).len() >= 1,
        forall|i: int| 0 <= i < decimal_digits(n).len() ==> is_digit_byte(#[trigger] decimal_digits(n)[i]),
        digits_value(decimal_digits(n)) == n,
    decreases n,
{
    if n >= 10 {
        lemma_decimal_digits(n / 10);
        assert(decimal_digits(n).drop_last() =~= decimal_digits(n / 10));
        assert(((n % 10 + 48) as u8) as int == n % 10 + 48);
        assert((n / 10) * 10 + n % 10 == n) by (nonlinear_arith);
    } else {
        assert(decimal_digits(n).drop_last() =~= Seq::<u8>::empty());
        assert(digits_value(Seq::<u8>::empty()) == 0);
    }
}

/// A run of digits followed by anything but a digit is a run of that length.
pub proof fn lemma_run_len_of_digits(d: Seq<u8>, rest: Seq<u8>)
    requires
        forall|i: int| 0 <= i < d.len() ==> is_digit_byte(#[trigger] d[i]),
        rest.len() == 0 || !is_digit_byte(rest[0]),
    ensures
        digit_run_len(d + rest) == d.len(),
    decreases d.len(),
{
    if d.len() > 0 {
        assert((d + rest).drop_first() =~= d.drop_first() + rest);
        lemma_run_len_of_digits(d.drop_first(), rest);
    } else {
        assert(d + rest =~= rest);
    }
}

/// Where the spelling of `n` stands at `pos`, followed by a byte that is no digit,
/// `number_at` reads `n` back.
pub proof fn lemma_number_at_spelling(s: Seq<u8>, pos: int, n: u64, rest: Seq<u8>)
    requires
        0 <= pos <= s.len(),
        s.subrange(pos, s.len() as int) == decimal_digits(n as nat) + rest,
        rest.len() > 0,
        !is_digit_byte(rest[0]),
    ensures
        number_at(s, pos) == Some((n, pos + decimal_digits(n as nat).len())),
{
    let d = decimal_digits(n as nat);
    lemma_decimal_digits(n as nat);
    lemma_run_len_of_digits(d, rest);
    assert(s.subrange(pos, pos + d.len()) =~= d) by {
        assert forall|i: int| 0 <= i < d.len() implies s.subrange(pos, pos + d.len())[i] == d[i] by {
            assert(s.subrange(pos, s.len() as int)[i] == (d + rest)[i]);
        }
    }
}

/// Appends the decimal spelling of `n`.
pub fn push_decimal(out: &mut Vec<u8>, n: u64)
    ensures
        final(out)@ == old(out)@ + decimal_digits(n as nat),
    decreases n,
{
    if n >= 10 {
        push_decimal(out, n / 10);
    }
    out.push((n % 10) as u8 + 48);
    assert(final(out)@ =~= old(out)@ + decimal_digits(n as nat));
}

/// Reads the number written at `pos` (see `number_at`).
pub fn parse_number(b: &[u8], pos: usize) -> (r: Option<(u64, usize)>)
    requires
        pos <= b@.len(),
    ensures
        match r {
            Some((v, e)) => number_at(b@, pos as int) == Some((v, e as int)),
            None => number_at(b@, pos as int) is None,
        },
{
    let ghost len = b@.len() as int;
    let mut i: usize = pos;
    let mut acc: u64 = 0;
    let mut overflow = false;
    while i < b.len() && is_digit(b[i])
        invariant
            pos <= i <= len,
            len == b@.len(),
            digit_run_len(b@.subrange(pos as int, len)) == (i - pos) + digit_run_len(
                b@.subrange(i as int, len),
            ),
            !overflow ==> acc == digits_value(b@.subrange(pos as int, i as int)),
            overflow ==> digits_value(b@.subrange(pos as int, i as int)) > u64::MAX,
        decreases len - i,
    {
        let d = (b[i] - 48) as u64;
        let ghost before = b@.subrange(pos as int, i as int);
        let ghost after = b@.subrange(pos as int, i + 1);
        assert(after.drop_last() =~= before);
        assert(b@.subrange(i as int, len).drop_first() =~= b@.subrange(i + 1, len));
        if !overflow {
            match acc.checked_mul(10) {
                Some(t) => match t.checked_add(d) {
                    Some(u) => {
                        acc = u;
                    },
                    None => {
                        overflow = true;
                    },
                },
                None => {
                    overflow = true;
                },
            }
        }
        i += 1;
    }
    if i == pos || overflow {
        None
    } else {
        Some((acc, i))
    }
}

} // verus!
