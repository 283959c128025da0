//! Decimal text of ids: how ids are written into keys and read back from
//! expire notifications.
use vstd::prelude::*;

verus! {

/// Whether `b` is one of the bytes `0` to `9`.
pub open spec fn is_digit(b: u8) -> bool {
    48 <= b <= 57
}

/// Whether every byte of `s` is a decimal digit.
pub open spec fn all_digits(s: Seq<u8>) -> bool {
    forall|i: int| 0 <= i < s.len() ==> is_digit(#[trigger] s[i])
}

/// The decimal text of `n`: no sign, no leading zeros, `0` for zero.
pub open spec fn dec(n: nat) -> Seq<u8>
    decreases n,
{
    if n < 10 {
        seq![(48 + n) as u8]
    } else {
        dec(n / 10).push((48 + n % 10) as u8)
    }
}

/// The decimal text of a signed integer: a leading `-` for negative values.
pub open spec fn dec_signed(n: int) -> Seq<u8> {
    if n < 0 {
        seq![45u8] + dec((-n) as nat)
    } else {
        dec(n as nat)
    }
}

/// The number that a sequence of digits denotes, most significant first.
pub open spec fn digits_value(s: Seq<u8>) -> int
    decreases s.len(),
{
    if s.len() == 0 {
        0
    } else {
        digits_value(s.drop_last()) * 10 + (s.last() - 48)
    }
}

/// What an expire notification's id segment denotes: a non-zero `u64`
/// written with decimal digits only (leading zeros allowed).
pub open spec fn parse_id(s: Seq<u8>) -> Option<u64> {
    if all_digits(s) && 0 < digits_value(s) <= u64::MAX {
        Some(digits_value(s) as u64)
    } else {
        None
    }
}

/// The decimal text of `n` is a non-empty run of digits that denotes `n`.
pub proof fn lemma_dec(n: nat)
    ensures
        all_digits(dec(n)),
        dec(n).len() >= 1,
        digits_value(dec(n)) == n,
    decreases n,
{
    if n < 10 {
        assert(dec(n).drop_last() =~= Seq::<u8>::empty());
        assert(digits_value(Seq::<u8>::empty()) == 0);
        assert(digits_value(dec(n)) == digits_value(dec(n).drop_last()) * 10 + (dec(n).last() - 48));
    } else {
        lemma_dec(n / 10);
        let d = dec(n);
        assert(d.drop_last() =~= dec(n / 10));
        assert(n == (n / 10) * 10 + n % 10) by (nonlinear_arith);
        assert(d.last() == (48 + n % 10) as u8);
        assert(digits_value(d) == digits_value(d.drop_last()) * 10 + (d.last() - 48));
        assert(all_digits(d)) by {
            assert forall|i: int| 0 <= i < d.len() implies is_digit(#[trigger] d[i]) by {
                if i < d.len() - 1 {
                    assert(d[i] == dec(n / 10)[i]);
                }
            }
        }
    }
}

/// A prefix of a run of digits never denotes more than the whole run.
pub proof fn lemma_digits_prefix_le(s: Seq<u8>, i: int)
    requires
        all_digits(s),
        0 <= i <= s.len(),
    ensures
        0 <= digits_value(s.take(i)) <= digits_value(s),
    decreases s.len() - i,
{
    lemma_digits_nonneg(s.take(i));
    if i < s.len() {
        lemma_digits_prefix_le(s, (i + 1) as int);
        assert(s.take(i + 1).drop_last() =~= s.take(i));
        assert(is_digit(s[i]));
    } else {
        assert(s.take(i) =~= s);
    }
}

/// A run of digits denotes a non-negative number.
pub proof fn lemma_digits_nonneg(s: Seq<u8>)
    requires
        all_digits(s),
    ensures
        digits_value(s) >= 0,
    decreases s.len(),
{
    if s.len() > 0 {
        assert(all_digits(s.drop_last())) by {
            assert forall|i: int| 0 <= i < s.drop_last().len() implies is_digit(
                #[trigger] s.drop_last()[i],
            ) by {
                assert(s.drop_last()[i] == s[i]);
            }
        }
        lemma_digits_nonneg(s.drop_last());
        assert(is_digit(s[s.len() - 1]));
    }
}

/// Reading the decimal text of an id gives the id back; zero is refused.
pub proof fn lemma_parse_dec(n: u64)
    ensures
        parse_id(dec(n as nat)) == (if n == 0 {
            None::<u64>
        } else {
            Some(n)
        }),
{
    lemma_dec(n as nat);
}

/// Writes the decimal text of `n`, as the `itoa` crate formats it.
///
/// The contract claims of `itoa::Buffer::format` that it writes the shortest
/// decimal text of an unsigned integer, without sign or leading zeros.
#[verifier::external_body]
pub(crate) fn format_u64(n: u64) -> (s: Vec<u8>)
    ensures
        s@ == dec(n as nat),
{
    let mut buf = itoa::Buffer::new();
    buf.format(n).as_bytes().to_vec()
}

/// Parses a non-zero id from its decimal text.
///
/// Returns `None` if a byte is not a digit, if the number exceeds `u64::MAX`,
/// or if it is zero (ids are never zero).
pub fn atoi(bytes: &[u8]) -> (res: Option<u64>)
    ensures
        res == parse_id(bytes@),
{
    let mut n: u64 = 0;
    let mut i: usize = 0;
    while i < bytes.len()
        invariant
            i <= bytes@.len(),
            all_digits(bytes@.take(i as int)),
            n == digits_value(bytes@.take(i as int)),
        decreases bytes@.len() - i,
    {
        let b = bytes[i];
        if !(48 <= b && b <= 57) {
            assert(!all_digits(bytes@)) by {
                assert(!is_digit(bytes@[i as int]));
            }
            return None;
        }
        let ghost s = bytes@;
        assert(s.take(i + 1).drop_last() =~= s.take(i as int));
        let digit: u64 = (b - 48) as u64;
        let next = match n.checked_mul(10) {
            Some(m) => m.checked_add(digit),
            None => None,
        };
        match next {
            Some(m) => {
                n = m;
                assert(all_digits(s.take(i + 1))) by {
                    assert forall|j: int| 0 <= j < s.take(i + 1).len() implies is_digit(
                        #[trigger] s.take(i + 1)[j],
                    ) by {
                        if j < i {
                            assert(s.take(i + 1)[j] == s.take(i as int)[j]);
                        }
                    }
                }
            },
            None => {
                proof {
                    if all_digits(s) {
                        lemma_digits_prefix_le(s, i + 1);
                    }
                }
                return None;
            },
        }
        i = i + 1;
    }
    assert(bytes@.take(i as int) =~= bytes@);
    if n == 0 {
        None
    } else {
        Some(n)
    }
}

} // verus!
