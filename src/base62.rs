//! Base62 numerals of 32-bit integers, over the alphabet
//! `0123456789abcdefghijklmnopqrstuvwxyzABCDEFGHIJKLMNOPQRSTUVWXYZ`.
use vstd::prelude::*;

verus! {

/// The symbol of digit value `d` (`0 <= d < 62`).
pub open spec fn digit_char(d: nat) -> char {
    if d < 10 {
        (48 + d) as u32 as char
    } else if d < 36 {
        (97 + d - 10) as u32 as char
    } else {
        (65 + d - 36) as u32 as char
    }
}

/// The digit value of a base62 symbol.
pub open spec fn digit_value(c: char) -> nat {
    let u = c as u32;
    if 48 <= u <= 57 {
        (u - 48) as nat
    } else if 97 <= u <= 122 {
        (u - 97 + 10) as nat
    } else if 65 <= u <= 90 {
        (u - 65 + 36) as nat
    } else {
        0
    }
}

/// The numeral of `n`: most significant digit first, no leading zero, and
/// `"0"` for zero.
pub open spec fn base62(n: nat) -> Seq<char>
    decreases n,
{
    if n < 62 {
        seq![digit_char(n)]
    } else {
        base62(n / 62).push(digit_char(n % 62))
    }
}

/// The number that a sequence of base62 symbols denotes.
pub open spec fn numeral_value(s: Seq<char>) -> nat
    decreases s.len(),
{
    if s.len() == 0 {
        0
    } else {
        numeral_value(s.drop_last()) * 62 + digit_value(s.last())
    }
}

/// Every symbol is an ASCII letter or digit.
pub open spec fn is_alphanumeric(s: Seq<char>) -> bool {
    forall|i: int|
        0 <= i < s.len() ==> {
            let u = #[trigger] s[i] as u32;
            (48 <= u <= 57) || (97 <= u <= 122) || (65 <= u <= 90)
        }
}

/// Each digit's symbol is an ASCII letter or digit, and reads back as the
/// digit.
pub proof fn lemma_digit_round_trip(d: nat)
    requires
        d < 62,
    ensures
        digit_value(digit_char(d)) == d,
        (digit_char(d) as u32) < 128,
        ({
            let u = digit_char(d) as u32;
            (48 <= u <= 57) || (97 <= u <= 122) || (65 <= u <= 90)
        }),
{
}

/// Reading the numeral of `n` gives `n` back; the numeral is not empty,
/// holds letters and digits only, and has no leading zero.
pub proof fn lemma_base62_value(n: nat)
    ensures
        numeral_value(base62(n)) == n,
        base62(n).len() >= 1,
        is_alphanumeric(base62(n)),
        n > 0 ==> base62(n)[0] != '0',
    decreases n,
{
    if n < 62 {
        lemma_digit_round_trip(n);
        assert(base62(n).drop_last() =~= Seq::<char>::empty());
        assert(numeral_value(Seq::<char>::empty()) == 0);
        assert(numeral_value(base62(n)) == numeral_value(Seq::<char>::empty()) * 62 + digit_value(
            digit_char(n),
        ));
    } else {
        lemma_base62_value(n / 62);
        lemma_digit_round_trip(n % 62);
        let s = base62(n);
        assert(s.drop_last() =~= base62(n / 62));
        assert(s[0] == base62(n / 62)[0]);
        assert(s.last() == digit_char(n % 62));
        assert(n == (n / 62) * 62 + n % 62) by (nonlinear_arith);
        assert(numeral_value(s) == numeral_value(base62(n / 62)) * 62 + digit_value(
            digit_char(n % 62),
        ));
        assert(is_alphanumeric(s)) by {
            assert forall|i: int| 0 <= i < s.len() implies {
                let u = #[trigger] s[i] as u32;
                (48 <= u <= 57) || (97 <= u <= 122) || (65 <= u <= 90)
            } by {
                if i < s.len() - 1 {
                    assert(s[i] == base62(n / 62)[i]);
                }
            }
        }
    }
}

/// Distinct numbers have distinct numerals.
pub proof fn lemma_base62_injective(i: nat, j: nat)
    requires
        i != j,
    ensures
        base62(i) != base62(j),
{
    lemma_base62_value(i);
    lemma_base62_value(j);
}

/// The error type of the numeral encoder, carried as an opaque value.
#[verifier::external_type_specification]
#[verifier::external_body]
pub struct ExEncodingError(ascii_basing::encoding::EncodingError);

/// Relies on ascii_basing::encoding::encode: it writes the digits of `n` in
/// base 62, most significant first, over the alphabet above, with `"0"` for
/// zero, and never returns its error for a `u32`.
#[verifier::external_body]
fn encode_numeral(n: u32) -> (r: Result<String, ascii_basing::encoding::EncodingError>)
    ensures
        r.is_ok(),
        r.unwrap()@ == base62(n as nat),
{
    ascii_basing::encoding::encode(n, None)
}

/// The base62 numeral of `n`.
pub fn encode(n: u32) -> (r: String)
    ensures
        r@ == base62(n as nat),
{
    match encode_numeral(n) {
        Ok(s) => s,
        Err(_) => {
            proof {
                assert(false);
            }
            String::new()
        },
    }
}

} // verus!
