//! Canonical decimal numerals: the form the address grammar uses for
//! IPv4 octets and ports, with a verified bounded parser.

use vstd::prelude::*;
use vstd::string::StrSliceExecFns;

verus! {

/// Is `c` one of the digits `0` through `9`?
pub open spec fn is_dec_digit(c: char) -> bool {
    48 <= c as u32 <= 57
}

/// The numeric value of a decimal digit.
pub open spec fn digit_val(c: char) -> int {
    c as u32 - 48
}

/// Every character of `s` is a decimal digit.
pub open spec fn all_dec_digits(s: Seq<char>) -> bool {
    forall|i: int| 0 <= i < s.len() ==> is_dec_digit(#[trigger] s[i])
}

/// The numeric value of a digit string, most significant digit first.
pub open spec fn dec_value(s: Seq<char>) -> int
    decreases s.len(),
{
    if s.len() == 0 {
        0
    } else {
        10 * dec_value(s.drop_last()) + digit_val(s.last())
    }
}

/// A decimal numeral in canonical form: nonempty, digits only, and
/// without a leading zero, so that `0` is the only numeral starting
/// with `0`.
pub open spec fn is_canonical_decimal(s: Seq<char>) -> bool {
    s.len() > 0 && all_dec_digits(s) && (s.len() > 1 ==> s[0] != '0')
}

/// The text of an IPv4 octet: a canonical numeral of value at most 255.
pub open spec fn is_octet_text(s: Seq<char>) -> bool {
    is_canonical_decimal(s) && dec_value(s) <= 255
}

/// The text of a port: a canonical numeral of value at most 65535.
pub open spec fn is_port_text(s: Seq<char>) -> bool {
    is_canonical_decimal(s) && dec_value(s) <= 65535
}

/// Reading one more digit multiplies the prefix value by ten and adds
/// that digit.
pub proof fn lemma_dec_value_take_step(s: Seq<char>, i: int)
    requires
        0 <= i < s.len(),
    ensures
        dec_value(s.take(i + 1)) == 10 * dec_value(s.take(i)) + digit_val(s[i]),
{
    assert(s.take(i + 1).drop_last() =~= s.take(i));
    assert(s.take(i + 1).last() == s[i]);
}

/// The value of a digit string is never negative.
pub proof fn lemma_dec_value_nonneg(s: Seq<char>)
    requires
        all_dec_digits(s),
    ensures
        dec_value(s) >= 0,
    decreases s.len(),
{
    if s.len() > 0 {
        assert(all_dec_digits(s.drop_last())) by {
            assert forall|i: int| 0 <= i < s.drop_last().len() implies is_dec_digit(
                #[trigger] s.drop_last()[i],
            ) by {
                assert(s.drop_last()[i] == s[i]);
            }
        }
        lemma_dec_value_nonneg(s.drop_last());
        assert(is_dec_digit(s.last()));
    }
}

/// Of a digit string, every prefix has a value no larger than the whole.
pub proof fn lemma_dec_value_prefix_le(s: Seq<char>, i: int)
    requires
        all_dec_digits(s),
        0 <= i <= s.len(),
    ensures
        dec_value(s.take(i)) <= dec_value(s),
    decreases s.len() - i,
{
    if i == s.len() {
        assert(s.take(i) =~= s);
    } else {
        lemma_dec_value_take_step(s, i);
        assert(all_dec_digits(s.take(i))) by {
            assert forall|j: int| 0 <= j < s.take(i).len() implies is_dec_digit(
                #[trigger] s.take(i)[j],
            ) by {
                assert(s.take(i)[j] == s[j]);
            }
        }
        lemma_dec_value_nonneg(s.take(i));
        assert(is_dec_digit(s[i]));
        lemma_dec_value_prefix_le(s, i + 1);
    }
}

/// Parse a canonical decimal numeral of value at most `max`: the result
/// is the numeral's value exactly when the text is such a numeral, and
/// nothing otherwise.
pub fn parse_decimal_up_to(s: &str, max: u32) -> (r: Option<u32>)
    ensures
        (is_canonical_decimal(s@) && dec_value(s@) <= max) ==> r == Some(
            (dec_value(s@) as u32),
        ),
        !(is_canonical_decimal(s@) && dec_value(s@) <= max) ==> r is None,
{
    let n = s.unicode_len();
    if n == 0 {
        return None;
    }
    if n > 1 && s.get_char(0) == '0' {
        return None;
    }
    let mut i: usize = 0;
    let mut acc: u32 = 0;
    while i < n
        invariant
            0 <= i <= n,
            n == s@.len(),
            all_dec_digits(s@.take(i as int)),
            acc == dec_value(s@.take(i as int)),
            acc <= max,
            s@.len() > 0,
            s@.len() > 1 ==> s@[0] != '0',
        decreases n - i,
    {
        let c = s.get_char(i);
        let cv = c as u32;
        if cv < 48 || cv > 57 {
            proof {
                assert(!is_dec_digit(s@[i as int]));
            }
            return None;
        }
        let d = cv - 48;
        proof {
            lemma_dec_value_take_step(s@, i as int);
        }
        let next: u64 = 10 * (acc as u64) + (d as u64);
        if next > max as u64 {
            proof {
                if all_dec_digits(s@) {
                    lemma_dec_value_prefix_le(s@, i as int + 1);
                }
            }
            return None;
        }
        proof {
            assert(all_dec_digits(s@.take(i as int + 1))) by {
                assert forall|j: int| 0 <= j < i as int + 1 implies is_dec_digit(
                    #[trigger] s@.take(i as int + 1)[j],
                ) by {
                    if j < i as int {
                        assert(s@.take(i as int + 1)[j] == s@.take(i as int)[j]);
                    } else {
                        assert(s@.take(i as int + 1)[j] == s@[i as int]);
                    }
                }
            }
        }
        acc = next as u32;
        i = i + 1;
    }
    proof {
        assert(s@.take(n as int) =~= s@);
    }
    Some(acc)
}

/// Parse the text of a port number.
pub fn parse_port(s: &str) -> (r: Option<u16>)
    ensures
        is_port_text(s@) ==> r == Some((dec_value(s@) as u16)),
        !is_port_text(s@) ==> r is None,
{
    match parse_decimal_up_to(s, 65535) {
        Some(v) => {
            proof {
                lemma_dec_value_nonneg(s@);
            }
            Some(v as u16)
        },
        None => None,
    }
}

/// Parse the text of an IPv4 octet.
pub fn parse_octet(s: &str) -> (r: Option<u8>)
    ensures
        is_octet_text(s@) ==> r == Some((dec_value(s@) as u8)),
        !is_octet_text(s@) ==> r is None,
{
    match parse_decimal_up_to(s, 255) {
        Some(v) => {
            proof {
                lemma_dec_value_nonneg(s@);
            }
            Some(v as u8)
        },
        None => None,
    }
}

} // verus!
