//! The lexical primitives: signed 64-bit integer literals and
//! identifiers, read directly from the input bytes.

use vstd::prelude::*;

use crate::grammar::{
    self, chars_of, digits_value, lemma_digits_value_monotonic, lemma_scan_digits_bounds,
    lemma_scan_identifier_bounds, scan_digits, scan_identifier,
};
use crate::parser::helper_combinators::{byte_is_digit, byte_is_identifier_char,
    byte_is_identifier_start};
use crate::parser::{parse_matches, SyntaxError};

verus! {

/// Relies on String::from_utf8: ASCII bytes decode to exactly those
/// bytes' characters.
#[verifier::external_body]
fn ascii_to_string(s: &[u8], start: usize, end: usize) -> (r: String)
    requires
        start <= end && end <= s@.len(),
        forall|i: int| start <= i < end ==> s@[i] < 128,
    ensures
        r@ == chars_of(s@.subrange(start as int, end as int)),
{
    String::from_utf8(s[start..end].to_vec()).unwrap_or_default()
}

/// integer <- "-"? digit+, rejecting values outside the signed 64-bit
/// range. The magnitude is accumulated downward so that the most
/// negative value is reachable.
#[verifier::loop_isolation(false)]
pub fn integer(s: &[u8], pos: usize) -> (r: Result<(usize, i64), SyntaxError>)
    requires
        pos <= s@.len(),
    ensures
        parse_matches(r, grammar::integer(s@, pos as int)),
        r matches Ok((next, _)) ==> pos < next && next <= s@.len(),
{
    let negative = pos < s.len() && s[pos] == ('-' as u8);
    let dstart = if negative {
        pos + 1
    } else {
        pos
    };
    proof {
        lemma_scan_digits_bounds(s@, dstart as int);
    }
    let ghost dend = scan_digits(s@, dstart as int);
    let mut p = dstart;
    let mut acc: i64 = 0;
    while p < s.len() && byte_is_digit(s[p])
        invariant
            dstart <= p <= s@.len(),
            scan_digits(s@, dstart as int) == scan_digits(s@, p as int),
            acc as int == -digits_value(s@, dstart as int, p as int),
        decreases s@.len() - p,
    {
        let d = s[p] - ('0' as u8);
        let stepped = match acc.checked_mul(10) {
            Option::Some(a) => a.checked_sub(d as i64),
            Option::None => Option::None,
        };
        match stepped {
            Option::Some(a) => {
                proof {
                    assert(digits_value(s@, dstart as int, p as int + 1) == digits_value(
                        s@,
                        dstart as int,
                        p as int,
                    ) * 10 + (s@[p as int] - ('0' as u8)));
                }
                acc = a;
            },
            Option::None => {
                // these digits already overflow the range, so the whole
                // literal does
                proof {
                    assert(digits_value(s@, dstart as int, p as int + 1) == digits_value(
                        s@,
                        dstart as int,
                        p as int,
                    ) * 10 + (s@[p as int] - ('0' as u8)));
                    assert(scan_digits(s@, p as int) == scan_digits(s@, p as int + 1));
                    lemma_scan_digits_bounds(s@, p as int + 1);
                    lemma_digits_value_monotonic(s@, dstart as int, p as int + 1, dend);
                }
                return Err(SyntaxError { position: pos });
            },
        }
        p = p + 1;
    }
    proof {
        assert(scan_digits(s@, p as int) == p as int);
    }
    if p == dstart {
        return Err(SyntaxError { position: pos });
    }
    if negative {
        Ok((p, acc))
    } else {
        match (0 as i64).checked_sub(acc) {
            Option::Some(v) => Ok((p, v)),
            Option::None => Err(SyntaxError { position: pos }),
        }
    }
}

/// identifier <- (alpha / "_") (alphanumeric / "_")*, longest match.
#[verifier::loop_isolation(false)]
pub fn identifier(s: &[u8], pos: usize) -> (r: Result<(usize, String), SyntaxError>)
    requires
        pos <= s@.len(),
    ensures
        parse_matches(r, grammar::identifier(s@, pos as int)),
        r matches Ok((next, _)) ==> pos < next && next <= s@.len(),
{
    if pos < s.len() && byte_is_identifier_start(s[pos]) {
        proof {
            lemma_scan_identifier_bounds(s@, pos as int + 1);
        }
        let mut p = pos + 1;
        while p < s.len() && byte_is_identifier_char(s[p])
            invariant
                pos + 1 <= p <= s@.len(),
                scan_identifier(s@, pos as int + 1) == scan_identifier(s@, p as int),
            decreases s@.len() - p,
        {
            p = p + 1;
        }
        proof {
            assert(scan_identifier(s@, p as int) == p as int);
            assert forall|i: int| pos as int <= i < p as int implies s@[i] < 128 by {
                if i > pos as int {
                    assert(grammar::is_identifier_char(s@[i]));
                }
            }
        }
        let name = ascii_to_string(s, pos, p);
        Ok((p, name))
    } else {
        Err(SyntaxError { position: pos })
    }
}

} // verus!
