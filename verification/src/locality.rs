//! The expression grammar reads only the bytes from its start position
//! on: parsing the same suffix, wherever it stands, gives the same tree
//! with all positions shifted alike. The payoff is the law at the
//! bottom: leading whitespace around an expression does not change
//! what it parses to.

use vstd::prelude::*;

use crate::ast::ExpressionV;
use crate::grammar::{
    additive, additive_operator, additive_tail, byte_at, call_args, call_args_tail, comparative,
    comparative_tail, comparison_operator, digits_value, expression, function_call, identifier,
    integer, lemma_skip_ws_bounds, multiplicative_operator, multitive, multitive_tail,
    paren_expression, primary, scan_digits, scan_identifier, skip_ws, ParseOut,
};

verus! {

/// Two inputs that hold the same bytes from the given positions on.
pub open spec fn same_suffix(s1: Seq<u8>, pos1: int, s2: Seq<u8>, pos2: int) -> bool {
    &&& 0 <= pos1 <= s1.len()
    &&& 0 <= pos2 <= s2.len()
    &&& s1.len() - pos1 == s2.len() - pos2
    &&& forall|i: int| pos1 <= i < s1.len() ==> #[trigger] s1[i] == s2[i + pos2 - pos1]
}

/// One parse, displaced by `d` positions: the same match or failure,
/// the same value, every position moved by `d`.
pub open spec fn shifted<T>(a: ParseOut<T>, b: ParseOut<T>, d: int) -> bool {
    match (a, b) {
        (ParseOut::Matched { next: n1, v: v1 }, ParseOut::Matched { next: n2, v: v2 }) => n2 == n1
            + d && v2 == v1,
        (ParseOut::Failed { at: a1 }, ParseOut::Failed { at: a2 }) => a2 == a1 + d,
        _ => false,
    }
}

pub proof fn lemma_same_suffix_advance(s1: Seq<u8>, pos1: int, s2: Seq<u8>, pos2: int, k: int)
    requires
        same_suffix(s1, pos1, s2, pos2),
        0 <= k <= s1.len() - pos1,
    ensures
        same_suffix(s1, pos1 + k, s2, pos2 + k),
{
}

pub proof fn lemma_skip_ws_local(s1: Seq<u8>, pos1: int, s2: Seq<u8>, pos2: int)
    requires
        same_suffix(s1, pos1, s2, pos2),
    ensures
        skip_ws(s2, pos2) == skip_ws(s1, pos1) + pos2 - pos1,
    decreases s1.len() - pos1,
{
    if pos1 < s1.len() && crate::grammar::is_space(s1[pos1]) {
        lemma_same_suffix_advance(s1, pos1, s2, pos2, 1);
        lemma_skip_ws_local(s1, pos1 + 1, s2, pos2 + 1);
    }
}

pub proof fn lemma_scan_digits_local(s1: Seq<u8>, pos1: int, s2: Seq<u8>, pos2: int)
    requires
        same_suffix(s1, pos1, s2, pos2),
    ensures
        scan_digits(s2, pos2) == scan_digits(s1, pos1) + pos2 - pos1,
    decreases s1.len() - pos1,
{
    if pos1 < s1.len() && crate::grammar::is_digit(s1[pos1]) {
        lemma_same_suffix_advance(s1, pos1, s2, pos2, 1);
        lemma_scan_digits_local(s1, pos1 + 1, s2, pos2 + 1);
    }
}

pub proof fn lemma_scan_identifier_local(s1: Seq<u8>, pos1: int, s2: Seq<u8>, pos2: int)
    requires
        same_suffix(s1, pos1, s2, pos2),
    ensures
        scan_identifier(s2, pos2) == scan_identifier(s1, pos1) + pos2 - pos1,
    decreases s1.len() - pos1,
{
    if pos1 < s1.len() && crate::grammar::is_identifier_char(s1[pos1]) {
        lemma_same_suffix_advance(s1, pos1, s2, pos2, 1);
        lemma_scan_identifier_local(s1, pos1 + 1, s2, pos2 + 1);
    }
}

pub proof fn lemma_digits_value_local(
    s1: Seq<u8>,
    pos1: int,
    s2: Seq<u8>,
    pos2: int,
    start: int,
    end: int,
)
    requires
        same_suffix(s1, pos1, s2, pos2),
        pos1 <= start <= end <= s1.len(),
    ensures
        digits_value(s2, start + pos2 - pos1, end + pos2 - pos1) == digits_value(s1, start, end),
    decreases end - start,
{
    if start < end {
        lemma_digits_value_local(s1, pos1, s2, pos2, start, end - 1);
    }
}

pub proof fn lemma_integer_local(s1: Seq<u8>, pos1: int, s2: Seq<u8>, pos2: int)
    requires
        same_suffix(s1, pos1, s2, pos2),
    ensures
        shifted(integer(s1, pos1), integer(s2, pos2), pos2 - pos1),
        integer(s1, pos1) matches ParseOut::Matched { next: n, v: _ } ==> pos1 <= n <= s1.len(),
{
    let d = pos2 - pos1;
    assert(byte_at(s2, pos2, ('-' as u8)) == byte_at(s1, pos1, ('-' as u8)));
    if byte_at(s1, pos1, ('-' as u8)) {
        lemma_same_suffix_advance(s1, pos1, s2, pos2, 1);
        lemma_scan_digits_local(s1, pos1 + 1, s2, pos2 + 1);
        crate::grammar::lemma_scan_digits_bounds(s1, pos1 + 1);
        lemma_digits_value_local(s1, pos1, s2, pos2, pos1 + 1, scan_digits(s1, pos1 + 1));
    } else {
        lemma_scan_digits_local(s1, pos1, s2, pos2);
        crate::grammar::lemma_scan_digits_bounds(s1, pos1);
        lemma_digits_value_local(s1, pos1, s2, pos2, pos1, scan_digits(s1, pos1));
    }
}

pub proof fn lemma_identifier_local(s1: Seq<u8>, pos1: int, s2: Seq<u8>, pos2: int)
    requires
        same_suffix(s1, pos1, s2, pos2),
    ensures
        shifted(identifier(s1, pos1), identifier(s2, pos2), pos2 - pos1),
        identifier(s1, pos1) matches ParseOut::Matched { next: n, v: _ } ==> pos1 <= n
            <= s1.len(),
{
    let d = pos2 - pos1;
    if pos1 < s1.len() && crate::grammar::is_identifier_start(s1[pos1]) {
        lemma_same_suffix_advance(s1, pos1, s2, pos2, 1);
        lemma_scan_identifier_local(s1, pos1 + 1, s2, pos2 + 1);
        crate::grammar::lemma_scan_identifier_bounds(s1, pos1 + 1);
        let end = scan_identifier(s1, pos1 + 1);
        assert(s1.subrange(pos1, end) =~= s2.subrange(pos2, end + d));
    }
}

pub proof fn lemma_comparison_operator_local(s1: Seq<u8>, pos1: int, s2: Seq<u8>, pos2: int)
    requires
        same_suffix(s1, pos1, s2, pos2),
    ensures
        shifted(comparison_operator(s1, pos1), comparison_operator(s2, pos2), pos2 - pos1),
        comparison_operator(s1, pos1) matches ParseOut::Matched { next: n, v: _ } ==> pos1 <= n
            <= s1.len(),
{
    let d = pos2 - pos1;
    lemma_skip_ws_local(s1, pos1, s2, pos2);
    lemma_skip_ws_bounds(s1, pos1);
    let p = skip_ws(s1, pos1);
    lemma_same_suffix_advance(s1, pos1, s2, pos2, p - pos1);
    if p < s1.len() {
        lemma_same_suffix_advance(s1, p, s2, p + d, 1);
        lemma_skip_ws_local(s1, p + 1, s2, p + d + 1);
        lemma_skip_ws_bounds(s1, p + 1);
        if p + 1 < s1.len() {
            lemma_same_suffix_advance(s1, p + 1, s2, p + d + 1, 1);
            lemma_skip_ws_local(s1, p + 2, s2, p + d + 2);
            lemma_skip_ws_bounds(s1, p + 2);
        }
    }
}

pub proof fn lemma_additive_operator_local(s1: Seq<u8>, pos1: int, s2: Seq<u8>, pos2: int)
    requires
        same_suffix(s1, pos1, s2, pos2),
    ensures
        shifted(additive_operator(s1, pos1), additive_operator(s2, pos2), pos2 - pos1),
        additive_operator(s1, pos1) matches ParseOut::Matched { next: n, v: _ } ==> pos1 <= n
            <= s1.len(),
{
    let d = pos2 - pos1;
    lemma_skip_ws_local(s1, pos1, s2, pos2);
    lemma_skip_ws_bounds(s1, pos1);
    let p = skip_ws(s1, pos1);
    lemma_same_suffix_advance(s1, pos1, s2, pos2, p - pos1);
    if p < s1.len() {
        lemma_same_suffix_advance(s1, p, s2, p + d, 1);
        lemma_skip_ws_local(s1, p + 1, s2, p + d + 1);
        lemma_skip_ws_bounds(s1, p + 1);
    }
}

pub proof fn lemma_multiplicative_operator_local(s1: Seq<u8>, pos1: int, s2: Seq<u8>, pos2: int)
    requires
        same_suffix(s1, pos1, s2, pos2),
    ensures
        shifted(multiplicative_operator(s1, pos1), multiplicative_operator(s2, pos2), pos2 - pos1),
        multiplicative_operator(s1, pos1) matches ParseOut::Matched { next: n, v: _ } ==> pos1
            <= n <= s1.len(),
{
    let d = pos2 - pos1;
    lemma_skip_ws_local(s1, pos1, s2, pos2);
    lemma_skip_ws_bounds(s1, pos1);
    let p = skip_ws(s1, pos1);
    lemma_same_suffix_advance(s1, pos1, s2, pos2, p - pos1);
    if p < s1.len() {
        lemma_same_suffix_advance(s1, p, s2, p + d, 1);
        lemma_skip_ws_local(s1, p + 1, s2, p + d + 1);
        lemma_skip_ws_bounds(s1, p + 1);
    }
}

pub proof fn lemma_paren_expression_local(s1: Seq<u8>, pos1: int, s2: Seq<u8>, pos2: int)
    requires
        same_suffix(s1, pos1, s2, pos2),
    ensures
        shifted(paren_expression(s1, pos1), paren_expression(s2, pos2), pos2 - pos1),
        paren_expression(s1, pos1) matches ParseOut::Matched { next: n, v: _ } ==> pos1 <= n
            <= s1.len(),
    decreases s1.len() - pos1, 1int,
{
    let d = pos2 - pos1;
    assert(byte_at(s2, pos2, ('(' as u8)) == byte_at(s1, pos1, ('(' as u8)));
    if byte_at(s1, pos1, ('(' as u8)) {
        assert(skip_ws(s2, pos2 + 1) == skip_ws(s1, pos1 + 1) + d && pos1 + 1 <= skip_ws(
            s1,
            pos1 + 1,
        ) <= s1.len()) by {
            lemma_same_suffix_advance(s1, pos1, s2, pos2, 1);
            lemma_skip_ws_local(s1, pos1 + 1, s2, pos2 + 1);
            lemma_skip_ws_bounds(s1, pos1 + 1);
        }
        let p = skip_ws(s1, pos1 + 1);
        if p > pos1 && p <= s1.len() {
            assert(shifted(expression(s1, p), expression(s2, p + d), d) && (expression(s1, p)
                matches ParseOut::Matched { next: n, v: _ } ==> p <= n <= s1.len())) by {
                lemma_same_suffix_advance(s1, pos1, s2, pos2, p - pos1);
                lemma_expression_local(s1, p, s2, p + d);
            }
            match expression(s1, p) {
                ParseOut::Matched { next, v: _ } => {
                    assert(skip_ws(s2, next + d) == skip_ws(s1, next) + d && next <= skip_ws(
                        s1,
                        next,
                    ) <= s1.len()) by {
                        lemma_same_suffix_advance(s1, pos1, s2, pos2, next - pos1);
                        lemma_skip_ws_local(s1, next, s2, next + d);
                        lemma_skip_ws_bounds(s1, next);
                    }
                    let p2 = skip_ws(s1, next);
                    assert(byte_at(s2, p2 + d, (')' as u8)) == byte_at(s1, p2, (')' as u8)));
                },
                ParseOut::Failed { at: _ } => {},
            }
        }
    }
}

pub proof fn lemma_function_call_local(s1: Seq<u8>, pos1: int, s2: Seq<u8>, pos2: int)
    requires
        same_suffix(s1, pos1, s2, pos2),
    ensures
        shifted(function_call(s1, pos1), function_call(s2, pos2), pos2 - pos1),
        function_call(s1, pos1) matches ParseOut::Matched { next: n, v: _ } ==> pos1 <= n
            <= s1.len(),
    decreases s1.len() - pos1, 2int,
{
    let d = pos2 - pos1;
    lemma_identifier_local(s1, pos1, s2, pos2);
    match identifier(s1, pos1) {
        ParseOut::Matched { next, v: name } => {
            lemma_function_call_after_name_local(s1, pos1, s2, pos2, next, name);
        },
        ParseOut::Failed { at: _ } => {},
    }
}

#[verifier::rlimit(100)]
proof fn lemma_function_call_after_name_local(
    s1: Seq<u8>,
    pos1: int,
    s2: Seq<u8>,
    pos2: int,
    next: int,
    name: Seq<char>,
)
    requires
        same_suffix(s1, pos1, s2, pos2),
        identifier(s1, pos1) == (ParseOut::Matched { next, v: name }),
        identifier(s2, pos2) == (ParseOut::Matched { next: next + pos2 - pos1, v: name }),
        pos1 <= next <= s1.len(),
    ensures
        shifted(function_call(s1, pos1), function_call(s2, pos2), pos2 - pos1),
        function_call(s1, pos1) matches ParseOut::Matched { next: n, v: _ } ==> pos1 <= n
            <= s1.len(),
    decreases s1.len() - pos1, 1int,
{
    let d = pos2 - pos1;
    assert(skip_ws(s2, next + d) == skip_ws(s1, next) + d && next <= skip_ws(s1, next)
        <= s1.len()) by {
        lemma_same_suffix_advance(s1, pos1, s2, pos2, next - pos1);
        lemma_skip_ws_local(s1, next, s2, next + d);
        lemma_skip_ws_bounds(s1, next);
    }
    let p = skip_ws(s1, next);
    assert(byte_at(s2, p + d, ('(' as u8)) == byte_at(s1, p, ('(' as u8)));
    if byte_at(s1, p, ('(' as u8)) {
        assert(skip_ws(s2, p + d + 1) == skip_ws(s1, p + 1) + d && p + 1 <= skip_ws(s1, p + 1)
            <= s1.len()) by {
            lemma_same_suffix_advance(s1, pos1, s2, pos2, p + 1 - pos1);
            lemma_skip_ws_local(s1, p + 1, s2, p + d + 1);
            lemma_skip_ws_bounds(s1, p + 1);
        }
        let p2 = skip_ws(s1, p + 1);
        if p2 > pos1 && p2 <= s1.len() {
            assert(shifted(call_args(s1, p2), call_args(s2, p2 + d), d) && (call_args(s1, p2)
                matches ParseOut::Matched { next: n, v: _ } ==> p2 <= n <= s1.len())) by {
                lemma_same_suffix_advance(s1, pos1, s2, pos2, p2 - pos1);
                lemma_call_args_local(s1, p2, s2, p2 + d);
            }
            match call_args(s1, p2) {
                ParseOut::Matched { next: p3, v: args } => {
                    assert(skip_ws(s2, p3 + d) == skip_ws(s1, p3) + d && p3 <= skip_ws(s1, p3)
                        <= s1.len()) by {
                        lemma_same_suffix_advance(s1, pos1, s2, pos2, p3 - pos1);
                        lemma_skip_ws_local(s1, p3, s2, p3 + d);
                        lemma_skip_ws_bounds(s1, p3);
                    }
                    let p4 = skip_ws(s1, p3);
                    assert(byte_at(s2, p4 + d, (')' as u8)) == byte_at(s1, p4, (')' as u8)));
                    if byte_at(s1, p4, (')' as u8)) {
                        assert(function_call(s1, pos1) == (ParseOut::Matched {
                            next: p4 + 1,
                            v: ExpressionV::FunctionCall { name, args },
                        }));
                        assert(function_call(s2, pos2) == (ParseOut::Matched {
                            next: p4 + 1 + d,
                            v: ExpressionV::FunctionCall { name, args },
                        }));
                    } else {
                        assert(function_call(s1, pos1) == (ParseOut::Failed::<ExpressionV> {
                            at: p4,
                        }));
                        assert(function_call(s2, pos2) == (ParseOut::Failed::<ExpressionV> {
                            at: p4 + d,
                        }));
                    }
                },
                ParseOut::Failed { at: _ } => {},
            }
        }
    }
}

pub proof fn lemma_call_args_local(s1: Seq<u8>, pos1: int, s2: Seq<u8>, pos2: int)
    requires
        same_suffix(s1, pos1, s2, pos2),
    ensures
        shifted(call_args(s1, pos1), call_args(s2, pos2), pos2 - pos1),
        call_args(s1, pos1) matches ParseOut::Matched { next: n, v: _ } ==> pos1 <= n <= s1.len(),
    decreases s1.len() - pos1, 8int,
{
    let d = pos2 - pos1;
    lemma_expression_local(s1, pos1, s2, pos2);
    match expression(s1, pos1) {
        ParseOut::Matched { next, v } => {
            if pos1 < next && next <= s1.len() {
                lemma_same_suffix_advance(s1, pos1, s2, pos2, next - pos1);
                lemma_call_args_tail_local(s1, next, s2, next + d, seq![v]);
            }
        },
        ParseOut::Failed { at: _ } => {},
    }
}

pub proof fn lemma_call_args_tail_local(
    s1: Seq<u8>,
    pos1: int,
    s2: Seq<u8>,
    pos2: int,
    acc: Seq<ExpressionV>,
)
    requires
        same_suffix(s1, pos1, s2, pos2),
    ensures
        shifted(call_args_tail(s1, pos1, acc), call_args_tail(s2, pos2, acc), pos2 - pos1),
        call_args_tail(s1, pos1, acc) matches ParseOut::Matched { next: n, v: _ } ==> pos1 <= n
            <= s1.len(),
    decreases s1.len() - pos1, 0int,
{
    let d = pos2 - pos1;
    lemma_skip_ws_local(s1, pos1, s2, pos2);
    lemma_skip_ws_bounds(s1, pos1);
    let p = skip_ws(s1, pos1);
    assert(byte_at(s2, p + d, (',' as u8)) == byte_at(s1, p, (',' as u8)));
    if byte_at(s1, p, (',' as u8)) {
        lemma_same_suffix_advance(s1, pos1, s2, pos2, p + 1 - pos1);
        lemma_skip_ws_local(s1, p + 1, s2, p + d + 1);
        lemma_skip_ws_bounds(s1, p + 1);
        let p2 = skip_ws(s1, p + 1);
        if p2 > pos1 && p2 <= s1.len() {
            lemma_same_suffix_advance(s1, pos1, s2, pos2, p2 - pos1);
            lemma_expression_local(s1, p2, s2, p2 + d);
            match expression(s1, p2) {
                ParseOut::Matched { next, v } => {
                    if pos1 < next && next <= s1.len() {
                        lemma_same_suffix_advance(s1, pos1, s2, pos2, next - pos1);
                        lemma_call_args_tail_local(s1, next, s2, next + d, acc.push(v));
                    }
                },
                ParseOut::Failed { at: _ } => {},
            }
        }
    }
}

pub proof fn lemma_primary_local(s1: Seq<u8>, pos1: int, s2: Seq<u8>, pos2: int)
    requires
        same_suffix(s1, pos1, s2, pos2),
    ensures
        shifted(primary(s1, pos1), primary(s2, pos2), pos2 - pos1),
        primary(s1, pos1) matches ParseOut::Matched { next: n, v: _ } ==> pos1 <= n <= s1.len(),
    decreases s1.len() - pos1, 3int,
{
    lemma_paren_expression_local(s1, pos1, s2, pos2);
    lemma_integer_local(s1, pos1, s2, pos2);
    lemma_function_call_local(s1, pos1, s2, pos2);
    lemma_identifier_local(s1, pos1, s2, pos2);
}

pub proof fn lemma_multitive_local(s1: Seq<u8>, pos1: int, s2: Seq<u8>, pos2: int)
    requires
        same_suffix(s1, pos1, s2, pos2),
    ensures
        shifted(multitive(s1, pos1), multitive(s2, pos2), pos2 - pos1),
        multitive(s1, pos1) matches ParseOut::Matched { next: n, v: _ } ==> pos1 <= n <= s1.len(),
    decreases s1.len() - pos1, 4int,
{
    let d = pos2 - pos1;
    lemma_primary_local(s1, pos1, s2, pos2);
    match primary(s1, pos1) {
        ParseOut::Matched { next, v } => {
            if pos1 < next && next <= s1.len() {
                lemma_same_suffix_advance(s1, pos1, s2, pos2, next - pos1);
                lemma_multitive_tail_local(s1, next, s2, next + d, v);
            }
        },
        ParseOut::Failed { at: _ } => {},
    }
}

pub proof fn lemma_multitive_tail_local(
    s1: Seq<u8>,
    pos1: int,
    s2: Seq<u8>,
    pos2: int,
    acc: ExpressionV,
)
    requires
        same_suffix(s1, pos1, s2, pos2),
    ensures
        shifted(multitive_tail(s1, pos1, acc), multitive_tail(s2, pos2, acc), pos2 - pos1),
        multitive_tail(s1, pos1, acc) matches ParseOut::Matched { next: n, v: _ } ==> pos1 <= n
            <= s1.len(),
    decreases s1.len() - pos1, 0int,
{
    let d = pos2 - pos1;
    lemma_multiplicative_operator_local(s1, pos1, s2, pos2);
    match multiplicative_operator(s1, pos1) {
        ParseOut::Matched { next: p, v: operator } => {
            if p > pos1 && p <= s1.len() {
                lemma_same_suffix_advance(s1, pos1, s2, pos2, p - pos1);
                lemma_primary_local(s1, p, s2, p + d);
                match primary(s1, p) {
                    ParseOut::Matched { next: p2, v: rhs } => {
                        let folded = ExpressionV::Binary {
                            operator,
                            lhs: Box::new(acc),
                            rhs: Box::new(rhs),
                        };
                        if p2 > pos1 && p2 <= s1.len() {
                            lemma_same_suffix_advance(s1, pos1, s2, pos2, p2 - pos1);
                            lemma_multitive_tail_local(s1, p2, s2, p2 + d, folded);
                        }
                    },
                    ParseOut::Failed { at: _ } => {},
                }
            }
        },
        ParseOut::Failed { at: _ } => {},
    }
}

pub proof fn lemma_additive_local(s1: Seq<u8>, pos1: int, s2: Seq<u8>, pos2: int)
    requires
        same_suffix(s1, pos1, s2, pos2),
    ensures
        shifted(additive(s1, pos1), additive(s2, pos2), pos2 - pos1),
        additive(s1, pos1) matches ParseOut::Matched { next: n, v: _ } ==> pos1 <= n <= s1.len(),
    decreases s1.len() - pos1, 5int,
{
    let d = pos2 - pos1;
    lemma_multitive_local(s1, pos1, s2, pos2);
    match multitive(s1, pos1) {
        ParseOut::Matched { next, v } => {
            if pos1 < next && next <= s1.len() {
                lemma_same_suffix_advance(s1, pos1, s2, pos2, next - pos1);
                lemma_additive_tail_local(s1, next, s2, next + d, v);
            }
        },
        ParseOut::Failed { at: _ } => {},
    }
}

pub proof fn lemma_additive_tail_local(
    s1: Seq<u8>,
    pos1: int,
    s2: Seq<u8>,
    pos2: int,
    acc: ExpressionV,
)
    requires
        same_suffix(s1, pos1, s2, pos2),
    ensures
        shifted(additive_tail(s1, pos1, acc), additive_tail(s2, pos2, acc), pos2 - pos1),
        additive_tail(s1, pos1, acc) matches ParseOut::Matched { next: n, v: _ } ==> pos1 <= n
            <= s1.len(),
    decreases s1.len() - pos1, 0int,
{
    let d = pos2 - pos1;
    lemma_additive_operator_local(s1, pos1, s2, pos2);
    match additive_operator(s1, pos1) {
        ParseOut::Matched { next: p, v: operator } => {
            if p > pos1 && p <= s1.len() {
                lemma_same_suffix_advance(s1, pos1, s2, pos2, p - pos1);
                lemma_multitive_local(s1, p, s2, p + d);
                match multitive(s1, p) {
                    ParseOut::Matched { next: p2, v: rhs } => {
                        let folded = ExpressionV::Binary {
                            operator,
                            lhs: Box::new(acc),
                            rhs: Box::new(rhs),
                        };
                        if p2 > pos1 && p2 <= s1.len() {
                            lemma_same_suffix_advance(s1, pos1, s2, pos2, p2 - pos1);
                            lemma_additive_tail_local(s1, p2, s2, p2 + d, folded);
                        }
                    },
                    ParseOut::Failed { at: _ } => {},
                }
            }
        },
        ParseOut::Failed { at: _ } => {},
    }
}

pub proof fn lemma_comparative_local(s1: Seq<u8>, pos1: int, s2: Seq<u8>, pos2: int)
    requires
        same_suffix(s1, pos1, s2, pos2),
    ensures
        shifted(comparative(s1, pos1), comparative(s2, pos2), pos2 - pos1),
        comparative(s1, pos1) matches ParseOut::Matched { next: n, v: _ } ==> pos1 <= n
            <= s1.len(),
    decreases s1.len() - pos1, 6int,
{
    let d = pos2 - pos1;
    lemma_additive_local(s1, pos1, s2, pos2);
    match additive(s1, pos1) {
        ParseOut::Matched { next, v } => {
            if pos1 < next && next <= s1.len() {
                lemma_same_suffix_advance(s1, pos1, s2, pos2, next - pos1);
                lemma_comparative_tail_local(s1, next, s2, next + d, v);
            }
        },
        ParseOut::Failed { at: _ } => {},
    }
}

pub proof fn lemma_comparative_tail_local(
    s1: Seq<u8>,
    pos1: int,
    s2: Seq<u8>,
    pos2: int,
    acc: ExpressionV,
)
    requires
        same_suffix(s1, pos1, s2, pos2),
    ensures
        shifted(comparative_tail(s1, pos1, acc), comparative_tail(s2, pos2, acc), pos2 - pos1),
        comparative_tail(s1, pos1, acc) matches ParseOut::Matched { next: n, v: _ } ==> pos1 <= n
            <= s1.len(),
    decreases s1.len() - pos1, 0int,
{
    let d = pos2 - pos1;
    lemma_comparison_operator_local(s1, pos1, s2, pos2);
    match comparison_operator(s1, pos1) {
        ParseOut::Matched { next: p, v: operator } => {
            if p > pos1 && p <= s1.len() {
                lemma_same_suffix_advance(s1, pos1, s2, pos2, p - pos1);
                lemma_additive_local(s1, p, s2, p + d);
                match additive(s1, p) {
                    ParseOut::Matched { next: p2, v: rhs } => {
                        let folded = ExpressionV::Binary {
                            operator,
                            lhs: Box::new(acc),
                            rhs: Box::new(rhs),
                        };
                        if p2 > pos1 && p2 <= s1.len() {
                            lemma_same_suffix_advance(s1, pos1, s2, pos2, p2 - pos1);
                            lemma_comparative_tail_local(s1, p2, s2, p2 + d, folded);
                        }
                    },
                    ParseOut::Failed { at: _ } => {},
                }
            }
        },
        ParseOut::Failed { at: _ } => {},
    }
}

pub proof fn lemma_expression_local(s1: Seq<u8>, pos1: int, s2: Seq<u8>, pos2: int)
    requires
        same_suffix(s1, pos1, s2, pos2),
    ensures
        shifted(expression(s1, pos1), expression(s2, pos2), pos2 - pos1),
        expression(s1, pos1) matches ParseOut::Matched { next: n, v: _ } ==> pos1 <= n
            <= s1.len(),
    decreases s1.len() - pos1, 7int,
{
    lemma_comparative_local(s1, pos1, s2, pos2);
}

/// Leading whitespace around an expression does not change its parse:
/// if two inputs hold the same bytes once their leading whitespace is
/// skipped, the expression grammar yields the same tree from both, so
/// an expression such as "42" parses equal with or without padding in
/// front of it.
pub proof fn law_expression_ignores_leading_whitespace(s1: Seq<u8>, s2: Seq<u8>)
    requires
        same_suffix(s1, skip_ws(s1, 0), s2, skip_ws(s2, 0)),
    ensures
        shifted(
            expression(s1, skip_ws(s1, 0)),
            expression(s2, skip_ws(s2, 0)),
            skip_ws(s2, 0) - skip_ws(s1, 0),
        ),
{
    lemma_expression_local(s1, skip_ws(s1, 0), s2, skip_ws(s2, 0));
}

} // verus!
