//! The grammar of the language, as specification-level recursive-descent
//! functions over the input bytes. The executable parser is verified to
//! return exactly what these definitions say.
//!
//! Every production that can re-enter the grammar does so at a strictly
//! advanced position, and each such recursion is guarded by an explicit
//! progress test so that termination is immediate from the measure
//! `s.len() - pos` (with a constant tie-breaker for delegation chains at
//! one position). The guarded else branches cannot be reached, because
//! every match consumes at least one byte; the executable parser proves
//! as much.

use vstd::prelude::*;

use crate::ast::{ExpressionV, FunctionV, Operator, ProgramV, TopLevelV};

verus! {

/// A failed or successful match of one production: the value produced
/// and the position of the first unconsumed byte, or the position the
/// production could not match at.
pub enum ParseOut<T> {
    Matched { next: int, v: T },
    Failed { at: int },
}

pub open spec fn is_space(b: u8) -> bool {
    b == (' ' as u8) || b == ('\t' as u8) || b == ('\n' as u8) || b == ('\r' as u8)
}

pub open spec fn is_digit(b: u8) -> bool {
    ('0' as u8) <= b && b <= ('9' as u8)
}

pub open spec fn is_alpha(b: u8) -> bool {
    (('A' as u8) <= b && b <= ('Z' as u8)) || (('a' as u8) <= b && b <= ('z' as u8))
}

pub open spec fn is_identifier_start(b: u8) -> bool {
    is_alpha(b) || b == ('_' as u8)
}

pub open spec fn is_identifier_char(b: u8) -> bool {
    is_alpha(b) || is_digit(b) || b == ('_' as u8)
}

/// Whether the byte `b` stands at position `pos`.
pub open spec fn byte_at(s: Seq<u8>, pos: int, b: u8) -> bool {
    0 <= pos && pos < s.len() && s[pos] == b
}

/// Whether the keyword `define` stands verbatim at position `pos`.
pub open spec fn kw_define_at(s: Seq<u8>, pos: int) -> bool {
    &&& 0 <= pos && pos + 6 <= s.len()
    &&& s[pos + 0] == ('d' as u8)
    &&& s[pos + 1] == ('e' as u8)
    &&& s[pos + 2] == ('f' as u8)
    &&& s[pos + 3] == ('i' as u8)
    &&& s[pos + 4] == ('n' as u8)
    &&& s[pos + 5] == ('e' as u8)
}

/// Whether the keyword `global` stands verbatim at position `pos`.
pub open spec fn kw_global_at(s: Seq<u8>, pos: int) -> bool {
    &&& 0 <= pos && pos + 6 <= s.len()
    &&& s[pos + 0] == ('g' as u8)
    &&& s[pos + 1] == ('l' as u8)
    &&& s[pos + 2] == ('o' as u8)
    &&& s[pos + 3] == ('b' as u8)
    &&& s[pos + 4] == ('a' as u8)
    &&& s[pos + 5] == ('l' as u8)
}

/// Whether the keyword `if` stands verbatim at position `pos`.
pub open spec fn kw_if_at(s: Seq<u8>, pos: int) -> bool {
    &&& 0 <= pos && pos + 2 <= s.len()
    &&& s[pos + 0] == ('i' as u8)
    &&& s[pos + 1] == ('f' as u8)
}

/// Whether the keyword `else` stands verbatim at position `pos`.
pub open spec fn kw_else_at(s: Seq<u8>, pos: int) -> bool {
    &&& 0 <= pos && pos + 4 <= s.len()
    &&& s[pos + 0] == ('e' as u8)
    &&& s[pos + 1] == ('l' as u8)
    &&& s[pos + 2] == ('s' as u8)
    &&& s[pos + 3] == ('e' as u8)
}

/// Whether the keyword `while` stands verbatim at position `pos`.
pub open spec fn kw_while_at(s: Seq<u8>, pos: int) -> bool {
    &&& 0 <= pos && pos + 5 <= s.len()
    &&& s[pos + 0] == ('w' as u8)
    &&& s[pos + 1] == ('h' as u8)
    &&& s[pos + 2] == ('i' as u8)
    &&& s[pos + 3] == ('l' as u8)
    &&& s[pos + 4] == ('e' as u8)
}

/// Whether the keyword `println` stands verbatim at position `pos`.
pub open spec fn kw_println_at(s: Seq<u8>, pos: int) -> bool {
    &&& 0 <= pos && pos + 7 <= s.len()
    &&& s[pos + 0] == ('p' as u8)
    &&& s[pos + 1] == ('r' as u8)
    &&& s[pos + 2] == ('i' as u8)
    &&& s[pos + 3] == ('n' as u8)
    &&& s[pos + 4] == ('t' as u8)
    &&& s[pos + 5] == ('l' as u8)
    &&& s[pos + 6] == ('n' as u8)
}

/// The first position at or after `pos` holding no whitespace.
pub open spec fn skip_ws(s: Seq<u8>, pos: int) -> int
    decreases s.len() - pos,
{
    if 0 <= pos && pos < s.len() && is_space(s[pos]) {
        skip_ws(s, pos + 1)
    } else {
        pos
    }
}

/// The first position at or after `pos` holding no decimal digit.
pub open spec fn scan_digits(s: Seq<u8>, pos: int) -> int
    decreases s.len() - pos,
{
    if 0 <= pos && pos < s.len() && is_digit(s[pos]) {
        scan_digits(s, pos + 1)
    } else {
        pos
    }
}

/// The first position at or after `pos` holding no identifier byte.
pub open spec fn scan_identifier(s: Seq<u8>, pos: int) -> int
    decreases s.len() - pos,
{
    if 0 <= pos && pos < s.len() && is_identifier_char(s[pos]) {
        scan_identifier(s, pos + 1)
    } else {
        pos
    }
}

/// The number the decimal digits `s[start..end]` denote.
pub open spec fn digits_value(s: Seq<u8>, start: int, end: int) -> int
    decreases end - start,
{
    if start >= end {
        0
    } else {
        digits_value(s, start, end - 1) * 10 + (s[end - 1] - ('0' as u8))
    }
}

/// The bytes `s`, read as characters.
pub open spec fn chars_of(s: Seq<u8>) -> Seq<char> {
    Seq::new(s.len(), |i: int| s[i] as char)
}

pub proof fn lemma_skip_ws_bounds(s: Seq<u8>, pos: int)
    requires
        0 <= pos <= s.len(),
    ensures
        pos <= skip_ws(s, pos) <= s.len(),
    decreases s.len() - pos,
{
    if pos < s.len() && is_space(s[pos]) {
        lemma_skip_ws_bounds(s, pos + 1);
    }
}

pub proof fn lemma_scan_digits_bounds(s: Seq<u8>, pos: int)
    requires
        0 <= pos <= s.len(),
    ensures
        pos <= scan_digits(s, pos) <= s.len(),
        forall|i: int| pos <= i < scan_digits(s, pos) ==> is_digit(s[i]),
    decreases s.len() - pos,
{
    if pos < s.len() && is_digit(s[pos]) {
        lemma_scan_digits_bounds(s, pos + 1);
    }
}

pub proof fn lemma_scan_identifier_bounds(s: Seq<u8>, pos: int)
    requires
        0 <= pos <= s.len(),
    ensures
        pos <= scan_identifier(s, pos) <= s.len(),
        forall|i: int| pos <= i < scan_identifier(s, pos) ==> is_identifier_char(s[i]),
    decreases s.len() - pos,
{
    if pos < s.len() && is_identifier_char(s[pos]) {
        lemma_scan_identifier_bounds(s, pos + 1);
    }
}

/// A digit string's value is non-negative and grows with its length.
pub proof fn lemma_digits_value_monotonic(s: Seq<u8>, start: int, mid: int, end: int)
    requires
        start <= mid <= end,
        forall|i: int| start <= i < end ==> is_digit(s[i]),
    ensures
        0 <= digits_value(s, start, mid) <= digits_value(s, start, end),
    decreases end - mid,
{
    if mid == end {
        lemma_digits_value_nonnegative(s, start, end);
    } else {
        lemma_digits_value_monotonic(s, start, mid, end - 1);
    }
}

pub proof fn lemma_digits_value_nonnegative(s: Seq<u8>, start: int, end: int)
    requires
        forall|i: int| start <= i < end ==> is_digit(s[i]),
    ensures
        digits_value(s, start, end) >= 0,
    decreases end - start,
{
    if start < end {
        lemma_digits_value_nonnegative(s, start, end - 1);
    }
}

/// Skipping whitespace twice is skipping it once.
pub proof fn lemma_skip_ws_idempotent(s: Seq<u8>, pos: int)
    ensures
        skip_ws(s, skip_ws(s, pos)) == skip_ws(s, pos),
    decreases s.len() - pos,
{
    if 0 <= pos && pos < s.len() && is_space(s[pos]) {
        lemma_skip_ws_idempotent(s, pos + 1);
    }
}

/// integer <- "-"? digit+, within the signed 64-bit range.
pub open spec fn integer(s: Seq<u8>, pos: int) -> ParseOut<i64> {
    let dstart = if byte_at(s, pos, ('-' as u8)) {
        pos + 1
    } else {
        pos
    };
    let dend = scan_digits(s, dstart);
    if dend == dstart {
        ParseOut::Failed { at: pos }
    } else {
        let magnitude = digits_value(s, dstart, dend);
        let value = if dstart > pos {
            -magnitude
        } else {
            magnitude
        };
        if i64::MIN <= value <= i64::MAX {
            ParseOut::Matched { next: dend, v: value as i64 }
        } else {
            ParseOut::Failed { at: pos }
        }
    }
}

/// identifier <- (alpha / "_") (alphanumeric / "_")*, longest match.
pub open spec fn identifier(s: Seq<u8>, pos: int) -> ParseOut<Seq<char>> {
    if 0 <= pos && pos < s.len() && is_identifier_start(s[pos]) {
        let end = scan_identifier(s, pos + 1);
        ParseOut::Matched { next: end, v: chars_of(s.subrange(pos, end)) }
    } else {
        ParseOut::Failed { at: pos }
    }
}

/// One comparison operator, with whitespace skipped on both sides.
/// Two-byte operators are matched before their one-byte prefixes.
pub open spec fn comparison_operator(s: Seq<u8>, pos: int) -> ParseOut<Operator> {
    let p = skip_ws(s, pos);
    if byte_at(s, p, ('<' as u8)) && byte_at(s, p + 1, ('=' as u8)) {
        ParseOut::Matched { next: skip_ws(s, p + 2), v: Operator::LessOrEqual }
    } else if byte_at(s, p, ('>' as u8)) && byte_at(s, p + 1, ('=' as u8)) {
        ParseOut::Matched { next: skip_ws(s, p + 2), v: Operator::GreaterOrEqual }
    } else if byte_at(s, p, ('=' as u8)) && byte_at(s, p + 1, ('=' as u8)) {
        ParseOut::Matched { next: skip_ws(s, p + 2), v: Operator::EqualEqual }
    } else if byte_at(s, p, ('!' as u8)) && byte_at(s, p + 1, ('=' as u8)) {
        ParseOut::Matched { next: skip_ws(s, p + 2), v: Operator::NotEqual }
    } else if byte_at(s, p, ('<' as u8)) {
        ParseOut::Matched { next: skip_ws(s, p + 1), v: Operator::LessThan }
    } else if byte_at(s, p, ('>' as u8)) {
        ParseOut::Matched { next: skip_ws(s, p + 1), v: Operator::GreaterThan }
    } else {
        ParseOut::Failed { at: p }
    }
}

/// One additive operator, with whitespace skipped on both sides.
pub open spec fn additive_operator(s: Seq<u8>, pos: int) -> ParseOut<Operator> {
    let p = skip_ws(s, pos);
    if byte_at(s, p, ('+' as u8)) {
        ParseOut::Matched { next: skip_ws(s, p + 1), v: Operator::Add }
    } else if byte_at(s, p, ('-' as u8)) {
        ParseOut::Matched { next: skip_ws(s, p + 1), v: Operator::Subtract }
    } else {
        ParseOut::Failed { at: p }
    }
}

/// One multiplicative operator, with whitespace skipped on both sides.
pub open spec fn multiplicative_operator(s: Seq<u8>, pos: int) -> ParseOut<Operator> {
    let p = skip_ws(s, pos);
    if byte_at(s, p, ('*' as u8)) {
        ParseOut::Matched { next: skip_ws(s, p + 1), v: Operator::Multiply }
    } else if byte_at(s, p, ('/' as u8)) {
        ParseOut::Matched { next: skip_ws(s, p + 1), v: Operator::Divide }
    } else {
        ParseOut::Failed { at: p }
    }
}

/// "(" expression ")", with whitespace skipped inside the parentheses.
pub open spec fn paren_expression(s: Seq<u8>, pos: int) -> ParseOut<ExpressionV>
    decreases s.len() - pos, 1int,
{
    if byte_at(s, pos, ('(' as u8)) {
        let p = skip_ws(s, pos + 1);
        if p > pos && p <= s.len() {
            match expression(s, p) {
                ParseOut::Matched { next, v } => {
                    let p2 = skip_ws(s, next);
                    if byte_at(s, p2, (')' as u8)) {
                        ParseOut::Matched { next: p2 + 1, v }
                    } else {
                        ParseOut::Failed { at: p2 }
                    }
                },
                ParseOut::Failed { at } => ParseOut::Failed { at },
            }
        } else {
            ParseOut::Failed { at: pos }
        }
    } else {
        ParseOut::Failed { at: pos }
    }
}

/// function_call <- identifier "(" (expression ("," expression)*)? ")".
pub open spec fn function_call(s: Seq<u8>, pos: int) -> ParseOut<ExpressionV>
    decreases s.len() - pos, 2int,
{
    match identifier(s, pos) {
        ParseOut::Matched { next, v: name } => {
            let p = skip_ws(s, next);
            if byte_at(s, p, ('(' as u8)) {
                let p2 = skip_ws(s, p + 1);
                if p2 > pos && p2 <= s.len() {
                    match call_args(s, p2) {
                        ParseOut::Matched { next: p3, v: args } => {
                            let p4 = skip_ws(s, p3);
                            if byte_at(s, p4, (')' as u8)) {
                                ParseOut::Matched {
                                    next: p4 + 1,
                                    v: ExpressionV::FunctionCall { name, args },
                                }
                            } else {
                                ParseOut::Failed { at: p4 }
                            }
                        },
                        ParseOut::Failed { at } => ParseOut::Failed { at },
                    }
                } else {
                    ParseOut::Failed { at: pos }
                }
            } else {
                ParseOut::Failed { at: p }
            }
        },
        ParseOut::Failed { at } => ParseOut::Failed { at },
    }
}

/// Zero or more comma-separated argument expressions.
pub open spec fn call_args(s: Seq<u8>, pos: int) -> ParseOut<Seq<ExpressionV>>
    decreases s.len() - pos, 8int,
{
    match expression(s, pos) {
        ParseOut::Failed { at: _ } => ParseOut::Matched { next: pos, v: Seq::empty() },
        ParseOut::Matched { next, v } => if pos < next && next <= s.len() {
            call_args_tail(s, next, seq![v])
        } else {
            ParseOut::Matched { next, v: seq![v] }
        },
    }
}

/// The remaining ("," expression)* of an argument list.
pub open spec fn call_args_tail(s: Seq<u8>, pos: int, acc: Seq<ExpressionV>) -> ParseOut<
    Seq<ExpressionV>,
>
    decreases s.len() - pos, 0int,
{
    let p = skip_ws(s, pos);
    if byte_at(s, p, (',' as u8)) {
        let p2 = skip_ws(s, p + 1);
        if p2 > pos && p2 <= s.len() {
            match expression(s, p2) {
                ParseOut::Matched { next, v } => if pos < next && next <= s.len() {
                    call_args_tail(s, next, acc.push(v))
                } else {
                    ParseOut::Matched { next, v: acc.push(v) }
                },
                ParseOut::Failed { at: _ } => ParseOut::Matched { next: pos, v: acc },
            }
        } else {
            ParseOut::Matched { next: pos, v: acc }
        }
    } else {
        ParseOut::Matched { next: pos, v: acc }
    }
}

/// primary <- "(" expression ")" / integer / function_call / identifier.
pub open spec fn primary(s: Seq<u8>, pos: int) -> ParseOut<ExpressionV>
    decreases s.len() - pos, 3int,
{
    match paren_expression(s, pos) {
        ParseOut::Matched { next, v } => ParseOut::Matched { next, v },
        ParseOut::Failed { at: _ } => match integer(s, pos) {
            ParseOut::Matched { next, v } => ParseOut::Matched {
                next,
                v: ExpressionV::IntegerLiteral { value: v },
            },
            ParseOut::Failed { at: _ } => match function_call(s, pos) {
                ParseOut::Matched { next, v } => ParseOut::Matched { next, v },
                ParseOut::Failed { at: _ } => match identifier(s, pos) {
                    ParseOut::Matched { next, v } => ParseOut::Matched {
                        next,
                        v: ExpressionV::Identifier { name: v },
                    },
                    ParseOut::Failed { at } => ParseOut::Failed { at },
                },
            },
        },
    }
}

/// multitive <- primary (("*" / "/") primary)*, folded to the left.
pub open spec fn multitive(s: Seq<u8>, pos: int) -> ParseOut<ExpressionV>
    decreases s.len() - pos, 4int,
{
    match primary(s, pos) {
        ParseOut::Matched { next, v } => if pos < next && next <= s.len() {
            multitive_tail(s, next, v)
        } else {
            ParseOut::Matched { next, v }
        },
        ParseOut::Failed { at } => ParseOut::Failed { at },
    }
}

/// The remaining (("*" / "/") primary)* of a multitive chain.
pub open spec fn multitive_tail(s: Seq<u8>, pos: int, acc: ExpressionV) -> ParseOut<ExpressionV>
    decreases s.len() - pos, 0int,
{
    match multiplicative_operator(s, pos) {
        ParseOut::Failed { at: _ } => ParseOut::Matched { next: pos, v: acc },
        ParseOut::Matched { next: p, v: operator } => if p > pos && p <= s.len() {
            match primary(s, p) {
                ParseOut::Matched { next: p2, v: rhs } => {
                    let folded = ExpressionV::Binary {
                        operator,
                        lhs: Box::new(acc),
                        rhs: Box::new(rhs),
                    };
                    if p2 > pos && p2 <= s.len() {
                        multitive_tail(s, p2, folded)
                    } else {
                        ParseOut::Matched { next: p2, v: folded }
                    }
                },
                ParseOut::Failed { at: _ } => ParseOut::Matched { next: pos, v: acc },
            }
        } else {
            ParseOut::Matched { next: pos, v: acc }
        },
    }
}

/// additive <- multitive (("+" / "-") multitive)*, folded to the left.
pub open spec fn additive(s: Seq<u8>, pos: int) -> ParseOut<ExpressionV>
    decreases s.len() - pos, 5int,
{
    match multitive(s, pos) {
        ParseOut::Matched { next, v } => if pos < next && next <= s.len() {
            additive_tail(s, next, v)
        } else {
            ParseOut::Matched { next, v }
        },
        ParseOut::Failed { at } => ParseOut::Failed { at },
    }
}

/// The remaining (("+" / "-") multitive)* of an additive chain.
pub open spec fn additive_tail(s: Seq<u8>, pos: int, acc: ExpressionV) -> ParseOut<ExpressionV>
    decreases s.len() - pos, 0int,
{
    match additive_operator(s, pos) {
        ParseOut::Failed { at: _ } => ParseOut::Matched { next: pos, v: acc },
        ParseOut::Matched { next: p, v: operator } => if p > pos && p <= s.len() {
            match multitive(s, p) {
                ParseOut::Matched { next: p2, v: rhs } => {
                    let folded = ExpressionV::Binary {
                        operator,
                        lhs: Box::new(acc),
                        rhs: Box::new(rhs),
                    };
                    if p2 > pos && p2 <= s.len() {
                        additive_tail(s, p2, folded)
                    } else {
                        ParseOut::Matched { next: p2, v: folded }
                    }
                },
                ParseOut::Failed { at: _ } => ParseOut::Matched { next: pos, v: acc },
            }
        } else {
            ParseOut::Matched { next: pos, v: acc }
        },
    }
}

/// comparative <- additive (("<=" / ">=" / "==" / "!=" / "<" / ">")
/// additive)*, folded to the left.
pub open spec fn comparative(s: Seq<u8>, pos: int) -> ParseOut<ExpressionV>
    decreases s.len() - pos, 6int,
{
    match additive(s, pos) {
        ParseOut::Matched { next, v } => if pos < next && next <= s.len() {
            comparative_tail(s, next, v)
        } else {
            ParseOut::Matched { next, v }
        },
        ParseOut::Failed { at } => ParseOut::Failed { at },
    }
}

/// The remaining (comparison additive)* of a comparative chain.
pub open spec fn comparative_tail(s: Seq<u8>, pos: int, acc: ExpressionV) -> ParseOut<ExpressionV>
    decreases s.len() - pos, 0int,
{
    match comparison_operator(s, pos) {
        ParseOut::Failed { at: _ } => ParseOut::Matched { next: pos, v: acc },
        ParseOut::Matched { next: p, v: operator } => if p > pos && p <= s.len() {
            match additive(s, p) {
                ParseOut::Matched { next: p2, v: rhs } => {
                    let folded = ExpressionV::Binary {
                        operator,
                        lhs: Box::new(acc),
                        rhs: Box::new(rhs),
                    };
                    if p2 > pos && p2 <= s.len() {
                        comparative_tail(s, p2, folded)
                    } else {
                        ParseOut::Matched { next: p2, v: folded }
                    }
                },
                ParseOut::Failed { at: _ } => ParseOut::Matched { next: pos, v: acc },
            }
        } else {
            ParseOut::Matched { next: pos, v: acc }
        },
    }
}

/// expression <- comparative.
pub open spec fn expression(s: Seq<u8>, pos: int) -> ParseOut<ExpressionV>
    decreases s.len() - pos, 7int,
{
    comparative(s, pos)
}

/// expression_line <- expression ";".
pub open spec fn expression_line(s: Seq<u8>, pos: int) -> ParseOut<ExpressionV>
    decreases s.len() - pos, 8int,
{
    match expression(s, pos) {
        ParseOut::Matched { next, v } => if byte_at(s, next, (';' as u8)) {
            ParseOut::Matched { next: next + 1, v }
        } else {
            ParseOut::Failed { at: next }
        },
        ParseOut::Failed { at } => ParseOut::Failed { at },
    }
}

/// assignment <- identifier "=" expression ";".
pub open spec fn assignment(s: Seq<u8>, pos: int) -> ParseOut<ExpressionV>
    decreases s.len() - pos, 8int,
{
    match identifier(s, pos) {
        ParseOut::Matched { next, v: name } => {
            let p = skip_ws(s, next);
            if byte_at(s, p, ('=' as u8)) {
                let p2 = skip_ws(s, p + 1);
                if p2 > pos && p2 <= s.len() {
                    match expression(s, p2) {
                        ParseOut::Matched { next: p3, v } => if byte_at(s, p3, (';' as u8)) {
                            ParseOut::Matched {
                                next: p3 + 1,
                                v: ExpressionV::Assignment { name, expression: Box::new(v) },
                            }
                        } else {
                            ParseOut::Failed { at: p3 }
                        },
                        ParseOut::Failed { at } => ParseOut::Failed { at },
                    }
                } else {
                    ParseOut::Failed { at: pos }
                }
            } else {
                ParseOut::Failed { at: p }
            }
        },
        ParseOut::Failed { at } => ParseOut::Failed { at },
    }
}

/// println <- "println" "(" expression ")".
pub open spec fn println_expression(s: Seq<u8>, pos: int) -> ParseOut<ExpressionV>
    decreases s.len() - pos, 8int,
{
    if kw_println_at(s, pos) {
        let p = skip_ws(s, pos + 7);
        if p > pos && p <= s.len() {
            match paren_expression(s, p) {
                ParseOut::Matched { next, v } => ParseOut::Matched {
                    next,
                    v: ExpressionV::PrintLn { expression: Box::new(v) },
                },
                ParseOut::Failed { at } => ParseOut::Failed { at },
            }
        } else {
            ParseOut::Failed { at: pos }
        }
    } else {
        ParseOut::Failed { at: pos }
    }
}

/// if_expression <- "if" "(" expression ")" line ("else" line)?.
pub open spec fn if_expression(s: Seq<u8>, pos: int) -> ParseOut<ExpressionV>
    decreases s.len() - pos, 8int,
{
    if kw_if_at(s, pos) {
        let p = skip_ws(s, pos + 2);
        if p > pos && p <= s.len() {
            match paren_expression(s, p) {
                ParseOut::Matched { next, v: condition } => {
                    let p2 = skip_ws(s, next);
                    if p2 > pos && p2 <= s.len() {
                        match line(s, p2) {
                            ParseOut::Matched { next: p3, v: then_clause } => {
                                let q = skip_ws(s, p3);
                                if kw_else_at(s, q) {
                                    let q2 = skip_ws(s, q + 4);
                                    if q2 > pos && q2 <= s.len() {
                                        match line(s, q2) {
                                            ParseOut::Matched { next: q3, v: else_clause } =>
                                                ParseOut::Matched {
                                                next: q3,
                                                v: ExpressionV::If {
                                                    condition: Box::new(condition),
                                                    then_clause: Box::new(then_clause),
                                                    else_clause: Option::Some(
                                                        Box::new(else_clause),
                                                    ),
                                                },
                                            },
                                            ParseOut::Failed { at: _ } => ParseOut::Matched {
                                                next: p3,
                                                v: ExpressionV::If {
                                                    condition: Box::new(condition),
                                                    then_clause: Box::new(then_clause),
                                                    else_clause: Option::None,
                                                },
                                            },
                                        }
                                    } else {
                                        ParseOut::Matched {
                                            next: p3,
                                            v: ExpressionV::If {
                                                condition: Box::new(condition),
                                                then_clause: Box::new(then_clause),
                                                else_clause: Option::None,
                                            },
                                        }
                                    }
                                } else {
                                    ParseOut::Matched {
                                        next: p3,
                                        v: ExpressionV::If {
                                            condition: Box::new(condition),
                                            then_clause: Box::new(then_clause),
                                            else_clause: Option::None,
                                        },
                                    }
                                }
                            },
                            ParseOut::Failed { at } => ParseOut::Failed { at },
                        }
                    } else {
                        ParseOut::Failed { at: pos }
                    }
                },
                ParseOut::Failed { at } => ParseOut::Failed { at },
            }
        } else {
            ParseOut::Failed { at: pos }
        }
    } else {
        ParseOut::Failed { at: pos }
    }
}

/// while_expression <- "while" "(" expression ")" line.
pub open spec fn while_expression(s: Seq<u8>, pos: int) -> ParseOut<ExpressionV>
    decreases s.len() - pos, 8int,
{
    if kw_while_at(s, pos) {
        let p = skip_ws(s, pos + 5);
        if p > pos && p <= s.len() {
            match paren_expression(s, p) {
                ParseOut::Matched { next, v: condition } => {
                    let p2 = skip_ws(s, next);
                    if p2 > pos && p2 <= s.len() {
                        match line(s, p2) {
                            ParseOut::Matched { next: p3, v: body } => ParseOut::Matched {
                                next: p3,
                                v: ExpressionV::While {
                                    condition: Box::new(condition),
                                    body: Box::new(body),
                                },
                            },
                            ParseOut::Failed { at } => ParseOut::Failed { at },
                        }
                    } else {
                        ParseOut::Failed { at: pos }
                    }
                },
                ParseOut::Failed { at } => ParseOut::Failed { at },
            }
        } else {
            ParseOut::Failed { at: pos }
        }
    } else {
        ParseOut::Failed { at: pos }
    }
}

/// block_expression <- "{" line* "}".
pub open spec fn block_expression(s: Seq<u8>, pos: int) -> ParseOut<ExpressionV>
    decreases s.len() - pos, 8int,
{
    if byte_at(s, pos, ('{' as u8)) {
        let p = skip_ws(s, pos + 1);
        if p > pos && p <= s.len() {
            match lines(s, p) {
                ParseOut::Matched { next, v: elements } => {
                    let p2 = skip_ws(s, next);
                    if byte_at(s, p2, ('}' as u8)) {
                        ParseOut::Matched { next: p2 + 1, v: ExpressionV::Block { elements } }
                    } else {
                        ParseOut::Failed { at: p2 }
                    }
                },
                ParseOut::Failed { at } => ParseOut::Failed { at },
            }
        } else {
            ParseOut::Failed { at: pos }
        }
    } else {
        ParseOut::Failed { at: pos }
    }
}

/// line*: statement lines until one no longer matches.
pub open spec fn lines(s: Seq<u8>, pos: int) -> ParseOut<Seq<ExpressionV>>
    decreases s.len() - pos, 10int,
{
    match line(s, pos) {
        ParseOut::Failed { at: _ } => ParseOut::Matched { next: pos, v: Seq::empty() },
        ParseOut::Matched { next, v } => if pos < next && next <= s.len() {
            match lines(s, next) {
                ParseOut::Matched { next: p2, v: rest } => ParseOut::Matched {
                    next: p2,
                    v: seq![v] + rest,
                },
                ParseOut::Failed { at } => ParseOut::Failed { at },
            }
        } else {
            ParseOut::Matched { next, v: seq![v] }
        },
    }
}

/// line <- (println / if_expression / while_expression / block_expression
/// / assignment / expression_line), with trailing whitespace consumed.
pub open spec fn line(s: Seq<u8>, pos: int) -> ParseOut<ExpressionV>
    decreases s.len() - pos, 9int,
{
    let inner = match println_expression(s, pos) {
        ParseOut::Matched { next, v } => ParseOut::Matched { next, v },
        ParseOut::Failed { at: _ } => match if_expression(s, pos) {
            ParseOut::Matched { next, v } => ParseOut::Matched { next, v },
            ParseOut::Failed { at: _ } => match while_expression(s, pos) {
                ParseOut::Matched { next, v } => ParseOut::Matched { next, v },
                ParseOut::Failed { at: _ } => match block_expression(s, pos) {
                    ParseOut::Matched { next, v } => ParseOut::Matched { next, v },
                    ParseOut::Failed { at: _ } => match assignment(s, pos) {
                        ParseOut::Matched { next, v } => ParseOut::Matched { next, v },
                        ParseOut::Failed { at: _ } => expression_line(s, pos),
                    },
                },
            },
        },
    };
    match inner {
        ParseOut::Matched { next, v } => ParseOut::Matched { next: skip_ws(s, next), v },
        ParseOut::Failed { at } => ParseOut::Failed { at },
    }
}

/// Zero or more comma-separated parameter names.
pub open spec fn param_list(s: Seq<u8>, pos: int) -> ParseOut<Seq<Seq<char>>>
    decreases s.len() - pos, 1int,
{
    match identifier(s, pos) {
        ParseOut::Failed { at: _ } => ParseOut::Matched { next: pos, v: Seq::empty() },
        ParseOut::Matched { next, v } => if pos < next && next <= s.len() {
            param_list_tail(s, next, seq![v])
        } else {
            ParseOut::Matched { next, v: seq![v] }
        },
    }
}

/// The remaining ("," identifier)* of a parameter list.
pub open spec fn param_list_tail(s: Seq<u8>, pos: int, acc: Seq<Seq<char>>) -> ParseOut<
    Seq<Seq<char>>,
>
    decreases s.len() - pos, 0int,
{
    let p = skip_ws(s, pos);
    if byte_at(s, p, (',' as u8)) {
        let p2 = skip_ws(s, p + 1);
        match identifier(s, p2) {
            ParseOut::Matched { next, v } => if pos < next && next <= s.len() {
                param_list_tail(s, next, acc.push(v))
            } else {
                ParseOut::Matched { next, v: acc.push(v) }
            },
            ParseOut::Failed { at: _ } => ParseOut::Matched { next: pos, v: acc },
        }
    } else {
        ParseOut::Matched { next: pos, v: acc }
    }
}

/// function_definition <- "define" identifier
/// "(" (identifier ("," identifier)*)? ")" block_expression.
pub open spec fn function_definition(s: Seq<u8>, pos: int) -> ParseOut<TopLevelV>
    decreases s.len() - pos, 11int,
{
    if kw_define_at(s, pos) {
        let p = pos + 6;
        if 0 <= p && p < s.len() && is_space(s[p]) {
            let p2 = skip_ws(s, p);
            match identifier(s, p2) {
                ParseOut::Matched { next, v: name } => {
                    let p3 = skip_ws(s, next);
                    if byte_at(s, p3, ('(' as u8)) {
                        let p4 = skip_ws(s, p3 + 1);
                        if p4 > pos && p4 <= s.len() {
                            match param_list(s, p4) {
                                ParseOut::Matched { next: p5, v: params } => {
                                    let p6 = skip_ws(s, p5);
                                    if byte_at(s, p6, (')' as u8)) {
                                        let p7 = skip_ws(s, p6 + 1);
                                        if p7 > pos && p7 <= s.len() {
                                            match block_expression(s, p7) {
                                                ParseOut::Matched { next: p8, v: body } =>
                                                    ParseOut::Matched {
                                                    next: p8,
                                                    v: TopLevelV::FunctionDefinition(
                                                        FunctionV { name, args: params, body },
                                                    ),
                                                },
                                                ParseOut::Failed { at } => ParseOut::Failed { at },
                                            }
                                        } else {
                                            ParseOut::Failed { at: pos }
                                        }
                                    } else {
                                        ParseOut::Failed { at: p6 }
                                    }
                                },
                                ParseOut::Failed { at } => ParseOut::Failed { at },
                            }
                        } else {
                            ParseOut::Failed { at: pos }
                        }
                    } else {
                        ParseOut::Failed { at: p3 }
                    }
                },
                ParseOut::Failed { at } => ParseOut::Failed { at },
            }
        } else {
            ParseOut::Failed { at: p }
        }
    } else {
        ParseOut::Failed { at: pos }
    }
}

/// global_variable_definition <- "global" identifier "=" expression.
pub open spec fn global_variable_definition(s: Seq<u8>, pos: int) -> ParseOut<TopLevelV>
    decreases s.len() - pos, 11int,
{
    if kw_global_at(s, pos) {
        let p = pos + 6;
        if 0 <= p && p < s.len() && is_space(s[p]) {
            let p2 = skip_ws(s, p);
            match identifier(s, p2) {
                ParseOut::Matched { next, v: name } => {
                    let q = skip_ws(s, next);
                    if byte_at(s, q, ('=' as u8)) {
                        let q2 = skip_ws(s, q + 1);
                        if q2 > pos && q2 <= s.len() {
                            match expression(s, q2) {
                                ParseOut::Matched { next: q3, v } => ParseOut::Matched {
                                    next: q3,
                                    v: TopLevelV::GlobalVariableDefinition {
                                        name,
                                        expression: v,
                                    },
                                },
                                ParseOut::Failed { at } => ParseOut::Failed { at },
                            }
                        } else {
                            ParseOut::Failed { at: pos }
                        }
                    } else {
                        ParseOut::Failed { at: q }
                    }
                },
                ParseOut::Failed { at } => ParseOut::Failed { at },
            }
        } else {
            ParseOut::Failed { at: p }
        }
    } else {
        ParseOut::Failed { at: pos }
    }
}

/// top_level_definition <- function_definition / global_variable_definition.
pub open spec fn top_level_definition(s: Seq<u8>, pos: int) -> ParseOut<TopLevelV>
    decreases s.len() - pos, 12int,
{
    match function_definition(s, pos) {
        ParseOut::Matched { next, v } => ParseOut::Matched { next, v },
        ParseOut::Failed { at: _ } => global_variable_definition(s, pos),
    }
}

/// top_level_definition*, each followed by skipped whitespace.
pub open spec fn top_levels(s: Seq<u8>, pos: int) -> ParseOut<Seq<TopLevelV>>
    decreases s.len() - pos, 13int,
{
    match top_level_definition(s, pos) {
        ParseOut::Failed { at: _ } => ParseOut::Matched { next: pos, v: Seq::empty() },
        ParseOut::Matched { next, v } => if pos < next && next <= s.len() {
            let p = skip_ws(s, next);
            if p >= next && p <= s.len() {
                match top_levels(s, p) {
                    ParseOut::Matched { next: p2, v: rest } => ParseOut::Matched {
                        next: p2,
                        v: seq![v] + rest,
                    },
                    ParseOut::Failed { at } => ParseOut::Failed { at },
                }
            } else {
                ParseOut::Matched { next, v: seq![v] }
            }
        } else {
            ParseOut::Matched { next, v: seq![v] }
        },
    }
}

/// program <- top_level_definition*, with leading whitespace skipped.
pub open spec fn program(s: Seq<u8>, pos: int) -> ParseOut<ProgramV>
    decreases s.len() - pos, 14int,
{
    let p = skip_ws(s, pos);
    if p >= pos && p <= s.len() {
        match top_levels(s, p) {
            ParseOut::Matched { next, v } => ParseOut::Matched {
                next,
                v: ProgramV { definitions: v },
            },
            ParseOut::Failed { at } => ParseOut::Failed { at },
        }
    } else {
        ParseOut::Failed { at: pos }
    }
}

/// A program parse is unchanged by leading whitespace already skipped:
/// parsing at `pos` and at the first non-whitespace position at or after
/// `pos` give one result.
pub proof fn lemma_program_skips_leading_ws(s: Seq<u8>, pos: int)
    ensures
        program(s, pos) == program(s, skip_ws(s, pos)),
{
    lemma_skip_ws_idempotent(s, pos);
    if 0 <= pos && pos <= s.len() {
        lemma_skip_ws_bounds(s, pos);
    }
}

} // verus!
