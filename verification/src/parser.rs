//! The recursive-descent parser: executable functions over the input
//! bytes, each verified to return exactly what the corresponding
//! production of the grammar module denotes.
//!
//! A parse function takes the input and the position to start at, and
//! returns the position of the first unconsumed byte together with the
//! tree built, or the position it failed at.

use vstd::prelude::*;
use vstd::string::StringSliceAdditionalSpecFns;

use crate::ast::{expression_seq_view, string_seq_view, top_level_seq_view, Expression,
    ExpressionV, Function, Operator, Program, TopLevel, TopLevelV};
use crate::grammar::{self, skip_ws, ParseOut};

pub mod helper_combinators;
pub mod raw_res;

use helper_combinators::ws;

verus! {

/// A syntax failure, carrying the position of the first byte the
/// grammar could not consume.
#[derive(Debug, PartialEq, Eq, Structural)]
pub struct SyntaxError {
    pub position: usize,
}

/// Whether an executable parse result means exactly the given
/// specification-level parse.
pub open spec fn parse_matches<T: DeepView>(
    r: Result<(usize, T), SyntaxError>,
    p: ParseOut<T::V>,
) -> bool {
    match r {
        Result::Ok((next, v)) => p == (ParseOut::Matched { next: next as int, v: v.deep_view() }),
        Result::Err(e) => p == (ParseOut::Failed::<T::V> { at: e.position as int }),
    }
}

/// One comparison operator, with surrounding whitespace consumed.
fn comparison_operator(s: &[u8], pos: usize) -> (r: Result<(usize, Operator), SyntaxError>)
    requires
        pos <= s@.len(),
    ensures
        parse_matches(r, grammar::comparison_operator(s@, pos as int)),
        r matches Ok((next, _)) ==> pos < next && next <= s@.len(),
{
    let p = ws(s, pos);
    if s.len() - p >= 2 && s[p] == ('<' as u8) && s[p + 1] == ('=' as u8) {
        Ok((ws(s, p + 2), Operator::LessOrEqual))
    } else if s.len() - p >= 2 && s[p] == ('>' as u8) && s[p + 1] == ('=' as u8) {
        Ok((ws(s, p + 2), Operator::GreaterOrEqual))
    } else if s.len() - p >= 2 && s[p] == ('=' as u8) && s[p + 1] == ('=' as u8) {
        Ok((ws(s, p + 2), Operator::EqualEqual))
    } else if s.len() - p >= 2 && s[p] == ('!' as u8) && s[p + 1] == ('=' as u8) {
        Ok((ws(s, p + 2), Operator::NotEqual))
    } else if p < s.len() && s[p] == ('<' as u8) {
        Ok((ws(s, p + 1), Operator::LessThan))
    } else if p < s.len() && s[p] == ('>' as u8) {
        Ok((ws(s, p + 1), Operator::GreaterThan))
    } else {
        Err(SyntaxError { position: p })
    }
}

/// One additive operator, with surrounding whitespace consumed.
fn additive_operator(s: &[u8], pos: usize) -> (r: Result<(usize, Operator), SyntaxError>)
    requires
        pos <= s@.len(),
    ensures
        parse_matches(r, grammar::additive_operator(s@, pos as int)),
        r matches Ok((next, _)) ==> pos < next && next <= s@.len(),
{
    let p = ws(s, pos);
    if p < s.len() && s[p] == ('+' as u8) {
        Ok((ws(s, p + 1), Operator::Add))
    } else if p < s.len() && s[p] == ('-' as u8) {
        Ok((ws(s, p + 1), Operator::Subtract))
    } else {
        Err(SyntaxError { position: p })
    }
}

/// One multiplicative operator, with surrounding whitespace consumed.
fn multiplicative_operator(s: &[u8], pos: usize) -> (r: Result<(usize, Operator), SyntaxError>)
    requires
        pos <= s@.len(),
    ensures
        parse_matches(r, grammar::multiplicative_operator(s@, pos as int)),
        r matches Ok((next, _)) ==> pos < next && next <= s@.len(),
{
    let p = ws(s, pos);
    if p < s.len() && s[p] == ('*' as u8) {
        Ok((ws(s, p + 1), Operator::Multiply))
    } else if p < s.len() && s[p] == ('/' as u8) {
        Ok((ws(s, p + 1), Operator::Divide))
    } else {
        Err(SyntaxError { position: p })
    }
}

/// "(" expression ")", with whitespace skipped inside the parentheses.
fn paren_expression(s: &[u8], pos: usize) -> (r: Result<(usize, Expression), SyntaxError>)
    requires
        pos <= s@.len(),
    ensures
        parse_matches(r, grammar::paren_expression(s@, pos as int)),
        r matches Ok((next, _)) ==> pos < next && next <= s@.len(),
    decreases s@.len() - pos, 1int,
{
    if pos < s.len() && s[pos] == ('(' as u8) {
        let p = ws(s, pos + 1);
        match expression(s, p) {
            Ok((next, v)) => {
                let p2 = ws(s, next);
                if p2 < s.len() && s[p2] == (')' as u8) {
                    Ok((p2 + 1, v))
                } else {
                    Err(SyntaxError { position: p2 })
                }
            },
            Err(e) => Err(e),
        }
    } else {
        Err(SyntaxError { position: pos })
    }
}

/// function_call <- identifier "(" (expression ("," expression)*)? ")".
pub fn function_call(s: &[u8], pos: usize) -> (r: Result<(usize, Expression), SyntaxError>)
    requires
        pos <= s@.len(),
    ensures
        parse_matches(r, grammar::function_call(s@, pos as int)),
        r matches Ok((next, _)) ==> pos < next && next <= s@.len(),
    decreases s@.len() - pos, 2int,
{
    let (next0, name) = match raw_res::identifier(s, pos) {
        Ok(x) => x,
        Err(e) => {
            return Err(e);
        },
    };
    let p = ws(s, next0);
    if !(p < s.len() && s[p] == ('(' as u8)) {
        return Err(SyntaxError { position: p });
    }
    let p2 = ws(s, p + 1);
    let mut args: Vec<Expression> = Vec::new();
    let mut cur = p2;
    match expression(s, p2) {
        Ok((n1, v1)) => {
            let ghost first = v1.deep_view();
            args.push(v1);
            cur = n1;
            proof {
                assert(args@.drop_last() =~= Seq::<Expression>::empty());
                assert(expression_seq_view(Seq::<Expression>::empty())
                    =~= Seq::<ExpressionV>::empty());
                assert(expression_seq_view(args@) =~= seq![first]);
            }
            loop
                invariant
                    pos < cur && cur <= s@.len(),
                    grammar::call_args(s@, p2 as int) == grammar::call_args_tail(
                        s@,
                        cur as int,
                        expression_seq_view(args@),
                    ),
                ensures
                    pos < cur && cur <= s@.len(),
                    grammar::call_args(s@, p2 as int) == (ParseOut::Matched {
                        next: cur as int,
                        v: expression_seq_view(args@),
                    }),
                decreases s@.len() - cur,
            {
                let q = ws(s, cur);
                if q < s.len() && s[q] == (',' as u8) {
                    let q2 = ws(s, q + 1);
                    match expression(s, q2) {
                        Ok((n, v)) => {
                            let ghost prev = args@;
                            args.push(v);
                            cur = n;
                            proof {
                                assert(args@.drop_last() =~= prev);
                            }
                        },
                        Err(_) => {
                            break ;
                        },
                    }
                } else {
                    break ;
                }
            }
        },
        Err(_) => {
            proof {
                assert(expression_seq_view(args@) =~= Seq::<ExpressionV>::empty());
            }
        },
    }
    let p4 = ws(s, cur);
    if p4 < s.len() && s[p4] == (')' as u8) {
        Ok((p4 + 1, Expression::FunctionCall { name, args }))
    } else {
        Err(SyntaxError { position: p4 })
    }
}

/// primary <- "(" expression ")" / integer / function_call / identifier.
pub fn primary(s: &[u8], pos: usize) -> (r: Result<(usize, Expression), SyntaxError>)
    requires
        pos <= s@.len(),
    ensures
        parse_matches(r, grammar::primary(s@, pos as int)),
        r matches Ok((next, _)) ==> pos < next && next <= s@.len(),
    decreases s@.len() - pos, 3int,
{
    match paren_expression(s, pos) {
        Ok(x) => Ok(x),
        Err(_) => match raw_res::integer(s, pos) {
            Ok((next, value)) => Ok((next, Expression::IntegerLiteral { value })),
            Err(_) => match function_call(s, pos) {
                Ok(x) => Ok(x),
                Err(_) => match raw_res::identifier(s, pos) {
                    Ok((next, name)) => Ok((next, Expression::Identifier { name })),
                    Err(e) => Err(e),
                },
            },
        },
    }
}

/// multitive <- primary (("*" / "/") primary)*, folded to the left.
pub fn multitive(s: &[u8], pos: usize) -> (r: Result<(usize, Expression), SyntaxError>)
    requires
        pos <= s@.len(),
    ensures
        parse_matches(r, grammar::multitive(s@, pos as int)),
        r matches Ok((next, _)) ==> pos < next && next <= s@.len(),
    decreases s@.len() - pos, 4int,
{
    let (mut next, mut acc) = match primary(s, pos) {
        Ok(x) => x,
        Err(e) => {
            return Err(e);
        },
    };
    loop
        invariant
            pos < next && next <= s@.len(),
            grammar::multitive(s@, pos as int) == grammar::multitive_tail(
                s@,
                next as int,
                acc.deep_view(),
            ),
        ensures
            pos < next && next <= s@.len(),
            grammar::multitive(s@, pos as int) == (ParseOut::Matched {
                next: next as int,
                v: acc.deep_view(),
            }),
        decreases s@.len() - next,
    {
        match multiplicative_operator(s, next) {
            Ok((p, operator)) => {
                match primary(s, p) {
                    Ok((p2, rhs)) => {
                        acc = Expression::Binary {
                            operator,
                            lhs: Box::new(acc),
                            rhs: Box::new(rhs),
                        };
                        next = p2;
                    },
                    Err(_) => {
                        break ;
                    },
                }
            },
            Err(_) => {
                break ;
            },
        }
    }
    Ok((next, acc))
}

/// additive <- multitive (("+" / "-") multitive)*, folded to the left.
pub fn additive(s: &[u8], pos: usize) -> (r: Result<(usize, Expression), SyntaxError>)
    requires
        pos <= s@.len(),
    ensures
        parse_matches(r, grammar::additive(s@, pos as int)),
        r matches Ok((next, _)) ==> pos < next && next <= s@.len(),
    decreases s@.len() - pos, 5int,
{
    let (mut next, mut acc) = match multitive(s, pos) {
        Ok(x) => x,
        Err(e) => {
            return Err(e);
        },
    };
    loop
        invariant
            pos < next && next <= s@.len(),
            grammar::additive(s@, pos as int) == grammar::additive_tail(
                s@,
                next as int,
                acc.deep_view(),
            ),
        ensures
            pos < next && next <= s@.len(),
            grammar::additive(s@, pos as int) == (ParseOut::Matched {
                next: next as int,
                v: acc.deep_view(),
            }),
        decreases s@.len() - next,
    {
        match additive_operator(s, next) {
            Ok((p, operator)) => {
                match multitive(s, p) {
                    Ok((p2, rhs)) => {
                        acc = Expression::Binary {
                            operator,
                            lhs: Box::new(acc),
                            rhs: Box::new(rhs),
                        };
                        next = p2;
                    },
                    Err(_) => {
                        break ;
                    },
                }
            },
            Err(_) => {
                break ;
            },
        }
    }
    Ok((next, acc))
}

/// comparative <- additive (comparison additive)*, folded to the left.
pub fn comparative(s: &[u8], pos: usize) -> (r: Result<(usize, Expression), SyntaxError>)
    requires
        pos <= s@.len(),
    ensures
        parse_matches(r, grammar::comparative(s@, pos as int)),
        r matches Ok((next, _)) ==> pos < next && next <= s@.len(),
    decreases s@.len() - pos, 6int,
{
    let (mut next, mut acc) = match additive(s, pos) {
        Ok(x) => x,
        Err(e) => {
            return Err(e);
        },
    };
    loop
        invariant
            pos < next && next <= s@.len(),
            grammar::comparative(s@, pos as int) == grammar::comparative_tail(
                s@,
                next as int,
                acc.deep_view(),
            ),
        ensures
            pos < next && next <= s@.len(),
            grammar::comparative(s@, pos as int) == (ParseOut::Matched {
                next: next as int,
                v: acc.deep_view(),
            }),
        decreases s@.len() - next,
    {
        match comparison_operator(s, next) {
            Ok((p, operator)) => {
                match additive(s, p) {
                    Ok((p2, rhs)) => {
                        acc = Expression::Binary {
                            operator,
                            lhs: Box::new(acc),
                            rhs: Box::new(rhs),
                        };
                        next = p2;
                    },
                    Err(_) => {
                        break ;
                    },
                }
            },
            Err(_) => {
                break ;
            },
        }
    }
    Ok((next, acc))
}

/// expression <- comparative.
pub fn expression(s: &[u8], pos: usize) -> (r: Result<(usize, Expression), SyntaxError>)
    requires
        pos <= s@.len(),
    ensures
        parse_matches(r, grammar::expression(s@, pos as int)),
        r matches Ok((next, _)) ==> pos < next && next <= s@.len(),
    decreases s@.len() - pos, 7int,
{
    comparative(s, pos)
}

/// expression_line <- expression ";".
pub fn expression_line(s: &[u8], pos: usize) -> (r: Result<(usize, Expression), SyntaxError>)
    requires
        pos <= s@.len(),
    ensures
        parse_matches(r, grammar::expression_line(s@, pos as int)),
        r matches Ok((next, _)) ==> pos < next && next <= s@.len(),
    decreases s@.len() - pos, 8int,
{
    match expression(s, pos) {
        Ok((next, v)) => {
            if next < s.len() && s[next] == (';' as u8) {
                Ok((next + 1, v))
            } else {
                Err(SyntaxError { position: next })
            }
        },
        Err(e) => Err(e),
    }
}

/// assignment <- identifier "=" expression ";".
pub fn assignment(s: &[u8], pos: usize) -> (r: Result<(usize, Expression), SyntaxError>)
    requires
        pos <= s@.len(),
    ensures
        parse_matches(r, grammar::assignment(s@, pos as int)),
        r matches Ok((next, _)) ==> pos < next && next <= s@.len(),
    decreases s@.len() - pos, 8int,
{
    let (next0, name) = match raw_res::identifier(s, pos) {
        Ok(x) => x,
        Err(e) => {
            return Err(e);
        },
    };
    let p = ws(s, next0);
    if !(p < s.len() && s[p] == ('=' as u8)) {
        return Err(SyntaxError { position: p });
    }
    let p2 = ws(s, p + 1);
    match expression(s, p2) {
        Ok((p3, v)) => {
            if p3 < s.len() && s[p3] == (';' as u8) {
                Ok((p3 + 1, Expression::Assignment { name, expression: Box::new(v) }))
            } else {
                Err(SyntaxError { position: p3 })
            }
        },
        Err(e) => Err(e),
    }
}

/// println <- "println" "(" expression ")".
pub fn println_expression(s: &[u8], pos: usize) -> (r: Result<(usize, Expression), SyntaxError>)
    requires
        pos <= s@.len(),
    ensures
        parse_matches(r, grammar::println_expression(s@, pos as int)),
        r matches Ok((next, _)) ==> pos < next && next <= s@.len(),
    decreases s@.len() - pos, 8int,
{
    if !helper_combinators::kw_println(s, pos) {
        return Err(SyntaxError { position: pos });
    }
    let p = ws(s, helper_combinators::advance(s, pos, 7));
    match paren_expression(s, p) {
        Ok((next, v)) => Ok((next, Expression::PrintLn { expression: Box::new(v) })),
        Err(e) => Err(e),
    }
}

/// if_expression <- "if" "(" expression ")" line ("else" line)?.
pub fn if_expression(s: &[u8], pos: usize) -> (r: Result<(usize, Expression), SyntaxError>)
    requires
        pos <= s@.len(),
    ensures
        parse_matches(r, grammar::if_expression(s@, pos as int)),
        r matches Ok((next, _)) ==> pos < next && next <= s@.len(),
    decreases s@.len() - pos, 8int,
{
    if !helper_combinators::kw_if(s, pos) {
        return Err(SyntaxError { position: pos });
    }
    let p = ws(s, helper_combinators::advance(s, pos, 2));
    let (next, condition) = match paren_expression(s, p) {
        Ok(x) => x,
        Err(e) => {
            return Err(e);
        },
    };
    let p2 = ws(s, next);
    let (p3, then_clause) = match line(s, p2) {
        Ok(x) => x,
        Err(e) => {
            return Err(e);
        },
    };
    let q = ws(s, p3);
    if helper_combinators::kw_else(s, q) {
        let q2 = ws(s, helper_combinators::advance(s, q, 4));
        match line(s, q2) {
            Ok((q3, else_clause)) => Ok(
                (
                    q3,
                    Expression::If {
                        condition: Box::new(condition),
                        then_clause: Box::new(then_clause),
                        else_clause: Some(Box::new(else_clause)),
                    },
                ),
            ),
            Err(_) => Ok(
                (
                    p3,
                    Expression::If {
                        condition: Box::new(condition),
                        then_clause: Box::new(then_clause),
                        else_clause: None,
                    },
                ),
            ),
        }
    } else {
        Ok(
            (
                p3,
                Expression::If {
                    condition: Box::new(condition),
                    then_clause: Box::new(then_clause),
                    else_clause: None,
                },
            ),
        )
    }
}

/// while_expression <- "while" "(" expression ")" line.
pub fn while_expression(s: &[u8], pos: usize) -> (r: Result<(usize, Expression), SyntaxError>)
    requires
        pos <= s@.len(),
    ensures
        parse_matches(r, grammar::while_expression(s@, pos as int)),
        r matches Ok((next, _)) ==> pos < next && next <= s@.len(),
    decreases s@.len() - pos, 8int,
{
    if !helper_combinators::kw_while(s, pos) {
        return Err(SyntaxError { position: pos });
    }
    let p = ws(s, helper_combinators::advance(s, pos, 5));
    let (next, condition) = match paren_expression(s, p) {
        Ok(x) => x,
        Err(e) => {
            return Err(e);
        },
    };
    let p2 = ws(s, next);
    match line(s, p2) {
        Ok((p3, body)) => Ok(
            (p3, Expression::While { condition: Box::new(condition), body: Box::new(body) }),
        ),
        Err(e) => Err(e),
    }
}

/// block_expression <- "{" line* "}".
pub fn block_expression(s: &[u8], pos: usize) -> (r: Result<(usize, Expression), SyntaxError>)
    requires
        pos <= s@.len(),
    ensures
        parse_matches(r, grammar::block_expression(s@, pos as int)),
        r matches Ok((next, _)) ==> pos < next && next <= s@.len(),
    decreases s@.len() - pos, 8int,
{
    if !(pos < s.len() && s[pos] == ('{' as u8)) {
        return Err(SyntaxError { position: pos });
    }
    let p = ws(s, pos + 1);
    let mut elements: Vec<Expression> = Vec::new();
    let mut cur = p;
    proof {
        assert(expression_seq_view(elements@) =~= Seq::<ExpressionV>::empty());
        match grammar::lines(s@, p as int) {
            ParseOut::Matched { next: n0, v: v0 } => {
                assert(Seq::<ExpressionV>::empty() + v0 =~= v0);
            },
            ParseOut::Failed { at: _ } => {},
        }
    }
    loop
        invariant
            pos < cur && cur <= s@.len(),
            pos < p <= s@.len(),
            grammar::lines(s@, p as int) == (match grammar::lines(s@, cur as int) {
                ParseOut::Matched { next, v } => ParseOut::Matched {
                    next,
                    v: expression_seq_view(elements@) + v,
                },
                ParseOut::Failed { at } => ParseOut::Failed { at },
            }),
        ensures
            pos < cur && cur <= s@.len(),
            grammar::lines(s@, p as int) == (ParseOut::Matched {
                next: cur as int,
                v: expression_seq_view(elements@),
            }),
        decreases s@.len() - cur,
    {
        match line(s, cur) {
            Ok((next, v)) => {
                let ghost prev = elements@;
                let ghost vv = v.deep_view();
                elements.push(v);
                proof {
                    assert(elements@.drop_last() =~= prev);
                    assert(expression_seq_view(elements@) == expression_seq_view(prev).push(vv));
                    match grammar::lines(s@, next as int) {
                        ParseOut::Matched { next: n2, v: rest } => {
                            assert(expression_seq_view(prev) + (seq![vv] + rest)
                                =~= expression_seq_view(elements@) + rest);
                        },
                        ParseOut::Failed { at: _ } => {},
                    }
                }
                cur = next;
            },
            Err(_) => {
                proof {
                    assert(expression_seq_view(elements@) + Seq::<ExpressionV>::empty()
                        =~= expression_seq_view(elements@));
                }
                break ;
            },
        }
    }
    let p2 = ws(s, cur);
    if p2 < s.len() && s[p2] == ('}' as u8) {
        Ok((p2 + 1, Expression::Block { elements }))
    } else {
        Err(SyntaxError { position: p2 })
    }
}

/// line <- (println / if_expression / while_expression / block_expression
/// / assignment / expression_line), with trailing whitespace consumed.
pub fn line(s: &[u8], pos: usize) -> (r: Result<(usize, Expression), SyntaxError>)
    requires
        pos <= s@.len(),
    ensures
        parse_matches(r, grammar::line(s@, pos as int)),
        r matches Ok((next, _)) ==> pos < next && next <= s@.len(),
    decreases s@.len() - pos, 9int,
{
    let inner = match println_expression(s, pos) {
        Ok(x) => Ok(x),
        Err(_) => match if_expression(s, pos) {
            Ok(x) => Ok(x),
            Err(_) => match while_expression(s, pos) {
                Ok(x) => Ok(x),
                Err(_) => match block_expression(s, pos) {
                    Ok(x) => Ok(x),
                    Err(_) => match assignment(s, pos) {
                        Ok(x) => Ok(x),
                        Err(_) => expression_line(s, pos),
                    },
                },
            },
        },
    };
    match inner {
        Ok((next, v)) => Ok((ws(s, next), v)),
        Err(e) => Err(e),
    }
}

/// function_definition <- "define" identifier
/// "(" (identifier ("," identifier)*)? ")" block_expression.
pub fn function_definition(s: &[u8], pos: usize) -> (r: Result<(usize, TopLevel), SyntaxError>)
    requires
        pos <= s@.len(),
    ensures
        parse_matches(r, grammar::function_definition(s@, pos as int)),
        r matches Ok((next, _)) ==> pos < next && next <= s@.len(),
    decreases s@.len() - pos, 11int,
{
    if !helper_combinators::kw_define(s, pos) {
        return Err(SyntaxError { position: pos });
    }
    let p = helper_combinators::advance(s, pos, 6);
    if !(p < s.len() && helper_combinators::byte_is_space(s[p])) {
        return Err(SyntaxError { position: p });
    }
    let p2 = ws(s, p);
    let (next, name) = match raw_res::identifier(s, p2) {
        Ok(x) => x,
        Err(e) => {
            return Err(e);
        },
    };
    let p3 = ws(s, next);
    if !(p3 < s.len() && s[p3] == ('(' as u8)) {
        return Err(SyntaxError { position: p3 });
    }
    let p4 = ws(s, p3 + 1);
    let mut params: Vec<String> = Vec::new();
    let mut cur = p4;
    match raw_res::identifier(s, p4) {
        Ok((n1, v1)) => {
            let ghost first = v1@;
            params.push(v1);
            cur = n1;
            proof {
                assert(string_seq_view(params@) =~= seq![first]);
            }
            loop
                invariant
                    pos < cur && cur <= s@.len(),
                    grammar::param_list(s@, p4 as int) == grammar::param_list_tail(
                        s@,
                        cur as int,
                        string_seq_view(params@),
                    ),
                ensures
                    pos < cur && cur <= s@.len(),
                    grammar::param_list(s@, p4 as int) == (ParseOut::Matched {
                        next: cur as int,
                        v: string_seq_view(params@),
                    }),
                decreases s@.len() - cur,
            {
                let q = ws(s, cur);
                if q < s.len() && s[q] == (',' as u8) {
                    let q2 = ws(s, q + 1);
                    match raw_res::identifier(s, q2) {
                        Ok((n, v)) => {
                            let ghost prev = params@;
                            let ghost vv = v@;
                            params.push(v);
                            cur = n;
                            proof {
                                assert(string_seq_view(params@) =~= string_seq_view(prev).push(
                                    vv,
                                ));
                            }
                        },
                        Err(_) => {
                            break ;
                        },
                    }
                } else {
                    break ;
                }
            }
        },
        Err(_) => {
            proof {
                assert(string_seq_view(params@) =~= Seq::<Seq<char>>::empty());
            }
        },
    }
    let p6 = ws(s, cur);
    if !(p6 < s.len() && s[p6] == (')' as u8)) {
        return Err(SyntaxError { position: p6 });
    }
    let p7 = ws(s, p6 + 1);
    match block_expression(s, p7) {
        Ok((p8, body)) => Ok(
            (p8, TopLevel::FunctionDefinition(Function { name, args: params, body })),
        ),
        Err(e) => Err(e),
    }
}

/// global_variable_definition <- "global" identifier "=" expression.
pub fn global_variable_definition(s: &[u8], pos: usize) -> (r: Result<
    (usize, TopLevel),
    SyntaxError,
>)
    requires
        pos <= s@.len(),
    ensures
        parse_matches(r, grammar::global_variable_definition(s@, pos as int)),
        r matches Ok((next, _)) ==> pos < next && next <= s@.len(),
    decreases s@.len() - pos, 11int,
{
    if !helper_combinators::kw_global(s, pos) {
        return Err(SyntaxError { position: pos });
    }
    let p = helper_combinators::advance(s, pos, 6);
    if !(p < s.len() && helper_combinators::byte_is_space(s[p])) {
        return Err(SyntaxError { position: p });
    }
    let p2 = ws(s, p);
    let (next, name) = match raw_res::identifier(s, p2) {
        Ok(x) => x,
        Err(e) => {
            return Err(e);
        },
    };
    let q = ws(s, next);
    if !(q < s.len() && s[q] == ('=' as u8)) {
        return Err(SyntaxError { position: q });
    }
    let q2 = ws(s, q + 1);
    match expression(s, q2) {
        Ok((q3, v)) => Ok((q3, TopLevel::GlobalVariableDefinition { name, expression: v })),
        Err(e) => Err(e),
    }
}

/// top_level_definition <- function_definition / global_variable_definition.
pub fn top_level_definition(s: &[u8], pos: usize) -> (r: Result<(usize, TopLevel), SyntaxError>)
    requires
        pos <= s@.len(),
    ensures
        parse_matches(r, grammar::top_level_definition(s@, pos as int)),
        r matches Ok((next, _)) ==> pos < next && next <= s@.len(),
    decreases s@.len() - pos, 12int,
{
    match function_definition(s, pos) {
        Ok(x) => Ok(x),
        Err(_) => global_variable_definition(s, pos),
    }
}

/// program <- top_level_definition*, with surrounding whitespace
/// consumed.
pub fn program(s: &[u8], pos: usize) -> (r: Result<(usize, Program), SyntaxError>)
    requires
        pos <= s@.len(),
    ensures
        parse_matches(r, grammar::program(s@, pos as int)),
        r matches Ok((next, _)) ==> pos <= next && next <= s@.len(),
    decreases s@.len() - pos, 14int,
{
    let p = ws(s, pos);
    let mut definitions: Vec<TopLevel> = Vec::new();
    let mut cur = p;
    proof {
        assert(top_level_seq_view(definitions@) =~= Seq::<TopLevelV>::empty());
        match grammar::top_levels(s@, p as int) {
            ParseOut::Matched { next: n0, v: v0 } => {
                assert(Seq::<TopLevelV>::empty() + v0 =~= v0);
            },
            ParseOut::Failed { at: _ } => {},
        }
    }
    loop
        invariant
            pos <= p <= s@.len(),
            p <= cur && cur <= s@.len(),
            grammar::top_levels(s@, p as int) == (match grammar::top_levels(s@, cur as int) {
                ParseOut::Matched { next, v } => ParseOut::Matched {
                    next,
                    v: top_level_seq_view(definitions@) + v,
                },
                ParseOut::Failed { at } => ParseOut::Failed { at },
            }),
        ensures
            p <= cur && cur <= s@.len(),
            grammar::top_levels(s@, p as int) == (ParseOut::Matched {
                next: cur as int,
                v: top_level_seq_view(definitions@),
            }),
        decreases s@.len() - cur,
    {
        match top_level_definition(s, cur) {
            Ok((next, d)) => {
                let ghost prev = definitions@;
                let ghost dv = d.deep_view();
                definitions.push(d);
                proof {
                    assert(top_level_seq_view(definitions@) =~= top_level_seq_view(prev).push(
                        dv,
                    ));
                    match grammar::top_levels(s@, skip_ws(s@, next as int)) {
                        ParseOut::Matched { next: n2, v: rest } => {
                            assert(top_level_seq_view(prev) + (seq![dv] + rest)
                                =~= top_level_seq_view(definitions@) + rest);
                        },
                        ParseOut::Failed { at: _ } => {},
                    }
                }
                cur = ws(s, next);
            },
            Err(_) => {
                proof {
                    assert(top_level_seq_view(definitions@) + Seq::<TopLevelV>::empty()
                        =~= top_level_seq_view(definitions@));
                }
                break ;
            },
        }
    }
    Ok((cur, Program { definitions }))
}

/// Parses a whole program from source text: the grammar entry point.
pub fn parse_program(text: &str) -> (r: Result<(usize, Program), SyntaxError>)
    ensures
        parse_matches(r, grammar::program(text.spec_bytes(), 0)),
{
    let bytes = text.as_bytes();
    program(bytes, 0)
}

/// integer <- i64, as an expression.
pub fn integer(s: &[u8], pos: usize) -> (r: Result<(usize, Expression), SyntaxError>)
    requires
        pos <= s@.len(),
    ensures
        ({
            let sp = grammar::integer(s@, pos as int);
            match r {
                Ok((next, e)) => sp matches ParseOut::Matched { next: n2, v } && n2 == next as int
                    && e.deep_view() == (ExpressionV::IntegerLiteral { value: v }),
                Err(err) => sp == (ParseOut::Failed::<i64> { at: err.position as int }),
            }
        }),
        r matches Ok((next, _)) ==> pos < next && next <= s@.len(),
{
    match raw_res::integer(s, pos) {
        Ok((next, value)) => Ok((next, Expression::IntegerLiteral { value })),
        Err(e) => Err(e),
    }
}

/// identifier, as an expression referring to a variable.
pub fn identifier(s: &[u8], pos: usize) -> (r: Result<(usize, Expression), SyntaxError>)
    requires
        pos <= s@.len(),
    ensures
        ({
            let sp = grammar::identifier(s@, pos as int);
            match r {
                Ok((next, e)) => sp matches ParseOut::Matched { next: n2, v } && n2 == next as int
                    && e.deep_view() == (ExpressionV::Identifier { name: v }),
                Err(err) => sp == (ParseOut::Failed::<Seq<char>> { at: err.position as int }),
            }
        }),
        r matches Ok((next, _)) ==> pos < next && next <= s@.len(),
{
    match raw_res::identifier(s, pos) {
        Ok((next, name)) => Ok((next, Expression::Identifier { name })),
        Err(e) => Err(e),
    }
}

} // verus!
