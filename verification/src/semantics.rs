//! The meaning of the language, as specification-level functions: a
//! big-step evaluator over mathematical maps and sequences. The executable
//! interpreter is verified against these definitions.
//!
//! Evaluation of a `While` body or of a called function's body re-enters
//! an expression that is not structurally smaller, so every definition
//! here carries a fuel bound: entering a function body or starting
//! another loop iteration spends one unit. An evaluation that runs out
//! of fuel yields the `RecursionLimitReached` fault; the executable
//! interpreter starts from a bound of `u64::MAX` nesting levels, the
//! analogue of the host call stack being finite.

use vstd::prelude::*;

use crate::ast::{Expression, Function, Operator, TopLevel};

verus! {

/// A runtime fault, as specification-level data; names that faults carry
/// are character sequences.
pub enum EvalFault {
    MainNotPresent,
    ZeroDivision,
    VariableNotPresent(Seq<char>),
    ElseClauseNoneUnderIfConditionNotMet,
    NotEnoughArguments(Seq<char>),
    FunctionNotFound(Seq<char>),
    RecursionLimitReached,
}

/// What evaluating an expression yields: a value, or the first fault hit.
pub enum EvalResult {
    Value(i64),
    Fault(EvalFault),
}

/// The mutable state evaluation acts on: the variable bindings and the
/// values printed so far.
pub struct EvalState {
    pub vars: Map<Seq<char>, i64>,
    pub out: Seq<i64>,
}

/// An evaluation outcome: the result together with the state it leaves.
pub struct Evaluation {
    pub result: EvalResult,
    pub state: EvalState,
}

/// The outcome of loading top-level definitions, which also builds the
/// function environment.
pub struct LoadOutcome {
    pub result: EvalResult,
    pub state: EvalState,
    pub funcs: Map<Seq<char>, Function>,
}

/// The outcome of evaluating a call's arguments: the result, the state
/// the actuals' side effects left, and the (formal, value) bindings
/// collected for the body.
pub struct ArgsOutcome {
    pub result: EvalResult,
    pub state: EvalState,
    pub bindings: Seq<(Seq<char>, i64)>,
}

pub open spec fn value_of(v: i64, state: EvalState) -> Evaluation {
    Evaluation { result: EvalResult::Value(v), state }
}

pub open spec fn fault_of(fault: EvalFault, state: EvalState) -> Evaluation {
    Evaluation { result: EvalResult::Fault(fault), state }
}

/// Signed division truncated toward zero, as Rust's `/` computes it.
pub open spec fn div_trunc(x: int, d: int) -> int
    recommends
        d != 0,
{
    if x == 0 {
        0
    } else if x > 0 && d > 0 {
        x / d
    } else if x < 0 && d < 0 {
        (x * -1) / (d * -1)
    } else if x < 0 {
        ((x * -1) / d) * -1
    } else {
        (x / (d * -1)) * -1
    }
}

/// Division of language values: truncated, with the lone out-of-range
/// quotient (`i64::MIN / -1`) wrapping back to `i64::MIN`.
pub open spec fn divide_values(lhs: i64, rhs: i64) -> i64
    recommends
        rhs != 0,
{
    if lhs == i64::MIN && rhs == -1 {
        i64::MIN
    } else {
        div_trunc(lhs as int, rhs as int) as i64
    }
}

/// Applies a binary operator to two already-evaluated operands.
/// Additive and multiplicative operators wrap around the 64-bit range;
/// comparisons yield 1 for true and 0 for false; division faults on a
/// zero right operand.
pub open spec fn apply_operator(operator: Operator, lhs: i64, rhs: i64) -> EvalResult {
    match operator {
        Operator::Add => EvalResult::Value(lhs.wrapping_add(rhs)),
        Operator::Subtract => EvalResult::Value(lhs.wrapping_sub(rhs)),
        Operator::Multiply => EvalResult::Value(lhs.wrapping_mul(rhs)),
        Operator::Divide => if rhs == 0 {
            EvalResult::Fault(EvalFault::ZeroDivision)
        } else {
            EvalResult::Value(divide_values(lhs, rhs))
        },
        Operator::LessThan => EvalResult::Value(if lhs < rhs { 1 } else { 0 }),
        Operator::LessOrEqual => EvalResult::Value(if lhs <= rhs { 1 } else { 0 }),
        Operator::GreaterThan => EvalResult::Value(if lhs > rhs { 1 } else { 0 }),
        Operator::GreaterOrEqual => EvalResult::Value(if lhs >= rhs { 1 } else { 0 }),
        Operator::EqualEqual => EvalResult::Value(if lhs == rhs { 1 } else { 0 }),
        Operator::NotEqual => EvalResult::Value(if lhs != rhs { 1 } else { 0 }),
    }
}

/// Evaluates one expression in the given state, against a fixed function
/// environment.
pub open spec fn eval_expression(
    e: Expression,
    st: EvalState,
    funcs: Map<Seq<char>, Function>,
    fuel: nat,
) -> Evaluation
    decreases fuel, e,
{
    match e {
        Expression::Binary { operator, lhs, rhs } => {
            let lv = eval_expression(*lhs, st, funcs, fuel);
            match lv.result {
                EvalResult::Value(a) => {
                    let rv = eval_expression(*rhs, lv.state, funcs, fuel);
                    match rv.result {
                        EvalResult::Value(b) => Evaluation {
                            result: apply_operator(operator, a, b),
                            state: rv.state,
                        },
                        EvalResult::Fault(_) => rv,
                    }
                },
                EvalResult::Fault(_) => lv,
            }
        },
        Expression::IntegerLiteral { value } => value_of(value, st),
        Expression::Identifier { name } => if st.vars.contains_key(name@) {
            value_of(st.vars[name@], st)
        } else {
            fault_of(EvalFault::VariableNotPresent(name@), st)
        },
        Expression::Assignment { name, expression } => {
            let ev = eval_expression(*expression, st, funcs, fuel);
            match ev.result {
                EvalResult::Value(v) => Evaluation {
                    result: EvalResult::Value(v),
                    state: EvalState { vars: ev.state.vars.insert(name@, v), out: ev.state.out },
                },
                EvalResult::Fault(_) => ev,
            }
        },
        Expression::Block { elements } => eval_block(elements@, 0, st, funcs, fuel),
        Expression::While { condition, body } => {
            let cv = eval_expression(*condition, st, funcs, fuel);
            match cv.result {
                EvalResult::Value(c) => if c == 0 {
                    value_of(1, cv.state)
                } else {
                    let bv = eval_expression(*body, cv.state, funcs, fuel);
                    match bv.result {
                        EvalResult::Value(_) => if fuel == 0 {
                            fault_of(EvalFault::RecursionLimitReached, bv.state)
                        } else {
                            eval_expression(e, bv.state, funcs, (fuel - 1) as nat)
                        },
                        EvalResult::Fault(_) => bv,
                    }
                },
                EvalResult::Fault(_) => cv,
            }
        },
        Expression::If { condition, then_clause, else_clause } => {
            let cv = eval_expression(*condition, st, funcs, fuel);
            match cv.result {
                EvalResult::Value(c) => if c != 0 {
                    eval_expression(*then_clause, cv.state, funcs, fuel)
                } else {
                    match else_clause {
                        Option::Some(els) => eval_expression(*els, cv.state, funcs, fuel),
                        Option::None => fault_of(
                            EvalFault::ElseClauseNoneUnderIfConditionNotMet,
                            cv.state,
                        ),
                    }
                },
                EvalResult::Fault(_) => cv,
            }
        },
        Expression::FunctionCall { name, args } => {
            if funcs.contains_key(name@) {
                let f = funcs[name@];
                let av = eval_args(f.args@, args@, st, funcs, fuel, Seq::empty());
                match av.result {
                    EvalResult::Value(_) => if fuel == 0 {
                        fault_of(EvalFault::RecursionLimitReached, av.state)
                    } else {
                        let bv = eval_expression(
                            f.body,
                            bind_parameters(av.bindings, av.state),
                            funcs,
                            (fuel - 1) as nat,
                        );
                        match bv.result {
                            EvalResult::Value(v) => Evaluation {
                                result: EvalResult::Value(v),
                                state: EvalState { vars: st.vars, out: bv.state.out },
                            },
                            EvalResult::Fault(_) => bv,
                        }
                    },
                    EvalResult::Fault(fault) => Evaluation {
                        result: EvalResult::Fault(fault),
                        state: av.state,
                    },
                }
            } else {
                fault_of(EvalFault::FunctionNotFound(name@), st)
            }
        },
        Expression::PrintLn { expression } => {
            let ev = eval_expression(*expression, st, funcs, fuel);
            match ev.result {
                EvalResult::Value(v) => Evaluation {
                    result: EvalResult::Value(1),
                    state: EvalState { vars: ev.state.vars, out: ev.state.out.push(v) },
                },
                EvalResult::Fault(_) => ev,
            }
        },
    }
}

/// Evaluates the elements of a block in order. The block's value is its
/// last element's value; `acc` carries the value of the elements already
/// evaluated, starting from the empty block's value 0.
pub open spec fn eval_block(
    elements: Seq<Expression>,
    acc: i64,
    st: EvalState,
    funcs: Map<Seq<char>, Function>,
    fuel: nat,
) -> Evaluation
    decreases fuel, elements,
{
    if elements.len() == 0 {
        value_of(acc, st)
    } else {
        let ev = eval_expression(elements[0], st, funcs, fuel);
        match ev.result {
            EvalResult::Value(v) => eval_block(elements.drop_first(), v, ev.state, funcs, fuel),
            EvalResult::Fault(_) => ev,
        }
    }
}

/// Evaluates a called function's actual arguments, one per formal
/// parameter, each in the state the previous actuals' side effects
/// left: no formal is bound yet, so the actuals see only the caller's
/// bindings. The (formal, value) pairs are accumulated in `bound`, in
/// parameter order, to be applied only for the body's evaluation. A
/// formal with no actual in its position faults; extra actuals are
/// ignored. On success the result carries the placeholder value 0.
pub open spec fn eval_args(
    params: Seq<String>,
    actuals: Seq<Expression>,
    st: EvalState,
    funcs: Map<Seq<char>, Function>,
    fuel: nat,
    bound: Seq<(Seq<char>, i64)>,
) -> ArgsOutcome
    decreases fuel, actuals, params.len(),
{
    if params.len() == 0 {
        ArgsOutcome { result: EvalResult::Value(0), state: st, bindings: bound }
    } else if actuals.len() == 0 {
        ArgsOutcome {
            result: EvalResult::Fault(EvalFault::NotEnoughArguments(params[0]@)),
            state: st,
            bindings: bound,
        }
    } else {
        let ev = eval_expression(actuals[0], st, funcs, fuel);
        match ev.result {
            EvalResult::Value(v) => eval_args(
                params.drop_first(),
                actuals.drop_first(),
                ev.state,
                funcs,
                fuel,
                bound.push((params[0]@, v)),
            ),
            EvalResult::Fault(fault) => ArgsOutcome {
                result: EvalResult::Fault(fault),
                state: ev.state,
                bindings: bound,
            },
        }
    }
}

/// Binds the collected (formal, value) pairs, in parameter order, into
/// the state a function body is evaluated against.
pub open spec fn bind_parameters(bindings: Seq<(Seq<char>, i64)>, st: EvalState) -> EvalState
    decreases bindings.len(),
{
    if bindings.len() == 0 {
        st
    } else {
        bind_parameters(
            bindings.drop_first(),
            EvalState { vars: st.vars.insert(bindings[0].0, bindings[0].1), out: st.out },
        )
    }
}

/// The view of executable (name, value) pairs as specification-level
/// bindings.
pub open spec fn binding_pairs_view(s: Seq<(String, i64)>) -> Seq<(Seq<char>, i64)> {
    Seq::new(s.len(), |i: int| (s[i].0@, s[i].1))
}

/// Loads top-level definitions in program order: function definitions
/// populate the function environment; global definitions are evaluated
/// at once, seeing everything already loaded. On success the result
/// carries the placeholder value 0.
pub open spec fn load_definitions(
    definitions: Seq<TopLevel>,
    st: EvalState,
    funcs: Map<Seq<char>, Function>,
    fuel: nat,
) -> LoadOutcome
    decreases definitions.len(),
{
    if definitions.len() == 0 {
        LoadOutcome { result: EvalResult::Value(0), state: st, funcs }
    } else {
        match definitions[0] {
            TopLevel::FunctionDefinition(f) => load_definitions(
                definitions.drop_first(),
                st,
                funcs.insert(f.name@, f),
                fuel,
            ),
            TopLevel::GlobalVariableDefinition { name, expression } => {
                let ev = eval_expression(expression, st, funcs, fuel);
                match ev.result {
                    EvalResult::Value(v) => load_definitions(
                        definitions.drop_first(),
                        EvalState {
                            vars: ev.state.vars.insert(name@, v),
                            out: ev.state.out,
                        },
                        funcs,
                        fuel,
                    ),
                    EvalResult::Fault(fault) => LoadOutcome {
                        result: EvalResult::Fault(fault),
                        state: ev.state,
                        funcs,
                    },
                }
            },
        }
    }
}

/// Runs a program: loads its definitions, then evaluates the body of the
/// function named `main`, faulting if there is none. As for any other
/// call, the variable bindings that held when the call began - here,
/// right after loading - are restored once the body returns a value.
pub open spec fn run_outcome(
    definitions: Seq<TopLevel>,
    st: EvalState,
    funcs: Map<Seq<char>, Function>,
    fuel: nat,
) -> LoadOutcome {
    let ld = load_definitions(definitions, st, funcs, fuel);
    match ld.result {
        EvalResult::Value(_) => if ld.funcs.contains_key("main"@) {
            let bv = eval_expression(ld.funcs["main"@].body, ld.state, ld.funcs, fuel);
            match bv.result {
                EvalResult::Value(_) => LoadOutcome {
                    result: bv.result,
                    state: EvalState { vars: ld.state.vars, out: bv.state.out },
                    funcs: ld.funcs,
                },
                EvalResult::Fault(_) => LoadOutcome {
                    result: bv.result,
                    state: bv.state,
                    funcs: ld.funcs,
                },
            }
        } else {
            LoadOutcome {
                result: EvalResult::Fault(EvalFault::MainNotPresent),
                state: ld.state,
                funcs: ld.funcs,
            }
        },
        EvalResult::Fault(_) => ld,
    }
}

} // verus!
