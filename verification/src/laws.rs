//! General laws of the evaluation engine, proved once and for all from
//! the semantics. Each law holds for every state, every function
//! environment and every fuel bound.

use vstd::prelude::*;

use crate::ast::{Expression, Function, Operator};
use crate::semantics::{
    eval_block, eval_expression, fault_of, value_of, EvalFault, EvalResult, EvalState,
};

verus! {

/// Evaluating an integer literal yields exactly the literal's value and
/// leaves the state unchanged.
pub proof fn law_integer_literal(
    value: i64,
    st: EvalState,
    funcs: Map<Seq<char>, Function>,
    fuel: nat,
)
    ensures
        eval_expression(Expression::IntegerLiteral { value }, st, funcs, fuel) == value_of(
            value,
            st,
        ),
{
}

/// A division whose right operand evaluates to zero faults with
/// ZeroDivision, in the state the operands' evaluation left.
pub proof fn law_division_by_zero(
    lhs: Expression,
    rhs: Expression,
    st: EvalState,
    funcs: Map<Seq<char>, Function>,
    fuel: nat,
)
    requires
        eval_expression(lhs, st, funcs, fuel).result matches EvalResult::Value(_),
        eval_expression(rhs, eval_expression(lhs, st, funcs, fuel).state, funcs, fuel).result
            == EvalResult::Value(0i64),
    ensures
        eval_expression(
            Expression::Binary { operator: Operator::Divide, lhs: Box::new(lhs), rhs: Box::new(
                rhs,
            ) },
            st,
            funcs,
            fuel,
        ) == fault_of(
            EvalFault::ZeroDivision,
            eval_expression(rhs, eval_expression(lhs, st, funcs, fuel).state, funcs, fuel).state,
        ),
{
}

/// After a successful assignment, reading the assigned name back yields
/// the assigned value, with any fuel at all, and changes nothing.
pub proof fn law_assignment_round_trip(
    name: String,
    e: Expression,
    st: EvalState,
    funcs: Map<Seq<char>, Function>,
    fuel: nat,
    lookup_fuel: nat,
)
    ensures
        ({
            let av = eval_expression(
                Expression::Assignment { name, expression: Box::new(e) },
                st,
                funcs,
                fuel,
            );
            av.result matches EvalResult::Value(v) ==> eval_expression(
                Expression::Identifier { name },
                av.state,
                funcs,
                lookup_fuel,
            ) == value_of(v, av.state)
        }),
{
}

/// Reading a name with no binding faults with VariableNotPresent
/// carrying that name.
pub proof fn law_undefined_variable(
    name: String,
    st: EvalState,
    funcs: Map<Seq<char>, Function>,
    fuel: nat,
)
    requires
        !st.vars.contains_key(name@),
    ensures
        eval_expression(Expression::Identifier { name }, st, funcs, fuel) == fault_of(
            EvalFault::VariableNotPresent(name@),
            st,
        ),
{
}

/// A while loop whose condition evaluates to zero yields the sentinel 1
/// in the state the condition's evaluation left.
pub proof fn law_while_false_condition(
    condition: Expression,
    body: Expression,
    st: EvalState,
    funcs: Map<Seq<char>, Function>,
    fuel: nat,
)
    requires
        eval_expression(condition, st, funcs, fuel).result == EvalResult::Value(0i64),
    ensures
        eval_expression(
            Expression::While { condition: Box::new(condition), body: Box::new(body) },
            st,
            funcs,
            fuel,
        ) == value_of(1, eval_expression(condition, st, funcs, fuel).state),
{
}

/// A while loop whose condition evaluates to nonzero runs its body once
/// and re-enters the loop with one nesting level spent.
pub proof fn law_while_unfold(
    condition: Expression,
    body: Expression,
    st: EvalState,
    funcs: Map<Seq<char>, Function>,
    fuel: nat,
)
    requires
        fuel > 0,
        eval_expression(condition, st, funcs, fuel).result matches EvalResult::Value(c) && c != 0,
        eval_expression(
            body,
            eval_expression(condition, st, funcs, fuel).state,
            funcs,
            fuel,
        ).result matches EvalResult::Value(_),
    ensures
        ({
            let w = Expression::While { condition: Box::new(condition), body: Box::new(body) };
            eval_expression(w, st, funcs, fuel) == eval_expression(
                w,
                eval_expression(
                    body,
                    eval_expression(condition, st, funcs, fuel).state,
                    funcs,
                    fuel,
                ).state,
                funcs,
                (fuel - 1) as nat,
            )
        }),
{
}

/// An if selects its branch by the condition's value: nonzero takes the
/// then clause; zero takes the else clause where there is one, and
/// faults where there is none.
pub proof fn law_if_selection(
    condition: Expression,
    then_clause: Expression,
    else_clause: Option<Box<Expression>>,
    st: EvalState,
    funcs: Map<Seq<char>, Function>,
    fuel: nat,
)
    ensures
        ({
            let e = Expression::If {
                condition: Box::new(condition),
                then_clause: Box::new(then_clause),
                else_clause,
            };
            let cv = eval_expression(condition, st, funcs, fuel);
            match cv.result {
                EvalResult::Value(c) => if c != 0 {
                    eval_expression(e, st, funcs, fuel) == eval_expression(
                        then_clause,
                        cv.state,
                        funcs,
                        fuel,
                    )
                } else {
                    match else_clause {
                        Option::Some(els) => eval_expression(e, st, funcs, fuel)
                            == eval_expression(*els, cv.state, funcs, fuel),
                        Option::None => eval_expression(e, st, funcs, fuel) == fault_of(
                            EvalFault::ElseClauseNoneUnderIfConditionNotMet,
                            cv.state,
                        ),
                    }
                },
                EvalResult::Fault(_) => eval_expression(e, st, funcs, fuel) == cv,
            }
        }),
{
}

/// Call-frame isolation: a function call that returns a value restores
/// the caller's variable bindings exactly, so no parameter binding and
/// no assignment made inside the call leaks out.
pub proof fn law_call_restores_caller_bindings(
    name: String,
    args: Vec<Expression>,
    st: EvalState,
    funcs: Map<Seq<char>, Function>,
    fuel: nat,
)
    ensures
        ({
            let cv = eval_expression(Expression::FunctionCall { name, args }, st, funcs, fuel);
            cv.result matches EvalResult::Value(_) ==> cv.state.vars == st.vars
        }),
{
}

/// An empty block evaluates to 0 and leaves the state unchanged.
pub proof fn law_empty_block(
    b: Expression,
    st: EvalState,
    funcs: Map<Seq<char>, Function>,
    fuel: nat,
)
    requires
        b matches Expression::Block { elements } && elements@.len() == 0,
    ensures
        eval_expression(b, st, funcs, fuel) == value_of(0, st),
{
    match b {
        Expression::Block { elements } => {
            assert(eval_block(elements@, 0, st, funcs, fuel) == value_of(0, st));
        },
        _ => {},
    }
}

/// A block's value is its last element's value: evaluating the elements
/// `elems.push(e)` is evaluating `elems` and then, if no fault arose,
/// evaluating `e` in the state they left.
pub proof fn law_block_last_element(
    elems: Seq<Expression>,
    e: Expression,
    acc: i64,
    st: EvalState,
    funcs: Map<Seq<char>, Function>,
    fuel: nat,
)
    ensures
        ({
            let prefix = eval_block(elems, acc, st, funcs, fuel);
            match prefix.result {
                EvalResult::Value(_) => eval_block(elems.push(e), acc, st, funcs, fuel)
                    == eval_expression(e, prefix.state, funcs, fuel),
                EvalResult::Fault(_) => eval_block(elems.push(e), acc, st, funcs, fuel) == prefix,
            }
        }),
    decreases elems.len(),
{
    if elems.len() == 0 {
        assert(elems.push(e).drop_first() =~= Seq::<Expression>::empty());
        let ev = eval_expression(e, st, funcs, fuel);
        match ev.result {
            EvalResult::Value(v) => {
                assert(eval_block(Seq::<Expression>::empty(), v, ev.state, funcs, fuel)
                    == value_of(v, ev.state));
            },
            EvalResult::Fault(_) => {},
        }
    } else {
        assert(elems.push(e)[0] == elems[0]);
        assert(elems.push(e).drop_first() =~= elems.drop_first().push(e));
        let first = eval_expression(elems[0], st, funcs, fuel);
        match first.result {
            EvalResult::Value(v) => {
                law_block_last_element(elems.drop_first(), e, v, first.state, funcs, fuel);
            },
            EvalResult::Fault(_) => {},
        }
    }
}

/// Calling a name with no function bound to it faults with
/// FunctionNotFound carrying that name.
pub proof fn law_missing_function(
    name: String,
    args: Vec<Expression>,
    st: EvalState,
    funcs: Map<Seq<char>, Function>,
    fuel: nat,
)
    requires
        !funcs.contains_key(name@),
    ensures
        eval_expression(Expression::FunctionCall { name, args }, st, funcs, fuel) == fault_of(
            EvalFault::FunctionNotFound(name@),
            st,
        ),
{
}

} // verus!
