//! The tree-walking interpreter: executable evaluation of expressions and
//! programs, verified against the semantics module.

use vstd::prelude::*;

use crate::ast::{Expression, Function, Operator, Program};
use crate::ast::TopLevel;
use crate::environment::Environment;
use crate::semantics::{
    bind_parameters, binding_pairs_view, div_trunc, divide_values, eval_args, eval_block,
    eval_expression, load_definitions, run_outcome, EvalFault, EvalResult, EvalState,
};
use vstd::arithmetic::div_mod::{
    lemma_div_basics_4, lemma_div_basics_5, lemma_div_is_ordered,
    lemma_div_is_ordered_by_denominator,
};

verus! {

/// How many nesting levels of function calls and loop iterations one
/// evaluation may enter; the analogue of the host call stack being
/// finite. No terminating program reaches it.
pub const FUEL_LIMIT: u64 = u64::MAX;

/// A runtime fault, carrying the offending name where there is one.
#[derive(Debug)]
pub enum InterpreterError {
    MainNotPresent,
    ZeroDivision,
    VariableNotPresent(String),
    ElseClauseNoneUnderIfConditionNotMet,
    NotEnoughArguments(String),
    FunctionNotFound(String),
    RecursionLimitReached,
}

impl View for InterpreterError {
    type V = EvalFault;

    open spec fn view(&self) -> EvalFault {
        match self {
            InterpreterError::MainNotPresent => EvalFault::MainNotPresent,
            InterpreterError::ZeroDivision => EvalFault::ZeroDivision,
            InterpreterError::VariableNotPresent(name) => EvalFault::VariableNotPresent(name@),
            InterpreterError::ElseClauseNoneUnderIfConditionNotMet
                => EvalFault::ElseClauseNoneUnderIfConditionNotMet,
            InterpreterError::NotEnoughArguments(name) => EvalFault::NotEnoughArguments(name@),
            InterpreterError::FunctionNotFound(name) => EvalFault::FunctionNotFound(name@),
            InterpreterError::RecursionLimitReached => EvalFault::RecursionLimitReached,
        }
    }
}

/// Whether an executable result means exactly the given
/// specification-level result.
pub open spec fn result_matches(r: Result<i64, InterpreterError>, res: EvalResult) -> bool {
    match r {
        Result::Ok(v) => res == EvalResult::Value(v),
        Result::Err(e) => res == EvalResult::Fault(e@),
    }
}

/// The interpreter: a variable environment, a function environment, and
/// the values printed so far.
pub struct Interpreter {
    variable_environment: Environment<i64>,
    function_environment: Environment<Function>,
    output: Vec<i64>,
}

proof fn lemma_div_trunc_in_range(x: int, d: int)
    requires
        i64::MIN <= x <= i64::MAX,
        i64::MIN <= d <= i64::MAX,
        d != 0,
        !(x == i64::MIN && d == -1),
    ensures
        i64::MIN <= div_trunc(x, d) <= i64::MAX,
{
    if x == 0 {
    } else if x > 0 && d > 0 {
        lemma_div_basics_4(x, d);
        lemma_div_basics_5(x, d);
    } else if x < 0 && d < 0 {
        let a = x * -1;
        let q = d * -1;
        lemma_div_basics_4(a, q);
        if q == 1 {
            lemma_div_basics_5(a, q);
        } else {
            lemma_div_is_ordered_by_denominator(a, 2, q);
            lemma_div_is_ordered(a, 0x8000_0000_0000_0000, 2);
        }
    } else if x < 0 {
        let a = x * -1;
        lemma_div_basics_4(a, d);
        lemma_div_basics_5(a, d);
    } else {
        let q = d * -1;
        lemma_div_basics_4(x, q);
        lemma_div_basics_5(x, q);
    }
}

/// Divides two language values, faulting on a zero right operand.
fn divide_checked(lhs: i64, rhs: i64) -> (r: Result<i64, InterpreterError>)
    ensures
        result_matches(
            r,
            if rhs == 0 {
                EvalResult::Fault(EvalFault::ZeroDivision)
            } else {
                EvalResult::Value(divide_values(lhs, rhs))
            },
        ),
{
    if rhs == 0 {
        Err(InterpreterError::ZeroDivision)
    } else {
        proof {
            if !(lhs == i64::MIN && rhs == -1) {
                lemma_div_trunc_in_range(lhs as int, rhs as int);
            }
        }
        match lhs.checked_div(rhs) {
            Option::Some(v) => Ok(v),
            Option::None => Ok(i64::MIN),
        }
    }
}

/// Evaluates one expression against the given variable environment,
/// output buffer and function environment, with the given fuel bound.
#[verifier::rlimit(60)]
#[verifier::loop_isolation(false)]
fn evaluate(
    vars: &mut Environment<i64>,
    out: &mut Vec<i64>,
    funcs: &Environment<Function>,
    e: &Expression,
    fuel: u64,
) -> (r: Result<i64, InterpreterError>)
    ensures
        ({
            let ev = eval_expression(
                *e,
                EvalState { vars: old(vars).as_map(), out: old(out)@ },
                funcs.as_map(),
                fuel as nat,
            );
            &&& result_matches(r, ev.result)
            &&& final(vars).as_map() == ev.state.vars
            &&& final(out)@ == ev.state.out
        }),
    decreases fuel, *e,
{
    let ghost st0 = EvalState { vars: vars.as_map(), out: out@ };
    let ghost fenv = funcs.as_map();
    match e {
        Expression::Binary { operator, lhs, rhs } => {
            let lhs_value = match evaluate(vars, out, funcs, lhs, fuel) {
                Ok(v) => v,
                Err(err) => {
                    return Err(err);
                },
            };
            let rhs_value = match evaluate(vars, out, funcs, rhs, fuel) {
                Ok(v) => v,
                Err(err) => {
                    return Err(err);
                },
            };
            match operator {
                Operator::Add => Ok(lhs_value.wrapping_add(rhs_value)),
                Operator::Subtract => Ok(lhs_value.wrapping_sub(rhs_value)),
                Operator::Multiply => Ok(lhs_value.wrapping_mul(rhs_value)),
                Operator::Divide => divide_checked(lhs_value, rhs_value),
                Operator::LessThan => Ok(if lhs_value < rhs_value { 1 } else { 0 }),
                Operator::LessOrEqual => Ok(if lhs_value <= rhs_value { 1 } else { 0 }),
                Operator::GreaterThan => Ok(if lhs_value > rhs_value { 1 } else { 0 }),
                Operator::GreaterOrEqual => Ok(if lhs_value >= rhs_value { 1 } else { 0 }),
                Operator::EqualEqual => Ok(if lhs_value == rhs_value { 1 } else { 0 }),
                Operator::NotEqual => Ok(if lhs_value != rhs_value { 1 } else { 0 }),
            }
        },
        Expression::IntegerLiteral { value } => Ok(*value),
        Expression::Identifier { name } => match vars.find_binding(name) {
            Option::Some(v) => Ok(*v),
            Option::None => Err(InterpreterError::VariableNotPresent(name.clone())),
        },
        Expression::Assignment { name, expression } => {
            let value = match evaluate(vars, out, funcs, expression, fuel) {
                Ok(v) => v,
                Err(err) => {
                    return Err(err);
                },
            };
            vars.insert(name.clone(), value);
            Ok(value)
        },
        Expression::Block { elements } => {
            let mut value: i64 = 0;
            let mut i: usize = 0;
            proof {
                assert(elements@.skip(0) =~= elements@);
            }
            while i < elements.len()
                invariant
                    i <= elements@.len(),
                    eval_block(
                        elements@.skip(i as int),
                        value,
                        EvalState { vars: vars.as_map(), out: out@ },
                        fenv,
                        fuel as nat,
                    ) == eval_block(elements@, 0, st0, fenv, fuel as nat),
                    fenv == funcs.as_map(),
                decreases elements@.len() - i,
            {
                proof {
                    assert(elements@.skip(i as int)[0] == elements@[i as int]);
                    assert(elements@.skip(i as int).drop_first() =~= elements@.skip(i as int + 1));
                    assert(decreases_to!(*elements => elements@));
                    assert(decreases_to!(elements@ => elements@[i as int]));
                    assert(decreases_to!(*e => elements@[i as int]));
                }
                match evaluate(vars, out, funcs, &elements[i], fuel) {
                    Ok(v) => {
                        value = v;
                        i = i + 1;
                    },
                    Err(err) => {
                        return Err(err);
                    },
                }
            }
            proof {
                assert(elements@.skip(elements@.len() as int) =~= Seq::<Expression>::empty());
            }
            Ok(value)
        },
        Expression::While { condition, body } => {
            let mut remaining = fuel;
            loop
                invariant
                    remaining <= fuel,
                    fenv == funcs.as_map(),
                    eval_expression(
                        *e,
                        EvalState { vars: vars.as_map(), out: out@ },
                        fenv,
                        remaining as nat,
                    ) == eval_expression(*e, st0, fenv, fuel as nat),
                decreases remaining,
            {
                let c = match evaluate(vars, out, funcs, condition, remaining) {
                    Ok(v) => v,
                    Err(err) => {
                        return Err(err);
                    },
                };
                if c == 0 {
                    return Ok(1);
                }
                match evaluate(vars, out, funcs, body, remaining) {
                    Ok(_) => {},
                    Err(err) => {
                        return Err(err);
                    },
                }
                if remaining == 0 {
                    return Err(InterpreterError::RecursionLimitReached);
                }
                remaining = remaining - 1;
            }
        },
        Expression::If { condition, then_clause, else_clause } => {
            let c = match evaluate(vars, out, funcs, condition, fuel) {
                Ok(v) => v,
                Err(err) => {
                    return Err(err);
                },
            };
            if c != 0 {
                evaluate(vars, out, funcs, then_clause, fuel)
            } else {
                match else_clause {
                    Option::Some(els) => evaluate(vars, out, funcs, els, fuel),
                    Option::None => Err(InterpreterError::ElseClauseNoneUnderIfConditionNotMet),
                }
            }
        },
        Expression::FunctionCall { name, args } => {
            let backup = vars.snapshot();
            let f = match funcs.find_binding(name) {
                Option::Some(f) => f,
                Option::None => {
                    return Err(InterpreterError::FunctionNotFound(name.clone()));
                },
            };
            let mut bound: Vec<(String, i64)> = Vec::new();
            let mut k: usize = 0;
            proof {
                assert(f.args@.skip(0) =~= f.args@);
                assert(args@.skip(0) =~= args@);
                assert(binding_pairs_view(bound@) =~= Seq::<(Seq<char>, i64)>::empty());
            }
            while k < f.args.len()
                invariant
                    k <= f.args@.len(),
                    k <= args@.len(),
                    fenv == funcs.as_map(),
                    fenv.contains_key(name@) && fenv[name@] == *f,
                    eval_args(
                        f.args@.skip(k as int),
                        args@.skip(k as int),
                        EvalState { vars: vars.as_map(), out: out@ },
                        fenv,
                        fuel as nat,
                        binding_pairs_view(bound@),
                    ) == eval_args(f.args@, args@, st0, fenv, fuel as nat, Seq::empty()),
                decreases f.args@.len() - k,
            {
                proof {
                    assert(f.args@.skip(k as int)[0] == f.args@[k as int]);
                    assert(f.args@.skip(k as int).drop_first() =~= f.args@.skip(k as int + 1));
                }
                if k >= args.len() {
                    proof {
                        assert(args@.skip(k as int) =~= Seq::<Expression>::empty());
                    }
                    return Err(InterpreterError::NotEnoughArguments(f.args[k].clone()));
                }
                proof {
                    assert(args@.skip(k as int)[0] == args@[k as int]);
                    assert(args@.skip(k as int).drop_first() =~= args@.skip(k as int + 1));
                }
                proof {
                    assert(decreases_to!(*args => args@));
                    assert(decreases_to!(args@ => args@[k as int]));
                    assert(decreases_to!(*e => args@[k as int]));
                }
                let value = match evaluate(vars, out, funcs, &args[k], fuel) {
                    Ok(v) => v,
                    Err(err) => {
                        return Err(err);
                    },
                };
                let ghost previously_bound = bound@;
                bound.push((f.args[k].clone(), value));
                proof {
                    assert(binding_pairs_view(bound@) =~= binding_pairs_view(
                        previously_bound,
                    ).push((f.args@[k as int]@, value)));
                }
                k = k + 1;
            }
            proof {
                assert(f.args@.skip(f.args@.len() as int) =~= Seq::<String>::empty());
            }
            if fuel == 0 {
                return Err(InterpreterError::RecursionLimitReached);
            }
            let ghost args_state = EvalState { vars: vars.as_map(), out: out@ };
            let ghost all_bindings = binding_pairs_view(bound@);
            while bound.len() > 0
                invariant
                    bind_parameters(
                        binding_pairs_view(bound@),
                        EvalState { vars: vars.as_map(), out: out@ },
                    ) == bind_parameters(all_bindings, args_state),
                decreases bound@.len(),
            {
                let ghost before = bound@;
                let pair = bound.remove(0);
                proof {
                    assert(binding_pairs_view(bound@) =~= binding_pairs_view(
                        before,
                    ).drop_first());
                    assert(binding_pairs_view(before)[0] == (pair.0@, pair.1));
                }
                vars.insert(pair.0, pair.1);
            }
            let value = match evaluate(vars, out, funcs, &f.body, fuel - 1) {
                Ok(v) => v,
                Err(err) => {
                    return Err(err);
                },
            };
            *vars = backup;
            Ok(value)
        },
        Expression::PrintLn { expression } => {
            let value = match evaluate(vars, out, funcs, expression, fuel) {
                Ok(v) => v,
                Err(err) => {
                    return Err(err);
                },
            };
            out.push(value);
            Ok(1)
        },
    }
}

impl Interpreter {
    /// The current variable bindings, as a mapping from names to values.
    pub closed spec fn vars(&self) -> Map<Seq<char>, i64> {
        self.variable_environment.as_map()
    }

    /// The current function definitions, as a mapping from names.
    pub closed spec fn funcs(&self) -> Map<Seq<char>, Function> {
        self.function_environment.as_map()
    }

    /// Everything printed so far, oldest first.
    pub closed spec fn printed(&self) -> Seq<i64> {
        self.output@
    }

    /// The evaluation state this interpreter is in.
    pub open spec fn state(&self) -> EvalState {
        EvalState { vars: self.vars(), out: self.printed() }
    }

    /// A fresh interpreter with empty environments and no output.
    pub fn new() -> (r: Self)
        ensures
            r.vars() == Map::<Seq<char>, i64>::empty(),
            r.funcs() == Map::<Seq<char>, Function>::empty(),
            r.printed() == Seq::<i64>::empty(),
    {
        Interpreter {
            variable_environment: Environment::new(),
            function_environment: Environment::new(),
            output: Vec::new(),
        }
    }

    /// The values printed so far, oldest first.
    pub fn output(&self) -> (r: &Vec<i64>)
        ensures
            r@ == self.printed(),
    {
        &self.output
    }

    /// Evaluates one expression against the current environments.
    pub fn interpret(&mut self, expression: &Expression) -> (r: Result<i64, InterpreterError>)
        ensures
            ({
                let ev = eval_expression(
                    *expression,
                    old(self).state(),
                    old(self).funcs(),
                    FUEL_LIMIT as nat,
                );
                &&& result_matches(r, ev.result)
                &&& final(self).state() == ev.state
                &&& final(self).funcs() == old(self).funcs()
            }),
    {
        evaluate(
            &mut self.variable_environment,
            &mut self.output,
            &self.function_environment,
            expression,
            FUEL_LIMIT,
        )
    }

    /// Loads the program's top-level definitions in order, then calls its
    /// `main` function with no arguments.
    #[verifier::loop_isolation(false)]
    pub fn call_main(&mut self, program: Program) -> (r: Result<i64, InterpreterError>)
        ensures
            ({
                let lo = run_outcome(
                    program.definitions@,
                    old(self).state(),
                    old(self).funcs(),
                    FUEL_LIMIT as nat,
                );
                &&& result_matches(r, lo.result)
                &&& final(self).state() == lo.state
                &&& final(self).funcs() == lo.funcs
            }),
    {
        let ghost st0 = self.state();
        let ghost funcs0 = self.funcs();
        let ghost defs0 = program.definitions@;
        let mut definitions = program.definitions;
        while definitions.len() > 0
            invariant
                load_definitions(definitions@, self.state(), self.funcs(), FUEL_LIMIT as nat)
                    == load_definitions(defs0, st0, funcs0, FUEL_LIMIT as nat),
            decreases definitions@.len(),
        {
            proof {
                assert(definitions@.remove(0) =~= definitions@.drop_first());
            }
            let definition = definitions.remove(0);
            match definition {
                TopLevel::FunctionDefinition(f) => {
                    let name = f.name.clone();
                    self.function_environment.insert(name, f);
                },
                TopLevel::GlobalVariableDefinition { name, expression } => {
                    let value = match evaluate(
                        &mut self.variable_environment,
                        &mut self.output,
                        &self.function_environment,
                        &expression,
                        FUEL_LIMIT,
                    ) {
                        Ok(v) => v,
                        Err(err) => {
                            return Err(err);
                        },
                    };
                    self.variable_environment.insert(name, value);
                },
            }
        }
        let main_name: String = "main".to_owned();
        let f = match self.function_environment.find_binding(&main_name) {
            Option::Some(f) => f,
            Option::None => {
                return Err(InterpreterError::MainNotPresent);
            },
        };
        let backup = self.variable_environment.snapshot();
        match evaluate(
            &mut self.variable_environment,
            &mut self.output,
            &self.function_environment,
            &f.body,
            FUEL_LIMIT,
        ) {
            Ok(value) => {
                self.variable_environment = backup;
                Ok(value)
            },
            Err(err) => Err(err),
        }
    }
}

impl Default for Interpreter {
    /// A fresh interpreter, as `new` builds it.
    fn default() -> (r: Self)
        ensures
            r.vars() == Map::<Seq<char>, i64>::empty(),
            r.funcs() == Map::<Seq<char>, Function>::empty(),
            r.printed() == Seq::<i64>::empty(),
    {
        Interpreter::new()
    }
}

} // verus!
