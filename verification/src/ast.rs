//! The abstract syntax tree shared by the parser and the interpreter,
//! together with convenience constructors for building trees by hand.

use vstd::prelude::*;

verus! {

/// The binary operators of the language.
#[derive(Clone, Copy, Debug, PartialEq, Eq, Structural)]
pub enum Operator {
    Add,
    Subtract,
    Multiply,
    Divide,
    LessThan,
    LessOrEqual,
    GreaterThan,
    GreaterOrEqual,
    EqualEqual,
    NotEqual,
}

/// An expression of the language. Every syntactic form, statements
/// included, is an expression that yields a 64-bit integer value.
#[derive(Debug)]
pub enum Expression {
    Binary { operator: Operator, lhs: Box<Expression>, rhs: Box<Expression> },
    IntegerLiteral { value: i64 },
    Identifier { name: String },
    Assignment { name: String, expression: Box<Expression> },
    Block { elements: Vec<Expression> },
    While { condition: Box<Expression>, body: Box<Expression> },
    If {
        condition: Box<Expression>,
        then_clause: Box<Expression>,
        else_clause: Option<Box<Expression>>,
    },
    FunctionCall { name: String, args: Vec<Expression> },
    PrintLn { expression: Box<Expression> },
}

/// A named function: parameter names plus a body expression.
pub struct Function {
    pub name: String,
    pub args: Vec<String>,
    pub body: Expression,
}

/// One top-level item of a program.
pub enum TopLevel {
    FunctionDefinition(Function),
    GlobalVariableDefinition { name: String, expression: Expression },
}

/// A whole program: its top-level definitions, in source order.
pub struct Program {
    pub definitions: Vec<TopLevel>,
}

/// The specification-level view of an `Expression`: names are character
/// sequences and children are plain values.
pub enum ExpressionV {
    Binary { operator: Operator, lhs: Box<ExpressionV>, rhs: Box<ExpressionV> },
    IntegerLiteral { value: i64 },
    Identifier { name: Seq<char> },
    Assignment { name: Seq<char>, expression: Box<ExpressionV> },
    Block { elements: Seq<ExpressionV> },
    While { condition: Box<ExpressionV>, body: Box<ExpressionV> },
    If {
        condition: Box<ExpressionV>,
        then_clause: Box<ExpressionV>,
        else_clause: Option<Box<ExpressionV>>,
    },
    FunctionCall { name: Seq<char>, args: Seq<ExpressionV> },
    PrintLn { expression: Box<ExpressionV> },
}

/// The specification-level view of a `Function`.
pub struct FunctionV {
    pub name: Seq<char>,
    pub args: Seq<Seq<char>>,
    pub body: ExpressionV,
}

/// The specification-level view of a `TopLevel`.
pub enum TopLevelV {
    FunctionDefinition(FunctionV),
    GlobalVariableDefinition { name: Seq<char>, expression: ExpressionV },
}

/// The specification-level view of a `Program`.
pub struct ProgramV {
    pub definitions: Seq<TopLevelV>,
}

pub open spec fn expression_view(e: Expression) -> ExpressionV
    decreases e,
{
    match e {
        Expression::Binary { operator, lhs, rhs } => ExpressionV::Binary {
            operator,
            lhs: Box::new(expression_view(*lhs)),
            rhs: Box::new(expression_view(*rhs)),
        },
        Expression::IntegerLiteral { value } => ExpressionV::IntegerLiteral { value },
        Expression::Identifier { name } => ExpressionV::Identifier { name: name@ },
        Expression::Assignment { name, expression } => ExpressionV::Assignment {
            name: name@,
            expression: Box::new(expression_view(*expression)),
        },
        Expression::Block { elements } => ExpressionV::Block {
            elements: expression_seq_view(elements@),
        },
        Expression::While { condition, body } => ExpressionV::While {
            condition: Box::new(expression_view(*condition)),
            body: Box::new(expression_view(*body)),
        },
        Expression::If { condition, then_clause, else_clause } => ExpressionV::If {
            condition: Box::new(expression_view(*condition)),
            then_clause: Box::new(expression_view(*then_clause)),
            else_clause: (match else_clause {
                Option::Some(els) => Option::Some(Box::new(expression_view(*els))),
                Option::None => Option::None,
            }),
        },
        Expression::FunctionCall { name, args } => ExpressionV::FunctionCall {
            name: name@,
            args: expression_seq_view(args@),
        },
        Expression::PrintLn { expression } => ExpressionV::PrintLn {
            expression: Box::new(expression_view(*expression)),
        },
    }
}

pub open spec fn expression_seq_view(s: Seq<Expression>) -> Seq<ExpressionV>
    decreases s,
{
    if s.len() == 0 {
        Seq::empty()
    } else {
        expression_seq_view(s.drop_last()).push(expression_view(s.last()))
    }
}

/// The views of a sequence of names.
pub open spec fn string_seq_view(s: Seq<String>) -> Seq<Seq<char>> {
    Seq::new(s.len(), |i: int| s[i]@)
}

/// The views of a sequence of top-level items.
pub open spec fn top_level_seq_view(s: Seq<TopLevel>) -> Seq<TopLevelV> {
    Seq::new(s.len(), |i: int| top_level_view(s[i]))
}

pub open spec fn function_view(f: Function) -> FunctionV {
    FunctionV {
        name: f.name@,
        args: string_seq_view(f.args@),
        body: expression_view(f.body),
    }
}

pub open spec fn top_level_view(t: TopLevel) -> TopLevelV {
    match t {
        TopLevel::FunctionDefinition(f) => TopLevelV::FunctionDefinition(function_view(f)),
        TopLevel::GlobalVariableDefinition { name, expression } =>
            TopLevelV::GlobalVariableDefinition {
            name: name@,
            expression: expression_view(expression),
        },
    }
}

pub open spec fn program_view(p: Program) -> ProgramV {
    ProgramV { definitions: top_level_seq_view(p.definitions@) }
}

impl View for Operator {
    type V = Operator;

    open spec fn view(&self) -> Operator {
        *self
    }
}

impl DeepView for Operator {
    type V = Operator;

    open spec fn deep_view(&self) -> Operator {
        *self
    }
}

impl View for Expression {
    type V = ExpressionV;

    open spec fn view(&self) -> ExpressionV {
        expression_view(*self)
    }
}

impl DeepView for Expression {
    type V = ExpressionV;

    open spec fn deep_view(&self) -> ExpressionV {
        expression_view(*self)
    }
}

impl View for Function {
    type V = FunctionV;

    open spec fn view(&self) -> FunctionV {
        function_view(*self)
    }
}

impl View for TopLevel {
    type V = TopLevelV;

    open spec fn view(&self) -> TopLevelV {
        top_level_view(*self)
    }
}

impl DeepView for TopLevel {
    type V = TopLevelV;

    open spec fn deep_view(&self) -> TopLevelV {
        top_level_view(*self)
    }
}

impl View for Program {
    type V = ProgramV;

    open spec fn view(&self) -> ProgramV {
        program_view(*self)
    }
}

impl DeepView for Program {
    type V = ProgramV;

    open spec fn deep_view(&self) -> ProgramV {
        program_view(*self)
    }
}

pub fn binary(operator: Operator, lhs: Expression, rhs: Expression) -> (r: Expression)
    ensures
        r == (Expression::Binary { operator, lhs: Box::new(lhs), rhs: Box::new(rhs) }),
{
    Expression::Binary { operator, lhs: Box::new(lhs), rhs: Box::new(rhs) }
}

pub fn add(lhs: Expression, rhs: Expression) -> (r: Expression)
    ensures
        r == (Expression::Binary {
            operator: Operator::Add,
            lhs: Box::new(lhs),
            rhs: Box::new(rhs),
        }),
{
    binary(Operator::Add, lhs, rhs)
}

pub fn subtract(lhs: Expression, rhs: Expression) -> (r: Expression)
    ensures
        r == (Expression::Binary {
            operator: Operator::Subtract,
            lhs: Box::new(lhs),
            rhs: Box::new(rhs),
        }),
{
    binary(Operator::Subtract, lhs, rhs)
}

pub fn multiply(lhs: Expression, rhs: Expression) -> (r: Expression)
    ensures
        r == (Expression::Binary {
            operator: Operator::Multiply,
            lhs: Box::new(lhs),
            rhs: Box::new(rhs),
        }),
{
    binary(Operator::Multiply, lhs, rhs)
}

pub fn divide(lhs: Expression, rhs: Expression) -> (r: Expression)
    ensures
        r == (Expression::Binary {
            operator: Operator::Divide,
            lhs: Box::new(lhs),
            rhs: Box::new(rhs),
        }),
{
    binary(Operator::Divide, lhs, rhs)
}

pub fn less_than(lhs: Expression, rhs: Expression) -> (r: Expression)
    ensures
        r == (Expression::Binary {
            operator: Operator::LessThan,
            lhs: Box::new(lhs),
            rhs: Box::new(rhs),
        }),
{
    binary(Operator::LessThan, lhs, rhs)
}

pub fn less_or_equal(lhs: Expression, rhs: Expression) -> (r: Expression)
    ensures
        r == (Expression::Binary {
            operator: Operator::LessOrEqual,
            lhs: Box::new(lhs),
            rhs: Box::new(rhs),
        }),
{
    binary(Operator::LessOrEqual, lhs, rhs)
}

pub fn greater_than(lhs: Expression, rhs: Expression) -> (r: Expression)
    ensures
        r == (Expression::Binary {
            operator: Operator::GreaterThan,
            lhs: Box::new(lhs),
            rhs: Box::new(rhs),
        }),
{
    binary(Operator::GreaterThan, lhs, rhs)
}

pub fn greater_or_equal(lhs: Expression, rhs: Expression) -> (r: Expression)
    ensures
        r == (Expression::Binary {
            operator: Operator::GreaterOrEqual,
            lhs: Box::new(lhs),
            rhs: Box::new(rhs),
        }),
{
    binary(Operator::GreaterOrEqual, lhs, rhs)
}

pub fn equal_equal(lhs: Expression, rhs: Expression) -> (r: Expression)
    ensures
        r == (Expression::Binary {
            operator: Operator::EqualEqual,
            lhs: Box::new(lhs),
            rhs: Box::new(rhs),
        }),
{
    binary(Operator::EqualEqual, lhs, rhs)
}

pub fn not_equal(lhs: Expression, rhs: Expression) -> (r: Expression)
    ensures
        r == (Expression::Binary {
            operator: Operator::NotEqual,
            lhs: Box::new(lhs),
            rhs: Box::new(rhs),
        }),
{
    binary(Operator::NotEqual, lhs, rhs)
}

pub fn integer(value: i64) -> (r: Expression)
    ensures
        r == (Expression::IntegerLiteral { value }),
{
    Expression::IntegerLiteral { value }
}

pub fn identifier(name: &str) -> (r: Expression)
    ensures
        r matches Expression::Identifier { name: n } && n@ == name@,
{
    Expression::Identifier { name: name.to_owned() }
}

pub fn assignment(name: &str, expression: Expression) -> (r: Expression)
    ensures
        r matches Expression::Assignment { name: n, expression: e } && n@ == name@ && e
            == expression,
{
    Expression::Assignment { name: name.to_owned(), expression: Box::new(expression) }
}

pub fn block(elements: Vec<Expression>) -> (r: Expression)
    ensures
        r == (Expression::Block { elements }),
{
    Expression::Block { elements }
}

pub fn ast_while(condition: Expression, body: Expression) -> (r: Expression)
    ensures
        r == (Expression::While { condition: Box::new(condition), body: Box::new(body) }),
{
    Expression::While { condition: Box::new(condition), body: Box::new(body) }
}

pub fn ast_if(condition: Expression, then_clause: Expression, else_clause: Option<Expression>) -> (r:
    Expression)
    ensures
        r == (Expression::If {
            condition: Box::new(condition),
            then_clause: Box::new(then_clause),
            else_clause: (match else_clause {
                Option::Some(e) => Option::Some(Box::new(e)),
                Option::None => Option::None,
            }),
        }),
{
    Expression::If {
        condition: Box::new(condition),
        then_clause: Box::new(then_clause),
        else_clause: (match else_clause {
            Option::Some(e) => Option::Some(Box::new(e)),
            Option::None => Option::None,
        }),
    }
}

pub fn call(name: &str, args: Vec<Expression>) -> (r: Expression)
    ensures
        r matches Expression::FunctionCall { name: n, args: a } && n@ == name@ && a == args,
{
    Expression::FunctionCall { name: name.to_owned(), args }
}

pub fn ast_println(expression: Expression) -> (r: Expression)
    ensures
        r == (Expression::PrintLn { expression: Box::new(expression) }),
{
    Expression::PrintLn { expression: Box::new(expression) }
}

pub fn define_function(name: &str, args: &[&str], body: Expression) -> (r: TopLevel)
    ensures
        r matches TopLevel::FunctionDefinition(f) && f.name@ == name@ && f.body == body
            && f.args@.len() == args@.len() && (forall|i: int|
            0 <= i < args@.len() ==> #[trigger] f.args@[i]@ == args@[i]@),
{
    let mut arg_names: Vec<String> = Vec::new();
    let mut i: usize = 0;
    while i < args.len()
        invariant
            i <= args@.len(),
            arg_names@.len() == i,
            forall|j: int| 0 <= j < i ==> #[trigger] arg_names@[j]@ == args@[j]@,
        decreases args@.len() - i,
    {
        arg_names.push(args[i].to_owned());
        i = i + 1;
    }
    TopLevel::FunctionDefinition(Function { name: name.to_owned(), args: arg_names, body })
}

pub fn define_global_variable(name: &str, expression: Expression) -> (r: TopLevel)
    ensures
        r matches TopLevel::GlobalVariableDefinition { name: n, expression: e } && n@ == name@ && e
            == expression,
{
    TopLevel::GlobalVariableDefinition { name: name.to_owned(), expression }
}

} // verus!
