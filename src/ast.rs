//! The abstract syntax tree of the language, and its mathematical model.
use crate::num::Int;
use vstd::prelude::*;

verus! {

/// An expression that stands for a number, such as `5`, `-6`,
/// `(1 + 2) * 3` or `pop * 3`.
#[derive(Debug)]
pub enum Expression {
    /// A literal number.
    Number(Int),
    /// The value on top of the stack, which is removed.
    Pop,
    /// The value on top of the stack, which stays.
    Read,
    /// `a + b`
    Addition(Box<Expression>, Box<Expression>),
    /// `a - b`
    Substract(Box<Expression>, Box<Expression>),
    /// `-a`
    Negate(Box<Expression>),
    /// `a * b`
    Multiply(Box<Expression>, Box<Expression>),
    /// `a / b`, rounded toward zero
    Divide(Box<Expression>, Box<Expression>),
    /// `a % b`, with the sign of `a`
    Modulo(Box<Expression>, Box<Expression>),
    /// A literal that could not be read; evaluating it fails with this message.
    Error(String),
}

/// The condition of a jump.
#[derive(Debug, Clone, Copy, PartialEq, Eq)]
pub enum Jump {
    /// Jump when the value is 0.
    JumpZero,
    /// Jump when the value is not 0.
    JumpNotZero,
    /// Jump when the value is below 0.
    JumpNegate,
    /// Jump when the value is above 0.
    JumpPositive,
}

/// A statement, the unit of execution.
#[derive(Debug)]
pub enum Statement {
    /// An expression evaluated for its effect on the stack.
    Expression(Expression),
    /// Pushes the value of the expression.
    Push(Expression),
    /// Prints the value of the expression.
    Print(Expression),
    /// Moves to statement `line` when `value` meets the condition.
    Jump { line: Expression, value: Expression, jump: Jump },
    /// Swaps the two values on top of the stack.
    Swap,
    /// Pushes a copy of the value at the given depth.
    Over(Expression),
    /// Removes the value at the given depth.
    Del(Expression),
    /// Empties the stack.
    Clear,
    /// A blank or comment line.
    Empty,
}

/// A statement with its line in the source text (counted from 1).
#[derive(Debug)]
pub struct Line {
    pub statement: Statement,
    pub line_number: usize,
}

/// The arithmetic operators.
#[derive(PartialEq, Eq, Structural, Clone, Copy)]
pub enum Op {
    Add,
    Sub,
    Mul,
    Div,
    Mod,
}

/// The mathematical value of an expression tree.
pub enum ExprModel {
    Number(int),
    Pop,
    Read,
    Neg(Box<ExprModel>),
    Binary(Op, Box<ExprModel>, Box<ExprModel>),
    Error(Seq<char>),
}

/// The mathematical value of a statement.
pub enum StmtModel {
    Expression(ExprModel),
    Push(ExprModel),
    Print(ExprModel),
    Jump { line: ExprModel, value: ExprModel, jump: Jump },
    Swap,
    Over(ExprModel),
    Del(ExprModel),
    Clear,
    Empty,
}

pub open spec fn expr_model(e: Expression) -> ExprModel
    decreases e,
{
    match e {
        Expression::Number(v) => ExprModel::Number(v@),
        Expression::Pop => ExprModel::Pop,
        Expression::Read => ExprModel::Read,
        Expression::Addition(a, b) => ExprModel::Binary(
            Op::Add,
            Box::new(expr_model(*a)),
            Box::new(expr_model(*b)),
        ),
        Expression::Substract(a, b) => ExprModel::Binary(
            Op::Sub,
            Box::new(expr_model(*a)),
            Box::new(expr_model(*b)),
        ),
        Expression::Negate(a) => ExprModel::Neg(Box::new(expr_model(*a))),
        Expression::Multiply(a, b) => ExprModel::Binary(
            Op::Mul,
            Box::new(expr_model(*a)),
            Box::new(expr_model(*b)),
        ),
        Expression::Divide(a, b) => ExprModel::Binary(
            Op::Div,
            Box::new(expr_model(*a)),
            Box::new(expr_model(*b)),
        ),
        Expression::Modulo(a, b) => ExprModel::Binary(
            Op::Mod,
            Box::new(expr_model(*a)),
            Box::new(expr_model(*b)),
        ),
        Expression::Error(m) => ExprModel::Error(m@),
    }
}

impl View for Expression {
    type V = ExprModel;

    open spec fn view(&self) -> ExprModel {
        expr_model(*self)
    }
}

impl View for Statement {
    type V = StmtModel;

    open spec fn view(&self) -> StmtModel {
        match *self {
            Statement::Expression(e) => StmtModel::Expression(e@),
            Statement::Push(e) => StmtModel::Push(e@),
            Statement::Print(e) => StmtModel::Print(e@),
            Statement::Jump { line, value, jump } => StmtModel::Jump {
                line: line@,
                value: value@,
                jump,
            },
            Statement::Swap => StmtModel::Swap,
            Statement::Over(e) => StmtModel::Over(e@),
            Statement::Del(e) => StmtModel::Del(e@),
            Statement::Clear => StmtModel::Clear,
            Statement::Empty => StmtModel::Empty,
        }
    }
}

impl Expression {
    /// The node that applies `op` to `a` and `b`.
    pub fn binary(op: Op, a: Expression, b: Expression) -> (r: Expression)
        ensures
            r@ == ExprModel::Binary(op, Box::new(a@), Box::new(b@)),
    {
        match op {
            Op::Add => Expression::Addition(Box::new(a), Box::new(b)),
            Op::Sub => Expression::Substract(Box::new(a), Box::new(b)),
            Op::Mul => Expression::Multiply(Box::new(a), Box::new(b)),
            Op::Div => Expression::Divide(Box::new(a), Box::new(b)),
            Op::Mod => Expression::Modulo(Box::new(a), Box::new(b)),
        }
    }

    /// A copy of the tree.
    pub fn copy(&self) -> (r: Expression)
        ensures
            r@ == self@,
        decreases self,
    {
        match self {
            Expression::Number(v) => Expression::Number(v.copy()),
            Expression::Pop => Expression::Pop,
            Expression::Read => Expression::Read,
            Expression::Addition(a, b) => Expression::Addition(
                Box::new(a.copy()),
                Box::new(b.copy()),
            ),
            Expression::Substract(a, b) => Expression::Substract(
                Box::new(a.copy()),
                Box::new(b.copy()),
            ),
            Expression::Negate(a) => Expression::Negate(Box::new(a.copy())),
            Expression::Multiply(a, b) => Expression::Multiply(
                Box::new(a.copy()),
                Box::new(b.copy()),
            ),
            Expression::Divide(a, b) => Expression::Divide(
                Box::new(a.copy()),
                Box::new(b.copy()),
            ),
            Expression::Modulo(a, b) => Expression::Modulo(
                Box::new(a.copy()),
                Box::new(b.copy()),
            ),
            Expression::Error(m) => Expression::Error(m.clone()),
        }
    }
}

impl Statement {
    /// A copy of the statement.
    pub fn copy(&self) -> (r: Statement)
        ensures
            r@ == self@,
    {
        match self {
            Statement::Expression(e) => Statement::Expression(e.copy()),
            Statement::Push(e) => Statement::Push(e.copy()),
            Statement::Print(e) => Statement::Print(e.copy()),
            Statement::Jump { line, value, jump } => Statement::Jump {
                line: line.copy(),
                value: value.copy(),
                jump: *jump,
            },
            Statement::Swap => Statement::Swap,
            Statement::Over(e) => Statement::Over(e.copy()),
            Statement::Del(e) => Statement::Del(e.copy()),
            Statement::Clear => Statement::Clear,
            Statement::Empty => Statement::Empty,
        }
    }

    /// Whether this is a blank or comment line.
    pub fn is_empty(&self) -> (r: bool)
        ensures
            r == (self@ is Empty),
    {
        match self {
            Statement::Empty => true,
            _ => false,
        }
    }
}

} // verus!
