//! The evaluator: expressions and statements against a stack of integers.
use crate::ast::{ExprModel, Expression, Jump, Line, Op, Statement, StmtModel};
use crate::linked_list::LinkedList;
use crate::num::{int_decimal, trunc_div, trunc_rem, Int};
use vstd::prelude::*;

verus! {

/// Why an evaluation failed.
#[derive(Debug)]
pub enum EvalError {
    /// `pop` or `read` on an empty stack, or `swap` on an empty stack.
    StackUnderflow,
    /// `swap` on a stack that holds a single value.
    OnlyOneValue,
    /// `over` or `del` with a depth that the stack does not have.
    IndexOutOfRange,
    /// Division or remainder by zero.
    DivisionByZero,
    /// A taken jump whose target is negative or too large for an index.
    InvalidJumpTarget,
    /// An unreadable literal, with its message.
    Literal(String),
}

/// The mathematical value of an `EvalError`.
pub enum ErrModel {
    StackUnderflow,
    OnlyOneValue,
    IndexOutOfRange,
    DivisionByZero,
    InvalidJumpTarget,
    Literal(Seq<char>),
}

impl View for EvalError {
    type V = ErrModel;

    open spec fn view(&self) -> ErrModel {
        match *self {
            EvalError::StackUnderflow => ErrModel::StackUnderflow,
            EvalError::OnlyOneValue => ErrModel::OnlyOneValue,
            EvalError::IndexOutOfRange => ErrModel::IndexOutOfRange,
            EvalError::DivisionByZero => ErrModel::DivisionByZero,
            EvalError::InvalidJumpTarget => ErrModel::InvalidJumpTarget,
            EvalError::Literal(m) => ErrModel::Literal(m@),
        }
    }
}

pub open spec fn error_text(e: ErrModel) -> Seq<char> {
    match e {
        ErrModel::StackUnderflow => "Stack underflow"@,
        ErrModel::OnlyOneValue => "Stack contains only one value"@,
        ErrModel::IndexOutOfRange => "Index out of bound"@,
        ErrModel::DivisionByZero => "Division by zero"@,
        ErrModel::InvalidJumpTarget => "Invalid jump target"@,
        ErrModel::Literal(m) => m,
    }
}

impl EvalError {
    /// The message shown for the error.
    pub fn message(&self) -> (r: String)
        ensures
            r@ == error_text(self@),
    {
        match self {
            EvalError::StackUnderflow => String::from_str("Stack underflow"),
            EvalError::OnlyOneValue => String::from_str("Stack contains only one value"),
            EvalError::IndexOutOfRange => String::from_str("Index out of bound"),
            EvalError::DivisionByZero => String::from_str("Division by zero"),
            EvalError::InvalidJumpTarget => String::from_str("Invalid jump target"),
            EvalError::Literal(m) => m.clone(),
        }
    }
}

/// The values of a stack of integers, front first.
pub open spec fn values(s: Seq<Int>) -> Seq<int> {
    s.map_values(|x: Int| x@)
}

pub open spec fn apply_op(op: Op, x: int, y: int) -> Result<int, ErrModel> {
    match op {
        Op::Add => Ok(x + y),
        Op::Sub => Ok(x - y),
        Op::Mul => Ok(x * y),
        Op::Div => if y == 0 {
            Err(ErrModel::DivisionByZero)
        } else {
            Ok(trunc_div(x, y))
        },
        Op::Mod => if y == 0 {
            Err(ErrModel::DivisionByZero)
        } else {
            Ok(trunc_rem(x, y))
        },
    }
}

/// The value of an expression on a stack, and the stack afterwards.
/// Operands are evaluated left to right; what a failing expression already
/// removed stays removed.
pub open spec fn eval_spec(e: ExprModel, s: Seq<int>) -> (Result<int, ErrModel>, Seq<int>)
    decreases e,
{
    match e {
        ExprModel::Number(v) => (Ok(v), s),
        ExprModel::Pop => if s.len() == 0 {
            (Err(ErrModel::StackUnderflow), s)
        } else {
            (Ok(s[0]), s.drop_first())
        },
        ExprModel::Read => if s.len() == 0 {
            (Err(ErrModel::StackUnderflow), s)
        } else {
            (Ok(s[0]), s)
        },
        ExprModel::Neg(a) => {
            let (r, s1) = eval_spec(*a, s);
            match r {
                Ok(x) => (Ok(-x), s1),
                Err(err) => (Err(err), s1),
            }
        },
        ExprModel::Binary(op, a, b) => {
            let (ra, s1) = eval_spec(*a, s);
            match ra {
                Err(err) => (Err(err), s1),
                Ok(x) => {
                    let (rb, s2) = eval_spec(*b, s1);
                    match rb {
                        Err(err) => (Err(err), s2),
                        Ok(y) => (apply_op(op, x, y), s2),
                    }
                },
            }
        },
        ExprModel::Error(m) => (Err(ErrModel::Literal(m)), s),
    }
}

pub open spec fn jump_holds(j: Jump, v: int) -> bool {
    match j {
        Jump::JumpZero => v == 0,
        Jump::JumpNotZero => v != 0,
        Jump::JumpNegate => v < 0,
        Jump::JumpPositive => v > 0,
    }
}

/// What executing a statement gives: its printed line if any (or the
/// error), the next statement's index and the stack. `counter` is the
/// index of the statement after this one.
pub open spec fn stmt_spec(st: StmtModel, counter: int, s: Seq<int>) -> (
    Result<Option<Seq<char>>, ErrModel>,
    int,
    Seq<int>,
) {
    match st {
        StmtModel::Expression(e) => {
            let (r, s1) = eval_spec(e, s);
            match r {
                Ok(_) => (Ok(None), counter, s1),
                Err(err) => (Err(err), counter, s1),
            }
        },
        StmtModel::Print(e) => {
            let (r, s1) = eval_spec(e, s);
            match r {
                Ok(v) => (Ok(Some(int_decimal(v))), counter, s1),
                Err(err) => (Err(err), counter, s1),
            }
        },
        StmtModel::Push(e) => {
            let (r, s1) = eval_spec(e, s);
            match r {
                Ok(v) => (Ok(None), counter, seq![v] + s1),
                Err(err) => (Err(err), counter, s1),
            }
        },
        StmtModel::Jump { line, value, jump } => {
            let (rv, s1) = eval_spec(value, s);
            match rv {
                Err(err) => (Err(err), counter, s1),
                Ok(v) => {
                    let (rl, s2) = eval_spec(line, s1);
                    match rl {
                        Err(err) => (Err(err), counter, s2),
                        Ok(l) => if !jump_holds(jump, v) {
                            (Ok(None), counter, s2)
                        } else if 0 <= l <= usize::MAX {
                            (Ok(None), l, s2)
                        } else {
                            (Err(ErrModel::InvalidJumpTarget), counter, s2)
                        },
                    }
                },
            }
        },
        // A swap on a single value fails after removing it.
        StmtModel::Swap => if s.len() == 0 {
            (Err(ErrModel::StackUnderflow), counter, s)
        } else if s.len() == 1 {
            (Err(ErrModel::OnlyOneValue), counter, s.drop_first())
        } else {
            (Ok(None), counter, seq![s[1], s[0]] + s.skip(2))
        },
        StmtModel::Over(e) => {
            let (r, s1) = eval_spec(e, s);
            match r {
                Err(err) => (Err(err), counter, s1),
                Ok(i) => if 0 <= i <= usize::MAX && i < s1.len() {
                    (Ok(None), counter, seq![s1[i]] + s1)
                } else {
                    (Err(ErrModel::IndexOutOfRange), counter, s1)
                },
            }
        },
        StmtModel::Del(e) => {
            let (r, s1) = eval_spec(e, s);
            match r {
                Err(err) => (Err(err), counter, s1),
                Ok(i) => if 0 <= i <= usize::MAX && i < s1.len() {
                    (Ok(None), counter, s1.remove(i))
                } else {
                    (Err(ErrModel::IndexOutOfRange), counter, s1)
                },
            }
        },
        StmtModel::Clear => (Ok(None), counter, Seq::empty()),
        StmtModel::Empty => (Ok(Some("None"@)), counter, s),
    }
}

pub open spec fn value_result(r: Result<Int, EvalError>) -> Result<int, ErrModel> {
    match r {
        Ok(v) => Ok(v@),
        Err(e) => Err(e@),
    }
}

pub open spec fn output_result(r: Result<Option<String>, EvalError>) -> Result<
    Option<Seq<char>>,
    ErrModel,
> {
    match r {
        Ok(Some(t)) => Ok(Some(t@)),
        Ok(None) => Ok(None),
        Err(e) => Err(e@),
    }
}

proof fn lemma_values_push(x: Int, s: Seq<Int>)
    ensures
        values(seq![x] + s) == seq![x@] + values(s),
{
    assert(values(seq![x] + s) =~= seq![x@] + values(s));
}

proof fn lemma_values_drop_first(s: Seq<Int>)
    requires
        s.len() > 0,
    ensures
        values(s.drop_first()) == values(s).drop_first(),
{
    assert(values(s.drop_first()) =~= values(s).drop_first());
}

fn apply(op: &Expression, x: &Int, y: &Int) -> (r: Result<Int, EvalError>)
    requires
        op@ is Binary,
    ensures
        value_result(r) == apply_op(op@->Binary_0, x@, y@),
{
    match op {
        Expression::Addition(_, _) => Ok(x.add(y)),
        Expression::Substract(_, _) => Ok(x.sub(y)),
        Expression::Multiply(_, _) => Ok(x.mul(y)),
        Expression::Divide(_, _) => match x.checked_div(y) {
            Some(q) => Ok(q),
            None => Err(EvalError::DivisionByZero),
        },
        Expression::Modulo(_, _) => match x.checked_rem(y) {
            Some(q) => Ok(q),
            None => Err(EvalError::DivisionByZero),
        },
        _ => Err(EvalError::DivisionByZero),
    }
}

/// Evaluates an expression against the stack.
pub fn eval_expr(expr: &Expression, stack: &mut LinkedList<Int>) -> (r: Result<Int, EvalError>)
    ensures
        value_result(r) == eval_spec(expr@, values(old(stack)@)).0,
        values(final(stack)@) == eval_spec(expr@, values(old(stack)@)).1,
    decreases expr,
{
    match expr {
        Expression::Number(n) => Ok(n.copy()),
        Expression::Pop => {
            proof {
                if stack@.len() > 0 {
                    lemma_values_drop_first(stack@);
                }
            }
            match stack.pop() {
                Some(v) => Ok(v),
                None => Err(EvalError::StackUnderflow),
            }
        },
        Expression::Read => match stack.read() {
            Some(v) => Ok(v.copy()),
            None => Err(EvalError::StackUnderflow),
        },
        Expression::Negate(a) => match eval_expr(a, stack) {
            Ok(x) => Ok(x.neg()),
            Err(e) => Err(e),
        },
        Expression::Addition(a, b)
        | Expression::Substract(a, b)
        | Expression::Multiply(a, b)
        | Expression::Divide(a, b)
        | Expression::Modulo(a, b) => match eval_expr(a, stack) {
            Err(e) => Err(e),
            Ok(x) => match eval_expr(b, stack) {
                Err(e) => Err(e),
                Ok(y) => apply(expr, &x, &y),
            },
        },
        Expression::Error(m) => Err(EvalError::Literal(m.clone())),
    }
}

fn jump_taken(jump: Jump, v: &Int) -> (r: bool)
    ensures
        r == jump_holds(jump, v@),
{
    match jump {
        Jump::JumpZero => v.is_zero(),
        Jump::JumpNotZero => !v.is_zero(),
        Jump::JumpNegate => v.is_negative(),
        Jump::JumpPositive => v.is_positive(),
    }
}

/// Removes the value at depth `index`, keeping the others in order: the
/// values above it are popped and saved, then pushed back.
fn delete_at(stack: &mut LinkedList<Int>, index: usize)
    requires
        index < old(stack)@.len(),
    ensures
        values(final(stack)@) == values(old(stack)@).remove(index as int),
{
    let ghost v = values(stack@);
    let mut save: Vec<Int> = Vec::new();
    let mut k: usize = 0;
    while k < index
        invariant
            k <= index < v.len(),
            values(stack@) == v.skip(k as int),
            values(save@) == v.take(k as int),
        decreases index - k,
    {
        proof {
            lemma_values_drop_first(stack@);
        }
        let ghost s_before = stack@;
        let ghost save_before = save@;
        assert(values(s_before).len() == s_before.len());
        assert(values(s_before)[0] == v[k as int]);
        let x = stack.pop();
        match x {
            Some(x) => {
                save.push(x);
                assert(x@ == values(s_before)[0]);
            },
            None => {},
        }
        assert(values(save@) =~= values(save_before).push(v[k as int]));
        assert(values(save@) =~= v.take(k + 1));
        assert(v.skip(k as int).drop_first() =~= v.skip(k + 1));
        k = k + 1;
    }
    proof {
        lemma_values_drop_first(stack@);
    }
    stack.pop();
    assert(v.skip(index as int).drop_first() =~= v.skip(index + 1));
    while save.len() > 0
        invariant
            save@.len() <= index < v.len(),
            values(save@) == v.take(save@.len() as int),
            values(stack@) == v.subrange(save@.len() as int, index as int) + v.skip(index + 1),
        decreases save@.len(),
    {
        let ghost n = save@.len();
        let ghost before = save@;
        let x = save.pop();
        match x {
            Some(x) => {
                proof {
                    lemma_values_push(x, stack@);
                    assert(x@ == values(before)[n - 1]);
                }
                stack.push(x);
            },
            None => {},
        }
        assert(values(save@) =~= v.take(save@.len() as int));
        assert(seq![v[n - 1]] + (v.subrange(n as int, index as int) + v.skip(index + 1))
            =~= v.subrange(n - 1, index as int) + v.skip(index + 1));
    }
    assert(v.subrange(0, index as int) + v.skip(index + 1) =~= v.remove(index as int));
}

/// Executes one statement. `line_number` is the index of the statement
/// after this one; a taken jump sets it to its target.
pub fn eval_statement(statement: &Statement, stack: &mut LinkedList<Int>, line_number: &mut usize) -> (r:
    Result<Option<String>, EvalError>)
    ensures
        output_result(r) == stmt_spec(statement@, *old(line_number) as int, values(old(stack)@)).0,
        *final(line_number) as int == stmt_spec(
            statement@,
            *old(line_number) as int,
            values(old(stack)@),
        ).1,
        values(final(stack)@) == stmt_spec(
            statement@,
            *old(line_number) as int,
            values(old(stack)@),
        ).2,
{
    match statement {
        Statement::Expression(e) => match eval_expr(e, stack) {
            Ok(_) => Ok(None),
            Err(err) => Err(err),
        },
        Statement::Print(e) => match eval_expr(e, stack) {
            Ok(v) => Ok(Some(v.to_decimal())),
            Err(err) => Err(err),
        },
        Statement::Push(e) => match eval_expr(e, stack) {
            Ok(v) => {
                proof {
                    lemma_values_push(v, stack@);
                }
                stack.push(v);
                Ok(None)
            },
            Err(err) => Err(err),
        },
        Statement::Jump { line, value, jump } => match eval_expr(value, stack) {
            Err(err) => Err(err),
            Ok(v) => match eval_expr(line, stack) {
                Err(err) => Err(err),
                Ok(l) => if !jump_taken(*jump, &v) {
                    Ok(None)
                } else {
                    match l.to_usize() {
                        Some(n) => {
                            *line_number = n;
                            Ok(None)
                        },
                        None => Err(EvalError::InvalidJumpTarget),
                    }
                },
            },
        },
        Statement::Swap => {
            proof {
                if stack@.len() > 0 {
                    lemma_values_drop_first(stack@);
                }
                if stack@.len() > 1 {
                    lemma_values_drop_first(stack@.drop_first());
                }
            }
            match stack.pop() {
                None => Err(EvalError::StackUnderflow),
                Some(first) => match stack.pop() {
                    None => Err(EvalError::OnlyOneValue),
                    Some(second) => {
                        proof {
                            lemma_values_push(first, stack@);
                            lemma_values_push(second, seq![first] + stack@);
                        }
                        let ghost s0 = values(old(stack)@);
                        stack.push(first);
                        stack.push(second);
                        assert(seq![s0[1]] + (seq![s0[0]] + s0.drop_first().drop_first()) =~= seq![
                            s0[1],
                            s0[0],
                        ] + s0.skip(2));
                        Ok(None)
                    },
                },
            }
        },
        Statement::Over(e) => match eval_expr(e, stack) {
            Err(err) => Err(err),
            Ok(v) => match v.to_usize() {
                None => Err(EvalError::IndexOutOfRange),
                Some(i) => {
                    let copy = match stack.get(i) {
                        Some(x) => Some(x.copy()),
                        None => None,
                    };
                    match copy {
                        Some(x) => {
                            proof {
                                lemma_values_push(x, stack@);
                            }
                            stack.push(x);
                            Ok(None)
                        },
                        None => Err(EvalError::IndexOutOfRange),
                    }
                },
            },
        },
        Statement::Del(e) => match eval_expr(e, stack) {
            Err(err) => Err(err),
            Ok(v) => match v.to_usize() {
                None => Err(EvalError::IndexOutOfRange),
                Some(i) => {
                    if stack.get(i).is_some() {
                        delete_at(stack, i);
                        Ok(None)
                    } else {
                        Err(EvalError::IndexOutOfRange)
                    }
                },
            },
        },
        Statement::Clear => {
            stack.clear();
            assert(values(stack@) =~= Seq::<int>::empty());
            Ok(None)
        },
        Statement::Empty => Ok(Some(String::from_str("None"))),
    }
}

/// The statements that execute: blank and comment lines are left out, so
/// a jump target counts executable statements only.
pub open spec fn executable(ls: Seq<StmtModel>) -> Seq<StmtModel>
    decreases ls.len(),
{
    if ls.len() == 0 {
        Seq::empty()
    } else if ls.last() is Empty {
        executable(ls.drop_last())
    } else {
        executable(ls.drop_last()).push(ls.last())
    }
}

pub open spec fn line_models(ls: Seq<Line>) -> Seq<StmtModel> {
    ls.map_values(|l: Line| l.statement@)
}

pub open spec fn program_model(p: Seq<Statement>) -> Seq<StmtModel> {
    p.map_values(|st: Statement| st@)
}

/// Inserting a blank or comment line anywhere leaves the executed program
/// unchanged: same statements, same jump targets.
pub proof fn lemma_empty_line_neutral(ls: Seq<StmtModel>, k: int)
    requires
        0 <= k <= ls.len(),
    ensures
        executable(ls.insert(k, StmtModel::Empty)) == executable(ls),
    decreases ls.len(),
{
    let ins = ls.insert(k, StmtModel::Empty);
    if k == ls.len() {
        assert(ins.drop_last() =~= ls);
    } else {
        assert(ins.last() == ls.last());
        assert(ins.drop_last() =~= ls.drop_last().insert(k, StmtModel::Empty));
        lemma_empty_line_neutral(ls.drop_last(), k);
    }
}

/// The statements of the parsed lines that execute, in order.
pub fn program(lines: &Vec<Line>) -> (r: Vec<Statement>)
    ensures
        program_model(r@) == executable(line_models(lines@)),
{
    let mut r: Vec<Statement> = Vec::new();
    let mut i: usize = 0;
    while i < lines.len()
        invariant
            i <= lines@.len(),
            program_model(r@) == executable(line_models(lines@.take(i as int))),
        decreases lines@.len() - i,
    {
        let ghost before = r@;
        assert(line_models(lines@.take(i + 1)).drop_last() =~= line_models(lines@.take(i as int)));
        assert(line_models(lines@.take(i + 1)).last() == lines@[i as int].statement@);
        if !lines[i].statement.is_empty() {
            let st = lines[i].statement.copy();
            r.push(st);
            assert(program_model(r@) =~= program_model(before).push(st@));
        }
        i = i + 1;
    }
    assert(lines@.take(i as int) =~= lines@);
    r
}

/// How a run stopped.
#[derive(Debug)]
pub enum Status {
    /// The counter reached the end of the program.
    Finished,
    /// A statement failed; the counter is past it.
    Failed(EvalError),
    /// The step budget ran out first.
    Paused,
}

pub enum StatusModel {
    Finished,
    Failed(ErrModel),
    Paused,
}

pub open spec fn status_model(s: Status) -> StatusModel {
    match s {
        Status::Finished => StatusModel::Finished,
        Status::Failed(e) => StatusModel::Failed(e@),
        Status::Paused => StatusModel::Paused,
    }
}

pub open spec fn step_spec(p: Seq<StmtModel>, counter: int, s: Seq<int>) -> (
    Result<Option<Seq<char>>, ErrModel>,
    int,
    Seq<int>,
) {
    stmt_spec(p[counter], counter + 1, s)
}

pub open spec fn printed(o: Option<Seq<char>>) -> Seq<Seq<char>> {
    match o {
        Some(t) => seq![t],
        None => Seq::empty(),
    }
}

/// The line numbers of the statements that execute, in order.
pub open spec fn executable_lines(ls: Seq<Line>) -> Seq<usize>
    decreases ls.len(),
{
    if ls.len() == 0 {
        Seq::empty()
    } else if ls.last().statement@ is Empty {
        executable_lines(ls.drop_last())
    } else {
        executable_lines(ls.drop_last()).push(ls.last().line_number)
    }
}

proof fn lemma_executable_lines_len(ls: Seq<Line>)
    ensures
        executable_lines(ls).len() == executable(line_models(ls)).len(),
    decreases ls.len(),
{
    if ls.len() > 0 {
        lemma_executable_lines_len(ls.drop_last());
        assert(line_models(ls).drop_last() =~= line_models(ls.drop_last()));
    }
}

/// The source line numbers of the statements that `program` keeps: entry
/// `i` is the line of statement `i`.
pub fn statement_lines(lines: &Vec<Line>) -> (r: Vec<usize>)
    ensures
        r@ == executable_lines(lines@),
        r@.len() == executable(line_models(lines@)).len(),
{
    let mut r: Vec<usize> = Vec::new();
    let mut i: usize = 0;
    while i < lines.len()
        invariant
            i <= lines@.len(),
            r@ == executable_lines(lines@.take(i as int)),
        decreases lines@.len() - i,
    {
        assert(lines@.take(i + 1).drop_last() =~= lines@.take(i as int));
        if !lines[i].statement.is_empty() {
            r.push(lines[i].line_number);
        }
        i = i + 1;
    }
    assert(lines@.take(i as int) =~= lines@);
    proof {
        lemma_executable_lines_len(lines@);
    }
    r
}

/// What running from statement `counter` with at most `fuel` steps gives:
/// the printed lines, how it stopped, the counter and the stack.
pub open spec fn run_spec(p: Seq<StmtModel>, counter: int, s: Seq<int>, fuel: nat) -> (
    Seq<Seq<char>>,
    StatusModel,
    int,
    Seq<int>,
)
    decreases fuel,
{
    if counter < 0 || counter >= p.len() {
        (Seq::empty(), StatusModel::Finished, counter, s)
    } else if fuel == 0 {
        (Seq::empty(), StatusModel::Paused, counter, s)
    } else {
        let (r, c1, s1) = step_spec(p, counter, s);
        match r {
            Err(e) => (Seq::empty(), StatusModel::Failed(e), c1, s1),
            Ok(o) => {
                let (out, st, c2, s2) = run_spec(p, c1, s1, (fuel - 1) as nat);
                (printed(o) + out, st, c2, s2)
            },
        }
    }
}

/// The evaluator's state: the index of the next statement and the stack.
pub struct Machine {
    counter: usize,
    stack: LinkedList<Int>,
}

impl View for Machine {
    type V = (int, Seq<int>);

    closed spec fn view(&self) -> (int, Seq<int>) {
        (self.counter as int, values(self.stack@))
    }
}

/// The lines printed by a run, and how it stopped.
pub struct RunResult {
    pub output: Vec<String>,
    pub status: Status,
}

pub open spec fn strings(v: Seq<String>) -> Seq<Seq<char>> {
    v.map_values(|t: String| t@)
}

impl Machine {
    /// A machine at the first statement, with an empty stack.
    pub fn new() -> (r: Machine)
        ensures
            r@ == (0int, Seq::<int>::empty()),
    {
        let m = Machine { counter: 0, stack: LinkedList::new() };
        assert(values(m.stack@) =~= Seq::<int>::empty());
        m
    }

    /// The index of the next statement.
    pub fn counter(&self) -> (r: usize)
        ensures
            r as int == self@.0,
    {
        self.counter
    }

    /// The stack value at depth `i` (0 is the top), if there is one.
    pub fn value_at(&self, i: usize) -> (r: Option<&Int>)
        ensures
            i < self@.1.len() ==> (r matches Some(x) && x@ == self@.1[i as int]),
            i >= self@.1.len() ==> r is None,
    {
        self.stack.get(i)
    }

    /// Whether the counter is past the last statement.
    pub fn is_finished(&self, program: &Vec<Statement>) -> (r: bool)
        ensures
            r == (self@.0 >= program@.len()),
    {
        self.counter >= program.len()
    }

    /// Executes the statement at the counter, after moving the counter past it.
    pub fn step(&mut self, program: &Vec<Statement>) -> (r: Result<Option<String>, EvalError>)
        requires
            old(self)@.0 < program@.len(),
        ensures
            output_result(r) == step_spec(program_model(program@), old(self)@.0, old(self)@.1).0,
            final(self)@.0 == step_spec(program_model(program@), old(self)@.0, old(self)@.1).1,
            final(self)@.1 == step_spec(program_model(program@), old(self)@.0, old(self)@.1).2,
    {
        assert(self.counter < program.len());
        let st = &program[self.counter];
        self.counter = self.counter + 1;
        eval_statement(st, &mut self.stack, &mut self.counter)
    }

    /// Executes at most `max_steps` statements, stopping at the end of the
    /// program or at the first failure.
    pub fn run(&mut self, program: &Vec<Statement>, max_steps: usize) -> (r: RunResult)
        ensures
            ({
                let (out, st, c, s) = run_spec(
                    program_model(program@),
                    old(self)@.0,
                    old(self)@.1,
                    max_steps as nat,
                );
                &&& strings(r.output@) == out
                &&& status_model(r.status) == st
                &&& final(self)@ == (c, s)
            }),
    {
        let ghost p = program_model(program@);
        let ghost start = self@;
        let mut output: Vec<String> = Vec::new();
        let mut fuel: usize = max_steps;
        while fuel > 0 && self.counter < program.len()
            invariant
                ({
                    let (out0, st0, c0, s0) = run_spec(p, start.0, start.1, max_steps as nat);
                    let (out, st, c, s) = run_spec(p, self@.0, self@.1, fuel as nat);
                    &&& out0 == strings(output@) + out
                    &&& st0 == st
                    &&& c0 == c
                    &&& s0 == s
                }),
                p == program_model(program@),
                start == old(self)@,
            decreases fuel,
        {
            let ghost before = self@;
            let ghost out_before = output@;
            match self.step(program) {
                Ok(line) => {
                    match line {
                        Some(t) => {
                            output.push(t);
                        },
                        None => {},
                    }
                    assert(strings(output@) =~= strings(out_before) + printed(
                        step_spec(p, before.0, before.1).0->Ok_0,
                    ));
                    fuel = fuel - 1;
                    let ghost (o, _, _, _) = run_spec(p, self@.0, self@.1, fuel as nat);
                    assert(strings(output@) + o =~= strings(out_before) + (printed(
                        step_spec(p, before.0, before.1).0->Ok_0,
                    ) + o));
                },
                Err(e) => {
                    assert(strings(output@) =~= strings(output@) + Seq::<Seq<char>>::empty());
                    return RunResult { output, status: Status::Failed(e) };
                },
            }
        }
        if self.counter < program.len() {
            assert(strings(output@) =~= strings(output@) + Seq::<Seq<char>>::empty());
            RunResult { output, status: Status::Paused }
        } else {
            assert(strings(output@) =~= strings(output@) + Seq::<Seq<char>>::empty());
            RunResult { output, status: Status::Finished }
        }
    }
}

/// Operands are evaluated left to right: in `pop - pop` the left `pop`
/// takes the top of the stack, so the result is the top minus the value
/// below it, and both are removed.
pub proof fn lemma_left_operand_first(s: Seq<int>)
    requires
        s.len() >= 2,
    ensures
        eval_spec(
            ExprModel::Binary(Op::Sub, Box::new(ExprModel::Pop), Box::new(ExprModel::Pop)),
            s,
        ) == (Ok::<int, ErrModel>(s[0] - s[1]), s.skip(2)),
{
    let s1 = s.drop_first();
    assert(eval_spec(ExprModel::Pop, s) == (Ok::<int, ErrModel>(s[0]), s1));
    assert(eval_spec(ExprModel::Pop, s1) == (Ok::<int, ErrModel>(s1[0]), s1.drop_first()));
    assert(s1.drop_first() =~= s.skip(2));
}

} // verus!
