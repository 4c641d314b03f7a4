//! The parser: source text to statements, one per line.
//!
//! A line holds at most one statement and may end with a `//` comment; a
//! blank or comment-only line gives `Statement::Empty`. Within a line,
//! spaces, tabs and carriage returns may stand around every token.
use crate::ast::{ExprModel, Expression, Jump, Line, Op, Statement, StmtModel};
use crate::eval::{executable, lemma_empty_line_neutral, line_models};
use crate::num::{decimal_value, is_digit, Int};
use vstd::prelude::*;

verus! {

/// Classes of characters that the parser skips over in runs.
#[derive(PartialEq, Eq, Structural, Clone, Copy)]
pub enum CharClass {
    Space,
    Digit,
    Letter,
    NotNewline,
}

pub open spec fn in_class(k: CharClass, c: char) -> bool {
    match k {
        CharClass::Space => c == ' ' || c == '\t' || c == '\r',
        CharClass::Digit => is_digit(c),
        CharClass::Letter => ('a' <= c <= 'z') || ('A' <= c <= 'Z'),
        CharClass::NotNewline => c != '\n',
    }
}

/// The length of the run of `k` characters that starts at `i`.
pub open spec fn run_len(s: Seq<char>, i: int, k: CharClass) -> nat
    decreases s.len() - i,
{
    if 0 <= i < s.len() && in_class(k, s[i]) {
        1 + run_len(s, i + 1, k)
    } else {
        0
    }
}

/// How many characters are left from `i` on; the measure of the grammar's recursion.
pub open spec fn left(s: Seq<char>, i: int) -> nat {
    if 0 <= i <= s.len() {
        (s.len() - i) as nat
    } else {
        0
    }
}

pub open spec fn ws_len(s: Seq<char>, i: int) -> nat {
    run_len(s, i, CharClass::Space)
}

pub open spec fn char_at(s: Seq<char>, i: int, c: char) -> bool {
    0 <= i < s.len() && s[i] == c
}

/// `*`, `/` or `%` at `i`, where a `/` that starts a comment is no operator.
pub open spec fn product_op(s: Seq<char>, i: int) -> Option<Op> {
    if char_at(s, i, '*') {
        Some(Op::Mul)
    } else if char_at(s, i, '%') {
        Some(Op::Mod)
    } else if char_at(s, i, '/') && !char_at(s, i + 1, '/') {
        Some(Op::Div)
    } else {
        None
    }
}

pub open spec fn sum_op(s: Seq<char>, i: int) -> Option<Op> {
    if char_at(s, i, '+') {
        Some(Op::Add)
    } else if char_at(s, i, '-') {
        Some(Op::Sub)
    } else {
        None
    }
}

/// An atom at `i` (after spaces): a literal, `pop`, `read` or a
/// parenthesized sum; with the number of characters it takes.
pub open spec fn p_atom(s: Seq<char>, i: int) -> Option<(ExprModel, nat)>
    decreases left(s, i), 0nat,
{
    let j = i + ws_len(s, i);
    if i < 0 || i > s.len() {
        None
    } else if j < s.len() && is_digit(s[j]) {
        let n = run_len(s, j, CharClass::Digit);
        Some((ExprModel::Number(decimal_value(s.subrange(j, j + n)) as int), (j + n - i) as nat))
    } else if char_at(s, j, 'p') && char_at(s, j + 1, 'o') && char_at(s, j + 2, 'p') {
        Some((ExprModel::Pop, (j + 3 - i) as nat))
    } else if char_at(s, j, 'r') && char_at(s, j + 1, 'e') && char_at(s, j + 2, 'a') && char_at(
        s,
        j + 3,
        'd',
    ) {
        Some((ExprModel::Read, (j + 4 - i) as nat))
    } else if char_at(s, j, '(') {
        match p_sum(s, j + 1) {
            None => None,
            Some((e, n)) => {
                let k = j + 1 + n;
                let m = k + ws_len(s, k);
                if char_at(s, m, ')') {
                    Some((e, (m + 1 - i) as nat))
                } else {
                    None
                }
            },
        }
    } else {
        None
    }
}

/// Prefix `-` signs before an atom.
pub open spec fn p_unary(s: Seq<char>, i: int) -> Option<(ExprModel, nat)>
    decreases left(s, i), 1nat,
{
    let j = i + ws_len(s, i);
    if i < 0 || i > s.len() {
        None
    } else if char_at(s, j, '-') {
        match p_unary(s, j + 1) {
            None => None,
            Some((e, n)) => Some((ExprModel::Neg(Box::new(e)), (j + 1 + n - i) as nat)),
        }
    } else {
        p_atom(s, i)
    }
}

/// The operators and operands that follow `lhs` in a product, folded to the left.
pub open spec fn p_product_rest(s: Seq<char>, k: int, lhs: ExprModel) -> Option<(ExprModel, nat)>
    decreases left(s, k), 2nat,
{
    let j = k + ws_len(s, k);
    if k < 0 || k > s.len() {
        None
    } else {
        match product_op(s, j) {
            None => Some((lhs, 0)),
            Some(op) => match p_unary(s, j + 1) {
                None => None,
                Some((r, n)) => match p_product_rest(
                    s,
                    j + 1 + n,
                    ExprModel::Binary(op, Box::new(lhs), Box::new(r)),
                ) {
                    None => None,
                    Some((e, m)) => Some((e, (j + 1 + n + m - k) as nat)),
                },
            },
        }
    }
}

pub open spec fn p_product(s: Seq<char>, i: int) -> Option<(ExprModel, nat)>
    decreases left(s, i), 3nat,
{
    if i < 0 || i > s.len() {
        None
    } else {
        match p_unary(s, i) {
            None => None,
            Some((e, n)) => match p_product_rest(s, i + n, e) {
                None => None,
                Some((r, m)) => Some((r, n + m)),
            },
        }
    }
}

/// The operators and operands that follow `lhs` in a sum, folded to the left.
pub open spec fn p_sum_rest(s: Seq<char>, k: int, lhs: ExprModel) -> Option<(ExprModel, nat)>
    decreases left(s, k), 4nat,
{
    let j = k + ws_len(s, k);
    if k < 0 || k > s.len() {
        None
    } else {
        match sum_op(s, j) {
            None => Some((lhs, 0)),
            Some(op) => match p_product(s, j + 1) {
                None => None,
                Some((r, n)) => match p_sum_rest(
                    s,
                    j + 1 + n,
                    ExprModel::Binary(op, Box::new(lhs), Box::new(r)),
                ) {
                    None => None,
                    Some((e, m)) => Some((e, (j + 1 + n + m - k) as nat)),
                },
            },
        }
    }
}

/// A sum at `i`: the expression grammar's entry point.
pub open spec fn p_sum(s: Seq<char>, i: int) -> Option<(ExprModel, nat)>
    decreases left(s, i), 5nat,
{
    if i < 0 || i > s.len() {
        None
    } else {
        match p_product(s, i) {
            None => None,
            Some((e, n)) => match p_sum_rest(s, i + n, e) {
                None => None,
                Some((r, m)) => Some((r, n + m)),
            },
        }
    }
}

/// The statement keywords.
#[derive(PartialEq, Eq, Structural, Clone, Copy)]
pub enum Keyword {
    Push,
    Print,
    Swap,
    Clear,
    Over,
    Del,
    JumpZ,
    JumpNZ,
    JumpN,
    JumpP,
}

pub open spec fn keyword_spec(w: Seq<char>) -> Option<Keyword> {
    if w == seq!['p', 'u', 's', 'h'] {
        Some(Keyword::Push)
    } else if w == seq!['p', 'r', 'i', 'n', 't'] {
        Some(Keyword::Print)
    } else if w == seq!['s', 'w', 'a', 'p'] {
        Some(Keyword::Swap)
    } else if w == seq!['c', 'l', 'e', 'a', 'r'] {
        Some(Keyword::Clear)
    } else if w == seq!['o', 'v', 'e', 'r'] {
        Some(Keyword::Over)
    } else if w == seq!['d', 'e', 'l'] {
        Some(Keyword::Del)
    } else if w == seq!['j', 'u', 'm', 'p', 'Z'] {
        Some(Keyword::JumpZ)
    } else if w == seq!['j', 'u', 'm', 'p', 'N', 'Z'] {
        Some(Keyword::JumpNZ)
    } else if w == seq!['j', 'u', 'm', 'p', 'N'] {
        Some(Keyword::JumpN)
    } else if w == seq!['j', 'u', 'm', 'p', 'P'] {
        Some(Keyword::JumpP)
    } else {
        None
    }
}

pub open spec fn jump_kind(kw: Keyword) -> Option<Jump> {
    match kw {
        Keyword::JumpZ => Some(Jump::JumpZero),
        Keyword::JumpNZ => Some(Jump::JumpNotZero),
        Keyword::JumpN => Some(Jump::JumpNegate),
        Keyword::JumpP => Some(Jump::JumpPositive),
        _ => None,
    }
}

/// The statement that a keyword with one operand makes.
pub open spec fn operand_stmt(kw: Keyword, e: ExprModel) -> StmtModel {
    match kw {
        Keyword::Push => StmtModel::Push(e),
        Keyword::Print => StmtModel::Print(e),
        Keyword::Over => StmtModel::Over(e),
        _ => StmtModel::Del(e),
    }
}

/// A keyword statement at `j`: `swap`, `clear`, `kw: <expr>` or
/// `jumpX: <condition>, <target>`.
pub open spec fn p_keyword_stmt(s: Seq<char>, j: int) -> Option<(StmtModel, nat)> {
    let w = run_len(s, j, CharClass::Letter);
    let k = j + w;
    let c = k + ws_len(s, k);
    match keyword_spec(s.subrange(j, k)) {
        None => None,
        Some(Keyword::Swap) => Some((StmtModel::Swap, w)),
        Some(Keyword::Clear) => Some((StmtModel::Clear, w)),
        Some(kw) => if !char_at(s, c, ':') {
            None
        } else {
            match p_sum(s, c + 1) {
                None => None,
                Some((e, n)) => {
                    let end = c + 1 + n;
                    let d = end + ws_len(s, end);
                    match jump_kind(kw) {
                        None => Some((operand_stmt(kw, e), (end - j) as nat)),
                        Some(jump) => if !char_at(s, d, ',') {
                            None
                        } else {
                            match p_sum(s, d + 1) {
                                None => None,
                                Some((l, m)) => Some(
                                    (
                                        StmtModel::Jump { line: l, value: e, jump },
                                        (d + 1 + m - j) as nat,
                                    ),
                                ),
                            }
                        },
                    }
                },
            }
        },
    }
}

/// A statement at `j`: a bare expression, else a keyword statement.
pub open spec fn p_statement(s: Seq<char>, j: int) -> Option<(StmtModel, nat)> {
    match p_sum(s, j) {
        Some((e, n)) => Some((StmtModel::Expression(e), n)),
        None => p_keyword_stmt(s, j),
    }
}

pub open spec fn at_eol(s: Seq<char>, i: int) -> bool {
    i >= s.len() || s[i] == '\n'
}

pub open spec fn comment_at(s: Seq<char>, i: int) -> bool {
    char_at(s, i, '/') && char_at(s, i + 1, '/')
}

/// The line that starts at `i`, up to its newline (not included): its
/// statement and its length. `None` where the line is malformed.
pub open spec fn p_line(s: Seq<char>, i: int) -> Option<(StmtModel, nat)> {
    let j = i + ws_len(s, i);
    if at_eol(s, j) {
        Some((StmtModel::Empty, (j - i) as nat))
    } else if comment_at(s, j) {
        Some((StmtModel::Empty, (j + run_len(s, j, CharClass::NotNewline) - i) as nat))
    } else {
        match p_statement(s, j) {
            None => None,
            Some((st, n)) => {
                let k = j + n;
                let m = k + ws_len(s, k);
                if at_eol(s, m) {
                    Some((st, (m - i) as nat))
                } else if comment_at(s, m) {
                    Some((st, (m + run_len(s, m, CharClass::NotNewline) - i) as nat))
                } else {
                    None
                }
            },
        }
    }
}

/// The lines of a text: the pieces between its newlines.
pub open spec fn split_lines(s: Seq<char>) -> Seq<Seq<char>>
    decreases s.len(),
{
    let n = run_len(s, 0, CharClass::NotNewline);
    if n >= s.len() {
        seq![s]
    } else {
        seq![s.take(n as int)] + split_lines(s.skip(n + 1int))
    }
}

/// The statement of a line, where the whole line parses.
#[verifier::opaque]
pub open spec fn line_statement(l: Seq<char>) -> Option<StmtModel> {
    match p_line(l, 0) {
        Some((st, n)) => if n == l.len() {
            Some(st)
        } else {
            None
        },
        None => None,
    }
}

/// The statements of a sequence of lines whose first is line number `ln`,
/// or the number of the first malformed line.
pub open spec fn parse_lines(ls: Seq<Seq<char>>, ln: int) -> Result<Seq<StmtModel>, int>
    decreases ls.len(),
{
    if ls.len() == 0 {
        Ok(Seq::empty())
    } else {
        match line_statement(ls[0]) {
            None => Err(ln),
            Some(st) => match parse_lines(ls.drop_first(), ln + 1) {
                Ok(rest) => Ok(seq![st] + rest),
                Err(e) => Err(e),
            },
        }
    }
}

/// The statements of a whole text, one per line, or the number (from 1) of
/// its first malformed line.
pub open spec fn parse_spec(s: Seq<char>) -> Result<Seq<StmtModel>, int> {
    parse_lines(split_lines(s), 1)
}

/// A syntax error: no statement could be read from this line (counted from 1).
#[derive(Debug)]
pub struct ParseError {
    pub line: usize,
}

/// What `parser` returns for the text `s`: the lines of `parse_spec(s)`,
/// numbered from 1, or the number of the first malformed line.
pub open spec fn parsed_program(s: Seq<char>, r: Result<Vec<Line>, ParseError>) -> bool {
    match parse_spec(s) {
        Ok(ls) => r matches Ok(v) && line_models(v@) == ls && forall|k: int|
            0 <= k < v@.len() ==> (#[trigger] v@[k]).line_number == k + 1,
        Err(ln) => r matches Err(e) && e.line == ln,
    }
}

/// Parsing the same text twice gives the same result: both succeed with
/// the same statements on the same line numbers, or both fail on the same
/// line.
pub proof fn lemma_parse_deterministic(
    s: Seq<char>,
    r1: Result<Vec<Line>, ParseError>,
    r2: Result<Vec<Line>, ParseError>,
)
    requires
        parsed_program(s, r1),
        parsed_program(s, r2),
    ensures
        r1 is Ok <==> r2 is Ok,
        r1 is Ok ==> line_models(r1->Ok_0@) == line_models(r2->Ok_0@) && r1->Ok_0@.len()
            == r2->Ok_0@.len() && forall|k: int|
            0 <= k < r1->Ok_0@.len() ==> (#[trigger] r1->Ok_0@[k]).line_number
                == r2->Ok_0@[k].line_number,
        r1 is Err ==> r1->Err_0.line == r2->Err_0.line,
{
    if r1 is Ok {
        assert(line_models(r1->Ok_0@).len() == r1->Ok_0@.len());
        assert(line_models(r2->Ok_0@).len() == r2->Ok_0@.len());
    }
}

proof fn lemma_run_to_end(s: Seq<char>, i: int)
    requires
        0 <= i <= s.len(),
        forall|x: int| 0 <= x < s.len() ==> s[x] != '\n',
    ensures
        run_len(s, i, CharClass::NotNewline) == s.len() - i,
    decreases s.len() - i,
{
    if i < s.len() {
        lemma_run_to_end(s, i + 1);
    }
}

/// A line of spaces, or of spaces and a `//` comment, is a no-op line.
pub proof fn lemma_comment_line_is_empty(l: Seq<char>)
    requires
        forall|x: int| 0 <= x < l.len() ==> l[x] != '\n',
        at_eol(l, ws_len(l, 0) as int) || comment_at(l, ws_len(l, 0) as int),
    ensures
        line_statement(l) == Some(StmtModel::Empty),
{
    reveal(line_statement);
    lemma_run(l, 0, CharClass::Space);
    lemma_run_to_end(l, ws_len(l, 0) as int);
}

proof fn lemma_line_number_free(ls: Seq<Seq<char>>, a: int, b: int)
    ensures
        parse_lines(ls, a) is Ok <==> parse_lines(ls, b) is Ok,
        parse_lines(ls, a) is Ok ==> parse_lines(ls, a) == parse_lines(ls, b),
    decreases ls.len(),
{
    if ls.len() > 0 {
        lemma_line_number_free(ls.drop_first(), a + 1, b + 1);
    }
}

proof fn lemma_parse_lines_len(ls: Seq<Seq<char>>, ln: int)
    ensures
        parse_lines(ls, ln) is Ok ==> parse_lines(ls, ln)->Ok_0.len() == ls.len(),
    decreases ls.len(),
{
    if ls.len() > 0 {
        lemma_parse_lines_len(ls.drop_first(), ln + 1);
    }
}

proof fn lemma_insert_line(ls: Seq<Seq<char>>, k: int, c: Seq<char>, ln: int)
    requires
        0 <= k <= ls.len(),
        line_statement(c) == Some(StmtModel::Empty),
    ensures
        parse_lines(ls.insert(k, c), ln) is Ok <==> parse_lines(ls, ln) is Ok,
        parse_lines(ls, ln) is Ok ==> parse_lines(ls.insert(k, c), ln)->Ok_0 == parse_lines(
            ls,
            ln,
        )->Ok_0.insert(k, StmtModel::Empty),
    decreases ls.len(),
{
    let ins = ls.insert(k, c);
    if k == 0 {
        assert(ins.drop_first() =~= ls);
        assert(ins[0] == c);
        lemma_line_number_free(ls, ln, ln + 1);
        if parse_lines(ls, ln) is Ok {
            assert(seq![StmtModel::Empty] + parse_lines(ls, ln)->Ok_0 =~= parse_lines(
                ls,
                ln,
            )->Ok_0.insert(0, StmtModel::Empty));
        }
    } else {
        assert(ins[0] == ls[0]);
        assert(ins.drop_first() =~= ls.drop_first().insert(k - 1, c));
        lemma_insert_line(ls.drop_first(), k - 1, c, ln + 1);
        lemma_parse_lines_len(ls.drop_first(), ln + 1);
        if parse_lines(ls, ln) is Ok {
            let rest = parse_lines(ls.drop_first(), ln + 1)->Ok_0;
            let st = line_statement(ls[0])->0;
            assert(seq![st] + rest.insert(k - 1, StmtModel::Empty) =~= (seq![st] + rest).insert(
                k,
                StmtModel::Empty,
            ));
        }
    }
}

/// Adding a no-op line (blank, or only a comment) anywhere among a
/// program's lines changes neither whether it parses nor the statements
/// that execute, so jump targets and output stay the same.
pub proof fn lemma_noop_line_neutral(ls: Seq<Seq<char>>, k: int, c: Seq<char>)
    requires
        0 <= k <= ls.len(),
        line_statement(c) == Some(StmtModel::Empty),
    ensures
        parse_lines(ls.insert(k, c), 1) is Ok <==> parse_lines(ls, 1) is Ok,
        parse_lines(ls, 1) is Ok ==> executable(parse_lines(ls.insert(k, c), 1)->Ok_0)
            == executable(parse_lines(ls, 1)->Ok_0),
{
    lemma_insert_line(ls, k, c, 1);
    lemma_parse_lines_len(ls, 1);
    if parse_lines(ls, 1) is Ok {
        lemma_empty_line_neutral(parse_lines(ls, 1)->Ok_0, k);
    }
}

spec fn parsed_as(m: Option<(ExprModel, nat)>, r: Option<(Expression, usize)>, i: int, len: int) -> bool {
    match m {
        None => r is None,
        Some((e, n)) => r matches Some((x, k)) && x@ == e && k == i + n && k <= len,
    }
}

spec fn stmt_parsed_as(
    m: Option<(StmtModel, nat)>,
    r: Option<(Statement, usize)>,
    i: int,
    len: int,
) -> bool {
    match m {
        None => r is None,
        Some((st, n)) => r matches Some((x, k)) && x@ == st && k == i + n && k <= len,
    }
}

proof fn lemma_run(s: Seq<char>, i: int, k: CharClass)
    requires
        0 <= i <= s.len(),
    ensures
        i + run_len(s, i, k) <= s.len(),
        forall|x: int| i <= x < i + run_len(s, i, k) ==> in_class(k, #[trigger] s[x]),
    decreases s.len() - i,
{
    if i < s.len() && in_class(k, s[i]) {
        lemma_run(s, i + 1, k);
    }
}

fn char_in(k: CharClass, c: char) -> (r: bool)
    ensures
        r == in_class(k, c),
{
    match k {
        CharClass::Space => c == ' ' || c == '\t' || c == '\r',
        CharClass::Digit => '0' <= c && c <= '9',
        CharClass::Letter => ('a' <= c && c <= 'z') || ('A' <= c && c <= 'Z'),
        CharClass::NotNewline => c != '\n',
    }
}

/// The end of the run of `k` characters that starts at `i`.
fn run_end(cs: &Vec<char>, i: usize, k: CharClass) -> (j: usize)
    requires
        i <= cs@.len(),
    ensures
        j == i + run_len(cs@, i as int, k),
        j <= cs@.len(),
{
    let mut j: usize = i;
    while j < cs.len() && char_in(k, cs[j])
        invariant
            i <= j <= cs@.len(),
            run_len(cs@, i as int, k) == (j - i) + run_len(cs@, j as int, k),
        decreases cs@.len() - j,
    {
        j = j + 1;
    }
    j
}

fn has_char(cs: &Vec<char>, i: usize, c: char) -> (r: bool)
    ensures
        r == char_at(cs@, i as int, c),
        r ==> i < usize::MAX,
{
    i < cs.len() && cs[i] == c
}

fn product_op_at(cs: &Vec<char>, i: usize) -> (r: Option<Op>)
    ensures
        r == product_op(cs@, i as int),
        r is Some ==> i < usize::MAX,
{
    if has_char(cs, i, '*') {
        Some(Op::Mul)
    } else if has_char(cs, i, '%') {
        Some(Op::Mod)
    } else if has_char(cs, i, '/') && !has_char(cs, i + 1, '/') {
        Some(Op::Div)
    } else {
        None
    }
}

fn sum_op_at(cs: &Vec<char>, i: usize) -> (r: Option<Op>)
    ensures
        r == sum_op(cs@, i as int),
        r is Some ==> i < usize::MAX,
{
    if has_char(cs, i, '+') {
        Some(Op::Add)
    } else if has_char(cs, i, '-') {
        Some(Op::Sub)
    } else {
        None
    }
}

fn parse_atom(src: &str, cs: &Vec<char>, i: usize) -> (r: Option<(Expression, usize)>)
    requires
        cs@ == src@,
        i <= cs@.len(),
    ensures
        parsed_as(p_atom(cs@, i as int), r, i as int, cs@.len() as int),
    decreases cs@.len() - i, 0nat,
{
    let j = run_end(cs, i, CharClass::Space);
    if j < cs.len() && char_in(CharClass::Digit, cs[j]) {
        let k = run_end(cs, j, CharClass::Digit);
        let text = src.substring_char(j, k);
        proof {
            lemma_run(cs@, j as int, CharClass::Digit);
            assert forall|x: int| 0 <= x < text@.len() implies is_digit(#[trigger] text@[x]) by {
                assert(text@[x] == cs@[j + x]);
            }
        }
        let v = Int::from_decimal(text).unwrap();
        Some((Expression::Number(v), k))
    } else if has_char(cs, j, 'p') && has_char(cs, j + 1, 'o') && has_char(cs, j + 2, 'p') {
        Some((Expression::Pop, j + 3))
    } else if has_char(cs, j, 'r') && has_char(cs, j + 1, 'e') && has_char(cs, j + 2, 'a')
        && has_char(cs, j + 3, 'd') {
        Some((Expression::Read, j + 4))
    } else if has_char(cs, j, '(') {
        match parse_sum(src, cs, j + 1) {
            None => None,
            Some((e, k)) => {
                let m = run_end(cs, k, CharClass::Space);
                if has_char(cs, m, ')') {
                    Some((e, m + 1))
                } else {
                    None
                }
            },
        }
    } else {
        None
    }
}

fn parse_unary(src: &str, cs: &Vec<char>, i: usize) -> (r: Option<(Expression, usize)>)
    requires
        cs@ == src@,
        i <= cs@.len(),
    ensures
        parsed_as(p_unary(cs@, i as int), r, i as int, cs@.len() as int),
    decreases cs@.len() - i, 1nat,
{
    let j = run_end(cs, i, CharClass::Space);
    if has_char(cs, j, '-') {
        match parse_unary(src, cs, j + 1) {
            None => None,
            Some((e, k)) => Some((Expression::Negate(Box::new(e)), k)),
        }
    } else {
        parse_atom(src, cs, i)
    }
}

fn parse_product(src: &str, cs: &Vec<char>, i: usize) -> (r: Option<(Expression, usize)>)
    requires
        cs@ == src@,
        i <= cs@.len(),
    ensures
        parsed_as(p_product(cs@, i as int), r, i as int, cs@.len() as int),
    decreases cs@.len() - i, 3nat,
{
    let ghost s = cs@;
    let ghost target = p_product(s, i as int);
    match parse_unary(src, cs, i) {
        None => None,
        Some((first, k0)) => {
            let mut lhs = first;
            let mut k = k0;
            loop
                invariant
                    cs@ == src@,
                    s == cs@,
                    i <= k <= cs@.len(),
                    target == p_product(s, i as int),
                    match p_product_rest(s, k as int, lhs@) {
                        None => target is None,
                        Some((e, m)) => target == Some((e, (k + m - i) as nat)),
                    },
                decreases cs@.len() - k,
            {
                let j = run_end(cs, k, CharClass::Space);
                match product_op_at(cs, j) {
                    None => {
                        return Some((lhs, k));
                    },
                    Some(op) => {
                        match parse_unary(src, cs, j + 1) {
                            None => {
                                return None;
                            },
                            Some((rhs, k2)) => {
                                lhs = Expression::binary(op, lhs, rhs);
                                k = k2;
                            },
                        }
                    },
                }
            }
        },
    }
}

fn parse_sum(src: &str, cs: &Vec<char>, i: usize) -> (r: Option<(Expression, usize)>)
    requires
        cs@ == src@,
        i <= cs@.len(),
    ensures
        parsed_as(p_sum(cs@, i as int), r, i as int, cs@.len() as int),
    decreases cs@.len() - i, 5nat,
{
    let ghost s = cs@;
    let ghost target = p_sum(s, i as int);
    match parse_product(src, cs, i) {
        None => None,
        Some((first, k0)) => {
            let mut lhs = first;
            let mut k = k0;
            loop
                invariant
                    cs@ == src@,
                    s == cs@,
                    i <= k <= cs@.len(),
                    target == p_sum(s, i as int),
                    match p_sum_rest(s, k as int, lhs@) {
                        None => target is None,
                        Some((e, m)) => target == Some((e, (k + m - i) as nat)),
                    },
                decreases cs@.len() - k,
            {
                let j = run_end(cs, k, CharClass::Space);
                match sum_op_at(cs, j) {
                    None => {
                        return Some((lhs, k));
                    },
                    Some(op) => {
                        match parse_product(src, cs, j + 1) {
                            None => {
                                return None;
                            },
                            Some((rhs, k2)) => {
                                lhs = Expression::binary(op, lhs, rhs);
                                k = k2;
                            },
                        }
                    },
                }
            }
        },
    }
}

fn word_is(cs: &Vec<char>, j: usize, k: usize, w: &Vec<char>) -> (r: bool)
    requires
        j <= k <= cs@.len(),
    ensures
        r == (cs@.subrange(j as int, k as int) == w@),
{
    if k - j != w.len() {
        return false;
    }
    let mut x: usize = 0;
    while x < w.len()
        invariant
            k - j == w@.len(),
            j <= k <= cs@.len(),
            x <= w@.len(),
            forall|y: int| 0 <= y < x ==> cs@[j + y] == w@[y],
        decreases w@.len() - x,
    {
        if cs[j + x] != w[x] {
            assert(cs@.subrange(j as int, k as int)[x as int] != w@[x as int]);
            return false;
        }
        x = x + 1;
    }
    assert(cs@.subrange(j as int, k as int) =~= w@);
    true
}

fn keyword_of(cs: &Vec<char>, j: usize, k: usize) -> (r: Option<Keyword>)
    requires
        j <= k <= cs@.len(),
    ensures
        r == keyword_spec(cs@.subrange(j as int, k as int)),
{
    if word_is(cs, j, k, &vec!['p', 'u', 's', 'h']) {
        Some(Keyword::Push)
    } else if word_is(cs, j, k, &vec!['p', 'r', 'i', 'n', 't']) {
        Some(Keyword::Print)
    } else if word_is(cs, j, k, &vec!['s', 'w', 'a', 'p']) {
        Some(Keyword::Swap)
    } else if word_is(cs, j, k, &vec!['c', 'l', 'e', 'a', 'r']) {
        Some(Keyword::Clear)
    } else if word_is(cs, j, k, &vec!['o', 'v', 'e', 'r']) {
        Some(Keyword::Over)
    } else if word_is(cs, j, k, &vec!['d', 'e', 'l']) {
        Some(Keyword::Del)
    } else if word_is(cs, j, k, &vec!['j', 'u', 'm', 'p', 'Z']) {
        Some(Keyword::JumpZ)
    } else if word_is(cs, j, k, &vec!['j', 'u', 'm', 'p', 'N', 'Z']) {
        Some(Keyword::JumpNZ)
    } else if word_is(cs, j, k, &vec!['j', 'u', 'm', 'p', 'N']) {
        Some(Keyword::JumpN)
    } else if word_is(cs, j, k, &vec!['j', 'u', 'm', 'p', 'P']) {
        Some(Keyword::JumpP)
    } else {
        None
    }
}

fn parse_keyword_stmt(src: &str, cs: &Vec<char>, j: usize) -> (r: Option<(Statement, usize)>)
    requires
        cs@ == src@,
        j <= cs@.len(),
    ensures
        stmt_parsed_as(p_keyword_stmt(cs@, j as int), r, j as int, cs@.len() as int),
{
    let k = run_end(cs, j, CharClass::Letter);
    let c = run_end(cs, k, CharClass::Space);
    let kw = match keyword_of(cs, j, k) {
        None => {
            return None;
        },
        Some(kw) => kw,
    };
    match kw {
        Keyword::Swap => {
            return Some((Statement::Swap, k));
        },
        Keyword::Clear => {
            return Some((Statement::Clear, k));
        },
        _ => {},
    }
    if !has_char(cs, c, ':') {
        return None;
    }
    let (e, end) = match parse_sum(src, cs, c + 1) {
        None => {
            return None;
        },
        Some(p) => p,
    };
    let jump = match kw {
        Keyword::Push => {
            return Some((Statement::Push(e), end));
        },
        Keyword::Print => {
            return Some((Statement::Print(e), end));
        },
        Keyword::Over => {
            return Some((Statement::Over(e), end));
        },
        Keyword::Del => {
            return Some((Statement::Del(e), end));
        },
        Keyword::JumpZ => Jump::JumpZero,
        Keyword::JumpNZ => Jump::JumpNotZero,
        Keyword::JumpN => Jump::JumpNegate,
        _ => Jump::JumpPositive,
    };
    let d = run_end(cs, end, CharClass::Space);
    if !has_char(cs, d, ',') {
        return None;
    }
    match parse_sum(src, cs, d + 1) {
        None => None,
        Some((l, m)) => Some((Statement::Jump { line: l, value: e, jump }, m)),
    }
}

fn parse_statement(src: &str, cs: &Vec<char>, j: usize) -> (r: Option<(Statement, usize)>)
    requires
        cs@ == src@,
        j <= cs@.len(),
    ensures
        stmt_parsed_as(p_statement(cs@, j as int), r, j as int, cs@.len() as int),
{
    match parse_sum(src, cs, j) {
        Some((e, n)) => Some((Statement::Expression(e), n)),
        None => parse_keyword_stmt(src, cs, j),
    }
}

fn is_eol(cs: &Vec<char>, i: usize) -> (r: bool)
    ensures
        r == at_eol(cs@, i as int),
{
    i >= cs.len() || cs[i] == '\n'
}

fn parse_line(src: &str, cs: &Vec<char>, i: usize) -> (r: Option<(Statement, usize)>)
    requires
        cs@ == src@,
        i <= cs@.len(),
    ensures
        stmt_parsed_as(p_line(cs@, i as int), r, i as int, cs@.len() as int),
{
    let j = run_end(cs, i, CharClass::Space);
    if is_eol(cs, j) {
        Some((Statement::Empty, j))
    } else if has_char(cs, j, '/') && has_char(cs, j + 1, '/') {
        Some((Statement::Empty, run_end(cs, j, CharClass::NotNewline)))
    } else {
        match parse_statement(src, cs, j) {
            None => None,
            Some((st, k)) => {
                let m = run_end(cs, k, CharClass::Space);
                if is_eol(cs, m) {
                    Some((st, m))
                } else if has_char(cs, m, '/') && has_char(cs, m + 1, '/') {
                    Some((st, run_end(cs, m, CharClass::NotNewline)))
                } else {
                    None
                }
            },
        }
    }
}

fn chars_of(src: &str) -> (r: Vec<char>)
    ensures
        r@ == src@,
{
    let n = src.unicode_len();
    let mut cs: Vec<char> = Vec::new();
    while cs.len() < n
        invariant
            n == src@.len(),
            cs@.len() <= n,
            cs@ == src@.take(cs@.len() as int),
        decreases n - cs@.len(),
    {
        let c = src.get_char(cs.len());
        cs.push(c);
        assert(cs@ =~= src@.take(cs@.len() as int));
    }
    assert(cs@ =~= src@);
    cs
}

proof fn lemma_run_skip(s: Seq<char>, i: int, d: int, k: CharClass)
    requires
        0 <= i <= s.len(),
        0 <= d,
    ensures
        run_len(s.skip(i), d, k) == run_len(s, i + d, k),
    decreases s.len() - i - d,
{
    if i + d < s.len() {
        lemma_run_skip(s, i, d + 1, k);
    }
}

fn copy_range(cs: &Vec<char>, i: usize, e: usize) -> (r: Vec<char>)
    requires
        i <= e <= cs@.len(),
    ensures
        r@ == cs@.subrange(i as int, e as int),
{
    let mut r: Vec<char> = Vec::new();
    let mut x: usize = i;
    while x < e
        invariant
            i <= x <= e <= cs@.len(),
            r@ == cs@.subrange(i as int, x as int),
        decreases e - x,
    {
        r.push(cs[x]);
        assert(r@ =~= cs@.subrange(i as int, x + 1));
        x = x + 1;
    }
    r
}

/// The statement of a whole line, where it parses.
fn parse_whole_line(src: &str, cs: &Vec<char>) -> (r: Option<Statement>)
    requires
        cs@ == src@,
    ensures
        match line_statement(cs@) {
            Some(st) => r matches Some(x) && x@ == st,
            None => r is None,
        },
{
    proof {
        reveal(line_statement);
    }
    match parse_line(src, cs, 0) {
        Some((st, k)) => if k == cs.len() {
            Some(st)
        } else {
            None
        },
        None => None,
    }
}

/// Parses a whole program, one statement per line; a malformed line makes
/// the whole parse fail with its line number.
pub fn parser(src: &str) -> (r: Result<Vec<Line>, ParseError>)
    requires
        src@.len() < usize::MAX,
    ensures
        parsed_program(src@, r),
{
    let cs = chars_of(src);
    let ghost s = cs@;
    let mut lines: Vec<Line> = Vec::new();
    let mut i: usize = 0;
    let mut ln: usize = 1;
    assert(s.skip(0) =~= s);
    assert(line_models(lines@) + Seq::<StmtModel>::empty() =~= Seq::<StmtModel>::empty());
    loop
        invariant
            cs@ == src@,
            s == cs@,
            s.len() < usize::MAX,
            i <= s.len(),
            ln == lines@.len() + 1,
            ln <= i + 1,
            forall|k: int| 0 <= k < lines@.len() ==> (#[trigger] lines@[k]).line_number == k + 1,
            match parse_lines(split_lines(s.skip(i as int)), ln as int) {
                Ok(rest) => parse_spec(s) == Ok::<Seq<StmtModel>, int>(line_models(lines@) + rest),
                Err(e) => parse_spec(s) == Err::<Seq<StmtModel>, int>(e),
            },
        decreases s.len() - i,
    {
        let e = run_end(&cs, i, CharClass::NotNewline);
        let line = copy_range(&cs, i, e);
        let text = src.substring_char(i, e);
        let ghost t = s.skip(i as int);
        let ghost rest_lines = if e < s.len() {
            split_lines(s.skip(e + 1))
        } else {
            Seq::<Seq<char>>::empty()
        };
        proof {
            lemma_run_skip(s, i as int, 0, CharClass::NotNewline);
            if e < s.len() {
                assert(t.take(e - i) =~= line@);
                assert(t.skip(e - i + 1) =~= s.skip(e + 1));
            } else {
                assert(t =~= line@);
            }
            assert(split_lines(t) == seq![line@] + rest_lines);
            assert((seq![line@] + rest_lines)[0] == line@);
            assert((seq![line@] + rest_lines).drop_first() =~= rest_lines);
        }
        match parse_whole_line(text, &line) {
            None => {
                return Err(ParseError { line: ln });
            },
            Some(st) => {
                let ghost before = lines@;
                let ghost stm = st@;
                lines.push(Line { statement: st, line_number: ln });
                assert(line_models(lines@) =~= line_models(before) + seq![stm]);
                if e >= cs.len() {
                    assert(line_models(lines@) =~= line_models(before) + seq![stm] + Seq::<
                        StmtModel,
                    >::empty());
                    return Ok(lines);
                }
                proof {
                    match parse_lines(rest_lines, ln + 1) {
                        Ok(rest) => {
                            assert(line_models(before) + (seq![stm] + rest) =~= line_models(lines@)
                                + rest);
                        },
                        Err(_) => {},
                    }
                }
                i = e + 1;
                ln = ln + 1;
            },
        }
    }
}

/// Parses a single line: its statement, or an error where it is malformed
/// or holds more than one line.
pub fn parser_line(src: &str) -> (r: Result<Statement, ParseError>)
    ensures
        match line_statement(src@) {
            Some(st) => r matches Ok(x) && x@ == st,
            None => r matches Err(e) && e.line == 1,
        },
{
    let cs = chars_of(src);
    match parse_whole_line(src, &cs) {
        Some(st) => Ok(st),
        None => Err(ParseError { line: 1 }),
    }
}

} // verus!
