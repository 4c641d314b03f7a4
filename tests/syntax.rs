use shix::ast::{Expression, Jump, Statement};
use shix::eval::{eval_statement, program, statement_lines, EvalError};
use shix::linked_list::LinkedList;
use shix::num::Int;
use shix::parser::{parser, parser_line};

#[test]
fn missing_colon_is_a_syntax_error() {
    let err = parser("push: 1\npush 2\nprint: pop").unwrap_err();
    assert_eq!(err.line, 2);
}

#[test]
fn missing_comma_in_jump_is_a_syntax_error() {
    assert_eq!(parser("jumpZ: 1").unwrap_err().line, 1);
    assert_eq!(parser("jumpZ: 1,").unwrap_err().line, 1);
}

#[test]
fn missing_operand_is_a_syntax_error() {
    assert_eq!(parser("\nprint:").unwrap_err().line, 2);
    assert_eq!(parser("print: (1 + 2").unwrap_err().line, 1);
    assert_eq!(parser("frobnicate").unwrap_err().line, 1);
    assert_eq!(parser("push: 1 2").unwrap_err().line, 1);
}

#[test]
fn lines_are_numbered_from_one() {
    let lines = parser("push: 1\n\n// c\nprint: pop").unwrap();
    let numbers: Vec<usize> = lines.iter().map(|l| l.line_number).collect();
    assert_eq!(numbers, vec![1, 2, 3, 4]);
    assert!(matches!(lines[1].statement, Statement::Empty));
    assert!(matches!(lines[2].statement, Statement::Empty));
    assert_eq!(program(&lines).len(), 2);
}

#[test]
fn keywords_parse_to_their_statements() {
    assert!(matches!(parser_line("swap"), Ok(Statement::Swap)));
    assert!(matches!(parser_line("  clear  // c"), Ok(Statement::Clear)));
    assert!(matches!(parser_line("over: 1"), Ok(Statement::Over(_))));
    assert!(matches!(parser_line("del:0"), Ok(Statement::Del(_))));
    assert!(matches!(parser_line("print : pop"), Ok(Statement::Print(Expression::Pop))));
    assert!(matches!(parser_line("read"), Ok(Statement::Expression(Expression::Read))));
    assert!(matches!(
        parser_line("jumpNZ: 1, 2"),
        Ok(Statement::Jump { jump: Jump::JumpNotZero, .. })
    ));
    assert!(matches!(parser_line("jumpN: 1, 2"), Ok(Statement::Jump { jump: Jump::JumpNegate, .. })));
    assert!(matches!(parser_line("jumpP: 1, 2"), Ok(Statement::Jump { jump: Jump::JumpPositive, .. })));
    assert!(matches!(parser_line("jumpZ: 1, 2"), Ok(Statement::Jump { jump: Jump::JumpZero, .. })));
    assert!(parser_line("push: 1\npush: 2").is_err());
}

#[test]
fn jump_keeps_condition_and_target_apart() {
    let st = parser_line("jumpZ: 5, 7").unwrap();
    match st {
        Statement::Jump { line: Expression::Number(l), value: Expression::Number(v), .. } => {
            assert_eq!(l.to_decimal(), "7");
            assert_eq!(v.to_decimal(), "5");
        }
        _ => panic!("expected a jump"),
    }
}

#[test]
fn literal_error_surfaces_its_message() {
    let mut stack = LinkedList::new();
    let mut counter = 1;
    let st = Statement::Push(Expression::Error("bad literal".to_string()));
    let r = eval_statement(&st, &mut stack, &mut counter);
    match r {
        Err(e) => {
            assert!(matches!(e, EvalError::Literal(_)));
            assert_eq!(e.message(), "bad literal");
        }
        Ok(_) => panic!("expected an error"),
    }
}

#[test]
fn empty_statement_prints_a_marker() {
    let mut stack: LinkedList<Int> = LinkedList::new();
    let mut counter = 3;
    let r = eval_statement(&Statement::Empty, &mut stack, &mut counter);
    assert_eq!(r.unwrap(), Some("None".to_string()));
    assert_eq!(counter, 3);
}

#[test]
fn taken_jump_sets_the_counter() {
    let mut stack: LinkedList<Int> = LinkedList::new();
    let mut counter = 3;
    let st = parser_line("jumpZ: 0, 9").unwrap();
    assert!(eval_statement(&st, &mut stack, &mut counter).is_ok());
    assert_eq!(counter, 9);
}

#[test]
fn error_messages() {
    assert_eq!(EvalError::StackUnderflow.message(), "Stack underflow");
    assert_eq!(EvalError::OnlyOneValue.message(), "Stack contains only one value");
    assert_eq!(EvalError::IndexOutOfRange.message(), "Index out of bound");
    assert_eq!(EvalError::DivisionByZero.message(), "Division by zero");
    assert_eq!(EvalError::InvalidJumpTarget.message(), "Invalid jump target");
}

#[test]
fn statement_lines_map_indices_to_source_lines() {
    let lines = parser("// head\npush: 1\n\nprint: pop\n// tail").unwrap();
    assert_eq!(statement_lines(&lines), vec![2, 4]);
    assert_eq!(program(&lines).len(), 2);
}
