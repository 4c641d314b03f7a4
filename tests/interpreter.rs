use shix::eval::{program, EvalError, Machine, Status};
use shix::parser::parser;

fn run_source(src: &str, max_steps: usize) -> (Vec<String>, Status, Machine) {
    let lines = parser(src).expect("the program parses");
    let statements = program(&lines);
    let mut machine = Machine::new();
    let result = machine.run(&statements, max_steps);
    (result.output, result.status, machine)
}

fn stack_of(machine: &Machine) -> Vec<String> {
    let mut out = Vec::new();
    let mut i = 0;
    while let Some(v) = machine.value_at(i) {
        out.push(v.to_decimal());
        i += 1;
    }
    out
}

#[test]
fn parsing_twice_gives_the_same_statements() {
    let src = "push: 1 + 2 * 3\n// note\nprint: pop\njumpNZ: read, 0\n";
    let a = parser(src).unwrap();
    let b = parser(src).unwrap();
    assert_eq!(format!("{:?}", a), format!("{:?}", b));
    assert_eq!(a.len(), 5);
}

#[test]
fn left_pop_takes_the_top() {
    let (out, status, _) = run_source("push: 3\npush: 5\npush: pop - pop\nprint: pop", 100);
    assert!(matches!(status, Status::Finished));
    assert_eq!(out, vec!["2".to_string()]);
}

#[test]
fn jump_zero_loops_back_to_the_start() {
    let (out, status, machine) = run_source("push: 1\njumpZ: 0, 0\nprint: 99", 1000);
    assert!(matches!(status, Status::Paused));
    assert!(out.is_empty());
    assert!(machine.counter() <= 1);
    assert_eq!(stack_of(&machine).len(), 500);
}

#[test]
fn pop_on_empty_stack_underflows() {
    let (out, status, machine) = run_source("print: 1\npop\nprint: 2", 100);
    assert_eq!(out, vec!["1".to_string()]);
    assert!(matches!(status, Status::Failed(EvalError::StackUnderflow)));
    assert_eq!(machine.counter(), 2);
}

#[test]
fn swap_with_one_value_differs_from_swap_with_none() {
    let (_, empty, _) = run_source("swap", 10);
    let (_, single, _) = run_source("push: 1\nswap", 10);
    assert!(matches!(empty, Status::Failed(EvalError::StackUnderflow)));
    assert!(matches!(single, Status::Failed(EvalError::OnlyOneValue)));
}

#[test]
fn swap_exchanges_the_top_two() {
    let (_, status, machine) = run_source("push: 1\npush: 2\npush: 3\nswap", 10);
    assert!(matches!(status, Status::Finished));
    assert_eq!(stack_of(&machine), vec!["2", "3", "1"]);
}

#[test]
fn delete_keeps_the_order_of_the_rest() {
    let src = "push: 4\npush: 3\npush: 2\npush: 1\ndel: 1";
    let (_, status, machine) = run_source(src, 10);
    assert!(matches!(status, Status::Finished));
    assert_eq!(stack_of(&machine), vec!["1", "3", "4"]);
}

#[test]
fn delete_out_of_range_fails_and_keeps_the_stack() {
    let (_, status, machine) = run_source("push: 1\npush: 2\ndel: 2", 10);
    assert!(matches!(status, Status::Failed(EvalError::IndexOutOfRange)));
    assert_eq!(stack_of(&machine), vec!["2", "1"]);
}

#[test]
fn over_copies_the_value_at_a_depth() {
    let (_, status, machine) = run_source("push: 7\npush: 8\nover: 1", 10);
    assert!(matches!(status, Status::Finished));
    assert_eq!(stack_of(&machine), vec!["7", "8", "7"]);
}

#[test]
fn over_with_negative_or_large_depth_fails() {
    let (_, negative, _) = run_source("push: 7\nover: -1", 10);
    let (_, large, _) = run_source("push: 7\nover: 1", 10);
    assert!(matches!(negative, Status::Failed(EvalError::IndexOutOfRange)));
    assert!(matches!(large, Status::Failed(EvalError::IndexOutOfRange)));
}

#[test]
fn products_are_exact() {
    let src = "push: 99999999999999999999 * 99999999999999999999\nprint: pop";
    let (out, status, _) = run_source(src, 10);
    assert!(matches!(status, Status::Finished));
    assert_eq!(out, vec!["9999999999999999999800000000000000000001".to_string()]);
}

#[test]
fn comments_and_blank_lines_change_nothing() {
    let plain = "push: 3\nprint: read\npush: pop - 1\njumpP: read, 1\nprint: 0";
    let noisy = "// count down\npush: 3\n\n   // loop\nprint: read // show\n\npush: pop - 1\njumpP: read, 1\n\nprint: 0\n";
    let (a, sa, _) = run_source(plain, 1000);
    let (b, sb, _) = run_source(noisy, 1000);
    assert!(matches!(sa, Status::Finished));
    assert!(matches!(sb, Status::Finished));
    assert_eq!(a, vec!["3", "2", "1", "0"]);
    assert_eq!(a, b);
}

#[test]
fn division_rounds_toward_zero() {
    let src = "print: -7 / 2\nprint: -7 % 2\nprint: 7 / -2\nprint: 7 % -2";
    let (out, status, _) = run_source(src, 10);
    assert!(matches!(status, Status::Finished));
    assert_eq!(out, vec!["-3", "-1", "-3", "1"]);
}

#[test]
fn division_by_zero_fails() {
    let (_, div, _) = run_source("print: 1 / 0", 10);
    let (_, rem, _) = run_source("print: 1 % (2 - 2)", 10);
    assert!(matches!(div, Status::Failed(EvalError::DivisionByZero)));
    assert!(matches!(rem, Status::Failed(EvalError::DivisionByZero)));
}

#[test]
fn precedence_and_unary_minus() {
    let (out, _, _) = run_source("print: 1 + 2 * 3\nprint: (1 + 2) * 3\nprint: --5\nprint: 10 - 2 - 3", 10);
    assert_eq!(out, vec!["7", "9", "5", "5"]);
}

#[test]
fn negative_jump_target_fails_only_when_taken() {
    let (_, taken, _) = run_source("jumpNZ: 1, -1", 10);
    let (_, skipped, _) = run_source("jumpZ: 1, -1", 10);
    assert!(matches!(taken, Status::Failed(EvalError::InvalidJumpTarget)));
    assert!(matches!(skipped, Status::Finished));
}

#[test]
fn jump_conditions() {
    let src = "jumpN: -1, 2\nprint: 1\njumpP: 0, 4\nprint: 2\njumpNZ: 0, 6\nprint: 3";
    let (out, _, _) = run_source(src, 20);
    assert_eq!(out, vec!["2", "3"]);
}

#[test]
fn clear_empties_the_stack() {
    let (_, status, machine) = run_source("push: 1\npush: 2\nclear", 10);
    assert!(matches!(status, Status::Finished));
    assert!(stack_of(&machine).is_empty());
}

#[test]
fn read_leaves_the_stack() {
    let (out, _, machine) = run_source("push: 4\nprint: read + read", 10);
    assert_eq!(out, vec!["8"]);
    assert_eq!(stack_of(&machine), vec!["4"]);
}

#[test]
fn failed_operand_keeps_earlier_pops() {
    let (_, status, machine) = run_source("push: 1\npush: pop + pop", 10);
    assert!(matches!(status, Status::Failed(EvalError::StackUnderflow)));
    assert!(stack_of(&machine).is_empty());
}

#[test]
fn step_budget_can_resume() {
    let lines = parser("print: 1\nprint: 2\nprint: 3").unwrap();
    let statements = program(&lines);
    let mut machine = Machine::new();
    let first = machine.run(&statements, 2);
    assert!(matches!(first.status, Status::Paused));
    assert_eq!(first.output, vec!["1", "2"]);
    let second = machine.run(&statements, 2);
    assert!(matches!(second.status, Status::Finished));
    assert_eq!(second.output, vec!["3"]);
    assert!(machine.is_finished(&statements));
}
