use simple_vm::{tokenize, Machine, SideEffect, StackError, StackValue};

#[derive(Debug, PartialEq, Eq)]
struct NoIOEffect {
    line: String,
    output: Vec<String>,
    slept: Vec<u64>,
}

impl Default for NoIOEffect {
    fn default() -> NoIOEffect {
        NoIOEffect {
            line: "10".to_owned(),
            output: vec![],
            slept: vec![],
        }
    }
}

impl SideEffect for NoIOEffect {
    fn read_line(&mut self) -> String {
        self.line.clone()
    }
    fn sleep_ms(&mut self, duration: u64) {
        self.slept.push(duration)
    }
    fn println(&mut self, value: StackValue) {
        self.output.push(value.render())
    }
}

fn machine(code: &str) -> Machine<NoIOEffect> {
    Machine::<NoIOEffect>::new(tokenize(code).unwrap()).unwrap()
}

/// Runs `code` with no arguments; returns the exit code and the machine.
fn run(code: &str) -> (i32, Machine<NoIOEffect>) {
    let mut m = machine(code);
    let out = m.run(vec![]).unwrap();
    (out.exit_code, m)
}

fn first(code: &str) -> StackValue {
    let (exit_code, m) = run(code);
    assert_eq!(0, exit_code);
    m.stack()[0].clone()
}

fn new_error(code: &str) -> StackError {
    match Machine::<NoIOEffect>::new(tokenize(code).unwrap()) {
        Ok(_) => panic!("expected an error"),
        Err(e) => e,
    }
}

fn run_error(code: &str) -> StackError {
    let mut m = machine(code);
    m.run(vec![]).unwrap_err()
}

#[test]
fn test_addition() {
    assert_eq!(StackValue::Num(3), first("1 2 +"));
}

#[test]
fn test_cast_to_int() {
    assert_eq!(StackValue::Num(1), first("\"1\" cast_int"));
}

#[test]
fn test_cast_to_int_defaults_to_zero() {
    assert_eq!(StackValue::Num(0), first("\"asdf\" cast_int"));
}

#[test]
fn test_cast_to_str() {
    assert_eq!(StackValue::String("1".to_owned()), first("1 cast_str"));
}

#[test]
fn test_cast_to_backwards() {
    assert_eq!(StackValue::Num(1), first("1 cast_str cast_int"));
}

#[test]
fn test_dup() {
    assert_eq!(StackValue::Num(4), first("1 dup + dup +"));
}

#[test]
fn test_if_true() {
    assert_eq!(StackValue::Num(5), first("true 5 10 if"));
}

#[test]
fn test_if_false() {
    assert_eq!(StackValue::Num(10), first("false 5 10 if"));
}

#[test]
fn test_mod() {
    assert_eq!(StackValue::Num(0), first("4 2 %"));
}

#[test]
fn test_dif() {
    assert_eq!(StackValue::Num(2), first("4 2 /"));
}

#[test]
fn test_stop() {
    assert_eq!(StackValue::Num(0), first("0 stop 1 +"));
}

#[test]
fn test_over() {
    assert_eq!(StackValue::Num(4), first("2 4 over / +"));
}

#[test]
fn test_call_return() {
    assert_eq!(StackValue::Num(4), first("1 1 7 call dup + stop + return"));
}

#[test]
fn test_label1() {
    assert_eq!(StackValue::Num(0), first("0 end jmp one: 1 + end: 0 +"));
}

#[test]
fn test_label2() {
    assert_eq!(StackValue::Num(1), first("0 one jmp one: 1 + end: 0 +"));
}

#[test]
fn test_swap() {
    assert_eq!(StackValue::Num(2), first("1 2 swap"));
}

#[test]
fn test_drop() {
    assert_eq!(StackValue::Num(2), first("1 drop 2"));
}

#[test]
fn test_readline() {
    assert_eq!(StackValue::Bool(true), first("10 read cast_int =="));
}

#[test]
fn test_rot1() {
    assert_eq!(StackValue::Num(2), first("1 2 3 rot"));
}

#[test]
fn test_rot2() {
    assert_eq!(StackValue::Num(5), first("1 2 3 rot drop +"));
}

#[test]
fn test_rot3() {
    assert_eq!(StackValue::Num(3), first("1 2 3 rot rot"));
}

#[test]
fn test_and() {
    assert_eq!(StackValue::Bool(true), first("false not true and"));
}

#[test]
fn test_or() {
    assert_eq!(StackValue::Bool(true), first("false true or"));
}

#[test]
fn test_pop() {
    match run_error("cast_str") {
        StackError::EmptyStack { expr, .. } => assert_eq!("cast_str", expr),
        other => panic!("unexpected {:?}", other),
    }
}

#[test]
fn test_undefined_label() {
    match new_error("asdf") {
        StackError::UndefinedLabel { label, times } => {
            assert_eq!("asdf", label);
            assert_eq!(1, times);
        }
        other => panic!("unexpected {:?}", other),
    }
}

#[test]
fn test_multiple_label_definitions() {
    match new_error("a: a:") {
        StackError::MultipleLabelDefinitions { label, locations } => {
            assert_eq!("a", label);
            assert_eq!(vec![1, 2], locations);
        }
        other => panic!("unexpected {:?}", other),
    }
}

#[test]
fn test_addition_dup() {
    let (exit_code, m) = run("1 1 + dup");
    assert_eq!(0, exit_code);
    assert_eq!(vec![StackValue::Num(2), StackValue::Num(2)], m.stack());
}

#[test]
fn test_addition_dup2() {
    let (exit_code, m) = run("1 1 + dup dup");
    assert_eq!(0, exit_code);
    assert_eq!(
        vec![StackValue::Num(2), StackValue::Num(2), StackValue::Num(2)],
        m.stack()
    );
}

#[test]
fn test_exit_code_1() {
    let (exit_code, m) = run("1 exit");
    assert_eq!(1, exit_code);
    assert_eq!(Vec::<StackValue>::new(), m.stack());
}

#[test]
fn test_exit_code_0() {
    let (exit_code, m) = run("");
    assert_eq!(0, exit_code);
    assert_eq!(Vec::<StackValue>::new(), m.stack());
}

#[test]
fn test_sleep() {
    let (exit_code, m) = run("10 sleep_ms");
    assert_eq!(0, exit_code);
    assert_eq!(
        &NoIOEffect {
            slept: vec![10],
            ..NoIOEffect::default()
        },
        m.effect()
    );
}

#[test]
fn test_subsequent_sleeps() {
    let (exit_code, m) = run("1 dup dup sleep_ms sleep_ms sleep_ms");
    assert_eq!(0, exit_code);
    assert_eq!(
        &NoIOEffect {
            slept: vec![1, 1, 1],
            ..NoIOEffect::default()
        },
        m.effect()
    );
}

#[test]
fn test_writes() {
    let (exit_code, m) = run("10 dup println cast_str println");
    assert_eq!(0, exit_code);
    assert_eq!(
        &NoIOEffect {
            output: vec!["10".to_owned(), "10".to_owned()],
            ..NoIOEffect::default()
        },
        m.effect()
    );
}

#[test]
fn arithmetic_takes_first_popped_as_right_operand() {
    assert_eq!(StackValue::Num(7), first("10 3 -"));
    assert_eq!(StackValue::Num(30), first("10 3 *"));
    assert_eq!(StackValue::Num(3), first("10 3 /"));
    assert_eq!(StackValue::Num(-3), first("-10 3 /"));
    assert_eq!(StackValue::Num(-1), first("-10 3 %"));
    assert_eq!(StackValue::Bool(true), first("1 2 <"));
    assert_eq!(StackValue::Bool(false), first("1 2 >"));
    assert_eq!(StackValue::Bool(true), first("2 2 <="));
    assert_eq!(StackValue::Bool(true), first("2 2 >="));
}

#[test]
fn division_by_zero_is_an_error() {
    match run_error("1 0 /") {
        StackError::Arithmetic { expr } => assert_eq!("/", expr),
        other => panic!("unexpected {:?}", other),
    }
    match run_error("1 0 %") {
        StackError::Arithmetic { expr } => assert_eq!("%", expr),
        other => panic!("unexpected {:?}", other),
    }
}

#[test]
fn overflow_is_an_error() {
    let text = format!("{} 1 +", isize::MAX);
    match run_error(&text) {
        StackError::Arithmetic { expr } => assert_eq!("+", expr),
        other => panic!("unexpected {:?}", other),
    }
}

#[test]
fn operand_of_wrong_shape_is_a_mismatch() {
    match run_error("true 1 +") {
        StackError::PatternMismatch { arg_pattern, expr } => {
            assert_eq!("Num", arg_pattern);
            assert_eq!("+", expr);
        }
        other => panic!("unexpected {:?}", other),
    }
}

#[test]
fn return_without_call_is_empty_stack() {
    match run_error("return") {
        StackError::EmptyStack { arg_pattern, expr } => {
            assert_eq!("Return", arg_pattern);
            assert_eq!("return", expr);
        }
        other => panic!("unexpected {:?}", other),
    }
}

#[test]
fn jump_past_the_end_is_out_of_bounds() {
    match run_error("100 jmp") {
        StackError::OutOfBounds => {}
        other => panic!("unexpected {:?}", other),
    }
    match run_error("-1 jmp") {
        StackError::OutOfBounds => {}
        other => panic!("unexpected {:?}", other),
    }
}

#[test]
fn dup_three_equal_copies() {
    let (_, m) = run("\"v\" dup dup");
    let v = StackValue::String("v".to_owned());
    assert_eq!(vec![v.clone(), v.clone(), v], m.stack());
}

#[test]
fn arguments_are_pushed_before_running() {
    let mut m = machine("+");
    let out = m.run(tokenize("2 40").unwrap()).unwrap();
    assert_eq!(0, out.exit_code);
    assert_eq!(vec![StackValue::Num(42)], m.stack());
}

#[test]
fn reset_keeps_code_and_clears_stacks() {
    let mut m = machine("1 2 +");
    m.run(vec![]).unwrap();
    m.reset();
    assert_eq!(Vec::<StackValue>::new(), m.stack());
    m.run(vec![]).unwrap();
    assert_eq!(vec![StackValue::Num(3)], m.stack());
}

#[test]
fn preprocess_replaces_references_and_is_idempotent() {
    let code = tokenize("x 1 x: 2").unwrap();
    let once = Machine::<NoIOEffect>::preprocess(code).unwrap();
    let expected = vec![
        StackValue::Num(3),
        StackValue::Num(1),
        StackValue::Label("x".to_owned()),
        StackValue::Num(2),
    ];
    assert_eq!(expected, once);
    let twice = Machine::<NoIOEffect>::preprocess(once.clone()).unwrap();
    assert_eq!(once, twice);
}

#[test]
fn undefined_label_counts_references() {
    match new_error("nowhere 1 nowhere") {
        StackError::UndefinedLabel { label, times } => {
            assert_eq!("nowhere", label);
            assert_eq!(2, times);
        }
        other => panic!("unexpected {:?}", other),
    }
}

#[test]
fn new_from_source_tokenizes_and_resolves() {
    let mut m = Machine::<NoIOEffect>::new_from_source("3 4 *").unwrap();
    m.run(vec![]).unwrap();
    assert_eq!(vec![StackValue::Num(12)], m.stack());
}

#[test]
fn trace_writes_and_pauses_without_changing_results() {
    let mut m = machine("1 2 +");
    m.enable_step();
    let out = m.run(vec![]).unwrap();
    assert_eq!(0, out.exit_code);
    assert_eq!(vec![StackValue::Num(3)], m.stack());
    assert_eq!(5, m.effect().output.len());
    assert_eq!("op:\tPush 3", m.effect().output[0]);
}

#[test]
fn step_by_step() {
    let mut m = machine("5 stop");
    assert_eq!(simple_vm::StepResult::Continue, m.step().unwrap());
    assert_eq!(simple_vm::StepResult::Stop(0), m.step().unwrap());
}

#[test]
fn trace_is_silent_on_steps_that_dispatch_nothing() {
    let mut m = machine("here: 1 \"s\"");
    m.enable_step();
    let out = m.run(vec![]).unwrap();
    assert_eq!(0, out.exit_code);
    assert_eq!(0, m.effect().output.len());
}

#[test]
fn code_accessor_shows_resolved_code() {
    let m = machine("x x:");
    assert_eq!(
        &vec![StackValue::Num(2), StackValue::Label("x".to_owned())],
        m.code()
    );
}
