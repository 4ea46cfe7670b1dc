use postfix::builtins::{Op1, Op2};
use postfix::lexer::tokenize;
use postfix::machine::{Machine, Reply, Request, RunError};

fn apply2(op: Op2, a: f64, b: f64) -> f64 {
    match op {
        Op2::Add => a + b,
        Op2::Sub => a - b,
        Op2::Mul => a * b,
        Op2::Div => a / b,
        Op2::Pow => a.powf(b),
        Op2::Eq => (a == b) as u8 as f64,
        Op2::Lt => (a < b) as u8 as f64,
        Op2::Gt => (a > b) as u8 as f64,
        Op2::Le => (a <= b) as u8 as f64,
        Op2::Ge => (a >= b) as u8 as f64,
    }
}

fn apply1(op: Op1, x: f64) -> f64 {
    match op {
        Op1::Sqrt => x.sqrt(),
        Op1::Exp => x.exp(),
    }
}

/// Run a program against side-channel arguments; on success, the final
/// stack (bottom first) and everything printed, in order.
fn run(program: &str, side_args: &[&str]) -> Result<(Vec<f64>, Vec<f64>), RunError> {
    let tokens = match tokenize(program) {
        Ok(tokens) => tokens,
        Err(e) => panic!("lexing failed at {}", e.position),
    };
    let args: Vec<String> = side_args.iter().map(|s| s.to_string()).collect();
    let mut machine = Machine::new(
        tokens,
        args,
        std::f64::consts::E.to_bits(),
        std::f64::consts::PI.to_bits(),
    );
    let mut reply = Reply::Go;
    let mut printed: Vec<f64> = Vec::new();
    loop {
        match machine.step(reply) {
            Request::ParseNumber { negative, text } => {
                reply = match text.parse::<f64>() {
                    Ok(x) => Reply::Value(if negative { -x } else { x }.to_bits()),
                    Err(_) => Reply::NotNumber,
                };
            }
            Request::Apply2 { op, lhs, rhs } => {
                reply = Reply::Value(apply2(op, f64::from_bits(lhs), f64::from_bits(rhs)).to_bits());
            }
            Request::Apply1 { op, arg } => {
                reply = Reply::Value(apply1(op, f64::from_bits(arg)).to_bits());
            }
            Request::TestNonZero { value } => {
                reply = Reply::Truth(f64::from_bits(value) != 0.0);
            }
            Request::Print { value } => {
                printed.push(f64::from_bits(value));
                reply = Reply::Go;
            }
            Request::Continue => reply = Reply::Go,
            Request::Finished => {
                let stack = machine.stack().iter().map(|b| f64::from_bits(*b)).collect();
                return Ok((stack, printed));
            }
            Request::Failed(e) => return Err(e),
        }
    }
}

fn stack_of(program: &str) -> Vec<f64> {
    let (stack, printed) = run(program, &[]).expect("run failed");
    assert!(printed.is_empty(), "unexpected output");
    stack
}

#[test]
fn single_literal_plain() {
    assert_eq!(stack_of("5"), vec![5.0]);
}

#[test]
fn single_literal_fractional() {
    assert_eq!(stack_of("3.14"), vec![3.14]);
    assert_eq!(stack_of(".5"), vec![0.5]);
}

#[test]
fn single_literal_negative() {
    assert_eq!(stack_of("-2.5"), vec![-2.5]);
    assert_eq!(stack_of("-.5"), vec![-0.5]);
}

#[test]
fn negative_zero_literal() {
    let stack = stack_of("-0");
    assert_eq!(stack.len(), 1);
    assert_eq!(stack[0], 0.0);
    assert!(stack[0].is_sign_negative());
}

#[test]
fn addition() {
    assert_eq!(stack_of("2 3 +"), vec![5.0]);
}

#[test]
fn subtraction_operand_order() {
    assert_eq!(stack_of("5 3 -"), vec![2.0]);
}

#[test]
fn multiplication() {
    assert_eq!(stack_of("4 2.5 *"), vec![10.0]);
}

#[test]
fn division_operand_order() {
    assert_eq!(stack_of("1 4 /"), vec![0.25]);
}

#[test]
fn division_by_zero_is_infinite() {
    let stack = stack_of("1 0 /");
    assert_eq!(stack.len(), 1);
    assert!(stack[0].is_infinite() && stack[0] > 0.0);
}

#[test]
fn power() {
    assert_eq!(stack_of("2 3 ^"), vec![8.0]);
}

#[test]
fn sqrt_and_exp() {
    assert_eq!(stack_of("9 sqrt"), vec![3.0]);
    assert_eq!(stack_of("0 exp"), vec![1.0]);
}

#[test]
fn commutative_round_trips() {
    assert_eq!(stack_of("2 3 +"), stack_of("3 2 +"));
    assert_eq!(stack_of("2 3 *"), stack_of("3 2 *"));
    assert_eq!(stack_of("2 3 ="), stack_of("3 2 ="));
}

#[test]
fn equality_as_float() {
    assert_eq!(stack_of("3 3 ="), vec![1.0]);
    assert_eq!(stack_of("2 3 ="), vec![0.0]);
}

#[test]
fn comparisons() {
    assert_eq!(stack_of("1 2 <"), vec![1.0]);
    assert_eq!(stack_of("2 1 <"), vec![0.0]);
    assert_eq!(stack_of("2 1 >"), vec![1.0]);
    assert_eq!(stack_of("2 2 <="), vec![1.0]);
    assert_eq!(stack_of("2 2 >="), vec![1.0]);
    assert_eq!(stack_of("3 2 <="), vec![0.0]);
}

#[test]
fn assignment_then_read_prints_value() {
    let (stack, printed) = run("5 : x $ x .", &[]).expect("run failed");
    assert!(stack.is_empty());
    assert_eq!(printed, vec![5.0]);
}

#[test]
fn reassignment_last_write_wins() {
    let (_, printed) = run("5 : x 7 : x $ x .", &[]).expect("run failed");
    assert_eq!(printed, vec![7.0]);
}

#[test]
fn seeded_constants_are_overwritable() {
    let (_, printed) = run("1 : PI $ PI .", &[]).expect("run failed");
    assert_eq!(printed, vec![1.0]);
}

#[test]
fn seeded_constants_read_back() {
    let (_, printed) = run("$ E . $ PI .", &[]).expect("run failed");
    assert_eq!(printed, vec![std::f64::consts::E, std::f64::consts::PI]);
}

#[test]
fn argument_indexing_is_off_by_one() {
    let (_, printed) = run("$0 .", &["10", "20", "30"]).expect("run failed");
    assert_eq!(printed, vec![20.0]);
    let (_, printed) = run("$1 .", &["10", "20", "30"]).expect("run failed");
    assert_eq!(printed, vec![30.0]);
}

#[test]
fn argument_index_truncates_and_negative_is_zero() {
    let (_, printed) = run("$0.9 .", &["10", "20", "30"]).expect("run failed");
    assert_eq!(printed, vec![20.0]);
    let (_, printed) = run("$-1 .", &["10", "20", "30"]).expect("run failed");
    assert_eq!(printed, vec![20.0]);
    let (_, printed) = run("$00 .", &["10", "20", "30"]).expect("run failed");
    assert_eq!(printed, vec![20.0]);
}

#[test]
fn argument_index_out_of_range() {
    assert_eq!(run("$2 .", &["10", "20", "30"]), Err(RunError::ArgumentParse));
    assert_eq!(run("$0 .", &[]), Err(RunError::ArgumentParse));
}

#[test]
fn argument_text_must_parse() {
    assert_eq!(run("$0 .", &["10", "abc"]), Err(RunError::ArgumentParse));
}

#[test]
fn stack_underflow_on_bare_operator() {
    assert_eq!(run("+", &[]), Err(RunError::StackUnderflow));
}

#[test]
fn stack_underflow_with_one_of_two_operands() {
    assert_eq!(run("5 +", &[]), Err(RunError::StackUnderflow));
}

#[test]
fn stack_underflow_on_assign() {
    assert_eq!(run(": x", &[]), Err(RunError::StackUnderflow));
}

#[test]
fn stack_underflow_on_print() {
    assert_eq!(run(".", &[]), Err(RunError::StackUnderflow));
}

#[test]
fn ternary_selects_iftrue_on_nonzero() {
    assert_eq!(stack_of("1 2 3 ?"), vec![2.0]);
    assert_eq!(stack_of("5 3 2 ?"), vec![3.0]);
}

#[test]
fn ternary_selects_iffalse_on_zero() {
    assert_eq!(stack_of("0 3 2 ?"), vec![2.0]);
}

#[test]
fn ternary_on_a_deeper_stack() {
    // Pops if-false 0, if-true 1, condition 3 (nonzero): selects 1.
    assert_eq!(stack_of("0 2 3 1 0 ?"), vec![0.0, 2.0, 1.0]);
}

#[test]
fn ternary_negative_zero_condition_is_zero() {
    assert_eq!(stack_of("-0 3 2 ?"), vec![2.0]);
}

#[test]
fn unknown_function_reports_name() {
    match run("foo", &[]) {
        Err(RunError::UnknownFunction(name)) => assert_eq!(name, "foo"),
        other => panic!("expected unknown function, got {:?}", other),
    }
}

#[test]
fn bound_variable_is_not_a_function() {
    let result = run("5 : x x", &[]);
    match result {
        Err(RunError::UnknownFunction(name)) => assert_eq!(name, "x"),
        other => panic!("expected unknown function, got {:?}", other),
    }
}

#[test]
fn unbound_variable_read() {
    match run("$ x", &[]) {
        Err(RunError::UnboundVariable(name)) => assert_eq!(name, "x"),
        other => panic!("expected unbound variable, got {:?}", other),
    }
}

#[test]
fn value_of_needs_a_follower() {
    assert_eq!(run("$", &[]), Err(RunError::ValueOfSyntax));
    assert_eq!(run("5 $ :", &[]), Err(RunError::ValueOfSyntax));
}

#[test]
fn assign_needs_an_identifier() {
    assert_eq!(run("5 :", &[]), Err(RunError::AssignSyntax));
    assert_eq!(run("5 : 6", &[]), Err(RunError::AssignSyntax));
}

#[test]
fn empty_program_finishes_empty() {
    let (stack, printed) = run("", &[]).expect("run failed");
    assert!(stack.is_empty());
    assert!(printed.is_empty());
}

#[test]
fn adjacent_number_signs_split_tokens() {
    // After "5" the "-3" starts a fresh negative literal: no subtraction.
    assert_eq!(stack_of("5-3"), vec![5.0, -3.0]);
}

#[test]
fn lookup_var_getter() {
    let tokens = tokenize("5 : x").expect("lexing failed");
    let mut machine = Machine::new(tokens, Vec::new(), 0, 0);
    let mut reply = Reply::Go;
    loop {
        match machine.step(reply) {
            Request::ParseNumber { text, .. } => {
                reply = Reply::Value(text.parse::<f64>().unwrap().to_bits());
            }
            Request::Continue => reply = Reply::Go,
            Request::Finished => break,
            other => panic!("unexpected request {:?}", other),
        }
    }
    assert_eq!(machine.lookup_var(&"x".to_string()), Some(5.0_f64.to_bits()));
    assert_eq!(machine.lookup_var(&"y".to_string()), None);
}

#[test]
fn from_program_is_tokenize_then_start() {
    let mut machine = Machine::from_program("5", Vec::new(), 0, 0).expect("lexing failed");
    match machine.step(Reply::Go) {
        Request::ParseNumber { negative, text } => {
            assert!(!negative);
            assert_eq!(text, "5");
        }
        other => panic!("unexpected request {:?}", other),
    }
}

#[test]
fn underflow_pushes_nothing() {
    let tokens = tokenize("+").expect("lexing failed");
    let mut machine = Machine::new(tokens, Vec::new(), 0, 0);
    match machine.step(Reply::Go) {
        Request::Failed(RunError::StackUnderflow) => {}
        other => panic!("unexpected request {:?}", other),
    }
    assert!(machine.stack().is_empty());
}

#[test]
fn whitespace_varieties_are_skipped() {
    assert_eq!(stack_of("1\t2\n+"), vec![3.0]);
    assert_eq!(stack_of("1\u{2003}2 +"), vec![3.0]);
}
