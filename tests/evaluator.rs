use forth::ast::Ast;
use forth::semantics::Builtin;
use forth::vm::{builtin_of, compute_two, Failure, Forth, Output, MAX_CALL_DEPTH};

fn word(name: &str) -> Ast {
    Ast::Word(name.to_string())
}

fn lit(v: i64) -> Ast {
    Ast::PushLiteral(v)
}

fn phrase(items: Vec<Ast>) -> Ast {
    Ast::Sequence(items)
}

fn define(name: &str, mut body: Vec<Ast>) -> Ast {
    body.insert(0, word(name));
    Ast::Definition(Box::new(phrase(body)))
}

fn counted_loop(body: Vec<Ast>) -> Ast {
    Ast::CountedLoop(Box::new(phrase(body)))
}

fn conditional(yes: Option<Vec<Ast>>, no: Option<Vec<Ast>>) -> Ast {
    Ast::Conditional {
        consequent: yes.map(|b| Box::new(phrase(b))),
        alternative: no.map(|b| Box::new(phrase(b))),
    }
}

fn run_all(f: &mut Forth, items: Vec<Ast>) {
    for item in items {
        f.exec(item).unwrap();
    }
}

fn binary(a: i64, b: i64, op: &str) -> (Result<(), Failure>, Vec<i64>) {
    let mut f = Forth::new();
    f.exec(lit(a)).unwrap();
    f.exec(lit(b)).unwrap();
    let r = f.exec(word(op));
    (r, f.stack().clone())
}

#[test]
fn new_session_is_empty() {
    let mut f = Forth::new();
    assert!(f.stack().is_empty());
    assert_eq!(f.loop_index(), None);
    assert!(!f.is_defined(&"x".to_string()));
    assert!(f.take_output().is_empty());
}

#[test]
fn arithmetic_operand_order() {
    assert_eq!(binary(10, 3, "-"), (Ok(()), vec![7]));
}

#[test]
fn arithmetic_formulas() {
    assert_eq!(binary(6, 7, "*"), (Ok(()), vec![42]));
    assert_eq!(binary(6, 7, "+"), (Ok(()), vec![13]));
    assert_eq!(binary(20, 6, "/"), (Ok(()), vec![3]));
    assert_eq!(binary(-7, 2, "/"), (Ok(()), vec![-3]));
    assert_eq!(binary(20, 6, "mod"), (Ok(()), vec![2]));
    assert_eq!(binary(-7, 2, "mod"), (Ok(()), vec![-1]));
}

#[test]
fn arithmetic_wraps_on_overflow() {
    assert_eq!(binary(i64::MAX, 1, "+"), (Ok(()), vec![i64::MIN]));
    assert_eq!(binary(i64::MIN, 1, "-"), (Ok(()), vec![i64::MAX]));
    assert_eq!(binary(i64::MAX, 2, "*"), (Ok(()), vec![-2]));
    assert_eq!(binary(i64::MIN, -1, "/"), (Ok(()), vec![i64::MIN]));
    assert_eq!(binary(i64::MIN, -1, "mod"), (Ok(()), vec![0]));
}

#[test]
fn division_by_zero_leaves_stack() {
    assert_eq!(binary(5, 0, "/"), (Err(Failure::DivideByZero), vec![5, 0]));
    assert_eq!(binary(5, 0, "mod"), (Err(Failure::DivideByZero), vec![5, 0]));
}

#[test]
fn comparison_and_logic() {
    assert_eq!(binary(4, 4, "="), (Ok(()), vec![-1]));
    assert_eq!(binary(4, 5, "="), (Ok(()), vec![0]));
    assert_eq!(binary(-1, -1, "and"), (Ok(()), vec![-1]));
    assert_eq!(binary(-1, 0, "and"), (Ok(()), vec![0]));
    assert_eq!(binary(0, -1, "or"), (Ok(()), vec![-1]));
    assert_eq!(binary(0, 0, "or"), (Ok(()), vec![0]));
    let mut f = Forth::new();
    run_all(&mut f, vec![lit(-1), word("invert")]);
    assert_eq!(f.stack(), &vec![0]);
    run_all(&mut f, vec![word("invert")]);
    assert_eq!(f.stack(), &vec![-1]);
    run_all(&mut f, vec![lit(5), word("invert")]);
    assert_eq!(f.stack(), &vec![-1, -1]);
}

#[test]
fn stack_words() {
    let mut f = Forth::new();
    run_all(&mut f, vec![lit(1), lit(2), word("swap")]);
    assert_eq!(f.stack(), &vec![2, 1]);
    run_all(&mut f, vec![word("dup")]);
    assert_eq!(f.stack(), &vec![2, 1, 1]);
    run_all(&mut f, vec![word(".s"), word(".")]);
    assert_eq!(f.stack(), &vec![2, 1]);
    assert_eq!(f.take_output(), vec![Output::Stack(vec![2, 1, 1]), Output::Value(1)]);
    run_all(&mut f, vec![word("clear")]);
    assert!(f.stack().is_empty());
    assert!(f.take_output().is_empty());
}

#[test]
fn underflow_leaves_stack() {
    for op in ["*", "/", "+", "-", "=", "mod", "and", "or", "swap"] {
        let mut f = Forth::new();
        f.exec(lit(9)).unwrap();
        assert_eq!(f.exec(word(op)), Err(Failure::StackUnderflow));
        assert_eq!(f.stack(), &vec![9]);
    }
    for op in ["invert", "."] {
        let mut f = Forth::new();
        assert_eq!(f.exec(word(op)), Err(Failure::StackUnderflow));
        assert!(f.stack().is_empty());
    }
}

#[test]
fn empty_stack_forgiving_ops() {
    let mut f = Forth::new();
    assert_eq!(f.exec(word("dup")), Ok(()));
    assert!(f.stack().is_empty());
    assert_eq!(f.exec(word(".s")), Ok(()));
    assert_eq!(f.take_output(), vec![Output::Stack(vec![])]);
}

#[test]
fn empty_word_is_no_op() {
    let mut f = Forth::new();
    assert_eq!(f.exec(word("")), Ok(()));
    assert!(f.stack().is_empty());
}

#[test]
fn print_string_displays_text() {
    let mut f = Forth::new();
    f.exec(Ast::PrintString("hello".to_string())).unwrap();
    assert_eq!(f.take_output(), vec![Output::Text("hello".to_string())]);
}

#[test]
fn unknown_word_fails() {
    let mut f = Forth::new();
    assert_eq!(f.exec(word("bogus")), Err(Failure::UnknownWord("bogus".to_string())));
}

#[test]
fn sibling_error_isolation() {
    let mut f = Forth::new();
    let r = f.exec(phrase(vec![word("bogus"), lit(42), word(".")]));
    assert_eq!(r, Ok(()));
    assert_eq!(
        f.take_output(),
        vec![Output::Error(Failure::UnknownWord("bogus".to_string())), Output::Value(42)]
    );
    assert!(f.stack().is_empty());
}

#[test]
fn user_word_runs_its_phrase() {
    let mut f = Forth::new();
    run_all(&mut f, vec![define("square", vec![word("dup"), word("*")]), lit(7), word("square")]);
    assert_eq!(f.stack(), &vec![49]);
    assert!(f.is_defined(&"square".to_string()));
}

#[test]
fn dictionary_late_binding() {
    let mut f = Forth::new();
    run_all(&mut f, vec![define("a", vec![word("b")])]);
    run_all(&mut f, vec![define("b", vec![lit(5), lit(6), word("+")])]);
    assert_eq!(f.exec(word("a")), Ok(()));
    assert_eq!(f.stack(), &vec![11]);
}

#[test]
fn redefinition_uses_second_body() {
    let mut f = Forth::new();
    run_all(&mut f, vec![define("x", vec![lit(1)]), define("x", vec![lit(2)]), word("x")]);
    assert_eq!(f.stack(), &vec![2]);
}

#[test]
fn malformed_definitions() {
    let mut f = Forth::new();
    assert_eq!(f.exec(Ast::Definition(Box::new(phrase(vec![])))), Err(Failure::MalformedDefinition));
    assert_eq!(
        f.exec(Ast::Definition(Box::new(phrase(vec![lit(1), word("dup")])))),
        Err(Failure::MalformedDefinition)
    );
    assert_eq!(f.exec(Ast::Definition(Box::new(word("x")))), Err(Failure::MalformedDefinition));
    assert!(!f.is_defined(&"x".to_string()));
}

#[test]
fn loop_counter_scoping() {
    let mut f = Forth::new();
    run_all(&mut f, vec![lit(3), lit(0), counted_loop(vec![word("i")])]);
    assert_eq!(f.stack(), &vec![0, 1, 2]);
    assert_eq!(f.loop_index(), None);
    assert_eq!(f.exec(word("i")), Err(Failure::UnknownWord("i".to_string())));
}

#[test]
fn empty_loop_range() {
    let mut f = Forth::new();
    run_all(&mut f, vec![lit(0), lit(3), counted_loop(vec![lit(9)])]);
    assert!(f.stack().is_empty());
    assert_eq!(f.loop_index(), None);
}

#[test]
fn nested_loop_clears_outer_index() {
    let mut f = Forth::new();
    let inner = counted_loop(vec![]);
    run_all(&mut f, vec![lit(2), lit(0), counted_loop(vec![lit(1), lit(0), inner, word("i")])]);
    assert!(f.stack().is_empty());
    assert_eq!(
        f.take_output(),
        vec![
            Output::Error(Failure::UnknownWord("i".to_string())),
            Output::Error(Failure::UnknownWord("i".to_string())),
        ]
    );
}

#[test]
fn loop_errors() {
    let mut f = Forth::new();
    f.exec(lit(3)).unwrap();
    assert_eq!(f.exec(counted_loop(vec![])), Err(Failure::StackUnderflow));
    assert_eq!(f.stack(), &vec![3]);
    f.exec(lit(0)).unwrap();
    assert_eq!(f.exec(Ast::CountedLoop(Box::new(lit(1)))), Err(Failure::MalformedBody));
    assert_eq!(f.stack(), &vec![3, 0]);
}

#[test]
fn conditional_truthiness() {
    let yes = || Some(vec![lit(1)]);
    let no = || Some(vec![lit(2)]);
    let mut f = Forth::new();
    run_all(&mut f, vec![lit(-1), conditional(yes(), no())]);
    assert_eq!(f.stack(), &vec![1]);
    let mut f = Forth::new();
    run_all(&mut f, vec![lit(0), conditional(yes(), no())]);
    assert_eq!(f.stack(), &vec![2]);
    let mut f = Forth::new();
    run_all(&mut f, vec![lit(1), conditional(yes(), no())]);
    assert_eq!(f.stack(), &vec![2]);
    let mut f = Forth::new();
    assert_eq!(f.exec(conditional(yes(), no())), Err(Failure::StackUnderflow));
}

#[test]
fn conditional_absent_branches() {
    let mut f = Forth::new();
    run_all(&mut f, vec![lit(0), conditional(Some(vec![lit(1)]), None)]);
    assert!(f.stack().is_empty());
    run_all(&mut f, vec![lit(-1), conditional(None, Some(vec![lit(2)]))]);
    assert!(f.stack().is_empty());
    f.exec(lit(-1)).unwrap();
    let bad = Ast::Conditional { consequent: Some(Box::new(lit(1))), alternative: None };
    assert_eq!(f.exec(bad), Err(Failure::MalformedBody));
    assert_eq!(f.stack(), &vec![-1]);
}

#[test]
fn runaway_recursion_is_stopped() {
    let mut f = Forth::new();
    run_all(&mut f, vec![define("r", vec![lit(1), word("r")])]);
    assert_eq!(f.exec(word("r")), Ok(()));
    assert_eq!(f.stack().len() as u64, MAX_CALL_DEPTH);
    assert_eq!(f.take_output(), vec![Output::Error(Failure::CallDepthExceeded)]);
}

#[test]
fn direct_stack_api() {
    let mut f = Forth::new();
    f.push(2);
    f.push(9);
    assert_eq!(f.swap(), Ok(()));
    assert_eq!(f.op_two(Builtin::Sub), Ok(()));
    assert_eq!(f.stack(), &vec![7]);
    assert_eq!(f.op(), Ok(()));
    assert_eq!(f.stack(), &vec![-1]);
    assert_eq!(f.compile("one".to_string(), vec![lit(1)]), Ok(()));
    f.exec(word("one")).unwrap();
    assert_eq!(f.stack(), &vec![-1, 1]);
}

#[test]
fn builtin_lookup_and_arithmetic() {
    assert_eq!(builtin_of(&"mod".to_string()), Some(Builtin::Mod));
    assert_eq!(builtin_of(&"".to_string()), Some(Builtin::Nop));
    assert_eq!(builtin_of(&"MOD".to_string()), None);
    assert_eq!(compute_two(Builtin::Div, 7, 0), None);
    assert_eq!(compute_two(Builtin::Sub, 10, 3), Some(7));
}
