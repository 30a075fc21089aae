use std::rc::Rc;

use gplang::{add_builtins, Environment, Fatal, Host, HostFn, LoggedHost, Node, Operation, Value};

const FUEL: u64 = 1_000_000;

struct NoopHost;

impl Host for NoopHost {
    fn invoke(&mut self, _func: HostFn, _args: Vec<Value>) -> Value {
        Value::Nothing
    }
}

fn num(v: i64) -> Rc<Node> {
    Rc::new(Node::Integer(v))
}

fn text(s: &str) -> Rc<Node> {
    Rc::new(Node::String(s.to_string()))
}

fn ident(name: &str) -> Rc<Node> {
    Rc::new(Node::Identifier(name.to_string()))
}

fn binop(l: Rc<Node>, op: Operation, r: Rc<Node>) -> Rc<Node> {
    Rc::new(Node::BinaryOp(l, op, r))
}

fn var_set(name: &str, v: Rc<Node>) -> Rc<Node> {
    Rc::new(Node::VarSet(name.to_string(), v))
}

fn block(items: Vec<Rc<Node>>) -> Rc<Node> {
    Rc::new(Node::Block(items))
}

fn call(name: &str, args: Vec<Rc<Node>>) -> Rc<Node> {
    Rc::new(Node::FunctionCall(name.to_string(), args))
}

fn run(node: &Node) -> Result<Value, Fatal> {
    let mut env = Environment::new();
    let mut host = LoggedHost::new(NoopHost);
    node.interpret(&mut env, &mut host, FUEL)
}

fn run_in(node: &Node, env: &mut Environment) -> Result<Value, Fatal> {
    let mut host = LoggedHost::new(NoopHost);
    node.interpret(env, &mut host, FUEL)
}

fn expect_int(r: Result<Value, Fatal>) -> i64 {
    match r {
        Ok(Value::Integer(v)) => v,
        other => panic!("expected an integer result, got {:?}", result_tag(&other)),
    }
}

fn expect_error(r: Result<Value, Fatal>) -> String {
    match r {
        Ok(Value::Error(m)) => m,
        other => panic!("expected an error value, got {:?}", result_tag(&other)),
    }
}

fn result_tag(r: &Result<Value, Fatal>) -> String {
    match r {
        Ok(v) => v.debug_string(),
        Err(f) => format!("{:?}", f),
    }
}

#[test]
fn arithmetic_add_sub_mul() {
    assert_eq!(expect_int(run(&binop(num(1), Operation::Add, num(2)))), 3);
    assert_eq!(expect_int(run(&binop(num(10), Operation::Sub, num(4)))), 6);
    assert_eq!(expect_int(run(&binop(num(-6), Operation::Mul, num(7)))), -42);
}

#[test]
fn arithmetic_div_mod_truncate() {
    assert_eq!(expect_int(run(&binop(num(7), Operation::Div, num(2)))), 3);
    assert_eq!(expect_int(run(&binop(num(-7), Operation::Div, num(2)))), -3);
    assert_eq!(expect_int(run(&binop(num(7), Operation::Div, num(-2)))), -3);
    assert_eq!(expect_int(run(&binop(num(-7), Operation::Div, num(-2)))), 3);
    assert_eq!(expect_int(run(&binop(num(7), Operation::Mod, num(2)))), 1);
    assert_eq!(expect_int(run(&binop(num(-7), Operation::Mod, num(2)))), -1);
    assert_eq!(expect_int(run(&binop(num(7), Operation::Mod, num(-2)))), 1);
    assert_eq!(expect_int(run(&binop(num(-7), Operation::Mod, num(-2)))), -1);
}

#[test]
fn arithmetic_division_by_zero_is_fatal() {
    assert!(matches!(
        run(&binop(num(1), Operation::Div, num(0))),
        Err(Fatal::DivisionByZero)
    ));
    assert!(matches!(
        run(&binop(num(1), Operation::Mod, num(0))),
        Err(Fatal::DivisionByZero)
    ));
}

#[test]
fn arithmetic_wraps_at_the_width() {
    assert_eq!(
        expect_int(run(&binop(num(i64::MAX), Operation::Add, num(1)))),
        i64::MIN
    );
    assert_eq!(
        expect_int(run(&binop(num(i64::MIN), Operation::Div, num(-1)))),
        i64::MIN
    );
    assert_eq!(
        expect_int(run(&binop(num(i64::MIN), Operation::Mod, num(-1)))),
        0
    );
}

#[test]
fn mixed_types_yield_error_value() {
    let m = expect_error(run(&binop(num(1), Operation::Add, text("a"))));
    assert_eq!(m, "not an integer");
    let m = expect_error(run(&binop(text("a"), Operation::Mul, num(1))));
    assert_eq!(m, "not an integer");
}

#[test]
fn unary_negate() {
    assert_eq!(expect_int(run(&Node::UnaryNegate(num(5)))), -5);
    assert_eq!(expect_int(run(&Node::UnaryNegate(num(-5)))), 5);
    assert_eq!(
        expect_int(run(&Node::UnaryNegate(num(i64::MIN)))),
        i64::MIN
    );
    let m = expect_error(run(&Node::UnaryNegate(text("a"))));
    assert_eq!(m, "not an integer");
}

#[test]
fn read_after_write() {
    let mut env = Environment::new();
    assert_eq!(
        expect_int(run_in(&var_set("x", num(5)), &mut env)),
        5
    );
    assert_eq!(expect_int(run_in(&ident("x"), &mut env)), 5);
}

#[test]
fn assignment_overwrites() {
    let mut env = Environment::new();
    run_in(&var_set("x", num(1)), &mut env).unwrap();
    run_in(&var_set("x", num(2)), &mut env).unwrap();
    assert_eq!(expect_int(run_in(&ident("x"), &mut env)), 2);
}

#[test]
fn reserved_names_bypass_the_environment() {
    assert!(matches!(run(&ident("none")), Ok(Value::Nothing)));
    assert_eq!(expect_error(run(&ident("err"))), "?");
}

#[test]
fn unbound_identifier_is_fatal() {
    assert!(matches!(run(&ident("nope")), Err(Fatal::UnboundIdentifier)));
}

#[test]
fn empty_block_is_nothing() {
    assert!(matches!(run(&block(vec![])), Ok(Value::Nothing)));
}

#[test]
fn block_yields_last_value() {
    assert_eq!(expect_int(run(&block(vec![num(1), num(2), num(3)]))), 3);
}

#[test]
fn error_value_does_not_stop_a_block() {
    let program = block(vec![binop(num(1), Operation::Add, text("a")), num(9)]);
    assert_eq!(expect_int(run(&program)), 9);
}

#[test]
fn while_false_condition_runs_zero_times() {
    let mut env = Environment::new();
    run_in(&var_set("hits", num(0)), &mut env).unwrap();
    let body = var_set("hits", num(1));
    let r = run_in(&Node::While(num(0), body), &mut env);
    assert!(matches!(r, Ok(Value::Nothing)));
    assert_eq!(expect_int(run_in(&ident("hits"), &mut env)), 0);
}

#[test]
fn while_counts_down() {
    // x = 3; acc = 0; while x { acc = acc + x; x = x - 1 }; acc
    let body = block(vec![
        var_set("acc", binop(ident("acc"), Operation::Add, ident("x"))),
        var_set("x", binop(ident("x"), Operation::Sub, num(1))),
    ]);
    let program = block(vec![
        var_set("x", num(3)),
        var_set("acc", num(0)),
        Rc::new(Node::While(ident("x"), body)),
        ident("acc"),
    ]);
    assert_eq!(expect_int(run(&program)), 6);
}

#[test]
fn while_yields_last_body_value() {
    // x = 2; while x { x = x - 1 } ends with the body value 0.
    let body = var_set("x", binop(ident("x"), Operation::Sub, num(1)));
    let program = block(vec![
        var_set("x", num(2)),
        Rc::new(Node::While(ident("x"), body)),
    ]);
    assert_eq!(expect_int(run(&program)), 0);
}

#[test]
fn runaway_loop_exhausts_the_budget() {
    let mut env = Environment::new();
    let mut host = LoggedHost::new(NoopHost);
    let r = Node::While(num(1), block(vec![])).interpret(&mut env, &mut host, 1000);
    assert!(matches!(r, Err(Fatal::OutOfFuel)));
}

#[test]
fn spent_budget_is_fatal() {
    let mut env = Environment::new();
    let mut host = LoggedHost::new(NoopHost);
    let r = Node::Integer(1).interpret(&mut env, &mut host, 0);
    assert!(matches!(r, Err(Fatal::OutOfFuel)));
}

#[test]
fn if_else_picks_by_truthiness() {
    let t = Node::IfElse(num(1), num(10), Some(num(20)));
    assert_eq!(expect_int(run(&t)), 10);
    let f = Node::IfElse(num(0), num(10), Some(num(20)));
    assert_eq!(expect_int(run(&f)), 20);
    let none_branch = Node::IfElse(text(""), num(10), None);
    assert!(matches!(run(&none_branch), Ok(Value::Nothing)));
    let text_true = Node::IfElse(text("x"), num(10), None);
    assert_eq!(expect_int(run(&text_true)), 10);
}

#[test]
fn truthiness_of_each_kind() {
    assert!(Value::Integer(1).is_truthy());
    assert!(Value::Integer(-1).is_truthy());
    assert!(!Value::Integer(0).is_truthy());
    assert!(Value::String("a".to_string()).is_truthy());
    assert!(!Value::String(String::new()).is_truthy());
    assert!(!Value::Error("boom".to_string()).is_truthy());
    assert!(!Value::Nothing.is_truthy());
    assert!(Value::Function(vec![], Rc::new(Node::Integer(0))).is_truthy());
}

#[test]
fn identity_function_returns_its_argument() {
    let mut env = Environment::new();
    let define = Node::FunctionDefinition(
        "f".to_string(),
        vec!["a".to_string()],
        block(vec![ident("a")]),
    );
    let defined = run_in(&define, &mut env).unwrap();
    assert!(matches!(defined, Value::Function(_, _)));
    assert_eq!(expect_int(run_in(&call("f", vec![num(7)]), &mut env)), 7);
}

#[test]
fn arity_mismatch_yields_error_value() {
    let mut env = Environment::new();
    let define = Node::FunctionDefinition(
        "f".to_string(),
        vec!["a".to_string()],
        block(vec![ident("a")]),
    );
    run_in(&define, &mut env).unwrap();
    let m = expect_error(run_in(&call("f", vec![]), &mut env));
    assert_eq!(m, "argument count mismatch");
    let m = expect_error(run_in(&call("f", vec![num(1), num(2)]), &mut env));
    assert_eq!(m, "argument count mismatch");
}

#[test]
fn unbound_function_name_yields_error_value() {
    let m = expect_error(run(&call("nope", vec![])));
    assert_eq!(m, "invalid function name");
}

#[test]
fn calling_a_plain_value_yields_error_value() {
    let mut env = Environment::new();
    run_in(&var_set("f", num(5)), &mut env).unwrap();
    let m = expect_error(run_in(&call("f", vec![]), &mut env));
    assert_eq!(m, "invalid function value");
}

#[test]
fn literals_are_pure() {
    let mut env = Environment::new();
    run_in(&var_set("x", num(1)), &mut env).unwrap();
    for _ in 0..3 {
        assert_eq!(expect_int(run_in(&Node::Integer(42), &mut env)), 42);
        match run_in(&Node::String("hi".to_string()), &mut env) {
            Ok(Value::String(s)) => assert_eq!(s, "hi"),
            other => panic!("unexpected result {}", result_tag(&other)),
        }
    }
    assert_eq!(expect_int(run_in(&ident("x"), &mut env)), 1);
    assert!(env.get(&"y".to_string()).is_none());
}

#[test]
fn function_call_shares_the_callers_environment() {
    // Binding an argument overwrites an outer variable of the same name.
    let mut env = Environment::new();
    run_in(&var_set("a", num(100)), &mut env).unwrap();
    let define = Node::FunctionDefinition(
        "f".to_string(),
        vec!["a".to_string()],
        block(vec![ident("a")]),
    );
    run_in(&define, &mut env).unwrap();
    assert_eq!(expect_int(run_in(&call("f", vec![num(7)]), &mut env)), 7);
    assert_eq!(expect_int(run_in(&ident("a"), &mut env)), 7);
}

#[test]
fn later_arguments_see_earlier_bindings() {
    // f(a, b) { b } called as f(5, a + 1): the second argument reads the
    // binding the first one just wrote.
    let mut env = Environment::new();
    let define = Node::FunctionDefinition(
        "f".to_string(),
        vec!["a".to_string(), "b".to_string()],
        block(vec![ident("b")]),
    );
    run_in(&define, &mut env).unwrap();
    let c = call(
        "f",
        vec![num(5), binop(ident("a"), Operation::Add, num(1))],
    );
    assert_eq!(expect_int(run_in(&c, &mut env)), 6);
}

#[test]
fn assignment_overwrites_a_function_binding() {
    let mut env = Environment::new();
    let define = Node::FunctionDefinition("f".to_string(), vec![], block(vec![num(1)]));
    run_in(&define, &mut env).unwrap();
    run_in(&var_set("f", num(5)), &mut env).unwrap();
    let m = expect_error(run_in(&call("f", vec![]), &mut env));
    assert_eq!(m, "invalid function value");
}

#[test]
fn recursion_reaches_a_result() {
    // fact(n) { if n { n * fact(n - 1) } else { 1 } }
    let recurse = binop(
        ident("n"),
        Operation::Mul,
        call("fact", vec![binop(ident("n"), Operation::Sub, num(1))]),
    );
    let body = block(vec![Rc::new(Node::IfElse(ident("n"), recurse, Some(num(1))))]);
    let mut env = Environment::new();
    let define = Node::FunctionDefinition("fact".to_string(), vec!["n".to_string()], body);
    run_in(&define, &mut env).unwrap();
    assert_eq!(expect_int(run_in(&call("fact", vec![num(5)]), &mut env)), 120);
}

#[test]
fn host_leaf_standalone_is_fatal() {
    let mut env = Environment::new();
    add_builtins(&mut env);
    let r = run_in(&Node::HostFunction(HostFn::Print), &mut env);
    assert!(matches!(r, Err(Fatal::HostLeafEvaluated)));
}

#[test]
fn function_definition_evaluates_to_the_function() {
    let define = Node::FunctionDefinition(
        "f".to_string(),
        vec!["a".to_string(), "b".to_string()],
        block(vec![]),
    );
    match run(&define) {
        Ok(Value::Function(params, _)) => assert_eq!(params, vec!["a", "b"]),
        other => panic!("unexpected result {}", result_tag(&other)),
    }
}

#[test]
fn environment_get_and_insert() {
    let mut env = Environment::new();
    assert!(env.get(&"x".to_string()).is_none());
    env.insert("x".to_string(), Value::Integer(1));
    assert!(matches!(env.get(&"x".to_string()), Some(Value::Integer(1))));
    env.insert("x".to_string(), Value::Integer(2));
    assert!(matches!(env.get(&"x".to_string()), Some(Value::Integer(2))));
}
