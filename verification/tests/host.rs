use std::rc::Rc;

use gplang::builtins::render_output_line;
use gplang::{add_builtins, Environment, Fatal, Host, HostFn, LoggedHost, Node, Value};

const FUEL: u64 = 1_000_000;

/// A host that records what the print built-ins would write and answers the
/// reading built-in with a fixed number.
struct RecordingHost {
    lines: Vec<String>,
    input: i64,
}

impl Host for RecordingHost {
    fn invoke(&mut self, func: HostFn, args: Vec<Value>) -> Value {
        match func {
            HostFn::Print => {
                self.lines.push(render_output_line(&args, false));
                Value::Nothing
            }
            HostFn::DebugPrint => {
                self.lines.push(render_output_line(&args, true));
                Value::Nothing
            }
            HostFn::ReadNumber => Value::Integer(self.input),
        }
    }
}

fn call(name: &str, args: Vec<Rc<Node>>) -> Node {
    Node::FunctionCall(name.to_string(), args)
}

#[test]
fn print_builtin_renders_display_forms() {
    let mut env = Environment::new();
    add_builtins(&mut env);
    let mut host = LoggedHost::new(RecordingHost { lines: Vec::new(), input: 0 });
    let program = call(
        "print",
        vec![
            Rc::new(Node::Integer(-42)),
            Rc::new(Node::String("hi".to_string())),
        ],
    );
    let r = program.interpret(&mut env, &mut host, FUEL);
    assert!(matches!(r, Ok(Value::Nothing)));
    assert_eq!(host.host.lines, vec!["-42 hi\n"]);
}

#[test]
fn dprint_builtin_renders_debug_forms() {
    let mut env = Environment::new();
    add_builtins(&mut env);
    let mut host = LoggedHost::new(RecordingHost { lines: Vec::new(), input: 0 });
    let program = call(
        "dprint",
        vec![
            Rc::new(Node::Integer(-42)),
            Rc::new(Node::String("hi".to_string())),
        ],
    );
    let r = program.interpret(&mut env, &mut host, FUEL);
    assert!(matches!(r, Ok(Value::Nothing)));
    assert_eq!(host.host.lines, vec!["Integer(-42) String(hi)\n"]);
}

#[test]
fn print_with_no_arguments_is_a_bare_newline() {
    let mut env = Environment::new();
    add_builtins(&mut env);
    let mut host = LoggedHost::new(RecordingHost { lines: Vec::new(), input: 0 });
    let r = call("print", vec![]).interpret(&mut env, &mut host, FUEL);
    assert!(matches!(r, Ok(Value::Nothing)));
    assert_eq!(host.host.lines, vec!["\n"]);
}

#[test]
fn host_result_flows_back_into_evaluation() {
    let mut env = Environment::new();
    add_builtins(&mut env);
    let mut host = LoggedHost::new(RecordingHost { lines: Vec::new(), input: 7 });
    let program = Node::BinaryOp(
        Rc::new(call("readlnn", vec![])),
        gplang::Operation::Add,
        Rc::new(Node::Integer(1)),
    );
    match program.interpret(&mut env, &mut host, FUEL) {
        Ok(Value::Integer(v)) => assert_eq!(v, 8),
        _ => panic!("expected the host's number plus one"),
    }
}

#[test]
fn builtin_arguments_run_in_the_callers_environment() {
    let mut env = Environment::new();
    add_builtins(&mut env);
    let mut host = LoggedHost::new(RecordingHost { lines: Vec::new(), input: 0 });
    let program = call(
        "print",
        vec![Rc::new(Node::VarSet("x".to_string(), Rc::new(Node::Integer(5))))],
    );
    program.interpret(&mut env, &mut host, FUEL).unwrap();
    let read = Node::Identifier("x".to_string()).interpret(&mut env, &mut host, FUEL);
    assert!(matches!(read, Ok(Value::Integer(5))));
    assert_eq!(host.host.lines, vec!["5\n"]);
}

#[test]
fn fatal_argument_stops_a_builtin_call() {
    let mut env = Environment::new();
    add_builtins(&mut env);
    let mut host = LoggedHost::new(RecordingHost { lines: Vec::new(), input: 0 });
    let program = call(
        "print",
        vec![Rc::new(Node::Identifier("missing".to_string()))],
    );
    let r = program.interpret(&mut env, &mut host, FUEL);
    assert!(matches!(r, Err(Fatal::UnboundIdentifier)));
    assert!(host.host.lines.is_empty());
}

#[test]
fn builtins_can_be_shadowed() {
    let mut env = Environment::new();
    add_builtins(&mut env);
    let mut host = LoggedHost::new(RecordingHost { lines: Vec::new(), input: 0 });
    let shadow = Node::VarSet("print".to_string(), Rc::new(Node::Integer(1)));
    shadow.interpret(&mut env, &mut host, FUEL).unwrap();
    let r = call("print", vec![]).interpret(&mut env, &mut host, FUEL);
    match r {
        Ok(Value::Error(m)) => assert_eq!(m, "invalid function value"),
        _ => panic!("expected the invalid-function-value error"),
    }
}
