use std::rc::Rc;

use gplang::render::{int_string, parse_i64};
use gplang::{Node, Operation, Value};

fn num(v: i64) -> Rc<Node> {
    Rc::new(Node::Integer(v))
}

fn ident(name: &str) -> Rc<Node> {
    Rc::new(Node::Identifier(name.to_string()))
}

#[test]
fn integer_numerals() {
    assert_eq!(int_string(0), "0");
    assert_eq!(int_string(7), "7");
    assert_eq!(int_string(-7), "-7");
    assert_eq!(int_string(1234567890), "1234567890");
    assert_eq!(int_string(i64::MAX), "9223372036854775807");
    assert_eq!(int_string(i64::MIN), "-9223372036854775808");
}

#[test]
fn numerals_parse_back() {
    assert_eq!(parse_i64("0"), Some(0));
    assert_eq!(parse_i64("007"), Some(7));
    assert_eq!(parse_i64("-7"), Some(-7));
    assert_eq!(parse_i64("+7"), Some(7));
    assert_eq!(parse_i64("9223372036854775807"), Some(i64::MAX));
    assert_eq!(parse_i64("-9223372036854775808"), Some(i64::MIN));
    assert_eq!(parse_i64("9223372036854775808"), None);
    assert_eq!(parse_i64("-9223372036854775809"), None);
    assert_eq!(parse_i64(""), None);
    assert_eq!(parse_i64("-"), None);
    assert_eq!(parse_i64("+"), None);
    assert_eq!(parse_i64("1a"), None);
    assert_eq!(parse_i64("a1"), None);
    assert_eq!(parse_i64(" 1"), None);
    assert_eq!(parse_i64("--1"), None);
    assert_eq!(parse_i64(&int_string(i64::MIN)), Some(i64::MIN));
}

#[test]
fn value_display_forms() {
    assert_eq!(Value::Integer(5).display_string(), "5");
    assert_eq!(Value::Integer(-5).display_string(), "-5");
    assert_eq!(Value::String("hi".to_string()).display_string(), "hi");
    assert_eq!(Value::Error("boom".to_string()).display_string(), "Err(boom)");
    assert_eq!(Value::Nothing.display_string(), "None");
    let f = Value::Function(
        vec!["a".to_string(), "b".to_string()],
        Rc::new(Node::Integer(0)),
    );
    assert_eq!(f.display_string(), "Fn([a, b])");
}

#[test]
fn value_debug_forms() {
    assert_eq!(Value::Integer(5).debug_string(), "Integer(5)");
    assert_eq!(Value::String("hi".to_string()).debug_string(), "String(hi)");
    assert_eq!(Value::Error("boom".to_string()).debug_string(), "Err(boom)");
    assert_eq!(Value::Nothing.debug_string(), "None");
    let f = Value::Function(vec!["a".to_string()], Rc::new(Node::Integer(0)));
    assert_eq!(f.debug_string(), "Function([a])");
}

#[test]
fn node_rendering_parenthesises_arithmetic() {
    let n = Node::BinaryOp(
        Rc::new(Node::BinaryOp(num(1), Operation::Add, num(2))),
        Operation::Mul,
        num(3),
    );
    assert_eq!(n.render(), "((1 + 2) * 3)");
    let ops = Node::BinaryOp(
        Rc::new(Node::BinaryOp(num(8), Operation::Div, num(2))),
        Operation::Sub,
        Rc::new(Node::BinaryOp(num(5), Operation::Mod, num(3))),
    );
    assert_eq!(ops.render(), "((8 / 2) - (5 % 3))");
}

#[test]
fn node_rendering_of_each_form() {
    assert_eq!(Node::UnaryNegate(num(5)).render(), "-5");
    assert_eq!(Node::Integer(-3).render(), "-3");
    assert_eq!(Node::String("hi".to_string()).render(), "\"hi\"");
    assert_eq!(Node::Identifier("x".to_string()).render(), "x");
    assert_eq!(Node::Block(vec![num(1), num(2)]).render(), "Block[1, 2]");
    assert_eq!(Node::Block(vec![]).render(), "Block[]");
    assert_eq!(
        Node::VarSet("x".to_string(), num(1)).render(),
        "x = 1"
    );
    assert_eq!(
        Node::While(ident("x"), num(1)).render(),
        "While(x)->1"
    );
    assert_eq!(
        Node::IfElse(num(1), num(2), Some(num(3))).render(),
        "If(1)->2->Some(3)"
    );
    assert_eq!(
        Node::IfElse(num(1), num(2), None).render(),
        "If(1)->2->None"
    );
    assert_eq!(
        Node::FunctionDefinition(
            "f".to_string(),
            vec!["a".to_string(), "b".to_string()],
            Rc::new(Node::Block(vec![ident("a")])),
        )
        .render(),
        "Fn(f, [a, b], Block[a])"
    );
    assert_eq!(
        Node::FunctionCall("f".to_string(), vec![num(1), num(2)]).render(),
        "f([1, 2])"
    );
    assert_eq!(
        Node::HostFunction(gplang::HostFn::Print).render(),
        "BuiltIn"
    );
}
