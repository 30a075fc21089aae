//! The syntax tree of the scripting language.
//!
//! A program is a tree of [`Node`] values produced by an external parser.
//! Subtrees are shared by reference counting: a function body is referenced
//! both from the tree that defined it and from the environment binding that
//! retains it after the defining statement is gone, so nodes are held in
//! `Rc` and never deep-copied.

use vstd::prelude::*;

use std::rc::Rc;

verus! {

/// Arithmetic operator of a binary expression.
#[derive(Clone, Copy, PartialEq, Eq, Structural)]
pub enum Operation {
    Add,
    Sub,
    Mul,
    Div,
    Mod,
}

/// Names one of the host-provided built-in functions.
///
/// The evaluator never performs input or output itself: when a call reaches
/// a function whose body is the distinguished [`Node::HostFunction`] leaf,
/// it hands the evaluated arguments and this tag to the host, which performs
/// the effect and returns the call's result.
#[derive(Clone, Copy, PartialEq, Eq, Structural)]
pub enum HostFn {
    /// Writes each argument in display form, each followed by one space,
    /// then a newline. Returns the no-value marker.
    Print,
    /// As `Print`, but in debug form.
    DebugPrint,
    /// Optionally writes a string prompt (the first argument), then reads a
    /// line and returns it as an integer.
    ReadNumber,
}

/// One node of the syntax tree, one variant per syntactic form.
///
/// `HostFunction` is a distinguished leaf that embeds a built-in callable as
/// the body of a function binding. The parser never produces it; evaluating
/// it as a standalone node is an invariant violation and aborts evaluation
/// with a fatal outcome.
pub enum Node {
    /// Arithmetic expression `left op right`.
    BinaryOp(Rc<Node>, Operation, Rc<Node>),
    /// Unary arithmetic negation. An integer operand is negated (wrapping
    /// on the smallest integer); any other operand yields the type-mismatch
    /// error value.
    UnaryNegate(Rc<Node>),
    /// Integer literal.
    Integer(i64),
    /// String literal.
    String(String),
    /// Variable or function-name reference.
    Identifier(String),
    /// Sequential execution; the value is that of the last element, or the
    /// no-value marker if the block is empty.
    Block(Vec<Rc<Node>>),
    /// Assignment; also an expression yielding the assigned value.
    VarSet(String, Rc<Node>),
    /// Loop; the value is that of the final body execution, or the no-value
    /// marker if the body never ran.
    While(Rc<Node>, Rc<Node>),
    /// Conditional with an optional else branch; the value is the no-value
    /// marker when the condition is false and no else branch exists.
    IfElse(Rc<Node>, Rc<Node>, Option<Rc<Node>>),
    /// Defines a function, registers it in the environment, and evaluates
    /// to the function value.
    FunctionDefinition(String, Vec<String>, Rc<Node>),
    /// Invokes a previously bound function, user-defined or built-in.
    FunctionCall(String, Vec<Rc<Node>>),
    /// The distinguished host-function leaf; see the type documentation.
    HostFunction(HostFn),
}

} // verus!
