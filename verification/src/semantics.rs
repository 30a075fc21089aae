//! The mathematical model of evaluation.
//!
//! [`eval`] is a step-indexed big-step evaluator: a specification function
//! that reduces a node and an abstract environment to an [`Outcome`], spending
//! one unit of fuel per evaluation step. It pins down the language's entire
//! semantics for programs that do not reach a host (built-in) invocation;
//! when one is reached, the outcome is [`Outcome::ToHost`], since what a host
//! returns is outside the model. The executable evaluator
//! [`crate::ast::Node::interpret`] is proved to agree with `eval` exactly,
//! fuel accounting included.

use vstd::prelude::*;

use std::rc::Rc;

use crate::ast::{HostFn, Node, Operation};
use crate::interpreter::Value;

verus! {

/// A fatal, evaluation-aborting condition: what a bare runtime would treat
/// as a process-level abort. Here it is reported as the error half of the
/// evaluator's result and stops the evaluation immediately, unlike the
/// recoverable [`Value::Error`] values, which flow on as ordinary values.
#[derive(Clone, Copy, PartialEq, Eq, Structural, Debug)]
pub enum Fatal {
    /// The step budget handed to the evaluator ran out. This stands in for
    /// a runaway loop or unbounded recursion, which would otherwise run
    /// until the process dies.
    OutOfFuel,
    /// A plain identifier was not bound in the environment.
    UnboundIdentifier,
    /// Division or remainder by zero.
    DivisionByZero,
    /// The distinguished host-function leaf was evaluated as a standalone
    /// node, which no well-formed program does.
    HostLeafEvaluated,
}

/// The abstract counterpart of [`Value`]: text is a sequence of characters,
/// a function's parameter list is a sequence of names, and a function body
/// is the node it refers to (shared references make the referent itself the
/// natural abstract content).
pub enum Val {
    Integer(i64),
    String(Seq<char>),
    Error(Seq<char>),
    Nothing,
    Function(Seq<Seq<char>>, Node),
}

/// The abstract environment: one flat mapping from name to value.
pub type Env = Map<Seq<char>, Val>;

/// What evaluating one node comes to.
pub enum Outcome {
    /// The node reduced to a value, leaving the environment as given.
    Done(Val, Env),
    /// Evaluation aborted.
    Failed(Fatal),
    /// Evaluation reached an invocation of a host built-in: the named one,
    /// on the given argument values. The model stops here: a host may
    /// return anything, so nothing past this first invocation is determined
    /// by the node and the environment alone.
    ToHost(HostFn, Seq<Val>),
}

/// What evaluating a host call's argument list comes to.
pub enum ArgsOutcome {
    /// Every argument reduced to a value: the values in order, and the
    /// environment their evaluation left.
    Done(Seq<Val>, Env),
    /// Evaluation aborted.
    Failed(Fatal),
    /// A nested host invocation was reached first.
    ToHost(HostFn, Seq<Val>),
}

/// The truthiness rule for conditions and loop guards: an integer is true
/// iff nonzero, text is true iff non-empty, the error and no-value markers
/// are always false, and a function value is always true.
pub open spec fn truthy(v: Val) -> bool {
    match v {
        Val::Integer(x) => x != 0,
        Val::String(s) => s.len() != 0,
        Val::Error(_) => false,
        Val::Nothing => false,
        Val::Function(_, _) => true,
    }
}

/// The result of a binary arithmetic operator on two integer operands.
///
/// Add, Sub and Mul wrap around on overflow (fixed-width two's-complement
/// semantics). Div and Mod truncate toward zero; dividing by zero is fatal,
/// and the one overflowing case (the smallest integer divided by minus one)
/// wraps, giving the smallest integer for Div and zero for Mod.
pub open spec fn op_ints(op: Operation, x: i64, y: i64) -> Result<i64, Fatal> {
    match op {
        Operation::Add => Ok(x.wrapping_add(y)),
        Operation::Sub => Ok(x.wrapping_sub(y)),
        Operation::Mul => Ok(x.wrapping_mul(y)),
        Operation::Div => if y == 0 {
            Err(Fatal::DivisionByZero)
        } else {
            match x.checked_div(y) {
                Some(q) => Ok(q),
                None => Ok(i64::MIN),
            }
        },
        Operation::Mod => if y == 0 {
            Err(Fatal::DivisionByZero)
        } else {
            match x.checked_rem(y) {
                Some(m) => Ok(m),
                None => Ok(0i64),
            }
        },
    }
}

/// The value of a binary arithmetic node once both operands are values:
/// two integers are combined by [`op_ints`]; any other pairing yields the
/// recoverable type-mismatch error value.
pub open spec fn op_vals(op: Operation, x: Val, y: Val) -> Result<Val, Fatal> {
    match (x, y) {
        (Val::Integer(a), Val::Integer(b)) => match op_ints(op, a, b) {
            Ok(r) => Ok(Val::Integer(r)),
            Err(f) => Err(f),
        },
        _ => Ok(Val::Error("not an integer"@)),
    }
}

/// The step-indexed big-step evaluation of one node. Every recursive use of
/// the evaluator spends one unit of fuel; exhausted fuel is the fatal
/// [`Fatal::OutOfFuel`] outcome, standing in for divergence.
pub open spec fn eval(n: Node, env: Env, fuel: nat) -> Outcome
    decreases fuel, 0nat, 0nat,
{
    if fuel == 0 {
        Outcome::Failed(Fatal::OutOfFuel)
    } else {
        let f = (fuel - 1) as nat;
        match n {
            Node::BinaryOp(l, op, r) => match eval(*l, env, f) {
                Outcome::Done(x, env1) => match eval(*r, env1, f) {
                    Outcome::Done(y, env2) => match op_vals(op, x, y) {
                        Ok(v) => Outcome::Done(v, env2),
                        Err(ft) => Outcome::Failed(ft),
                    },
                    other => other,
                },
                other => other,
            },
            Node::UnaryNegate(e) => match eval(*e, env, f) {
                Outcome::Done(Val::Integer(x), env1) => Outcome::Done(
                    Val::Integer(0i64.wrapping_sub(x)),
                    env1,
                ),
                Outcome::Done(_, env1) => Outcome::Done(Val::Error("not an integer"@), env1),
                other => other,
            },
            Node::Integer(v) => Outcome::Done(Val::Integer(v), env),
            Node::String(s) => Outcome::Done(Val::String(s@), env),
            Node::Identifier(name) => if name@ == "none"@ {
                Outcome::Done(Val::Nothing, env)
            } else if name@ == "err"@ {
                Outcome::Done(Val::Error("?"@), env)
            } else if env.contains_key(name@) {
                Outcome::Done(env[name@], env)
            } else {
                Outcome::Failed(Fatal::UnboundIdentifier)
            },
            Node::Block(lst) => eval_nodes(lst@, env, f, Val::Nothing),
            Node::VarSet(name, e) => match eval(*e, env, f) {
                Outcome::Done(v, env1) => Outcome::Done(v, env1.insert(name@, v)),
                other => other,
            },
            Node::While(cond, body) => eval_while(*cond, *body, env, f, Val::Nothing),
            Node::IfElse(cond, then_branch, else_branch) => match eval(*cond, env, f) {
                Outcome::Done(c, env1) => if truthy(c) {
                    eval(*then_branch, env1, f)
                } else {
                    match else_branch {
                        Some(e) => eval(*e, env1, f),
                        None => Outcome::Done(Val::Nothing, env1),
                    }
                },
                other => other,
            },
            Node::FunctionDefinition(name, params, body) => {
                let v = Val::Function(params.deep_view(), *body);
                Outcome::Done(v, env.insert(name@, v))
            },
            Node::FunctionCall(name, args) => if !env.contains_key(name@) {
                Outcome::Done(Val::Error("invalid function name"@), env)
            } else {
                match env[name@] {
                    Val::Function(params, body) => if body is HostFunction {
                        match eval_args(args@, env, f) {
                            ArgsOutcome::Done(vals, _) => Outcome::ToHost(
                                body->HostFunction_0,
                                vals,
                            ),
                            ArgsOutcome::Failed(ft) => Outcome::Failed(ft),
                            ArgsOutcome::ToHost(h, w) => Outcome::ToHost(h, w),
                        }
                    } else if args.len() != params.len() {
                        Outcome::Done(Val::Error("argument count mismatch"@), env)
                    } else {
                        match eval_binds(params, args@, env, f) {
                            Outcome::Done(_, env1) => eval(body, env1, f),
                            other => other,
                        }
                    },
                    _ => Outcome::Done(Val::Error("invalid function value"@), env),
                }
            },
            Node::HostFunction(_) => Outcome::Failed(Fatal::HostLeafEvaluated),
        }
    }
}

/// Evaluates the given nodes in order, threading the environment through,
/// and reduces to the value of the last one, or to `last` if there are none.
/// This is the meaning of a block, with `last` the no-value marker; it also
/// serves for the argument list of a host call, whose values the model does
/// not need.
pub open spec fn eval_nodes(ns: Seq<Rc<Node>>, env: Env, fuel: nat, last: Val) -> Outcome
    decreases fuel, 1nat, ns.len(),
{
    if ns.len() == 0 {
        Outcome::Done(last, env)
    } else {
        match eval(*ns[0], env, fuel) {
            Outcome::Done(v, env1) => eval_nodes(ns.drop_first(), env1, fuel, v),
            other => other,
        }
    }
}

/// Evaluates a host call's argument expressions in order, threading the
/// environment through, and collects their values for the host.
pub open spec fn eval_args(ns: Seq<Rc<Node>>, env: Env, fuel: nat) -> ArgsOutcome
    decreases fuel, 2nat, ns.len(),
{
    if ns.len() == 0 {
        ArgsOutcome::Done(Seq::empty(), env)
    } else {
        match eval(*ns[0], env, fuel) {
            Outcome::Done(v, env1) => match eval_args(ns.drop_first(), env1, fuel) {
                ArgsOutcome::Done(vs, env2) => ArgsOutcome::Done(seq![v] + vs, env2),
                other => other,
            },
            Outcome::Failed(ft) => ArgsOutcome::Failed(ft),
            Outcome::ToHost(h, w) => ArgsOutcome::ToHost(h, w),
        }
    }
}

/// The meaning of a loop: evaluate the condition; while it is truthy,
/// evaluate the body and go round again, remembering the body's value. The
/// loop reduces to the last body value, or to `last` if the body never ran.
pub open spec fn eval_while(cond: Node, body: Node, env: Env, fuel: nat, last: Val) -> Outcome
    decreases fuel, 0nat, 0nat,
{
    if fuel == 0 {
        Outcome::Failed(Fatal::OutOfFuel)
    } else {
        let f = (fuel - 1) as nat;
        match eval(cond, env, f) {
            Outcome::Done(c, env1) => if truthy(c) {
                match eval(body, env1, f) {
                    Outcome::Done(v, env2) => eval_while(cond, body, env2, f, v),
                    other => other,
                }
            } else {
                Outcome::Done(last, env1)
            },
            other => other,
        }
    }
}

/// Binds a user function's arguments: evaluates each argument expression in
/// order and binds it under the corresponding parameter name into the same
/// shared environment, so a later argument sees the bindings of the earlier
/// ones. There is no call frame: the binding simply overwrites whatever held
/// the name before. Reduces to the no-value marker and the extended
/// environment.
pub open spec fn eval_binds(params: Seq<Seq<char>>, args: Seq<Rc<Node>>, env: Env, fuel: nat) -> Outcome
    decreases fuel, 1nat, args.len(),
{
    if args.len() == 0 {
        Outcome::Done(Val::Nothing, env)
    } else {
        match eval(*args[0], env, fuel) {
            Outcome::Done(v, env1) => eval_binds(
                params.drop_first(),
                args.drop_first(),
                env1.insert(params[0], v),
                fuel,
            ),
            other => other,
        }
    }
}

} // verus!
