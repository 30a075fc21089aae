//! The runtime value model and the executable evaluator.

use vstd::prelude::*;

use std::rc::Rc;

use crate::ast::{Node, Operation};
use crate::env::Environment;
use crate::builtins::{calls_host, lemma_host_chain, Host, LoggedHost};
use crate::semantics::{
    eval, eval_args, eval_binds, eval_nodes, eval_while, op_vals, truthy, ArgsOutcome, Fatal,
    Outcome, Val,
};

verus! {

/// A computed result. Values are cheaply copyable: text is shared at the
/// character level by cloning, and a function value shares its body node by
/// reference count rather than copying the tree.
pub enum Value {
    /// An integer result.
    Integer(i64),
    /// A text result.
    String(String),
    /// A recoverable failure, carried as an ordinary value: it propagates
    /// only as far as whoever inspects it and does not unwind evaluation.
    Error(String),
    /// The absence-of-a-value marker: an empty block, a loop whose body
    /// never ran, a false condition with no else branch.
    Nothing,
    /// A first-class function: its parameter names in order, and a shared
    /// reference to its body node.
    Function(Vec<String>, Rc<Node>),
}

impl View for Value {
    type V = Val;

    open spec fn view(&self) -> Val {
        match self {
            Value::Integer(i) => Val::Integer(*i),
            Value::String(s) => Val::String(s@),
            Value::Error(m) => Val::Error(m@),
            Value::Nothing => Val::Nothing,
            Value::Function(params, body) => Val::Function(params.deep_view(), **body),
        }
    }
}

impl DeepView for Value {
    type V = Val;

    open spec fn deep_view(&self) -> Val {
        self.view()
    }
}

impl Clone for Value {
    /// A clone denotes the same abstract value: cloning shares the function
    /// body by reference count and copies text character for character.
    fn clone(&self) -> (res: Value)
        ensures
            res@ == self@,
    {
        match self {
            Value::Integer(i) => Value::Integer(*i),
            Value::String(s) => Value::String(s.clone()),
            Value::Error(m) => Value::Error(m.clone()),
            Value::Nothing => Value::Nothing,
            Value::Function(params, body) => {
                let ps = params.clone();
                proof {
                    assert(ps@ =~= params@);
                    assert(ps.deep_view() =~= params.deep_view());
                }
                Value::Function(ps, body.clone())
            },
        }
    }
}

impl Value {
    /// The truthiness of this value, as conditions and loop guards use it.
    pub fn is_truthy(&self) -> (r: bool)
        ensures
            r == truthy(self@),
    {
        match self {
            Value::Integer(x) => *x != 0,
            Value::String(x) => x.as_str().unicode_len() != 0,
            Value::Error(_) => false,
            Value::Nothing => false,
            Value::Function(_, _) => true,
        }
    }
}

/// Combines two already-evaluated operands with an arithmetic operator.
fn apply_op(op: Operation, x: Value, y: Value) -> (r: Result<Value, Fatal>)
    ensures
        match op_vals(op, x@, y@) {
            Ok(v) => r matches Ok(rv) && rv@ == v,
            Err(ft) => r == Err::<Value, Fatal>(ft),
        },
{
    match (x, y) {
        (Value::Integer(a), Value::Integer(b)) => match op {
            Operation::Add => Ok(Value::Integer(a.wrapping_add(b))),
            Operation::Sub => Ok(Value::Integer(a.wrapping_sub(b))),
            Operation::Mul => Ok(Value::Integer(a.wrapping_mul(b))),
            Operation::Div => if b == 0 {
                Err(Fatal::DivisionByZero)
            } else {
                match a.checked_div(b) {
                    Some(q) => Ok(Value::Integer(q)),
                    None => Ok(Value::Integer(i64::MIN)),
                }
            },
            Operation::Mod => if b == 0 {
                Err(Fatal::DivisionByZero)
            } else {
                match a.checked_rem(b) {
                    Some(m) => Ok(Value::Integer(m)),
                    None => Ok(Value::Integer(0)),
                }
            },
        },
        _ => Ok(Value::Error("not an integer".to_owned())),
    }
}

/// Evaluates the nodes from position `i` on in order, threading the
/// environment through, and reduces to the value of the last one, or to
/// `last` if there are none. This is the executable counterpart of
/// [`eval_nodes`] on the remainder of the list.
fn interpret_nodes<H: Host>(
    ns: &Vec<Rc<Node>>,
    i: usize,
    vars: &mut Environment,
    host: &mut LoggedHost<H>,
    fuel: u64,
    last: Value,
) -> (r: Result<Value, Fatal>)
    requires
        i <= ns.len(),
    ensures
        match eval_nodes(ns@.skip(i as int), old(vars)@, fuel as nat, last@) {
            Outcome::Done(v, e) => r matches Ok(rv) && rv@ == v && final(vars)@ == e && final(host).log@ == old(host).log@,
            Outcome::Failed(ft) => r == Err::<Value, Fatal>(ft) && final(host).log@ == old(host).log@,
            Outcome::ToHost(h, w) => calls_host(old(host).log@, final(host).log@, h, w),
        },
    decreases fuel, 1nat, ns.len() - i,
{
    let ghost l0 = host.log@;
    if i == ns.len() {
        proof {
            assert(ns@.skip(i as int).len() == 0);
        }
        Ok(last)
    } else {
        proof {
            assert(ns@.skip(i as int)[0] == ns@[i as int]);
            assert(ns@.skip(i as int).drop_first() =~= ns@.skip(i + 1));
        }
        match ns[i].interpret(vars, host, fuel) {
            Ok(v) => {
                let ghost l1 = host.log@;
                let res = interpret_nodes(ns, i + 1, vars, host, fuel, v);
                proof {
                    lemma_host_chain(l0, l1, host.log@);
                }
                res
            },
            Err(ft) => Err(ft),
        }
    }
}

/// Runs a loop: the executable counterpart of [`eval_while`].
fn interpret_while<H: Host>(
    cond: &Rc<Node>,
    body: &Rc<Node>,
    vars: &mut Environment,
    host: &mut LoggedHost<H>,
    fuel: u64,
    last: Value,
) -> (r: Result<Value, Fatal>)
    ensures
        match eval_while(**cond, **body, old(vars)@, fuel as nat, last@) {
            Outcome::Done(v, e) => r matches Ok(rv) && rv@ == v && final(vars)@ == e && final(host).log@ == old(host).log@,
            Outcome::Failed(ft) => r == Err::<Value, Fatal>(ft) && final(host).log@ == old(host).log@,
            Outcome::ToHost(h, w) => calls_host(old(host).log@, final(host).log@, h, w),
        },
    decreases fuel, 0nat, 0nat,
{
    let ghost l0 = host.log@;
    if fuel == 0 {
        return Err(Fatal::OutOfFuel);
    }
    let f = fuel - 1;
    match cond.interpret(vars, host, f) {
        Ok(c) => {
            let ghost l1 = host.log@;
            if c.is_truthy() {
                match body.interpret(vars, host, f) {
                    Ok(v) => {
                        let ghost l2 = host.log@;
                        proof {
                            lemma_host_chain(l0, l1, l2);
                        }
                        let res = interpret_while(cond, body, vars, host, f, v);
                        proof {
                            lemma_host_chain(l0, l2, host.log@);
                        }
                        res
                    },
                    Err(ft) => {
                        proof {
                            lemma_host_chain(l0, l1, host.log@);
                        }
                        Err(ft)
                    },
                }
            } else {
                Ok(last)
            }
        },
        Err(ft) => Err(ft),
    }
}

/// Evaluates the argument expressions of a host call from position `i` on,
/// collecting their values onto `vals`: the executable counterpart of
/// [`eval_args`] on the remainder of the list.
fn interpret_args<H: Host>(
    args: &Vec<Rc<Node>>,
    i: usize,
    vals: Vec<Value>,
    vars: &mut Environment,
    host: &mut LoggedHost<H>,
    fuel: u64,
) -> (r: Result<Vec<Value>, Fatal>)
    requires
        i <= args.len(),
    ensures
        match eval_args(args@.skip(i as int), old(vars)@, fuel as nat) {
            ArgsOutcome::Done(vs, e) => r matches Ok(out) && out.deep_view() == vals.deep_view()
                + vs && final(vars)@ == e && final(host).log@ == old(host).log@,
            ArgsOutcome::Failed(ft) => r == Err::<Vec<Value>, Fatal>(ft) && final(host).log@
                == old(host).log@,
            ArgsOutcome::ToHost(h, w) => calls_host(old(host).log@, final(host).log@, h, w),
        },
    decreases fuel, 1nat, args.len() - i,
{
    let ghost l0 = host.log@;
    if i == args.len() {
        proof {
            assert(args@.skip(i as int).len() == 0);
            assert(vals.deep_view() + Seq::<Val>::empty() =~= vals.deep_view());
        }
        Ok(vals)
    } else {
        proof {
            assert(args@.skip(i as int)[0] == args@[i as int]);
            assert(args@.skip(i as int).drop_first() =~= args@.skip(i + 1));
        }
        match args[i].interpret(vars, host, fuel) {
            Ok(v) => {
                let ghost l1 = host.log@;
                let ghost e1 = vars@;
                let ghost hv = v@;
                let mut vals = vals;
                let ghost before = vals.deep_view();
                vals.push(v);
                proof {
                    assert(vals.deep_view() =~= before.push(hv));
                }
                let res = interpret_args(args, i + 1, vals, vars, host, fuel);
                proof {
                    lemma_host_chain(l0, l1, host.log@);
                    match eval_args(args@.skip(i + 1), e1, fuel as nat) {
                        ArgsOutcome::Done(vs2, _) => {
                            assert(before.push(hv) + vs2 =~= before + (seq![hv] + vs2));
                        },
                        _ => {},
                    }
                }
                res
            },
            Err(ft) => Err(ft),
        }
    }
}

/// Binds a user function's arguments from position `i` on: each argument is
/// evaluated and at once bound under the matching parameter name in the one
/// shared environment, so later arguments see earlier bindings. The
/// executable counterpart of [`eval_binds`].
fn interpret_binds<H: Host>(
    params: &Vec<String>,
    args: &Vec<Rc<Node>>,
    i: usize,
    vars: &mut Environment,
    host: &mut LoggedHost<H>,
    fuel: u64,
) -> (r: Result<(), Fatal>)
    requires
        i <= args.len(),
        params.len() == args.len(),
    ensures
        match eval_binds(
            params.deep_view().skip(i as int),
            args@.skip(i as int),
            old(vars)@,
            fuel as nat,
        ) {
            Outcome::Done(v, e) => r matches Ok(u) && final(vars)@ == e && final(host).log@
                == old(host).log@,
            Outcome::Failed(ft) => r == Err::<(), Fatal>(ft) && final(host).log@ == old(host).log@,
            Outcome::ToHost(h, w) => calls_host(old(host).log@, final(host).log@, h, w),
        },
    decreases fuel, 1nat, args.len() - i,
{
    let ghost l0 = host.log@;
    if i == args.len() {
        proof {
            assert(args@.skip(i as int).len() == 0);
        }
        Ok(())
    } else {
        proof {
            assert(args@.skip(i as int)[0] == args@[i as int]);
            assert(args@.skip(i as int).drop_first() =~= args@.skip(i + 1));
            assert(params.deep_view().skip(i as int)[0] == params@[i as int]@);
            assert(params.deep_view().skip(i as int).drop_first() =~= params.deep_view().skip(
                i + 1,
            ));
        }
        match args[i].interpret(vars, host, fuel) {
            Ok(v) => {
                let ghost l1 = host.log@;
                vars.insert(params[i].clone(), v);
                let res = interpret_binds(params, args, i + 1, vars, host, fuel);
                proof {
                    lemma_host_chain(l0, l1, host.log@);
                }
                res
            },
            Err(ft) => Err(ft),
        }
    }
}

impl Node {
    /// Evaluates this node against the environment, spending at most `fuel`
    /// evaluation steps, with `host` running any built-in that is called.
    ///
    /// The result agrees exactly with the mathematical semantics [`eval`]:
    /// where `eval` is done, this returns the same value, leaves the same
    /// environment, and has invoked no built-in; where `eval` aborts, this
    /// returns the same fatal condition (in particular, a spent budget is
    /// `Fatal::OutOfFuel`, the executable stand-in for running without
    /// bound), again with no built-in invoked. Where `eval` reaches a host
    /// built-in, the host really is invoked, first on exactly the built-in
    /// and argument values that `eval` names; what runs after that first
    /// invocation depends on what the host returns, which is outside the
    /// model.
    pub fn interpret<H: Host>(
        &self,
        vars: &mut Environment,
        host: &mut LoggedHost<H>,
        fuel: u64,
    ) -> (r: Result<Value, Fatal>)
        ensures
            match eval(*self, old(vars)@, fuel as nat) {
                Outcome::Done(v, e) => r matches Ok(rv) && rv@ == v && final(vars)@ == e && final(host).log@ == old(host).log@,
                Outcome::Failed(ft) => r == Err::<Value, Fatal>(ft) && final(host).log@ == old(host).log@,
                Outcome::ToHost(h, w) => calls_host(old(host).log@, final(host).log@, h, w),
            },
        decreases fuel, 0nat, 0nat,
    {
        let ghost env0 = vars@;
        let ghost l0 = host.log@;
        if fuel == 0 {
            return Err(Fatal::OutOfFuel);
        }
        let f = fuel - 1;
        match self {
            Node::BinaryOp(l, op, r) => match l.interpret(vars, host, f) {
                Ok(x) => {
                    let ghost l1 = host.log@;
                    let res = match r.interpret(vars, host, f) {
                        Ok(y) => apply_op(*op, x, y),
                        Err(ft) => Err(ft),
                    };
                    proof {
                        lemma_host_chain(l0, l1, host.log@);
                    }
                    res
                },
                Err(ft) => Err(ft),
            },
            Node::UnaryNegate(e) => match e.interpret(vars, host, f) {
                Ok(v) => match v {
                    Value::Integer(x) => Ok(Value::Integer(0i64.wrapping_sub(x))),
                    _ => Ok(Value::Error("not an integer".to_owned())),
                },
                Err(ft) => Err(ft),
            },
            Node::Integer(v) => Ok(Value::Integer(*v)),
            Node::String(s) => Ok(Value::String(s.clone())),
            Node::Identifier(name) => if *name == "none".to_owned() {
                Ok(Value::Nothing)
            } else if *name == "err".to_owned() {
                Ok(Value::Error("?".to_owned()))
            } else {
                match vars.get(name) {
                    Some(v) => Ok(v),
                    None => Err(Fatal::UnboundIdentifier),
                }
            },
            Node::Block(lst) => {
                proof {
                    assert(lst@.skip(0) =~= lst@);
                }
                interpret_nodes(lst, 0, vars, host, f, Value::Nothing)
            },
            Node::VarSet(name, e) => match e.interpret(vars, host, f) {
                Ok(v) => {
                    let kept = v.clone();
                    vars.insert(name.clone(), v);
                    Ok(kept)
                },
                Err(ft) => Err(ft),
            },
            Node::While(cond, body) => interpret_while(cond, body, vars, host, f, Value::Nothing),
            Node::IfElse(cond, then_branch, else_branch) => match cond.interpret(vars, host, f) {
                Ok(c) => {
                    let ghost l1 = host.log@;
                    let res = if c.is_truthy() {
                        then_branch.interpret(vars, host, f)
                    } else {
                        match else_branch {
                            Some(e) => e.interpret(vars, host, f),
                            None => Ok(Value::Nothing),
                        }
                    };
                    proof {
                        lemma_host_chain(l0, l1, host.log@);
                    }
                    res
                },
                Err(ft) => Err(ft),
            },
            Node::FunctionDefinition(name, params, body) => {
                let ps = params.clone();
                proof {
                    assert(ps@ =~= params@);
                    assert(ps.deep_view() =~= params.deep_view());
                }
                let v = Value::Function(ps, body.clone());
                let kept = v.clone();
                vars.insert(name.clone(), v);
                Ok(kept)
            },
            Node::FunctionCall(name, args) => match vars.get(name) {
                None => Ok(Value::Error("invalid function name".to_owned())),
                Some(v) => match v {
                    Value::Function(params, body) => match &*body {
                        Node::HostFunction(h) => {
                            let which = *h;
                            proof {
                                assert(args@.skip(0) =~= args@);
                            }
                            let no_vals: Vec<Value> = Vec::new();
                            proof {
                                assert(no_vals.deep_view() =~= Seq::<Val>::empty());
                            }
                            match interpret_args(args, 0, no_vals, vars, host, f) {
                                Ok(vals) => {
                                    let ghost l1 = host.log@;
                                    let ghost vd = vals.deep_view();
                                    let reply = host.invoke(which, vals);
                                    proof {
                                        assert(host.log@.subrange(0, l1.len() as int) =~= l1);
                                        match eval_args(args@, env0, f as nat) {
                                            ArgsOutcome::Done(vs, _) => {
                                                assert(Seq::<Val>::empty() + vs =~= vs);
                                            },
                                            _ => {},
                                        }
                                        lemma_host_chain(l0, l1, host.log@);
                                    }
                                    Ok(reply)
                                },
                                Err(ft) => Err(ft),
                            }
                        },
                        _ => if args.len() != params.len() {
                            Ok(Value::Error("argument count mismatch".to_owned()))
                        } else {
                            proof {
                                assert(args@.skip(0) =~= args@);
                                assert(params.deep_view().skip(0) =~= params.deep_view());
                            }
                            match interpret_binds(&params, args, 0, vars, host, f) {
                                Ok(_) => {
                                    let ghost l1 = host.log@;
                                    let res = body.interpret(vars, host, f);
                                    proof {
                                        lemma_host_chain(l0, l1, host.log@);
                                    }
                                    res
                                },
                                Err(ft) => Err(ft),
                            }
                        },
                    },
                    _ => Ok(Value::Error("invalid function value".to_owned())),
                },
            },
            Node::HostFunction(_) => Err(Fatal::HostLeafEvaluated),
        }
    }
}

} // verus!
