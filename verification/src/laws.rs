//! The laws of the evaluator, stated over the mathematical semantics
//! [`eval`] and proved once and for all. Each law quantifies over every
//! environment and every sufficient step budget, so it speaks about every
//! run of [`crate::ast::Node::interpret`], whose contract is exact agreement
//! with `eval`.

use vstd::prelude::*;

use std::rc::Rc;

use vstd::arithmetic::div_mod::{
    lemma_div_is_ordered_by_denominator, lemma_div_nonincreasing, lemma_div_pos_is_pos,
    lemma_mod_division_less_than_divisor,
};

use crate::ast::{HostFn, Node, Operation};
use crate::semantics::{
    eval, eval_args, eval_binds, eval_nodes, eval_while, truthy, ArgsOutcome, Env, Outcome, Val,
};

verus! {

/// Division truncating toward zero, written out over the magnitudes.
pub open spec fn trunc_div(x: int, d: int) -> int {
    if x == 0 {
        0
    } else if x > 0 && d > 0 {
        x / d
    } else if x < 0 && d < 0 {
        (x * -1) / (d * -1)
    } else if x < 0 {
        ((x * -1) / d) * -1
    } else {
        (x / (d * -1)) * -1
    }
}

/// The remainder of division truncating toward zero: it carries the
/// dividend's sign.
pub open spec fn trunc_rem(x: int, d: int) -> int {
    if x == 0 {
        0
    } else if x > 0 && d > 0 {
        x % d
    } else if x < 0 && d < 0 {
        ((x * -1) % (d * -1)) * -1
    } else if x < 0 {
        ((x * -1) % d) * -1
    } else {
        x % (d * -1)
    }
}

/// The plain mathematical reading of each operator: exact sum, difference
/// and product, and division and remainder truncating toward zero.
pub open spec fn exact_op(op: Operation, x: i64, y: i64) -> int {
    match op {
        Operation::Add => x + y,
        Operation::Sub => x - y,
        Operation::Mul => x * y,
        Operation::Div => trunc_div(x as int, y as int),
        Operation::Mod => trunc_rem(x as int, y as int),
    }
}

/// Binary arithmetic on two integer literals is the plain arithmetic of the
/// operator: the sum, difference or product where it fits the fixed width,
/// and truncating division and remainder for a nonzero divisor (putting
/// aside the one divisor pair whose exact quotient exceeds the width, which
/// wraps). The environment comes through untouched.
pub proof fn lemma_binary_arithmetic(
    n: Node,
    l: Rc<Node>,
    r: Rc<Node>,
    op: Operation,
    x: i64,
    y: i64,
    env: Env,
    fuel: nat,
)
    requires
        n == Node::BinaryOp(l, op, r),
        *l == Node::Integer(x),
        *r == Node::Integer(y),
        fuel >= 2,
        op is Add ==> i64::MIN <= x + y <= i64::MAX,
        op is Sub ==> i64::MIN <= x - y <= i64::MAX,
        op is Mul ==> i64::MIN <= x * y <= i64::MAX,
        op is Div || op is Mod ==> y != 0 && !(x == i64::MIN && y == -1),
    ensures
        eval(n, env, fuel) == Outcome::Done(Val::Integer(exact_op(op, x, y) as i64), env),
        exact_op(op, x, y) == exact_op(op, x, y) as i64,
{
    let f = (fuel - 1) as nat;
    assert(eval(*l, env, f) == Outcome::Done(Val::Integer(x), env));
    assert(eval(*r, env, f) == Outcome::Done(Val::Integer(y), env));
    let xi = x as int;
    let yi = y as int;
    match op {
        Operation::Add => {},
        Operation::Sub => {},
        Operation::Mul => {},
        Operation::Div => {
            lemma_trunc_div_fits(xi, yi);
            assert(x.checked_div(y) == Some(trunc_div(xi, yi) as i64));
        },
        Operation::Mod => {
            lemma_trunc_rem_fits(xi, yi);
            assert(x.checked_rem(y) == Some(trunc_rem(xi, yi) as i64));
        },
    }
}

/// The truncating quotient of two 64-bit integers fits the width, put aside
/// the one pair whose exact quotient exceeds it.
proof fn lemma_trunc_div_fits(x: int, d: int)
    requires
        i64::MIN <= x <= i64::MAX,
        i64::MIN <= d <= i64::MAX,
        d != 0,
        !(x == i64::MIN && d == -1),
    ensures
        i64::MIN <= trunc_div(x, d) <= i64::MAX,
{
    if x == 0 {
    } else if x > 0 && d > 0 {
        lemma_div_pos_is_pos(x, d);
        lemma_div_nonincreasing(x, d);
    } else if x < 0 && d < 0 {
        let a = x * -1;
        let b = d * -1;
        lemma_div_pos_is_pos(a, b);
        lemma_div_nonincreasing(a, b);
        if a == 0x8000000000000000 {
            lemma_div_is_ordered_by_denominator(a, 2, b);
        }
    } else if x < 0 {
        let a = x * -1;
        lemma_div_pos_is_pos(a, d);
        lemma_div_nonincreasing(a, d);
    } else {
        let b = d * -1;
        lemma_div_pos_is_pos(x, b);
        lemma_div_nonincreasing(x, b);
    }
}

/// The truncating remainder of two 64-bit integers fits the width.
proof fn lemma_trunc_rem_fits(x: int, d: int)
    requires
        i64::MIN <= x <= i64::MAX,
        i64::MIN <= d <= i64::MAX,
        d != 0,
    ensures
        i64::MIN <= trunc_rem(x, d) <= i64::MAX,
{
    if x == 0 {
    } else if x > 0 && d > 0 {
        lemma_mod_division_less_than_divisor(x, d);
    } else if x < 0 && d < 0 {
        lemma_mod_division_less_than_divisor(x * -1, d * -1);
    } else if x < 0 {
        lemma_mod_division_less_than_divisor(x * -1, d);
    } else {
        lemma_mod_division_less_than_divisor(x, d * -1);
    }
}

/// Arithmetic on mixed operand kinds is a recoverable failure: an integer
/// combined with a string yields the type-mismatch error as an ordinary
/// value under every operator, never an evaluation-aborting outcome, and
/// the environment comes through untouched.
pub proof fn lemma_mixed_operands_recoverable(
    n: Node,
    l: Rc<Node>,
    r: Rc<Node>,
    op: Operation,
    x: i64,
    s: String,
    env: Env,
    fuel: nat,
)
    requires
        n == Node::BinaryOp(l, op, r),
        *l == Node::Integer(x),
        *r == Node::String(s),
        fuel >= 2,
    ensures
        eval(n, env, fuel) == Outcome::Done(Val::Error("not an integer"@), env),
{
    let f = (fuel - 1) as nat;
    assert(eval(*l, env, f) == Outcome::Done(Val::Integer(x), env));
    assert(eval(*r, env, f) == Outcome::Done(Val::String(s@), env));
}

/// Read-after-write visibility: once an assignment has bound a value under
/// a name, reading that name back from the environment the assignment left
/// behind yields that value, whatever step budget the read is given. The
/// two reserved names are excluded, since they never reach the environment.
pub proof fn lemma_read_after_write(
    assign: Node,
    read_back: Node,
    name: String,
    rhs: Rc<Node>,
    v: Val,
    env: Env,
    env1: Env,
    fuel: nat,
    fuel2: nat,
)
    requires
        assign == Node::VarSet(name, rhs),
        read_back == Node::Identifier(name),
        name@ != "none"@,
        name@ != "err"@,
        fuel >= 1,
        fuel2 >= 1,
        eval(*rhs, env, (fuel - 1) as nat) == Outcome::Done(v, env1),
    ensures
        eval(assign, env, fuel) == Outcome::Done(v, env1.insert(name@, v)),
        eval(read_back, env1.insert(name@, v), fuel2) == Outcome::Done(
            v,
            env1.insert(name@, v),
        ),
{
}

/// A loop whose condition comes out falsy evaluates its body zero times:
/// the loop reduces to the no-value marker and leaves the environment as
/// the condition's evaluation left it.
pub proof fn lemma_while_false_condition(
    loop_node: Node,
    cond: Rc<Node>,
    body: Rc<Node>,
    c: Val,
    env: Env,
    env1: Env,
    fuel: nat,
)
    requires
        loop_node == Node::While(cond, body),
        fuel >= 2,
        eval(*cond, env, (fuel - 2) as nat) == Outcome::Done(c, env1),
        !truthy(c),
    ensures
        eval(loop_node, env, fuel) == Outcome::Done(Val::Nothing, env1),
{
    assert(eval_while(*cond, *body, env, (fuel - 1) as nat, Val::Nothing) == Outcome::Done(
        Val::Nothing,
        env1,
    ));
}

/// Calling a user-defined function with the wrong number of arguments is
/// the recoverable arity-mismatch error, before any argument is evaluated:
/// the environment comes through untouched.
pub proof fn lemma_call_arity_mismatch(
    call: Node,
    fname: String,
    args: Vec<Rc<Node>>,
    params: Seq<Seq<char>>,
    body: Node,
    env: Env,
    fuel: nat,
)
    requires
        call == Node::FunctionCall(fname, args),
        fuel >= 1,
        env.contains_key(fname@),
        env[fname@] == Val::Function(params, body),
        !(body is HostFunction),
        args@.len() != params.len(),
    ensures
        eval(call, env, fuel) == Outcome::Done(Val::Error("argument count mismatch"@), env),
{
}

/// Calling a function under a parameter that merely hands the argument back
/// returns the argument's value: defining `f(p) { p }` and calling `f(e)`
/// yields whatever `e` evaluates to, with the parameter binding written
/// into the shared environment as the only further change.
pub proof fn lemma_identity_function_call(
    call: Node,
    fname: String,
    args: Vec<Rc<Node>>,
    arg: Rc<Node>,
    pname: String,
    body: Node,
    items: Vec<Rc<Node>>,
    ident: Rc<Node>,
    v: Val,
    env: Env,
    env1: Env,
    fuel: nat,
)
    requires
        call == Node::FunctionCall(fname, args),
        args@ == seq![arg],
        env.contains_key(fname@),
        env[fname@] == Val::Function(seq![pname@], body),
        body == Node::Block(items),
        items@ == seq![ident],
        *ident == Node::Identifier(pname),
        pname@ != "none"@,
        pname@ != "err"@,
        fuel >= 3,
        eval(*arg, env, (fuel - 1) as nat) == Outcome::Done(v, env1),
    ensures
        eval(call, env, fuel) == Outcome::Done(v, env1.insert(pname@, v)),
{
    let f = (fuel - 1) as nat;
    let params = seq![pname@];
    assert(params.drop_first() =~= Seq::<Seq<char>>::empty());
    assert(args@.drop_first() =~= Seq::<Rc<Node>>::empty());
    let env2 = env1.insert(pname@, v);
    assert(eval_binds(params, args@, env, f) == Outcome::Done(Val::Nothing, env2)) by {
        assert(args@[0] == arg);
        assert(eval_binds(Seq::<Seq<char>>::empty(), Seq::<Rc<Node>>::empty(), env2, f)
            == Outcome::Done(Val::Nothing, env2));
    }
    let fb = (f - 1) as nat;
    assert(items@.drop_first() =~= Seq::<Rc<Node>>::empty());
    assert(items@[0] == ident);
    assert(eval(*ident, env2, fb) == Outcome::Done(v, env2));
    assert(eval_nodes(Seq::<Rc<Node>>::empty(), env2, fb, v) == Outcome::Done(v, env2));
    assert(eval_nodes(items@, env2, fb, Val::Nothing) == Outcome::Done(v, env2));
    assert(eval(body, env2, f) == Outcome::Done(v, env2));
}

/// Calling a built-in reaches the host: when the called name is bound to a
/// function whose body is the host-function leaf, the argument expressions
/// are evaluated in order against the caller's environment, and evaluation
/// reaches an invocation of that built-in on exactly the collected values —
/// with no arity check, as built-ins declare no parameters. Through the
/// evaluator's contract, the wrapped host then really is invoked first on
/// that built-in and those values.
pub proof fn lemma_builtin_call_reaches_host(
    call: Node,
    fname: String,
    args: Vec<Rc<Node>>,
    params: Seq<Seq<char>>,
    body: Node,
    func: HostFn,
    vals: Seq<Val>,
    env: Env,
    env1: Env,
    fuel: nat,
)
    requires
        call == Node::FunctionCall(fname, args),
        fuel >= 1,
        env.contains_key(fname@),
        env[fname@] == Val::Function(params, body),
        body == Node::HostFunction(func),
        eval_args(args@, env, (fuel - 1) as nat) == ArgsOutcome::Done(vals, env1),
    ensures
        eval(call, env, fuel) == Outcome::ToHost(func, vals),
{
}

/// Calling a name that is not bound at all is the recoverable unknown-name
/// error, not an abort, and the environment comes through untouched.
pub proof fn lemma_call_unbound_name(
    call: Node,
    fname: String,
    args: Vec<Rc<Node>>,
    env: Env,
    fuel: nat,
)
    requires
        call == Node::FunctionCall(fname, args),
        fuel >= 1,
        !env.contains_key(fname@),
    ensures
        eval(call, env, fuel) == Outcome::Done(Val::Error("invalid function name"@), env),
{
}

/// Literals are pure: an integer or string literal reduces to its value
/// under every environment and every positive step budget, and leaves the
/// environment untouched — so evaluating it any number of times yields the
/// same value every time.
pub proof fn lemma_literal_pure(n: Node, env: Env, fuel: nat)
    requires
        fuel >= 1,
        n is Integer || n is String,
    ensures
        n matches Node::Integer(v) ==> eval(n, env, fuel) == Outcome::Done(Val::Integer(v), env),
        n matches Node::String(s) ==> eval(n, env, fuel) == Outcome::Done(Val::String(s@), env),
{
}

} // verus!
