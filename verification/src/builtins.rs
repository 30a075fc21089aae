//! The built-in registry and the host interface.
//!
//! Built-ins are host-provided callables exposed to the language as ordinary
//! function values: [`add_builtins`] binds each one in the environment as a
//! function whose body is the distinguished host-function leaf, so the
//! evaluator dispatches them through the same path as user functions. The
//! host itself — console output, line input — is whatever the surrounding
//! program supplies through the [`Host`] trait; it receives already-evaluated
//! arguments, never sees the environment, and may return anything.

use vstd::prelude::*;

use std::rc::Rc;

use crate::ast::{HostFn, Node};
use crate::env::Environment;
use crate::interpreter::Value;
use crate::render::{val_debug, val_display};
use crate::semantics::Val;

verus! {

/// One performed host invocation: which built-in ran, the argument values
/// it received, and the value it handed back.
pub struct HostCall {
    pub func: HostFn,
    pub args: Seq<Val>,
    pub reply: Val,
}

/// What the surrounding program supplies to run built-ins: the evaluator
/// calls `invoke` with the tag of the built-in and its evaluated arguments,
/// and uses whatever value comes back as the call's result. Nothing is
/// promised of that value; the evaluator's own contract holds whatever a
/// host returns.
pub trait Host {
    /// Performs the built-in `func` on `args` and returns the call's result.
    fn invoke(&mut self, func: HostFn, args: Vec<Value>) -> Value;
}

/// A host together with the history of the invocations it has performed,
/// oldest first. The evaluator runs built-ins through this wrapper, and its
/// contract speaks of the history: so it can say with which argument values
/// a built-in really is invoked, without promising anything of what the
/// unknown host does or returns.
pub struct LoggedHost<H> {
    /// The host itself.
    pub host: H,
    /// The invocations performed so far.
    pub log: Ghost<Seq<HostCall>>,
}

impl<H: Host> LoggedHost<H> {
    /// Wraps a host, with no invocations performed yet.
    pub fn new(host: H) -> (r: LoggedHost<H>)
        ensures
            r.log@ == Seq::<HostCall>::empty(),
    {
        LoggedHost { host, log: Ghost(Seq::empty()) }
    }

    /// Runs the built-in on the host and records the invocation: one entry,
    /// carrying the built-in, the argument values and the reply, is
    /// appended to the history.
    pub fn invoke(&mut self, func: HostFn, args: Vec<Value>) -> (r: Value)
        ensures
            final(self).log@ == old(self).log@.push(
                (HostCall { func, args: args.deep_view(), reply: r@ }),
            ),
    {
        let ghost argvals = args.deep_view();
        let r = self.host.invoke(func, args);
        self.log = Ghost(self.log@.push(HostCall { func, args: argvals, reply: r@ }));
        r
    }
}

/// The host history `after` carries `before` unchanged at its start.
pub open spec fn host_preserved(before: Seq<HostCall>, after: Seq<HostCall>) -> bool {
    after.len() >= before.len() && after.subrange(0, before.len() as int) == before
}

/// The host history `after` extends `before` with one or more invocations,
/// the first of which ran the built-in `func` on exactly the values `args`.
pub open spec fn calls_host(
    before: Seq<HostCall>,
    after: Seq<HostCall>,
    func: HostFn,
    args: Seq<Val>,
) -> bool {
    &&& after.len() > before.len()
    &&& after.subrange(0, before.len() as int) == before
    &&& after[before.len() as int].func == func
    &&& after[before.len() as int].args == args
}

/// Extending a history further never disturbs the invocation that began it.
pub proof fn lemma_host_chain(l0: Seq<HostCall>, l1: Seq<HostCall>, l2: Seq<HostCall>)
    requires
        l2 == l1 || host_preserved(l1, l2),
    ensures
        forall|func: HostFn, args: Seq<Val>| #[trigger] calls_host(l0, l1, func, args)
            ==> calls_host(l0, l2, func, args),
{
    if l2 != l1 {
        assert forall|func: HostFn, args: Seq<Val>| #[trigger] calls_host(
            l0,
            l1,
            func,
            args,
        ) implies calls_host(l0, l2, func, args) by {
            assert(l2.subrange(0, l0.len() as int) =~= l1.subrange(0, l0.len() as int));
            assert(l2[l0.len() as int] == l2.subrange(0, l1.len() as int)[l0.len() as int]);
        }
    }
}

/// Binds the built-in functions in the environment, each as a function value
/// with no declared parameters whose body is the host-function leaf: `print`
/// (display output), `dprint` (debug output) and `readlnn` (read a line as
/// an integer). User code may overwrite these bindings like any others.
pub fn add_builtins(vars: &mut Environment)
    ensures
        final(vars)@ == old(vars)@.insert(
            "print"@,
            Val::Function(Seq::empty(), Node::HostFunction(HostFn::Print)),
        ).insert(
            "dprint"@,
            Val::Function(Seq::empty(), Node::HostFunction(HostFn::DebugPrint)),
        ).insert(
            "readlnn"@,
            Val::Function(Seq::empty(), Node::HostFunction(HostFn::ReadNumber)),
        ),
{
    let no_params: Vec<String> = Vec::new();
    proof {
        assert(no_params.deep_view() =~= Seq::<Seq<char>>::empty());
    }
    let p1 = no_params.clone();
    let p2 = no_params.clone();
    let p3 = no_params;
    proof {
        assert(p1@ =~= Seq::<String>::empty());
        assert(p2@ =~= Seq::<String>::empty());
        assert(p1.deep_view() =~= Seq::<Seq<char>>::empty());
        assert(p2.deep_view() =~= Seq::<Seq<char>>::empty());
    }
    vars.insert(
        "print".to_owned(),
        Value::Function(p1, Rc::new(Node::HostFunction(HostFn::Print))),
    );
    vars.insert(
        "dprint".to_owned(),
        Value::Function(p2, Rc::new(Node::HostFunction(HostFn::DebugPrint))),
    );
    vars.insert(
        "readlnn".to_owned(),
        Value::Function(p3, Rc::new(Node::HostFunction(HostFn::ReadNumber))),
    );
}

/// The output line of the print built-ins: each value rendered, the
/// renderings separated by one space, and a newline at the end. The `debug`
/// flag picks the debug rendering over the display one.
pub open spec fn output_line(vals: Seq<Val>, debug: bool) -> Seq<char>
    decreases vals.len(),
{
    if vals.len() == 0 {
        "\n"@
    } else {
        (if debug {
            val_debug(vals[0])
        } else {
            val_display(vals[0])
        }) + (if vals.len() == 1 {
            "\n"@
        } else {
            " "@ + output_line(vals.drop_first(), debug)
        })
    }
}

/// The output line from position `i` on; see [`output_line`].
fn render_line_from(args: &Vec<Value>, i: usize, debug: bool) -> (r: String)
    requires
        i <= args.len(),
    ensures
        r@ == output_line(args.deep_view().skip(i as int), debug),
    decreases args.len() - i,
{
    proof {
        assert(args.deep_view().skip(i as int).len() == args.len() - i);
    }
    if i == args.len() {
        "\n".to_owned()
    } else {
        proof {
            assert(args.deep_view().skip(i as int)[0] == args@[i as int]@);
            assert(args.deep_view().skip(i as int).drop_first() =~= args.deep_view().skip(i + 1));
        }
        let mut s = if debug {
            args[i].debug_string()
        } else {
            args[i].display_string()
        };
        if i + 1 == args.len() {
            s.append("\n");
        } else {
            s.append(" ");
            let rest = render_line_from(args, i + 1, debug);
            s.append(rest.as_str());
        }
        s
    }
}

/// The line that the `print` (display) or `dprint` (debug) built-in writes
/// for the given arguments. The host performs the write; this computes the
/// exact text.
pub fn render_output_line(args: &Vec<Value>, debug: bool) -> (r: String)
    ensures
        r@ == output_line(args.deep_view(), debug),
{
    proof {
        assert(args.deep_view().skip(0) =~= args.deep_view());
    }
    render_line_from(args, 0, debug)
}

} // verus!
