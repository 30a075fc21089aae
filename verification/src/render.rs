//! Deterministic, human-readable renderings.
//!
//! The tree gets one rendering ([`Node::render`]) that reconstructs operator
//! precedence with fully parenthesised infix notation and tags the statement
//! forms explicitly. A value gets two: a terse display form
//! ([`Value::display_string`]) for program output, where integers and text
//! print their raw content, and a debug form ([`Value::debug_string`]) that
//! names the variant so that it stays unambiguous about variant and payload.

use vstd::prelude::*;

use std::rc::Rc;

use crate::ast::{Node, Operation};
use crate::interpreter::Value;
use crate::semantics::Val;

verus! {

/// The decimal digit character for `d`, which must be below ten.
pub open spec fn digit_char(d: nat) -> char {
    if d == 0 {
        '0'
    } else if d == 1 {
        '1'
    } else if d == 2 {
        '2'
    } else if d == 3 {
        '3'
    } else if d == 4 {
        '4'
    } else if d == 5 {
        '5'
    } else if d == 6 {
        '6'
    } else if d == 7 {
        '7'
    } else if d == 8 {
        '8'
    } else {
        '9'
    }
}

/// The decimal numeral of a natural number, most significant digit first,
/// without leading zeros (zero itself is the single digit `0`).
pub open spec fn dec_str(n: nat) -> Seq<char>
    decreases n,
{
    if n < 10 {
        seq![digit_char(n)]
    } else {
        dec_str(n / 10).push(digit_char(n % 10))
    }
}

/// The decimal numeral of an integer: a minus sign before the numeral of
/// the magnitude when negative.
pub open spec fn int_str(v: int) -> Seq<char> {
    if v < 0 {
        seq!['-'] + dec_str((-v) as nat)
    } else {
        dec_str(v as nat)
    }
}

/// Whether `c` is a decimal digit.
pub open spec fn is_dec_digit(c: char) -> bool {
    '0' <= c && c <= '9'
}

/// The value of a decimal digit character.
pub open spec fn digit_of(c: char) -> nat {
    (c as int - '0' as int) as nat
}

/// The natural number a digit string denotes, most significant digit first.
pub open spec fn digits_val(s: Seq<char>) -> nat
    decreases s.len(),
{
    if s.len() == 0 {
        0
    } else {
        digits_val(s.drop_last()) * 10 + digit_of(s.last())
    }
}

/// Whether every character of `s` is a decimal digit.
pub open spec fn all_dec_digits(s: Seq<char>) -> bool {
    forall|i: int| 0 <= i < s.len() ==> is_dec_digit(s[i])
}

/// The integer a decimal string denotes: an optional sign, then at least one
/// digit, the whole within the 64-bit range — anything else is no integer.
pub open spec fn parsed_i64(s: Seq<char>) -> Option<i64> {
    let neg = s.len() > 0 && s[0] == '-';
    let mag = if s.len() > 0 && (s[0] == '-' || s[0] == '+') {
        s.subrange(1, s.len() as int)
    } else {
        s
    };
    if mag.len() == 0 || !all_dec_digits(mag) {
        None
    } else if neg {
        if digits_val(mag) <= 0x8000000000000000 {
            Some((0 - digits_val(mag)) as i64)
        } else {
            None
        }
    } else {
        if digits_val(mag) <= 0x7fffffffffffffff {
            Some(digits_val(mag) as i64)
        } else {
            None
        }
    }
}

/// A longer digit string never denotes a smaller number: the value of a
/// prefix is at most the value of the whole.
proof fn lemma_digits_val_prefix_le(s: Seq<char>, k: int)
    requires
        0 <= k <= s.len(),
    ensures
        digits_val(s.take(k)) <= digits_val(s),
    decreases s.len() - k,
{
    if k < s.len() {
        assert(s.take(k + 1).drop_last() =~= s.take(k));
        assert(s.take(k + 1).last() == s[k]);
        assert(digits_val(s.take(k + 1)) == digits_val(s.take(k)) * 10 + digit_of(s[k]));
        assert(digits_val(s.take(k)) <= digits_val(s.take(k)) * 10) by (nonlinear_arith);
        lemma_digits_val_prefix_le(s, k + 1);
    } else {
        assert(s.take(k) =~= s);
    }
}

/// Reads a decimal integer from a string: the exact inverse of the numeral
/// rendering, accepting an optional sign and rejecting anything that is not
/// a numeral within the 64-bit range.
pub fn parse_i64(s: &str) -> (r: Option<i64>)
    ensures
        r == parsed_i64(s@),
{
    let n = s.unicode_len();
    if n == 0 {
        return None;
    }
    let first = s.get_char(0);
    let fv: u32 = first as u32;
    proof {
        assert(first == '-' <==> first as u32 == 45);
        assert(first == '+' <==> first as u32 == 43);
    }
    let neg: bool = fv == 45;
    let has_sign: bool = fv == 45 || fv == 43;
    let start: usize = if has_sign {
        1
    } else {
        0
    };
    let ghost mag = if has_sign {
        s@.subrange(1, s@.len() as int)
    } else {
        s@
    };
    if start == n {
        return None;
    }
    let bound: u64 = if neg {
        9223372036854775808
    } else {
        9223372036854775807
    };
    let mut acc: u64 = 0;
    let mut i: usize = start;
    while i < n
        invariant
            start <= i <= n,
            n == s@.len(),
            n > 0,
            has_sign <==> (s@[0] == '-' || s@[0] == '+'),
            neg <==> s@[0] == '-',
            start == if has_sign { 1int } else { 0int },
            mag == s@.subrange(start as int, n as int),
            mag.len() == n - start > 0,
            neg ==> bound == 0x8000000000000000,
            !neg ==> bound == 0x7fffffffffffffff,
            all_dec_digits(mag.take(i - start)),
            acc == digits_val(mag.take(i - start)),
            acc <= bound,
        decreases n - i,
    {
        let c = s.get_char(i);
        let cv: u32 = c as u32;
        proof {
            assert(mag[i - start] == s@[i as int]);
            assert(('0' <= c && c <= '9') <==> (48 <= c as u32 && c as u32 <= 57));
        }
        if !(48 <= cv && cv <= 57) {
            proof {
                assert(!is_dec_digit(mag[i - start]));
                assert(!all_dec_digits(mag));
                assert(mag == (if s@.len() > 0 && (s@[0] == '-' || s@[0] == '+') {
                    s@.subrange(1, s@.len() as int)
                } else {
                    s@
                }));
                assert(parsed_i64(s@) is None);
            }
            return None;
        }
        let d: u64 = (c as u32 - 48) as u64;
        proof {
            assert(d == digit_of(c));
            assert(d <= 9);
            vstd::arithmetic::div_mod::lemma_fundamental_div_mod((bound - d) as int, 10);
        }
        if acc > (bound - d) / 10 {
            proof {
                assert(acc as int * 10 + d > bound) by (nonlinear_arith)
                    requires
                        acc as int > ((bound - d) as int) / 10,
                        (bound - d) as int == 10 * (((bound - d) as int) / 10) + ((bound
                            - d) as int) % 10,
                        0 <= ((bound - d) as int) % 10 < 10,
                        d <= 9,
                ;
                assert(mag.take(i - start + 1).drop_last() =~= mag.take(i - start));
                assert(mag.take(i - start + 1).last() == c);
                assert(digits_val(mag.take(i - start + 1)) == acc * 10 + d);
                lemma_digits_val_prefix_le(mag, i - start + 1);
                assert(digits_val(mag) > bound);
                assert(mag == (if s@.len() > 0 && (s@[0] == '-' || s@[0] == '+') {
                    s@.subrange(1, s@.len() as int)
                } else {
                    s@
                }));
                assert(parsed_i64(s@) is None);
            }
            return None;
        }
        proof {
            assert(acc as int * 10 + d <= bound) by (nonlinear_arith)
                requires
                    acc as int <= ((bound - d) as int) / 10,
                    (bound - d) as int == 10 * (((bound - d) as int) / 10) + ((bound - d) as int)
                        % 10,
                    0 <= ((bound - d) as int) % 10 < 10,
            ;
            assert(mag.take(i - start + 1).drop_last() =~= mag.take(i - start));
            assert(mag.take(i - start + 1).last() == c);
            assert(digits_val(mag.take(i - start + 1)) == acc * 10 + d);
        }
        acc = acc * 10 + d;
        i = i + 1;
    }
    proof {
        assert(mag.take(i - start) =~= mag);
    }
    if neg {
        if acc == 9223372036854775808 {
            Some(i64::MIN)
        } else {
            Some(0i64 - (acc as i64))
        }
    } else {
        Some(acc as i64)
    }
}

/// A comma-separated listing of names.
pub open spec fn names_list(ps: Seq<Seq<char>>) -> Seq<char>
    decreases ps.len(),
{
    if ps.len() == 0 {
        Seq::empty()
    } else if ps.len() == 1 {
        ps[0]
    } else {
        ps[0] + ", "@ + names_list(ps.drop_first())
    }
}

/// The display form of a value: integers and text print their raw content,
/// an error prints its message inside `Err(...)`, the no-value marker prints
/// a fixed marker, and a function prints a fixed marker with its parameter
/// list.
pub open spec fn val_display(v: Val) -> Seq<char> {
    match v {
        Val::Integer(i) => int_str(i as int),
        Val::String(s) => s,
        Val::Error(m) => "Err("@ + m + ")"@,
        Val::Nothing => "None"@,
        Val::Function(ps, _) => "Fn(["@ + names_list(ps) + "])"@,
    }
}

/// The debug form of a value: like the display form but naming the variant,
/// so that variant and payload stay unambiguous.
pub open spec fn val_debug(v: Val) -> Seq<char> {
    match v {
        Val::Integer(i) => "Integer("@ + int_str(i as int) + ")"@,
        Val::String(s) => "String("@ + s + ")"@,
        Val::Error(m) => "Err("@ + m + ")"@,
        Val::Nothing => "None"@,
        Val::Function(ps, _) => "Function(["@ + names_list(ps) + "])"@,
    }
}

/// The rendering of a node: fully parenthesised infix arithmetic, a minus
/// prefix for negation, quoted string literals, and explicit tags for the
/// block, loop, conditional and function forms.
pub open spec fn node_text(n: Node) -> Seq<char>
    decreases n,
{
    match n {
        Node::BinaryOp(l, op, r) => "("@ + node_text(*l) + " "@ + op_text(op) + " "@ + node_text(
            *r,
        ) + ")"@,
        Node::UnaryNegate(e) => "-"@ + node_text(*e),
        Node::Integer(v) => int_str(v as int),
        Node::String(s) => "\""@ + s@ + "\""@,
        Node::Identifier(s) => s@,
        Node::Block(lst) => "Block["@ + nodes_text(lst@) + "]"@,
        Node::VarSet(name, e) => name@ + " = "@ + node_text(*e),
        Node::While(c, b) => "While("@ + node_text(*c) + ")->"@ + node_text(*b),
        Node::IfElse(c, t, e) => "If("@ + node_text(*c) + ")->"@ + node_text(*t) + "->"@ + (match e {
            Some(x) => "Some("@ + node_text(*x) + ")"@,
            None => "None"@,
        }),
        Node::FunctionDefinition(name, ps, b) => "Fn("@ + name@ + ", ["@ + names_list(
            ps.deep_view(),
        ) + "], "@ + node_text(*b) + ")"@,
        Node::FunctionCall(name, args) => name@ + "(["@ + nodes_text(args@) + "])"@,
        Node::HostFunction(_) => "BuiltIn"@,
    }
}

/// A comma-separated listing of node renderings.
pub open spec fn nodes_text(ns: Seq<Rc<Node>>) -> Seq<char>
    decreases ns,
{
    if ns.len() == 0 {
        Seq::empty()
    } else if ns.len() == 1 {
        node_text(*ns[0])
    } else {
        node_text(*ns[0]) + ", "@ + nodes_text(ns.drop_first())
    }
}

/// The symbol of an arithmetic operator.
pub open spec fn op_text(op: Operation) -> Seq<char> {
    match op {
        Operation::Add => "+"@,
        Operation::Sub => "-"@,
        Operation::Mul => "*"@,
        Operation::Div => "/"@,
        Operation::Mod => "%"@,
    }
}

/// The one-character string of a decimal digit.
fn digit_string(d: u64) -> (r: String)
    requires
        d < 10,
    ensures
        r@ == seq![digit_char(d as nat)],
{
    if d == 0 {
        proof {
            reveal_strlit("0");
            assert("0"@ =~= seq!['0']);
        }
        "0".to_owned()
    } else if d == 1 {
        proof {
            reveal_strlit("1");
            assert("1"@ =~= seq!['1']);
        }
        "1".to_owned()
    } else if d == 2 {
        proof {
            reveal_strlit("2");
            assert("2"@ =~= seq!['2']);
        }
        "2".to_owned()
    } else if d == 3 {
        proof {
            reveal_strlit("3");
            assert("3"@ =~= seq!['3']);
        }
        "3".to_owned()
    } else if d == 4 {
        proof {
            reveal_strlit("4");
            assert("4"@ =~= seq!['4']);
        }
        "4".to_owned()
    } else if d == 5 {
        proof {
            reveal_strlit("5");
            assert("5"@ =~= seq!['5']);
        }
        "5".to_owned()
    } else if d == 6 {
        proof {
            reveal_strlit("6");
            assert("6"@ =~= seq!['6']);
        }
        "6".to_owned()
    } else if d == 7 {
        proof {
            reveal_strlit("7");
            assert("7"@ =~= seq!['7']);
        }
        "7".to_owned()
    } else if d == 8 {
        proof {
            reveal_strlit("8");
            assert("8"@ =~= seq!['8']);
        }
        "8".to_owned()
    } else {
        proof {
            reveal_strlit("9");
            assert("9"@ =~= seq!['9']);
        }
        "9".to_owned()
    }
}

/// The decimal numeral of a natural number as a string.
fn dec_string(n: u64) -> (r: String)
    ensures
        r@ == dec_str(n as nat),
    decreases n,
{
    if n < 10 {
        digit_string(n)
    } else {
        let mut s = dec_string(n / 10);
        let d = digit_string(n % 10);
        s.append(d.as_str());
        proof {
            assert(s@ =~= dec_str((n / 10) as nat).push(digit_char((n % 10) as nat)));
        }
        s
    }
}

/// The decimal numeral of an integer as a string.
pub fn int_string(v: i64) -> (r: String)
    ensures
        r@ == int_str(v as int),
{
    if v >= 0 {
        dec_string(v as u64)
    } else {
        let m: u64 = if v == i64::MIN {
            9223372036854775808u64
        } else {
            (-v) as u64
        };
        proof {
            assert(m as int == -(v as int));
            reveal_strlit("-");
            assert("-"@ =~= seq!['-']);
        }
        let mut s = "-".to_owned();
        let d = dec_string(m);
        s.append(d.as_str());
        s
    }
}

/// The comma-separated listing of the names from position `i` on.
fn names_list_string(ps: &Vec<String>, i: usize) -> (r: String)
    requires
        i <= ps.len(),
    ensures
        r@ == names_list(ps.deep_view().skip(i as int)),
    decreases ps.len() - i,
{
    proof {
        assert(ps.deep_view().skip(i as int).len() == ps.len() - i);
    }
    if i == ps.len() {
        String::new()
    } else if i + 1 == ps.len() {
        proof {
            assert(ps.deep_view().skip(i as int)[0] == ps@[i as int]@);
        }
        ps[i].clone()
    } else {
        proof {
            assert(ps.deep_view().skip(i as int)[0] == ps@[i as int]@);
            assert(ps.deep_view().skip(i as int).drop_first() =~= ps.deep_view().skip(i + 1));
        }
        let mut s = ps[i].clone();
        s.append(", ");
        let rest = names_list_string(ps, i + 1);
        s.append(rest.as_str());
        s
    }
}

impl Value {
    /// The display form of this value; see [`val_display`].
    pub fn display_string(&self) -> (r: String)
        ensures
            r@ == val_display(self@),
    {
        match self {
            Value::Integer(i) => int_string(*i),
            Value::String(s) => s.clone(),
            Value::Error(m) => {
                let mut s = "Err(".to_owned();
                s.append(m.as_str());
                s.append(")");
                s
            },
            Value::Nothing => "None".to_owned(),
            Value::Function(ps, _) => {
                let mut s = "Fn([".to_owned();
                proof {
                    assert(ps.deep_view().skip(0) =~= ps.deep_view());
                }
                let names = names_list_string(ps, 0);
                s.append(names.as_str());
                s.append("])");
                s
            },
        }
    }

    /// The debug form of this value; see [`val_debug`].
    pub fn debug_string(&self) -> (r: String)
        ensures
            r@ == val_debug(self@),
    {
        match self {
            Value::Integer(i) => {
                let mut s = "Integer(".to_owned();
                let num = int_string(*i);
                s.append(num.as_str());
                s.append(")");
                s
            },
            Value::String(v) => {
                let mut s = "String(".to_owned();
                s.append(v.as_str());
                s.append(")");
                s
            },
            Value::Error(m) => {
                let mut s = "Err(".to_owned();
                s.append(m.as_str());
                s.append(")");
                s
            },
            Value::Nothing => "None".to_owned(),
            Value::Function(ps, _) => {
                let mut s = "Function([".to_owned();
                proof {
                    assert(ps.deep_view().skip(0) =~= ps.deep_view());
                }
                let names = names_list_string(ps, 0);
                s.append(names.as_str());
                s.append("])");
                s
            },
        }
    }
}

/// The comma-separated listing of the renderings of the nodes from
/// position `i` on.
fn render_nodes(ns: &Vec<Rc<Node>>, i: usize) -> (r: String)
    requires
        i <= ns.len(),
    ensures
        r@ == nodes_text(ns@.skip(i as int)),
    decreases ns@.skip(i as int),
{
    proof {
        assert(ns@.skip(i as int).len() == ns.len() - i);
    }
    if i == ns.len() {
        String::new()
    } else if i + 1 == ns.len() {
        proof {
            assert(ns@.skip(i as int)[0] == ns@[i as int]);
        }
        ns[i].render()
    } else {
        proof {
            assert(ns@.skip(i as int)[0] == ns@[i as int]);
            assert(ns@.skip(i as int).drop_first() =~= ns@.skip(i + 1));
            assert(ns@.skip(i as int).drop_first() == ns@.skip(i + 1));
        }
        let mut s = ns[i].render();
        s.append(", ");
        let rest = render_nodes(ns, i + 1);
        s.append(rest.as_str());
        s
    }
}

impl Node {
    /// The rendering of this node; see [`node_text`].
    pub fn render(&self) -> (r: String)
        ensures
            r@ == node_text(*self),
        decreases *self,
    {
        match self {
            Node::BinaryOp(l, op, r) => {
                let mut s = "(".to_owned();
                let lt = l.render();
                s.append(lt.as_str());
                s.append(" ");
                let ot = op_string(*op);
                s.append(ot);
                s.append(" ");
                let rt = r.render();
                s.append(rt.as_str());
                s.append(")");
                s
            },
            Node::UnaryNegate(e) => {
                let mut s = "-".to_owned();
                let et = e.render();
                s.append(et.as_str());
                s
            },
            Node::Integer(v) => int_string(*v),
            Node::String(v) => {
                let mut s = "\"".to_owned();
                s.append(v.as_str());
                s.append("\"");
                s
            },
            Node::Identifier(v) => v.clone(),
            Node::Block(lst) => {
                let mut s = "Block[".to_owned();
                proof {
                    assert(lst@.skip(0) =~= lst@);
                    assert(lst@.skip(0) == lst@);
                }
                let body = render_nodes(lst, 0);
                s.append(body.as_str());
                s.append("]");
                s
            },
            Node::VarSet(name, e) => {
                let mut s = name.clone();
                s.append(" = ");
                let et = e.render();
                s.append(et.as_str());
                s
            },
            Node::While(c, b) => {
                let mut s = "While(".to_owned();
                let ct = c.render();
                s.append(ct.as_str());
                s.append(")->");
                let bt = b.render();
                s.append(bt.as_str());
                s
            },
            Node::IfElse(c, t, e) => {
                let mut s = "If(".to_owned();
                let ct = c.render();
                s.append(ct.as_str());
                s.append(")->");
                let tt = t.render();
                s.append(tt.as_str());
                s.append("->");
                match e {
                    Some(x) => {
                        s.append("Some(");
                        let xt = x.render();
                        s.append(xt.as_str());
                        s.append(")");
                    },
                    None => {
                        s.append("None");
                    },
                }
                s
            },
            Node::FunctionDefinition(name, ps, b) => {
                let mut s = "Fn(".to_owned();
                s.append(name.as_str());
                s.append(", [");
                proof {
                    assert(ps.deep_view().skip(0) =~= ps.deep_view());
                }
                let names = names_list_string(ps, 0);
                s.append(names.as_str());
                s.append("], ");
                let bt = b.render();
                s.append(bt.as_str());
                s.append(")");
                s
            },
            Node::FunctionCall(name, args) => {
                let mut s = name.clone();
                s.append("([");
                proof {
                    assert(args@.skip(0) =~= args@);
                    assert(args@.skip(0) == args@);
                }
                let at = render_nodes(args, 0);
                s.append(at.as_str());
                s.append("])");
                s
            },
            Node::HostFunction(_) => "BuiltIn".to_owned(),
        }
    }
}

/// The symbol of an arithmetic operator as a string slice.
pub fn op_string(op: Operation) -> (r: &'static str)
    ensures
        r@ == op_text(op),
{
    match op {
        Operation::Add => "+",
        Operation::Sub => "-",
        Operation::Mul => "*",
        Operation::Div => "/",
        Operation::Mod => "%",
    }
}

} // verus!
