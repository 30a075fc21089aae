//! The variable environment: one flat, mutable mapping from name to value,
//! shared by every nested evaluation of a run. There is no call-stack or
//! lexical scoping: defining a function, setting a variable, and binding a
//! call argument all write into the same map.

use vstd::prelude::*;

use crate::interpreter::Value;
use crate::semantics::{Env, Val};

verus! {

/// The environment is a list of bindings where the latest binding of a name
/// wins; its abstract content is the [`Env`] map the bindings build up.
pub struct Environment {
    entries: Vec<(String, Value)>,
}

/// The map that a binding list denotes: each binding, in order, overwrites
/// the name it binds.
pub open spec fn env_map(s: Seq<(String, Value)>) -> Env
    decreases s.len(),
{
    if s.len() == 0 {
        Map::empty()
    } else {
        env_map(s.drop_last()).insert(s.last().0@, s.last().1@)
    }
}

impl View for Environment {
    type V = Env;

    closed spec fn view(&self) -> Env {
        env_map(self.entries@)
    }
}

/// Looks a name up among the first `n` bindings, latest first.
fn lookup_prefix(entries: &Vec<(String, Value)>, n: usize, name: &String) -> (r: Option<Value>)
    requires
        n <= entries.len(),
    ensures
        match r {
            Some(v) => env_map(entries@.take(n as int)).contains_key(name@) && v@ == env_map(
                entries@.take(n as int),
            )[name@],
            None => !env_map(entries@.take(n as int)).contains_key(name@),
        },
    decreases n,
{
    if n == 0 {
        proof {
            assert(entries@.take(0).len() == 0);
        }
        None
    } else {
        proof {
            assert(entries@.take(n as int).drop_last() =~= entries@.take(n - 1));
            assert(entries@.take(n as int).last() == entries@[n - 1]);
        }
        if entries[n - 1].0 == *name {
            Some(entries[n - 1].1.clone())
        } else {
            lookup_prefix(entries, n - 1, name)
        }
    }
}

impl Environment {
    /// An empty environment: no name is bound.
    pub fn new() -> (r: Environment)
        ensures
            r@ == Map::<Seq<char>, Val>::empty(),
    {
        Environment { entries: Vec::new() }
    }

    /// The value bound to `name`, if any.
    pub fn get(&self, name: &String) -> (r: Option<Value>)
        ensures
            match r {
                Some(v) => self@.contains_key(name@) && v@ == self@[name@],
                None => !self@.contains_key(name@),
            },
    {
        proof {
            assert(self.entries@.take(self.entries@.len() as int) =~= self.entries@);
        }
        lookup_prefix(&self.entries, self.entries.len(), name)
    }

    /// Binds `value` under `name`, overwriting any earlier binding of the
    /// same name.
    pub fn insert(&mut self, name: String, value: Value)
        ensures
            final(self)@ == old(self)@.insert(name@, value@),
    {
        let ghost before = self.entries@;
        self.entries.push((name, value));
        proof {
            assert(self.entries@.drop_last() =~= before);
        }
    }
}

} // verus!
