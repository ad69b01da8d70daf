//! The environment, threaded through as an explicit value.
//!
//! The interpreter reads `PATH`, `HOME` and arbitrary `$NAME` references
//! during tokenization; it never writes the environment. Holding the
//! bindings in a value keeps every reader a pure, verified function and
//! lets callers inject an isolated environment.

use vstd::prelude::*;
use crate::text::str_eq;

verus! {

/// A set of environment bindings, ordered; the first pair whose name
/// matches decides a lookup.
pub struct Env {
    pub vars: Vec<(String, String)>,
}

/// The value bound to `name` by the first matching pair, if any.
pub open spec fn lookup_spec(vars: Seq<(String, String)>, name: Seq<char>) -> Option<Seq<char>>
    decreases vars.len(),
{
    if vars.len() == 0 {
        None
    } else if vars[0].0@ == name {
        Some(vars[0].1@)
    } else {
        lookup_spec(vars.drop_first(), name)
    }
}

impl Env {
    /// The value bound to `name`, if the environment holds one.
    pub open spec fn lookup_model(self, name: Seq<char>) -> Option<Seq<char>> {
        lookup_spec(self.vars@, name)
    }

    /// The text a `$name` reference expands to: the bound value, or empty
    /// when the variable is unset.
    pub open spec fn value_model(self, name: Seq<char>) -> Seq<char> {
        match self.lookup_model(name) {
            Some(v) => v,
            None => Seq::empty(),
        }
    }

    /// An environment with the given bindings.
    pub fn new(vars: Vec<(String, String)>) -> (r: Env)
        ensures
            r.vars == vars,
    {
        Env { vars }
    }

    /// The bound value of `name`, or `None` when it is unset.
    pub fn lookup(&self, name: &str) -> (r: Option<String>)
        ensures
            match r {
                Some(v) => self.lookup_model(name@) == Some(v@),
                None => self.lookup_model(name@) is None,
            },
    {
        let mut i: usize = 0;
        proof {
            assert(self.vars@.skip(0) =~= self.vars@);
        }
        while i < self.vars.len()
            invariant
                0 <= i <= self.vars@.len(),
                lookup_spec(self.vars@, name@) == lookup_spec(
                    self.vars@.skip(i as int),
                    name@,
                ),
            decreases self.vars@.len() - i,
        {
            proof {
                assert(self.vars@.skip(i as int).drop_first() =~= self.vars@.skip(i as int + 1));
            }
            if str_eq(self.vars[i].0.as_str(), name) {
                return Some(self.vars[i].1.clone());
            }
            i = i + 1;
        }
        None
    }

    /// The expansion of a `$name` reference: the bound value, or empty.
    pub fn value(&self, name: &str) -> (r: String)
        ensures
            r@ == self.value_model(name@),
    {
        match self.lookup(name) {
            Some(v) => v,
            None => String::new(),
        }
    }
}

} // verus!
