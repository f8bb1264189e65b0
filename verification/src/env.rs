//! Environments: scopes of variables that nest.

use vstd::prelude::*;
use std::collections::HashMap;
use crate::variable::Variable;

verus! {

/// A scope of variables, with the scope around it if there is one.
#[derive(Debug, PartialEq)]
pub struct Environment<'a> {
    parent: Option<&'a Environment<'a>>,
    vars: HashMap<String, Variable>,
}

impl<'a> Environment<'a> {
    /// The scope around this one.
    pub closed spec fn enclosing(&self) -> Option<&'a Environment<'a>> {
        self.parent
    }

    /// The variables of this scope, by name.
    pub closed spec fn variables(&self) -> Map<String, Variable> {
        self.vars@
    }

    /// An outermost scope without variables.
    pub fn new() -> (e: Environment<'a>)
        ensures
            e.enclosing() is None,
            e.variables() == Map::<String, Variable>::empty(),
    {
        Environment { parent: None, vars: HashMap::new() }
    }

    /// A scope without variables inside the scope `env`.
    pub fn new_with_parent(env: &'a Environment) -> (e: Environment<'a>)
        ensures
            e.enclosing() == Some(env),
            e.variables() == Map::<String, Variable>::empty(),
    {
        Environment { parent: Some(env), vars: HashMap::new() }
    }

    /// The scope around this one.
    pub fn parent(&'a self) -> (p: Option<&'a Environment<'a>>)
        ensures
            p == self.enclosing(),
    {
        self.parent
    }
}

} // verus!
