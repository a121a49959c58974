//! Where the variables of template expressions come from.
use vstd::prelude::*;

use crate::text::str_eq;

verus! {

/// The scope a variable was found in.
#[derive(Clone, Copy, PartialEq, Eq, Structural, Debug)]
pub enum VarScopeDescriptor {
    Builtin,
    Data,
    Global,
    Props,
    Options,
    Setup,
    Template(u32),
    Unknown,
}

pub open spec fn spec_prefix(d: VarScopeDescriptor) -> Seq<char> {
    match d {
        VarScopeDescriptor::Builtin => ""@,
        VarScopeDescriptor::Data => "$data."@,
        VarScopeDescriptor::Global => "_ctx."@,
        VarScopeDescriptor::Props => "$props."@,
        VarScopeDescriptor::Options => "$options."@,
        VarScopeDescriptor::Setup => "$setup."@,
        VarScopeDescriptor::Template(_) => ""@,
        VarScopeDescriptor::Unknown => "_ctx."@,
    }
}

impl VarScopeDescriptor {
    /// The prefix a variable of this scope takes in the render function.
    pub fn get_prefix(&self) -> (r: &'static str)
        ensures
            r@ == spec_prefix(*self),
    {
        match self {
            Self::Builtin => "",
            Self::Data => "$data.",
            Self::Global => "_ctx.",
            Self::Props => "$props.",
            Self::Options => "$options.",
            Self::Setup => "$setup.",
            Self::Template(_) => "",
            Self::Unknown => "_ctx.",
        }
    }
}

/// A scope of the template: the variables it introduces and its parent scope.
/// A root scope is its own parent.
pub struct Scope {
    pub variables: Vec<String>,
    pub parent: u32,
}

/// The variables known to a component, and the scopes of its template.
pub struct ScopeHelper {
    pub template_scopes: Vec<Scope>,
    pub setup_vars: Vec<String>,
    pub props_vars: Vec<String>,
    pub data_vars: Vec<String>,
    pub options_vars: Vec<String>,
    pub globals: Vec<String>,
}

impl Default for ScopeHelper {
    fn default() -> (r: Self)
        ensures
            r.template_scopes@.len() == 0,
            r.setup_vars@.len() == 0,
            r.props_vars@.len() == 0,
            r.data_vars@.len() == 0,
            r.options_vars@.len() == 0,
            r.globals@.len() == 0,
    {
        ScopeHelper {
            template_scopes: Vec::new(),
            setup_vars: Vec::new(),
            props_vars: Vec::new(),
            data_vars: Vec::new(),
            options_vars: Vec::new(),
            globals: Vec::new(),
        }
    }
}

pub open spec fn spec_contains(vars: Seq<String>, name: Seq<char>) -> bool {
    exists|k: int| 0 <= k < vars.len() && #[trigger] vars[k]@ == name
}

/// The names that JavaScript itself provides.
pub open spec fn spec_is_js_builtin(name: Seq<char>) -> bool {
    name == "true"@ || name == "false"@ || name == "null"@ || name == "undefined"@ || name
        == "Array"@ || name == "Set"@ || name == "Map"@
}

/// Following parents from scope `i` reaches, within `n` steps, a root scope or
/// an index outside of the scopes.
pub open spec fn chain_ends(scopes: Seq<Scope>, i: int, n: nat) -> bool
    decreases n,
{
    if i < 0 || i >= scopes.len() || scopes[i].parent == i {
        true
    } else if n == 0 {
        false
    } else {
        chain_ends(scopes, scopes[i].parent as int, (n - 1) as nat)
    }
}

/// The first scope on the parent chain from `i` that introduces `name`.
pub open spec fn template_lookup(scopes: Seq<Scope>, i: int, name: Seq<char>, n: nat) -> Option<u32>
    decreases n,
{
    if i < 0 || i >= scopes.len() {
        None
    } else if spec_contains(scopes[i].variables@, name) {
        Some(i as u32)
    } else if scopes[i].parent == i || n == 0 {
        None
    } else {
        template_lookup(scopes, scopes[i].parent as int, name, (n - 1) as nat)
    }
}

/// With enough steps to reach the end of the chain, the lookup does not depend on the steps given.
pub proof fn lemma_lookup_fuel(scopes: Seq<Scope>, i: int, name: Seq<char>, n: nat, m: nat)
    requires
        chain_ends(scopes, i, n),
        n <= m,
    ensures
        chain_ends(scopes, i, m),
        template_lookup(scopes, i, name, n) == template_lookup(scopes, i, name, m),
    decreases n,
{
    if i < 0 || i >= scopes.len() || scopes[i].parent == i {
    } else {
        lemma_lookup_fuel(scopes, scopes[i].parent as int, name, (n - 1) as nat, (m - 1) as nat);
    }
}

impl ScopeHelper {
    /// The scope of `variable`, looked up from `starting_scope` whose parent chain ends in `n` steps:
    /// a JavaScript builtin, a global, the nearest template scope that introduces it,
    /// then setup, props, data and options, and otherwise unknown.
    pub open spec fn spec_find_scope(&self, starting_scope: u32, variable: Seq<char>, n: nat) -> VarScopeDescriptor {
        if spec_is_js_builtin(variable) {
            VarScopeDescriptor::Builtin
        } else if spec_contains(self.globals@, variable) {
            VarScopeDescriptor::Global
        } else if let Some(i) = template_lookup(self.template_scopes@, starting_scope as int, variable, n) {
            VarScopeDescriptor::Template(i)
        } else if spec_contains(self.setup_vars@, variable) {
            VarScopeDescriptor::Setup
        } else if spec_contains(self.props_vars@, variable) {
            VarScopeDescriptor::Props
        } else if spec_contains(self.data_vars@, variable) {
            VarScopeDescriptor::Data
        } else if spec_contains(self.options_vars@, variable) {
            VarScopeDescriptor::Options
        } else {
            VarScopeDescriptor::Unknown
        }
    }

    pub fn add_template_scope(&mut self, scope: Scope)
        ensures
            final(self).template_scopes@ == old(self).template_scopes@.push(scope),
            final(self).setup_vars == old(self).setup_vars,
            final(self).props_vars == old(self).props_vars,
            final(self).data_vars == old(self).data_vars,
            final(self).options_vars == old(self).options_vars,
            final(self).globals == old(self).globals,
    {
        self.template_scopes.push(scope)
    }

    pub fn add_template_scopes(&mut self, scopes: Vec<Scope>)
        ensures
            final(self).template_scopes@ == old(self).template_scopes@ + scopes@,
            final(self).setup_vars == old(self).setup_vars,
            final(self).props_vars == old(self).props_vars,
            final(self).data_vars == old(self).data_vars,
            final(self).options_vars == old(self).options_vars,
            final(self).globals == old(self).globals,
    {
        let mut scopes = scopes;
        self.template_scopes.append(&mut scopes)
    }

    /// Finds where `variable` comes from, starting at the template scope `starting_scope`.
    pub fn find_scope_of_variable(&self, starting_scope: u32, variable: &str) -> (r: VarScopeDescriptor)
        requires
            exists|n: nat| chain_ends(self.template_scopes@, starting_scope as int, n),
        ensures
            forall|n: nat|
                chain_ends(self.template_scopes@, starting_scope as int, n) ==> r == self.spec_find_scope(
                    starting_scope,
                    variable@,
                    n,
                ),
    {
        let ghost fuel0: nat = choose|n: nat| chain_ends(self.template_scopes@, starting_scope as int, n);
        proof {
            assert forall|n: nat| chain_ends(self.template_scopes@, starting_scope as int, n) implies
                template_lookup(self.template_scopes@, starting_scope as int, variable@, n)
                == template_lookup(self.template_scopes@, starting_scope as int, variable@, fuel0) by {
                if n <= fuel0 {
                    lemma_lookup_fuel(self.template_scopes@, starting_scope as int, variable@, n, fuel0);
                } else {
                    lemma_lookup_fuel(self.template_scopes@, starting_scope as int, variable@, fuel0, n);
                }
            }
        }

        // Check builtins and globals
        if is_js_builtin(variable) {
            return VarScopeDescriptor::Builtin;
        }
        if contains_str(&self.globals, variable) {
            return VarScopeDescriptor::Global;
        }

        // Check template scope
        let mut current_scope_index = starting_scope;
        let ghost mut fuel = fuel0;
        while (current_scope_index as usize) < self.template_scopes.len()
            invariant
                !spec_is_js_builtin(variable@),
                !spec_contains(self.globals@, variable@),
                forall|n: nat| chain_ends(self.template_scopes@, starting_scope as int, n) ==>
                    template_lookup(self.template_scopes@, starting_scope as int, variable@, n)
                    == template_lookup(self.template_scopes@, starting_scope as int, variable@, fuel0),
                chain_ends(self.template_scopes@, current_scope_index as int, fuel),
                template_lookup(self.template_scopes@, starting_scope as int, variable@, fuel0)
                    == template_lookup(self.template_scopes@, current_scope_index as int, variable@, fuel),
            ensures
                template_lookup(self.template_scopes@, starting_scope as int, variable@, fuel0) is None,
            decreases fuel,
        {
            let current_scope = &self.template_scopes[current_scope_index as usize];
            if contains_str(&current_scope.variables, variable) {
                return VarScopeDescriptor::Template(current_scope_index);
            }
            // A root scope has itself as a parent
            if current_scope.parent == current_scope_index {
                break;
            }
            current_scope_index = current_scope.parent;
            proof {
                fuel = (fuel - 1) as nat;
            }
        }

        // Check setup vars, props, data and options
        if contains_str(&self.setup_vars, variable) {
            return VarScopeDescriptor::Setup;
        }
        if contains_str(&self.props_vars, variable) {
            return VarScopeDescriptor::Props;
        }
        if contains_str(&self.data_vars, variable) {
            return VarScopeDescriptor::Data;
        }
        if contains_str(&self.options_vars, variable) {
            return VarScopeDescriptor::Options;
        }
        VarScopeDescriptor::Unknown
    }
}

pub fn is_js_builtin(name: &str) -> (r: bool)
    ensures
        r == spec_is_js_builtin(name@),
{
    str_eq(name, "true") || str_eq(name, "false") || str_eq(name, "null") || str_eq(name, "undefined")
        || str_eq(name, "Array") || str_eq(name, "Set") || str_eq(name, "Map")
}

/// Whether one of `vars` is `name`.
pub fn contains_str(vars: &Vec<String>, name: &str) -> (r: bool)
    ensures
        r == spec_contains(vars@, name@),
{
    let mut k: usize = 0;
    while k < vars.len()
        invariant
            k <= vars.len(),
            forall|j: int| 0 <= j < k ==> #[trigger] vars@[j]@ != name@,
        decreases vars.len() - k,
    {
        if str_eq(vars[k].as_str(), name) {
            return true;
        }
        k = k + 1;
    }
    false
}


/// A lookup from `i` finds a scope on the parent chain that introduces the name.
pub proof fn lemma_template_lookup_found(scopes: Seq<Scope>, i: int, name: Seq<char>, n: nat)
    requires
        i <= u32::MAX,
    ensures
        template_lookup(scopes, i, name, n) matches Some(j) ==> 0 <= j < scopes.len() && spec_contains(
            scopes[j as int].variables@,
            name,
        ),
    decreases n,
{
    if 0 <= i < scopes.len() && !spec_contains(scopes[i].variables@, name) && scopes[i].parent != i && n > 0 {
        lemma_template_lookup_found(scopes, scopes[i].parent as int, name, (n - 1) as nat);
    }
}

/// A variable found in a template scope is one of that scope's variables, and
/// neither a JavaScript builtin nor a global.
pub proof fn lemma_found_template_scope_holds_variable(helper: ScopeHelper, starting_scope: u32, variable: Seq<char>, n: nat)
    ensures
        helper.spec_find_scope(starting_scope, variable, n) matches VarScopeDescriptor::Template(j) ==> {
            &&& (j as int) < helper.template_scopes@.len()
            &&& spec_contains(helper.template_scopes@[j as int].variables@, variable)
            &&& !spec_is_js_builtin(variable)
            &&& !spec_contains(helper.globals@, variable)
        },
{
    lemma_template_lookup_found(helper.template_scopes@, starting_scope as int, variable, n);
}

} // verus!
