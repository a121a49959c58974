//! Rewriting the identifiers of a template expression to where they come from.
use vstd::prelude::*;

use crate::analyzer::scope::{chain_ends, spec_prefix, ScopeHelper};
use crate::analyzer::scope_walk::{lemma_parents_before_chain_ends, parents_before};
use crate::text::push_str;

verus! {

impl ScopeHelper {
    /// Whether every template scope has its parent at or before it, so that every
    /// parent chain ends.
    pub fn parents_ordered(&self) -> (r: bool)
        ensures
            r == parents_before(self.template_scopes@),
            r ==> forall|i: int| 0 <= i ==> #[trigger] chain_ends(self.template_scopes@, i, i as nat),
    {
        let mut j: usize = 0;
        while j < self.template_scopes.len()
            invariant
                j <= self.template_scopes@.len(),
                forall|k: int| 0 <= k < j ==> (#[trigger] self.template_scopes@[k]).parent <= k,
            decreases self.template_scopes@.len() - j,
        {
            if (self.template_scopes[j].parent as usize) > j {
                return false;
            }
            j = j + 1;
        }
        proof {
            assert forall|i: int| 0 <= i implies #[trigger] chain_ends(self.template_scopes@, i, i as nat) by {
                lemma_parents_before_chain_ends(self.template_scopes@, i);
            }
        }
        true
    }

    /// The identifier `symbol`, used in the template scope `scope_to_use`, as the
    /// render function writes it: behind the prefix of the scope it comes from.
    pub fn scoped_identifier(&self, scope_to_use: u32, symbol: &str) -> (r: String)
        requires
            exists|n: nat| chain_ends(self.template_scopes@, scope_to_use as int, n),
        ensures
            forall|n: nat|
                chain_ends(self.template_scopes@, scope_to_use as int, n) ==> r@ == spec_prefix(
                    self.spec_find_scope(scope_to_use, symbol@, n),
                ) + symbol@,
    {
        let scope = self.find_scope_of_variable(scope_to_use, symbol);
        let prefix = scope.get_prefix();
        let mut new_symbol = String::new();
        push_str(&mut new_symbol, prefix);
        push_str(&mut new_symbol, symbol);
        new_symbol
    }
}

} // verus!
