//! Saving and restoring the scope state around an element.
use vstd::prelude::*;

use crate::parser::structs::ElementNode;
use crate::transform::context::{DirectiveScopes, TransformSfcContext};

verus! {

/// The scope state of the parent of an element, to be restored when leaving it.
pub struct ElementScopeSnapshot {
    pub parent_scope: u32,
    pub old_v_for_scope: bool,
    pub old_directive_v_for: u8,
    pub old_directive_v_slot: u8,
}

/// The snapshot of the state when entering an element under `parent_scope`.
pub open spec fn snapshot_of(ctx: TransformSfcContext, parent_scope: u32, v_for_scope: bool) -> ElementScopeSnapshot {
    ElementScopeSnapshot {
        parent_scope,
        old_v_for_scope: v_for_scope,
        old_directive_v_for: ctx.directive_scopes.v_for,
        old_directive_v_slot: ctx.directive_scopes.v_slot,
    }
}

/// The directive scopes that restoring `snapshot` puts back.
pub open spec fn restored_scopes(snapshot: ElementScopeSnapshot) -> DirectiveScopes {
    DirectiveScopes { v_for: snapshot.old_directive_v_for, v_slot: snapshot.old_directive_v_slot }
}

/// Enters an element: the element gets the current scope, and the state before
/// entering is given back for [`restore_element_scope_snapshot`].
pub fn enter_element_scope(
    ctx: &mut TransformSfcContext,
    element_node: &mut ElementNode,
    current_scope: &mut u32,
    v_for_scope: &mut bool,
) -> (snapshot: ElementScopeSnapshot)
    ensures
        snapshot == snapshot_of(*old(ctx), *old(current_scope), *old(v_for_scope)),
        final(element_node).template_scope == *old(current_scope),
        final(element_node).starting_tag == old(element_node).starting_tag,
        final(element_node).children == old(element_node).children,
        *final(current_scope) == *old(current_scope),
        *final(v_for_scope) == *old(v_for_scope),
        *final(ctx) == *old(ctx),
{
    let parent_scope = *current_scope;
    let snapshot = save_element_scope_snapshot(ctx, parent_scope, v_for_scope);
    let scope_to_use = parent_scope;

    element_node.template_scope = scope_to_use;
    *current_scope = scope_to_use;

    snapshot
}

/// The scope state to restore after an element.
pub fn save_element_scope_snapshot(ctx: &mut TransformSfcContext, parent_scope: u32, v_for_scope: &mut bool) -> (snapshot: ElementScopeSnapshot)
    ensures
        snapshot == snapshot_of(*old(ctx), parent_scope, *old(v_for_scope)),
        *final(ctx) == *old(ctx),
        *final(v_for_scope) == *old(v_for_scope),
{
    ElementScopeSnapshot {
        parent_scope,
        old_v_for_scope: *v_for_scope,
        old_directive_v_for: ctx.directive_scopes.v_for,
        old_directive_v_slot: ctx.directive_scopes.v_slot,
    }
}

/// Puts back the scope state saved in `snapshot`.
pub fn restore_element_scope_snapshot(
    ctx: &mut TransformSfcContext,
    snapshot: ElementScopeSnapshot,
    current_scope: &mut u32,
    v_for_scope: &mut bool,
)
    ensures
        *final(current_scope) == snapshot.parent_scope,
        *final(v_for_scope) == snapshot.old_v_for_scope,
        final(ctx).directive_scopes == restored_scopes(snapshot),
        final(ctx).bindings_helper == old(ctx).bindings_helper,
{
    *current_scope = snapshot.parent_scope;
    *v_for_scope = snapshot.old_v_for_scope;
    ctx.directive_scopes.v_for = snapshot.old_directive_v_for;
    ctx.directive_scopes.v_slot = snapshot.old_directive_v_slot;
}

/// Restoring what was saved gives back the state from before: the directive
/// scopes, the current scope and the `v-for` flag, whatever happened in between.
pub proof fn lemma_restore_undoes_save(ctx: TransformSfcContext, parent_scope: u32, v_for_scope: bool)
    ensures
        restored_scopes(snapshot_of(ctx, parent_scope, v_for_scope)) == ctx.directive_scopes,
        snapshot_of(ctx, parent_scope, v_for_scope).parent_scope == parent_scope,
        snapshot_of(ctx, parent_scope, v_for_scope).old_v_for_scope == v_for_scope,
{
}

} // verus!
