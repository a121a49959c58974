//! The sets of node and directive transforms, and the per-node transform state.
use vstd::prelude::*;

use crate::transform::context::TransformSfcContext;

verus! {

// Transforms hold no data, because they need to be copied;
// any state is kept on the context handed to them.

/// The transforms of the core compiler.
#[derive(Debug, Clone, Copy, PartialEq, Eq, Structural)]
pub struct BaseNodeTransform;

/// The transforms for the DOM.
#[derive(Debug, Clone, Copy, PartialEq, Eq, Structural)]
pub struct DomNodeTransform;

/// The transforms for server-side rendering.
#[derive(Debug, Clone, Copy, PartialEq, Eq, Structural)]
pub struct SsrNodeTransform;

/// Which node transforms are used.
#[derive(Debug, Clone, Copy, PartialEq, Eq, Structural)]
pub enum NodeTransformsProvider {
    Base(BaseNodeTransform),
    Dom(DomNodeTransform),
    Ssr(SsrNodeTransform),
}

impl Default for NodeTransformsProvider {
    /// The core transforms.
    fn default() -> (r: Self)
        ensures
            r == NodeTransformsProvider::Base(BaseNodeTransform),
    {
        Self::Base(BaseNodeTransform)
    }
}

/// The directive transforms of the core compiler.
#[derive(Debug, Clone, Copy, PartialEq, Eq, Structural)]
pub struct BaseDirectiveTransform;

/// The directive transforms for the DOM.
#[derive(Debug, Clone, Copy, PartialEq, Eq, Structural)]
pub struct DomDirectiveTransform;

/// Which directive transforms are used.
#[derive(Debug, Clone, Copy, PartialEq, Eq, Structural)]
pub enum DirectiveTransformsProvider {
    Base(BaseDirectiveTransform),
    Dom(DomDirectiveTransform),
}

impl Default for DirectiveTransformsProvider {
    /// The core directive transforms.
    fn default() -> (r: Self)
        ensures
            r == DirectiveTransformsProvider::Base(BaseDirectiveTransform),
    {
        Self::Base(BaseDirectiveTransform)
    }
}

/// The scope state of the transform of one node.
#[derive(Debug, PartialEq, Eq, Structural)]
pub struct TransformNodeState {
    // Scope management for template identifiers
    pub current_scope: u32,
    pub parent_scope: u32,
    // v-slot
    /// Some(value) marks the previous current scope
    pub slot_scopes: Option<u32>,
    /// Some(value) marks the previous current scope
    pub v_for_slot_scopes: Option<u32>,
    // v-for
    /// Some(value) marks the previous current scope
    pub for_scope: Option<u32>,
}

impl Default for TransformNodeState {
    /// Scope 0, with no slot or `v-for` scope.
    fn default() -> (r: Self)
        ensures
            r == (TransformNodeState {
                current_scope: 0,
                parent_scope: 0,
                slot_scopes: None,
                v_for_slot_scopes: None,
                for_scope: None,
            }),
    {
        TransformNodeState::new(0)
    }
}

impl TransformNodeState {
    /// The state of a node under `parent_scope`: it starts in its parent's scope.
    pub fn new(parent_scope: u32) -> (r: Self)
        ensures
            r == (TransformNodeState {
                current_scope: parent_scope,
                parent_scope,
                slot_scopes: None,
                v_for_slot_scopes: None,
                for_scope: None,
            }),
    {
        TransformNodeState {
            current_scope: parent_scope,
            parent_scope,
            slot_scopes: None,
            v_for_slot_scopes: None,
            for_scope: None,
        }
    }
}

/// Walks a template, keeping the current scope.
pub struct TemplateVisitor<'s> {
    pub ctx: &'s mut TransformSfcContext,
    pub current_scope: u32,
    pub v_for_scope: bool,
}

impl<'s> TemplateVisitor<'s> {
    /// A visitor at the root scope, outside any `v-for`.
    pub fn new(ctx: &'s mut TransformSfcContext) -> (r: TemplateVisitor<'s>)
        ensures
            r.current_scope == 0,
            !r.v_for_scope,
    {
        TemplateVisitor { ctx, current_scope: 0, v_for_scope: false }
    }
}

/// What a transform result is expected to be in tests.
#[derive(Clone, Copy, Debug, PartialEq, Eq, Structural)]
pub enum AssertType {
    CallExpression,
    ExpressionNode,
}

} // verus!
