//! The helpers imported from `vue` by the generated code.
use vstd::prelude::*;

use crate::compiler::codegen::CodegenContext;
use crate::text::{chars_of, push_str, string_from_range, to_owned_string};

verus! {

/// The helpers of `vue` that the generated code may import.
#[derive(Clone, Copy, PartialEq, Eq, Structural, Debug)]
pub enum VueImports {
    CreateBlock,
    CreateCommentVNode,
    CreateElementBlock,
    CreateElementVNode,
    CreateTextVNode,
    CreateVNode,
    Fragment,
    KeepAlive,
    NormalizeClass,
    NormalizeStyle,
    OpenBlock,
    RenderList,
    RenderSlot,
    ResolveComponent,
    ResolveDirective,
    ResolveDynamicComponent,
    Suspense,
    Teleport,
    ToDisplayString,
    Transition,
    TransitionGroup,
    VModelCheckbox,
    VModelRadio,
    VModelSelect,
    VModelText,
    VShow,
    WithCtx,
    WithDirectives,
    WithModifiers,
}

/// The local name under which a helper is imported.
pub open spec fn import_name(v: VueImports) -> Seq<char> {
    match v {
        VueImports::CreateBlock => "_createBlock"@,
        VueImports::CreateCommentVNode => "_createCommentVNode"@,
        VueImports::CreateElementBlock => "_createElementBlock"@,
        VueImports::CreateElementVNode => "_createElementVNode"@,
        VueImports::CreateTextVNode => "_createTextVNode"@,
        VueImports::CreateVNode => "_createVNode"@,
        VueImports::Fragment => "_Fragment"@,
        VueImports::KeepAlive => "_KeepAlive"@,
        VueImports::NormalizeClass => "_normalizeClass"@,
        VueImports::NormalizeStyle => "_normalizeStyle"@,
        VueImports::OpenBlock => "_openBlock"@,
        VueImports::RenderList => "_renderList"@,
        VueImports::RenderSlot => "_renderSlot"@,
        VueImports::ResolveComponent => "_resolveComponent"@,
        VueImports::ResolveDirective => "_resolveDirective"@,
        VueImports::ResolveDynamicComponent => "_resolveDynamicComponent"@,
        VueImports::Suspense => "_Suspense"@,
        VueImports::Teleport => "_Teleport"@,
        VueImports::ToDisplayString => "_toDisplayString"@,
        VueImports::Transition => "_Transition"@,
        VueImports::TransitionGroup => "_TransitionGroup"@,
        VueImports::VModelCheckbox => "_vModelCheckbox"@,
        VueImports::VModelRadio => "_vModelRadio"@,
        VueImports::VModelSelect => "_vModelSelect"@,
        VueImports::VModelText => "_vModelText"@,
        VueImports::VShow => "_vShow"@,
        VueImports::WithCtx => "_withCtx"@,
        VueImports::WithDirectives => "_withDirectives"@,
        VueImports::WithModifiers => "_withModifiers"@,
    }
}

/// The position of the bit of a helper in the mask of used imports.
pub open spec fn import_shift(v: VueImports) -> u64 {
    match v {
        VueImports::CreateBlock => 0u64,
        VueImports::CreateCommentVNode => 1u64,
        VueImports::CreateElementBlock => 2u64,
        VueImports::CreateElementVNode => 3u64,
        VueImports::CreateTextVNode => 4u64,
        VueImports::CreateVNode => 5u64,
        VueImports::Fragment => 6u64,
        VueImports::KeepAlive => 7u64,
        VueImports::NormalizeClass => 25u64,
        VueImports::NormalizeStyle => 26u64,
        VueImports::OpenBlock => 34u64,
        VueImports::RenderList => 35u64,
        VueImports::RenderSlot => 36u64,
        VueImports::ResolveComponent => 37u64,
        VueImports::ResolveDirective => 38u64,
        VueImports::ResolveDynamicComponent => 39u64,
        VueImports::Suspense => 40u64,
        VueImports::Teleport => 41u64,
        VueImports::ToDisplayString => 42u64,
        VueImports::Transition => 43u64,
        VueImports::TransitionGroup => 44u64,
        VueImports::VModelCheckbox => 45u64,
        VueImports::VModelRadio => 46u64,
        VueImports::VModelSelect => 47u64,
        VueImports::VModelText => 48u64,
        VueImports::VShow => 49u64,
        VueImports::WithCtx => 55u64,
        VueImports::WithDirectives => 56u64,
        VueImports::WithModifiers => 57u64,
    }
}

/// The bit of a helper in the mask of used imports.
pub open spec fn import_bit(v: VueImports) -> u64 {
    1u64 << import_shift(v)
}

/// The position of each helper in the generated import list.
pub open spec fn import_at(i: int) -> VueImports {
    if i == 0 {
        VueImports::CreateBlock
    } else if i == 1 {
        VueImports::CreateCommentVNode
    } else if i == 2 {
        VueImports::CreateElementBlock
    } else if i == 3 {
        VueImports::CreateElementVNode
    } else if i == 4 {
        VueImports::CreateTextVNode
    } else if i == 5 {
        VueImports::CreateVNode
    } else if i == 6 {
        VueImports::Fragment
    } else if i == 7 {
        VueImports::KeepAlive
    } else if i == 8 {
        VueImports::NormalizeClass
    } else if i == 9 {
        VueImports::NormalizeStyle
    } else if i == 10 {
        VueImports::OpenBlock
    } else if i == 11 {
        VueImports::RenderList
    } else if i == 12 {
        VueImports::RenderSlot
    } else if i == 13 {
        VueImports::ResolveComponent
    } else if i == 14 {
        VueImports::ResolveDirective
    } else if i == 15 {
        VueImports::ResolveDynamicComponent
    } else if i == 16 {
        VueImports::Suspense
    } else if i == 17 {
        VueImports::Teleport
    } else if i == 18 {
        VueImports::ToDisplayString
    } else if i == 19 {
        VueImports::Transition
    } else if i == 20 {
        VueImports::TransitionGroup
    } else if i == 21 {
        VueImports::VModelCheckbox
    } else if i == 22 {
        VueImports::VModelRadio
    } else if i == 23 {
        VueImports::VModelSelect
    } else if i == 24 {
        VueImports::VModelText
    } else if i == 25 {
        VueImports::VShow
    } else if i == 26 {
        VueImports::WithCtx
    } else if i == 27 {
        VueImports::WithDirectives
    } else {
        VueImports::WithModifiers
    }
}

/// The number of helpers.
pub open spec fn import_count() -> int {
    29
}

pub open spec fn is_import_used(mask: u64, v: VueImports) -> bool {
    mask & import_bit(v) != 0
}

/// The used helpers among the first `n`, in order.
pub open spec fn used_imports_upto(mask: u64, n: int) -> Seq<VueImports>
    decreases n,
{
    if n <= 0 {
        Seq::empty()
    } else {
        used_imports_upto(mask, n - 1) + (if is_import_used(mask, import_at(n - 1)) {
            seq![import_at(n - 1)]
        } else {
            Seq::empty()
        })
    }
}

/// `s` without its first character.
pub open spec fn tail(s: Seq<char>) -> Seq<char> {
    if s.len() > 0 {
        s.drop_first()
    } else {
        s
    }
}

/// `createBlock as _createBlock`
pub open spec fn import_entry(v: VueImports) -> Seq<char> {
    tail(import_name(v)) + " as "@ + import_name(v)
}

pub open spec fn join_imports(s: Seq<VueImports>) -> Seq<char>
    decreases s.len(),
{
    if s.len() == 0 {
        Seq::empty()
    } else if s.len() == 1 {
        import_entry(s[0])
    } else {
        join_imports(s.drop_last()) + ", "@ + import_entry(s.last())
    }
}

/// `import { a as _a, b as _b } from "vue"` for the helpers of the mask.
pub open spec fn spec_imports_string(mask: u64) -> Seq<char> {
    "import { "@ + join_imports(used_imports_upto(mask, import_count())) + " } from \"vue\""@
}

/// The helper at position `i` of the import list.
pub fn import_at_index(i: usize) -> (v: VueImports)
    requires
        i < 29,
    ensures
        v == import_at(i as int),
{
    match i {
        0 => VueImports::CreateBlock,
        1 => VueImports::CreateCommentVNode,
        2 => VueImports::CreateElementBlock,
        3 => VueImports::CreateElementVNode,
        4 => VueImports::CreateTextVNode,
        5 => VueImports::CreateVNode,
        6 => VueImports::Fragment,
        7 => VueImports::KeepAlive,
        8 => VueImports::NormalizeClass,
        9 => VueImports::NormalizeStyle,
        10 => VueImports::OpenBlock,
        11 => VueImports::RenderList,
        12 => VueImports::RenderSlot,
        13 => VueImports::ResolveComponent,
        14 => VueImports::ResolveDirective,
        15 => VueImports::ResolveDynamicComponent,
        16 => VueImports::Suspense,
        17 => VueImports::Teleport,
        18 => VueImports::ToDisplayString,
        19 => VueImports::Transition,
        20 => VueImports::TransitionGroup,
        21 => VueImports::VModelCheckbox,
        22 => VueImports::VModelRadio,
        23 => VueImports::VModelSelect,
        24 => VueImports::VModelText,
        25 => VueImports::VShow,
        26 => VueImports::WithCtx,
        27 => VueImports::WithDirectives,
        _ => VueImports::WithModifiers,
    }
}

impl<'a> CodegenContext<'a> {
    /// Marks a helper as used.
    pub fn add_to_imports(&mut self, vue_import: VueImports)
        ensures
            final(self).used_imports == old(self).used_imports | import_bit(vue_import),
            final(self).code_helper == old(self).code_helper,
            final(self).components == old(self).components,
            final(self).directives == old(self).directives,
            final(self).hoists == old(self).hoists,
            final(self).is_custom_element == old(self).is_custom_element,
    {
        self.used_imports = self.used_imports | Self::get_import_mask_bit(vue_import);
    }

    /// The local name of a helper.
    pub fn get_import_str(vue_import: VueImports) -> (r: &'static str)
        ensures
            r@ == import_name(vue_import),
    {
        match vue_import {
            VueImports::CreateBlock => "_createBlock",
            VueImports::CreateCommentVNode => "_createCommentVNode",
            VueImports::CreateElementBlock => "_createElementBlock",
            VueImports::CreateElementVNode => "_createElementVNode",
            VueImports::CreateTextVNode => "_createTextVNode",
            VueImports::CreateVNode => "_createVNode",
            VueImports::Fragment => "_Fragment",
            VueImports::KeepAlive => "_KeepAlive",
            VueImports::NormalizeClass => "_normalizeClass",
            VueImports::NormalizeStyle => "_normalizeStyle",
            VueImports::OpenBlock => "_openBlock",
            VueImports::RenderList => "_renderList",
            VueImports::RenderSlot => "_renderSlot",
            VueImports::ResolveComponent => "_resolveComponent",
            VueImports::ResolveDirective => "_resolveDirective",
            VueImports::ResolveDynamicComponent => "_resolveDynamicComponent",
            VueImports::Suspense => "_Suspense",
            VueImports::Teleport => "_Teleport",
            VueImports::ToDisplayString => "_toDisplayString",
            VueImports::Transition => "_Transition",
            VueImports::TransitionGroup => "_TransitionGroup",
            VueImports::VModelCheckbox => "_vModelCheckbox",
            VueImports::VModelRadio => "_vModelRadio",
            VueImports::VModelSelect => "_vModelSelect",
            VueImports::VModelText => "_vModelText",
            VueImports::VShow => "_vShow",
            VueImports::WithCtx => "_withCtx",
            VueImports::WithDirectives => "_withDirectives",
            VueImports::WithModifiers => "_withModifiers",
        }
    }

    /// Marks a helper as used and gives its local name.
    pub fn get_and_add_import_str(&mut self, vue_import: VueImports) -> (r: &'static str)
        ensures
            r@ == import_name(vue_import),
            final(self).used_imports == old(self).used_imports | import_bit(vue_import),
            final(self).code_helper == old(self).code_helper,
            final(self).components == old(self).components,
            final(self).directives == old(self).directives,
            final(self).hoists == old(self).hoists,
            final(self).is_custom_element == old(self).is_custom_element,
    {
        self.add_to_imports(vue_import);
        Self::get_import_str(vue_import)
    }

    /// The import statement for the used helpers, in a fixed order.
    pub fn generate_imports_string(&self) -> (r: String)
        ensures
            r@ == spec_imports_string(self.used_imports),
    {
        let imports_mask = self.used_imports;
        let mut result = to_owned_string("import { ");
        let mut has_first_import = false;
        let mut i: usize = 0;
        while i < 29
            invariant
                i <= 29,
                imports_mask == self.used_imports,
                has_first_import == (used_imports_upto(imports_mask, i as int).len() > 0),
                result@ == "import { "@ + join_imports(used_imports_upto(imports_mask, i as int)),
            decreases 29 - i,
        {
            let import = import_at_index(i);
            let ghost before = used_imports_upto(imports_mask, i as int);
            if imports_mask & Self::get_import_mask_bit(import) != 0 {
                if has_first_import {
                    push_str(&mut result, ", ");
                }
                let import_str = Self::get_import_str(import);
                let cs = chars_of(import_str);
                let rest = if cs.len() > 0 {
                    string_from_range(&cs, 1, cs.len())
                } else {
                    string_from_range(&cs, 0, 0)
                };
                push_str(&mut result, rest.as_str());
                push_str(&mut result, " as ");
                push_str(&mut result, import_str);
                proof {
                    let now = used_imports_upto(imports_mask, i + 1);
                    assert(now == before + seq![import]);
                    assert(now.drop_last() =~= before);
                    if cs.len() > 0 {
                        assert(cs@.subrange(1, cs@.len() as int) =~= tail(import_name(import)));
                    } else {
                        assert(cs@.subrange(0, 0) =~= tail(import_name(import)));
                    }
                    if before.len() == 0 {
                        assert(result@ =~= "import { "@ + join_imports(now));
                    } else {
                        assert(result@ =~= "import { "@ + join_imports(now));
                    }
                }
                has_first_import = true;
            } else {
                proof {
                    assert(used_imports_upto(imports_mask, i + 1) =~= before);
                }
            }
            i = i + 1;
        }
        push_str(&mut result, " } from \"vue\"");
        result
    }

    /// The bit of a helper in the mask of used imports.
    pub fn get_import_mask_bit(vue_import: VueImports) -> (r: u64)
        ensures
            r == import_bit(vue_import),
    {
        match vue_import {
            VueImports::CreateBlock => 1u64 << 0u64,
            VueImports::CreateCommentVNode => 1u64 << 1u64,
            VueImports::CreateElementBlock => 1u64 << 2u64,
            VueImports::CreateElementVNode => 1u64 << 3u64,
            VueImports::CreateTextVNode => 1u64 << 4u64,
            VueImports::CreateVNode => 1u64 << 5u64,
            VueImports::Fragment => 1u64 << 6u64,
            VueImports::KeepAlive => 1u64 << 7u64,
            VueImports::NormalizeClass => 1u64 << 25u64,
            VueImports::NormalizeStyle => 1u64 << 26u64,
            VueImports::OpenBlock => 1u64 << 34u64,
            VueImports::RenderList => 1u64 << 35u64,
            VueImports::RenderSlot => 1u64 << 36u64,
            VueImports::ResolveComponent => 1u64 << 37u64,
            VueImports::ResolveDirective => 1u64 << 38u64,
            VueImports::ResolveDynamicComponent => 1u64 << 39u64,
            VueImports::Suspense => 1u64 << 40u64,
            VueImports::Teleport => 1u64 << 41u64,
            VueImports::ToDisplayString => 1u64 << 42u64,
            VueImports::Transition => 1u64 << 43u64,
            VueImports::TransitionGroup => 1u64 << 44u64,
            VueImports::VModelCheckbox => 1u64 << 45u64,
            VueImports::VModelRadio => 1u64 << 46u64,
            VueImports::VModelSelect => 1u64 << 47u64,
            VueImports::VModelText => 1u64 << 48u64,
            VueImports::VShow => 1u64 << 49u64,
            VueImports::WithCtx => 1u64 << 55u64,
            VueImports::WithDirectives => 1u64 << 56u64,
            VueImports::WithModifiers => 1u64 << 57u64,
        }
    }
}


proof fn lemma_shift_nonzero(k: u64)
    requires
        k < 64,
    ensures
        (1u64 << k) != 0,
{
    assert((1u64 << k) != 0) by (bit_vector)
        requires
            k < 64,
    ;
}

/// Every helper has a bit of its own in the mask.
pub proof fn lemma_import_bit_nonzero(v: VueImports)
    ensures
        import_bit(v) != 0,
{
    lemma_shift_nonzero(import_shift(v));
}

/// Adding a helper to the used imports marks it used, keeps every helper that was
/// used, and adding it again changes nothing.
pub proof fn lemma_add_import(mask: u64, v: VueImports, w: VueImports)
    ensures
        is_import_used(mask | import_bit(v), v),
        is_import_used(mask, w) ==> is_import_used(mask | import_bit(v), w),
        (mask | import_bit(v)) | import_bit(v) == mask | import_bit(v),
{
    lemma_import_bit_nonzero(v);
    let b = import_bit(v);
    let c = import_bit(w);
    assert((mask | b) & b == b) by (bit_vector);
    assert((mask & c) != 0 ==> ((mask | b) & c) != 0) by (bit_vector);
    assert((mask | b) | b == mask | b) by (bit_vector);
}

} // verus!
