//! The patch flags of an element's props: what each attribute, binding and listener
//! marks, and the flags that the marks give.
use vstd::prelude::*;

use crate::text::str_eq;
use crate::transform::patch_flags::{
    analyze_patch_flag, event_markers, names_view, same_flags, spec_analyze, value_markers, PatchMarkers,
};

verus! {

pub const PATCH_CLASS: u32 = 2;

pub const PATCH_STYLE: u32 = 4;

pub const PATCH_PROPS: u32 = 8;

pub const PATCH_FULL_PROPS: u32 = 16;

pub const PATCH_NEED_HYDRATION: u32 = 32;

pub const PATCH_NEED_PATCH: u32 = 512;

/// The argument of a binding or listener: a static name or an expression.
pub enum PropArg {
    Static(String),
    Dynamic(String),
}

/// An attribute of an element as its props read it.
pub enum PropAttr {
    /// `name="value"`
    Regular { name: String, value: String },
    /// `v-bind:arg`, or `v-bind="object"` without argument; `is_prop` for the `.prop`
    /// modifier, `is_constant` when its value does not change
    Bind { arg: Option<PropArg>, is_prop: bool, is_constant: bool },
    /// `v-on`: `key` is the handler key that its transform gives (such as `onClick`),
    /// none for `v-on="object"`; `event` is the event name as written
    On { event: Option<PropArg>, key: Option<PropArg>, has_handler: bool, is_constant: bool },
}

/// The errors of props.
#[derive(Clone, Copy, PartialEq, Eq, Structural, Debug)]
pub enum PropsError {
    /// `v-on="..."` without an expression
    VOnNoExpression,
    /// `v-slot` on an element that is not a component
    VSlotMisplaced,
}

/// What the props of an element show: the markers, the flags set directly, how many
/// `ref_for` markers are added, and the errors with the index of their attribute.
pub struct PropsMarks {
    pub markers: PatchMarkers,
    pub flags: u32,
    pub ref_for_count: usize,
    pub errors: Vec<(PropsError, usize)>,
}

/// The element, as the rules of its props read it.
#[derive(Clone, Copy, PartialEq, Eq, Structural, Debug)]
pub struct PropsContext {
    pub is_component: bool,
    pub is_dynamic_component: bool,
    /// The element is `<component>`
    pub is_component_tag: bool,
    pub ssr: bool,
    pub has_children: bool,
    /// The element is inside a `v-for`
    pub in_v_for: bool,
}

pub struct MarksView {
    pub m: PatchMarkers,
    pub names: Seq<Seq<char>>,
    pub flags: u32,
    pub ref_for: nat,
    pub errors: Seq<(PropsError, usize)>,
}

pub open spec fn static_arg(a: Option<PropArg>) -> Option<Seq<char>> {
    match a {
        Some(PropArg::Static(s)) => Some(s@),
        _ => None,
    }
}

pub open spec fn ref_for(st: MarksView, c: PropsContext) -> MarksView {
    if c.in_v_for {
        MarksView { ref_for: st.ref_for + 1, ..st }
    } else {
        st
    }
}

#[verifier::opaque]
pub open spec fn analyzed(st: MarksView, key: Option<Seq<char>>, is_constant: bool, c: PropsContext) -> MarksView {
    if c.ssr {
        st
    } else {
        let (m, names) = spec_analyze(st.m, st.names, key, is_constant, c.is_component, c.is_dynamic_component);
        MarksView { m, names, ..st }
    }
}

/// What the attribute at index `i` marks: a `ref` attribute or binding adds a
/// `ref_for` marker inside `v-for`; `is` on `<component>` (or `is="vue:..."`) is
/// skipped; a `:key` forces a block; `v-bind="object"` and `v-on="object"` make the
/// keys dynamic; `.prop` needs hydration; bindings and listeners with a key are
/// analysed; an inline `vue:before-update` hook on an element with children forces
/// and requires a block. Listeners are left out when rendering on the server.
pub open spec fn mark_step(st: MarksView, a: PropAttr, i: usize, c: PropsContext) -> MarksView {
    match a {
        PropAttr::Regular { name, value } => if name@ == "ref"@ {
            ref_for(MarksView { m: PatchMarkers { has_ref: true, ..st.m }, ..st }, c)
        } else {
            st
        },
        PropAttr::Bind { arg, is_prop, is_constant } => if static_arg(arg) == Some("is"@) && c.is_component_tag {
            st
        } else {
            let st1 = if static_arg(arg) == Some("key"@) {
                MarksView { m: PatchMarkers { should_use_block: true, ..st.m }, ..st }
            } else {
                st
            };
            let st2 = if static_arg(arg) == Some("ref"@) {
                ref_for(st1, c)
            } else {
                st1
            };
            if arg is None {
                ref_for(MarksView { m: PatchMarkers { has_dynamic_keys: true, ..st2.m }, ..st2 }, c)
            } else {
                let st3 = if is_prop {
                    MarksView { flags: st2.flags | PATCH_NEED_HYDRATION, ..st2 }
                } else {
                    st2
                };
                analyzed(st3, static_arg(arg), is_constant, c)
            }
        },
        PropAttr::On { event, key, has_handler, is_constant } => if c.ssr {
            st
        } else {
            let st1 = if c.has_children && (static_arg(event) == Some("vue:before-update"@) || static_arg(event)
                == Some("vue:beforeUpdate"@)) {
                MarksView { m: PatchMarkers { should_use_block: true, is_block_required: true, ..st.m }, ..st }
            } else {
                st
            };
            if event is None {
                let st2 = MarksView { m: PatchMarkers { has_dynamic_keys: true, ..st1.m }, ..st1 };
                if has_handler {
                    st2
                } else {
                    MarksView { errors: st2.errors.push((PropsError::VOnNoExpression, i)), ..st2 }
                }
            } else {
                analyzed(st1, static_arg(key), is_constant, c)
            }
        },
    }
}

pub open spec fn marks_fold(attrs: Seq<PropAttr>, init: MarksView, c: PropsContext, k: nat) -> MarksView
    decreases k,
{
    if k == 0 {
        init
    } else {
        mark_step(marks_fold(attrs, init, c, (k - 1) as nat), attrs[k - 1], (k - 1) as usize, c)
    }
}

/// The directives of the element: a `v-slot` that is misplaced on an element, and
/// custom directives, which force and require a block when there are children.
pub open spec fn mark_directives(st: MarksView, has_v_slot: bool, custom_directives: nat, n: usize, c: PropsContext) -> MarksView {
    let st1 = if has_v_slot && !c.is_component {
        MarksView { errors: st.errors.push((PropsError::VSlotMisplaced, n)), ..st }
    } else {
        st
    };
    if custom_directives > 0 && c.has_children {
        MarksView { m: PatchMarkers { should_use_block: true, is_block_required: true, ..st1.m }, ..st1 }
    } else {
        st1
    }
}

/// The flags the marks give: `FULL_PROPS` for dynamic keys, else `CLASS` and `STYLE`
/// for bindings of an element, `PROPS` for changing props, and `NEED_HYDRATION` for
/// hydration listeners.
pub open spec fn spec_props_flags(st: MarksView, is_component: bool) -> u32 {
    if st.m.has_dynamic_keys {
        st.flags | PATCH_FULL_PROPS
    } else {
        let f1 = if st.m.has_class_binding && !is_component { st.flags | PATCH_CLASS } else { st.flags };
        let f2 = if st.m.has_style_binding && !is_component { f1 | PATCH_STYLE } else { f1 };
        let f3 = if st.names.len() > 0 { f2 | PATCH_PROPS } else { f2 };
        if st.m.has_hydration_event_binding { f3 | PATCH_NEED_HYDRATION } else { f3 }
    }
}

/// The vnode needs patching when it has no flags (or only `NEED_HYDRATION`) but a
/// ref, a vnode hook or runtime directives.
pub open spec fn spec_needs_patch(st: MarksView, flags: u32, has_runtime_directives: bool) -> bool {
    (flags == 0 || flags == PATCH_NEED_HYDRATION) && (st.m.has_ref || st.m.has_vnode_hook || has_runtime_directives)
}

/// The flags, with `NEED_PATCH` added when patching is needed and there is no block.
pub open spec fn spec_final_flags(st: MarksView, is_component: bool, has_runtime_directives: bool) -> u32 {
    let flags = spec_props_flags(st, is_component);
    if !st.m.should_use_block && spec_needs_patch(st, flags, has_runtime_directives) {
        flags | PATCH_NEED_PATCH
    } else {
        flags
    }
}

pub open spec fn marks_view(r: PropsMarks) -> MarksView {
    MarksView {
        m: r.markers,
        names: names_view(r.markers.dynamic_prop_names@),
        flags: r.flags,
        ref_for: r.ref_for_count as nat,
        errors: r.errors@,
    }
}

pub open spec fn marks_match(a: MarksView, b: MarksView) -> bool {
    &&& same_flags(a.m, b.m)
    &&& a.names == b.names
    &&& a.flags == b.flags
    &&& a.ref_for == b.ref_for
    &&& a.errors == b.errors
}

/// No marks yet (the names of the markers are held apart, in `names`).
pub open spec fn initial_marks() -> MarksView {
    MarksView {
        m: PatchMarkers {
            dynamic_prop_names: vstd::pervasive::arbitrary(),
            has_class_binding: false,
            has_dynamic_keys: false,
            has_hydration_event_binding: false,
            has_ref: false,
            has_runtime_directives: false,
            has_style_binding: false,
            has_vnode_hook: false,
            should_use_block: false,
            is_block_required: false,
        },
        names: Seq::empty(),
        flags: 0,
        ref_for: 0,
        errors: Seq::empty(),
    }
}

/// The analysis of a property reads only the flags of the markers and the names.
proof fn lemma_analyze_congruence(
    a: PatchMarkers,
    b: PatchMarkers,
    names: Seq<Seq<char>>,
    key: Option<Seq<char>>,
    is_constant: bool,
    is_component: bool,
    is_dynamic_component: bool,
)
    requires
        same_flags(a, b),
    ensures
        same_flags(
            spec_analyze(a, names, key, is_constant, is_component, is_dynamic_component).0,
            spec_analyze(b, names, key, is_constant, is_component, is_dynamic_component).0,
        ),
        spec_analyze(a, names, key, is_constant, is_component, is_dynamic_component).1 == spec_analyze(
            b,
            names,
            key,
            is_constant,
            is_component,
            is_dynamic_component,
        ).1,
{
    if let Some(name) = key {
        let ea = event_markers(a, name, is_component, is_dynamic_component);
        let eb = event_markers(b, name, is_component, is_dynamic_component);
        assert(same_flags(ea, eb));
        if !is_constant {
            let va = value_markers(ea, names, name, is_component);
            let vb = value_markers(eb, names, name, is_component);
            assert(same_flags(va.0, vb.0));
        }
    }
}

proof fn lemma_analyzed_congruence(a: MarksView, b: MarksView, key: Option<Seq<char>>, is_constant: bool, c: PropsContext)
    requires
        marks_match(a, b),
    ensures
        marks_match(analyzed(a, key, is_constant, c), analyzed(b, key, is_constant, c)),
{
    reveal(analyzed);
    lemma_analyze_congruence(a.m, b.m, a.names, key, is_constant, c.is_component, c.is_dynamic_component);
}

#[verifier::spinoff_prover]
#[verifier::rlimit(50)]
proof fn lemma_step_congruence(a: MarksView, b: MarksView, attr: PropAttr, i: usize, c: PropsContext)
    requires
        marks_match(a, b),
    ensures
        marks_match(mark_step(a, attr, i, c), mark_step(b, attr, i, c)),
{
    match attr {
        PropAttr::Bind { arg, is_prop, is_constant } => {
            let ka = if static_arg(arg) == Some("key"@) { MarksView { m: PatchMarkers { should_use_block: true, ..a.m }, ..a } } else { a };
            let kb = if static_arg(arg) == Some("key"@) { MarksView { m: PatchMarkers { should_use_block: true, ..b.m }, ..b } } else { b };
            let ra = ref_for(ka, c);
            let rb = ref_for(kb, c);
            let ta = if static_arg(arg) == Some("ref"@) { ra } else { ka };
            let tb = if static_arg(arg) == Some("ref"@) { rb } else { kb };
            let pa = if is_prop { MarksView { flags: ta.flags | PATCH_NEED_HYDRATION, ..ta } } else { ta };
            let pb = if is_prop { MarksView { flags: tb.flags | PATCH_NEED_HYDRATION, ..tb } } else { tb };
            assert(marks_match(pa, pb));
            lemma_analyzed_congruence(pa, pb, static_arg(arg), is_constant, c);
        },
        PropAttr::On { event, key, has_handler, is_constant } => {
            let ka = if c.has_children && (static_arg(event) == Some("vue:before-update"@) || static_arg(event)
                == Some("vue:beforeUpdate"@)) {
                MarksView { m: PatchMarkers { should_use_block: true, is_block_required: true, ..a.m }, ..a }
            } else {
                a
            };
            let kb = if c.has_children && (static_arg(event) == Some("vue:before-update"@) || static_arg(event)
                == Some("vue:beforeUpdate"@)) {
                MarksView { m: PatchMarkers { should_use_block: true, is_block_required: true, ..b.m }, ..b }
            } else {
                b
            };
            assert(marks_match(ka, kb));
            lemma_analyzed_congruence(ka, kb, static_arg(key), is_constant, c);
        },
        _ => {},
    }
}

fn static_arg_is(arg: &Option<PropArg>, name: &str) -> (r: bool)
    ensures
        r == (static_arg(*arg) == Some(name@)),
{
    match arg {
        Some(PropArg::Static(s)) => str_eq(s.as_str(), name),
        _ => false,
    }
}

fn arg_name(arg: &Option<PropArg>) -> (r: Option<&str>)
    ensures
        match r {
            Some(s) => static_arg(*arg) == Some(s@),
            None => static_arg(*arg) is None,
        },
{
    match arg {
        Some(PropArg::Static(s)) => Some(s.as_str()),
        _ => None,
    }
}

impl PropsMarks {
    /// Marks what the attribute at index `i` shows.
    #[verifier::spinoff_prover]
    #[verifier::rlimit(50)]
    fn mark(&mut self, a: &PropAttr, i: usize, c: PropsContext)
        requires
            old(self).ref_for_count <= i,
            i < usize::MAX,
        ensures
            marks_match(marks_view(*final(self)), mark_step(marks_view(*old(self)), *a, i, c)),
            final(self).ref_for_count <= i + 1,
    {
        proof {
            reveal_strlit("ref");
            reveal_strlit("is");
            reveal_strlit("key");
            reveal_strlit("vue:before-update");
            reveal_strlit("vue:beforeUpdate");
        }
        match a {
            PropAttr::Regular { name, .. } => {
                if str_eq(name.as_str(), "ref") {
                    self.markers.has_ref = true;
                    self.add_ref_for(c);
                }
            },
            PropAttr::Bind { arg, is_prop, is_constant } => {
                // Skip `:is` on <component>
                if !(static_arg_is(arg, "is") && c.is_component_tag) {
                    if arg.is_none() {
                        // Special case for v-bind with no argument
                        self.markers.has_dynamic_keys = true;
                        self.add_ref_for(c);
                    } else {
                        // elements with dynamic keys should be forced into blocks
                        if static_arg_is(arg, "key") {
                            self.markers.should_use_block = true;
                        }
                        if static_arg_is(arg, "ref") {
                            self.add_ref_for(c);
                        }
                        // Force hydration for v-bind with .prop modifier
                        if *is_prop {
                            self.flags = self.flags | PATCH_NEED_HYDRATION;
                        }
                        self.analyze(arg_name(arg), *is_constant, c);
                    }
                }
            },
            PropAttr::On { event, key, has_handler, is_constant } => {
                // Skip v-on in SSR compilation
                if !c.ssr {
                    // Inline before-update hooks need to force block so that it is invoked
                    // before children
                    if c.has_children && (static_arg_is(event, "vue:before-update") || static_arg_is(
                        event,
                        "vue:beforeUpdate",
                    )) {
                        self.markers.should_use_block = true;
                        self.markers.is_block_required = true;
                    }
                    if event.is_none() {
                        // Special case for v-on with no argument
                        self.markers.has_dynamic_keys = true;
                        if !*has_handler {
                            self.errors.push((PropsError::VOnNoExpression, i));
                        }
                    } else {
                        self.analyze(arg_name(key), *is_constant, c);
                    }
                }
            },
        }
    }
    fn add_ref_for(&mut self, c: PropsContext)
        requires
            old(self).ref_for_count < usize::MAX,
        ensures
            marks_view(*final(self)) == ref_for(marks_view(*old(self)), c),
            final(self).ref_for_count <= old(self).ref_for_count + 1,
    {
        if c.in_v_for {
            self.ref_for_count = self.ref_for_count + 1;
        }
    }

    fn analyze(&mut self, key: Option<&str>, is_constant: bool, c: PropsContext)
        ensures
            marks_match(
                marks_view(*final(self)),
                analyzed(
                    marks_view(*old(self)),
                    match key {
                        Some(k) => Some(k@),
                        None => None,
                    },
                    is_constant,
                    c,
                ),
            ),
            final(self).ref_for_count == old(self).ref_for_count,
    {
        proof {
            reveal(analyzed);
        }
        if !c.ssr {
            analyze_patch_flag(key, is_constant, &mut self.markers, c.is_component, c.is_dynamic_component);
        }
    }
}

/// Marks the props of an element from its attributes, bindings and listeners and
/// its directives (whether it has `v-slot`, how many custom directives), and gives
/// its patch flags and whether it needs patching (`has_runtime_directives`: whether
/// any directive is generated at run time).
#[verifier::spinoff_prover]
#[verifier::rlimit(50)]
pub fn build_props_flags(
    attrs: &Vec<PropAttr>,
    has_v_slot: bool,
    custom_directives: usize,
    has_runtime_directives: bool,
    c: PropsContext,
) -> (r: (PropsMarks, u32, bool))
    ensures
        ({
            let st = mark_directives(
                marks_fold(attrs@, initial_marks(), c, attrs@.len()),
                has_v_slot,
                custom_directives as nat,
                attrs.len(),
                c,
            );
            let flags = spec_props_flags(st, c.is_component);
            &&& marks_match(marks_view(r.0), st)
            &&& r.1 == spec_final_flags(st, c.is_component, has_runtime_directives || custom_directives > 0)
            &&& r.2 == spec_needs_patch(st, flags, has_runtime_directives || custom_directives > 0)
        }),
{
    let mut r = PropsMarks {
        markers: PatchMarkers {
            dynamic_prop_names: Vec::new(),
            has_class_binding: false,
            has_dynamic_keys: false,
            has_hydration_event_binding: false,
            has_ref: false,
            has_runtime_directives: false,
            has_style_binding: false,
            has_vnode_hook: false,
            should_use_block: false,
            is_block_required: false,
        },
        flags: 0,
        ref_for_count: 0,
        errors: Vec::new(),
    };
    assert(names_view(r.markers.dynamic_prop_names@) =~= Seq::<Seq<char>>::empty());
    let n = attrs.len();
    let mut i: usize = 0;
    while i < n
        invariant
            i <= n,
            n == attrs.len(),
            r.ref_for_count <= i,
            marks_match(marks_view(r), marks_fold(attrs@, initial_marks(), c, i as nat)),
        decreases n - i,
    {
        let ghost before = marks_view(r);
        let ghost prev = marks_fold(attrs@, initial_marks(), c, i as nat);
        r.mark(&attrs[i], i, c);
        proof {
            lemma_step_congruence(before, prev, attrs@[i as int], i, c);
            assert(marks_fold(attrs@, initial_marks(), c, (i + 1) as nat) == mark_step(prev, attrs@[i as int], i, c));
        }
        i = i + 1;
    }

    // Directives
    if has_v_slot && !c.is_component {
        r.errors.push((PropsError::VSlotMisplaced, n));
    }
    // custom dirs may use beforeUpdate so they need to force blocks
    // to ensure before-update gets called before children update
    if custom_directives > 0 && c.has_children {
        r.markers.should_use_block = true;
        r.markers.is_block_required = true;
    }

    // PatchFlags analysis
    let mut flags = r.flags;
    if r.markers.has_dynamic_keys {
        flags = flags | PATCH_FULL_PROPS;
    } else {
        if r.markers.has_class_binding && !c.is_component {
            flags = flags | PATCH_CLASS;
        }
        if r.markers.has_style_binding && !c.is_component {
            flags = flags | PATCH_STYLE;
        }
        if r.markers.dynamic_prop_names.len() > 0 {
            flags = flags | PATCH_PROPS;
        }
        if r.markers.has_hydration_event_binding {
            flags = flags | PATCH_NEED_HYDRATION;
        }
    }
    let runtime = has_runtime_directives || custom_directives > 0;
    let needs_patch = (flags == 0 || flags == PATCH_NEED_HYDRATION) && (r.markers.has_ref || r.markers.has_vnode_hook
        || runtime);
    if !r.markers.should_use_block && needs_patch {
        flags = flags | PATCH_NEED_PATCH;
    }
    (r, flags, needs_patch)
}

// ---------------------------------------------------------------------------
// Laws.
// ---------------------------------------------------------------------------

/// The flags set directly are none or `NEED_HYDRATION`.
proof fn lemma_direct_flags(attrs: Seq<PropAttr>, c: PropsContext, k: nat)
    ensures
        marks_fold(attrs, initial_marks(), c, k).flags == 0 || marks_fold(attrs, initial_marks(), c, k).flags
            == PATCH_NEED_HYDRATION,
    decreases k,
{
    if k > 0 {
        lemma_direct_flags(attrs, c, (k - 1) as nat);
        let st = marks_fold(attrs, initial_marks(), c, (k - 1) as nat);
        let x = st.flags;
        assert((x == 0 || x == 32) ==> ((x | 32u32) == 32)) by (bit_vector);
        reveal(analyzed);
        assert(PATCH_NEED_HYDRATION == 32);
    }
}

proof fn lemma_flag_bits(x: u32, cl: bool, st: bool, pr: bool, hy: bool)
    by (bit_vector)
    requires
        x == 0 || x == 32,
    ensures
        ((x | 16u32) & 14u32) == 0,
        ({
            let f1 = if cl { x | 2u32 } else { x };
            let f2 = if st { f1 | 4u32 } else { f1 };
            let f3 = if pr { f2 | 8u32 } else { f2 };
            let f4 = if hy { f3 | 32u32 } else { f3 };
            &&& (f4 & 16u32) == 0
            &&& ((f4 | 512u32) & 16u32) == 0
            &&& (f4 & 512u32) == 0
            &&& ((f4 | 512u32) & !512u32) == f4
            &&& ((f4 | 512u32) & 512u32) != 0
            &&& (f4 & !512u32) == f4
        }),
        ((x | 16u32) & 512u32) == 0,
        (((x | 16u32) | 512u32) & 14u32) == 0,
        (((x | 16u32) | 512u32) & !512u32) == (x | 16u32),
        (((x | 16u32) | 512u32) & 512u32) != 0,
        ((x | 16u32) & !512u32) == (x | 16u32),
{
}

/// The patch flags of an element's props: with `FULL_PROPS` there is no `CLASS`,
/// `STYLE` or `PROPS`; when the vnode needs patching, the flags other than
/// `NEED_PATCH` are none or only `NEED_HYDRATION`, and without a block `NEED_PATCH`
/// is set.
pub proof fn lemma_props_flags_law(
    attrs: Seq<PropAttr>,
    has_v_slot: bool,
    custom_directives: nat,
    has_runtime_directives: bool,
    c: PropsContext,
)
    ensures
        ({
            let st = mark_directives(marks_fold(attrs, initial_marks(), c, attrs.len()), has_v_slot, custom_directives, attrs.len() as usize, c);
            let flags = spec_props_flags(st, c.is_component);
            let f = spec_final_flags(st, c.is_component, has_runtime_directives);
            let np = spec_needs_patch(st, flags, has_runtime_directives);
            &&& (f & PATCH_FULL_PROPS) != 0 ==> (f & (PATCH_CLASS | PATCH_STYLE | PATCH_PROPS)) == 0
            &&& np ==> (f & !PATCH_NEED_PATCH) == 0 || (f & !PATCH_NEED_PATCH) == PATCH_NEED_HYDRATION
            &&& np && !st.m.should_use_block ==> (f & PATCH_NEED_PATCH) != 0
        }),
{
    lemma_direct_flags(attrs, c, attrs.len());
    assert(PATCH_NEED_HYDRATION == 32 && PATCH_FULL_PROPS == 16 && PATCH_NEED_PATCH == 512);
    assert(PATCH_CLASS == 2 && PATCH_STYLE == 4 && PATCH_PROPS == 8);
    let st = mark_directives(marks_fold(attrs, initial_marks(), c, attrs.len()), has_v_slot, custom_directives, attrs.len() as usize, c);
    let x = st.flags;
    assert(x == 0 || x == 32);
    lemma_flag_bits(
        x,
        st.m.has_class_binding && !c.is_component,
        st.m.has_style_binding && !c.is_component,
        st.names.len() > 0,
        st.m.has_hydration_event_binding,
    );
    assert((PATCH_CLASS | PATCH_STYLE | PATCH_PROPS) == 14u32) by (bit_vector);
    let cl = st.m.has_class_binding && !c.is_component;
    let sy = st.m.has_style_binding && !c.is_component;
    let f1 = if cl { x | 2u32 } else { x };
    let f2 = if sy { f1 | 4u32 } else { f1 };
    let f3 = if st.names.len() > 0 { f2 | 8u32 } else { f2 };
    let f4 = if st.m.has_hydration_event_binding { f3 | 32u32 } else { f3 };
    let flags = spec_props_flags(st, c.is_component);
    if st.m.has_dynamic_keys {
        assert(flags == (x | 16u32));
    } else {
        assert(flags == f4);
    }
    let f = spec_final_flags(st, c.is_component, has_runtime_directives);
    let np = spec_needs_patch(st, flags, has_runtime_directives);
    if !st.m.should_use_block && np {
        assert(f == (flags | 512u32));
    } else {
        assert(f == flags);
    }
}

} // verus!
