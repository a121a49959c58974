//! Building the slots of a component from its `v-slot` directives and children.
use vstd::prelude::*;

use crate::analyzer::scope::{contains_str, spec_contains};
use crate::parser::attributes::strings_view;
use crate::text::{str_eq, to_owned_string};
use crate::transform::context::TransformSfcContext;

verus! {

/// The name of a slot: a string, another literal (such as `v-slot:[1]`), or an expression.
pub enum SlotName {
    Static(String),
    Literal(String),
    Dynamic(String),
}

/// A `v-slot` directive: its name, if given, and its props pattern, if any.
pub struct VSlot {
    pub name: Option<SlotName>,
    pub props: Option<String>,
}

/// A child of a component, as far as building its slots goes.
pub enum SlotChild {
    Comment,
    Text { is_whitespace: bool },
    Element {
        /// The element is a `<template>`
        is_template: bool,
        v_slot: Option<VSlot>,
        v_if: Option<String>,
        v_else_if: Option<String>,
        v_else: bool,
        has_v_for: bool,
        /// A `<slot>` is the element or one of its descendants
        forwards_slots: bool,
    },
    /// Interpolations, `v-for` fragments and conditional sequences
    Other { forwards_slots: bool },
}

/// Where the content of a slot comes from: the given children of the component,
/// or the children of the `<template>` at the given index.
pub enum SlotSource {
    ImplicitDefault(Vec<usize>),
    TemplateChildren(usize),
}

/// A slot of the static slots object.
pub struct SlotBuild {
    pub name: SlotName,
    pub props: Option<String>,
    pub source: SlotSource,
}

/// A slot that is built at run time, with its key among the branches of conditional slots.
pub struct DynamicSlotBuild {
    pub name: SlotName,
    pub props: Option<String>,
    pub source: usize,
    pub key: Option<usize>,
}

pub struct ConditionalSlot {
    pub condition: String,
    pub slot: DynamicSlotBuild,
}

pub enum DynamicSlot {
    /// `<template v-slot v-if>`, with its `v-else-if`s and `v-else`
    Conditional { if_slot: ConditionalSlot, else_if_slots: Vec<ConditionalSlot>, else_slot: Option<DynamicSlotBuild> },
    /// `<template v-slot v-for>`
    RenderList { slot_template_index: usize, slot: DynamicSlotBuild },
}

/// How the slots object may change between renders.
#[derive(Clone, Copy, PartialEq, Eq, Structural, Debug)]
pub enum SlotFlag {
    Stable,
    Dynamic,
    Forwarded,
}

/// The template errors of slots.
#[derive(Clone, Copy, PartialEq, Eq, Structural, Debug)]
pub enum SlotError {
    /// `v-slot` on the component and on `<template>` children
    MixedSlotUsage,
    /// `v-else` or `v-else-if` without a `v-if` slot before it
    ElseNoAdjacentIf,
    DuplicateSlotNames,
    /// Children outside the `<template>`s next to an explicit default slot
    ExtraneousDefaultSlotChildren,
}

/// The slots of a component.
pub struct Slots {
    pub slots: Vec<SlotBuild>,
    pub dynamic_slots: Vec<DynamicSlot>,
    pub has_dynamic_slots: bool,
    pub slot_flag: SlotFlag,
    /// Each error with the index of the child it is about
    pub errors: Vec<(SlotError, usize)>,
}

// ---------------------------------------------------------------------------
// Views.
// ---------------------------------------------------------------------------

pub enum SlotNameView {
    Static(Seq<char>),
    Literal(Seq<char>),
    Dynamic(Seq<char>),
}

pub open spec fn name_view(n: SlotName) -> SlotNameView {
    match n {
        SlotName::Static(s) => SlotNameView::Static(s@),
        SlotName::Literal(s) => SlotNameView::Literal(s@),
        SlotName::Dynamic(s) => SlotNameView::Dynamic(s@),
    }
}

/// The name of a `v-slot`, `default` when none is given.
pub open spec fn slot_name_of(vs: VSlot) -> SlotNameView {
    match vs.name {
        Some(n) => name_view(n),
        None => SlotNameView::Static("default"@),
    }
}

pub open spec fn text_of(o: Option<String>) -> Option<Seq<char>> {
    match o {
        Some(s) => Some(s@),
        None => None,
    }
}

pub enum SourceView {
    ImplicitDefault(Seq<usize>),
    TemplateChildren(usize),
}

pub struct SlotBuildView {
    pub name: SlotNameView,
    pub props: Option<Seq<char>>,
    pub source: SourceView,
}

pub struct DynamicBuildView {
    pub name: SlotNameView,
    pub props: Option<Seq<char>>,
    pub source: usize,
    pub key: Option<usize>,
}

pub enum DynamicSlotView {
    Conditional {
        if_slot: (Seq<char>, DynamicBuildView),
        else_if_slots: Seq<(Seq<char>, DynamicBuildView)>,
        else_slot: Option<DynamicBuildView>,
    },
    RenderList { slot_template_index: usize, slot: DynamicBuildView },
}

pub open spec fn source_view(s: SlotSource) -> SourceView {
    match s {
        SlotSource::ImplicitDefault(v) => SourceView::ImplicitDefault(v@),
        SlotSource::TemplateChildren(i) => SourceView::TemplateChildren(i),
    }
}

pub open spec fn build_view(b: SlotBuild) -> SlotBuildView {
    SlotBuildView { name: name_view(b.name), props: text_of(b.props), source: source_view(b.source) }
}

pub open spec fn dynamic_build_view(b: DynamicSlotBuild) -> DynamicBuildView {
    DynamicBuildView { name: name_view(b.name), props: text_of(b.props), source: b.source, key: b.key }
}

pub open spec fn conditional_view(c: ConditionalSlot) -> (Seq<char>, DynamicBuildView) {
    (c.condition@, dynamic_build_view(c.slot))
}

pub open spec fn dynamic_view(d: DynamicSlot) -> DynamicSlotView {
    match d {
        DynamicSlot::Conditional { if_slot, else_if_slots, else_slot } => DynamicSlotView::Conditional {
            if_slot: conditional_view(if_slot),
            else_if_slots: else_if_slots@.map_values(|c: ConditionalSlot| conditional_view(c)),
            else_slot: match else_slot {
                Some(b) => Some(dynamic_build_view(b)),
                None => None,
            },
        },
        DynamicSlot::RenderList { slot_template_index, slot } => DynamicSlotView::RenderList {
            slot_template_index,
            slot: dynamic_build_view(slot),
        },
    }
}

pub open spec fn builds_view(s: Seq<SlotBuild>) -> Seq<SlotBuildView> {
    s.map_values(|b: SlotBuild| build_view(b))
}

pub open spec fn dynamics_view(s: Seq<DynamicSlot>) -> Seq<DynamicSlotView> {
    s.map_values(|d: DynamicSlot| dynamic_view(d))
}

// ---------------------------------------------------------------------------
// What building the slots gives.
// ---------------------------------------------------------------------------

/// The template child at the index carries `v-slot`.
pub open spec fn template_slot(c: SlotChild) -> Option<VSlot> {
    match c {
        SlotChild::Element { is_template, v_slot, .. } => if is_template {
            v_slot
        } else {
            None
        },
        _ => None,
    }
}

pub open spec fn is_comment_or_whitespace(c: SlotChild) -> bool {
    c is Comment || c matches SlotChild::Text { is_whitespace: true }
}

pub open spec fn is_template_with_if(c: SlotChild) -> bool {
    match c {
        SlotChild::Element { is_template, v_if, v_else_if, .. } => is_template && (v_if is Some || v_else_if is Some),
        _ => false,
    }
}

/// The last child before index `j` that is neither a comment nor whitespace.
pub open spec fn prev_significant(children: Seq<SlotChild>, j: int) -> Option<int>
    decreases j,
{
    if j <= 0 || j > children.len() {
        None
    } else if !is_comment_or_whitespace(children[j - 1]) {
        Some(j - 1)
    } else {
        prev_significant(children, j - 1)
    }
}

/// What the children seen so far have built.
pub struct SlotsState {
    pub slots: Seq<SlotBuildView>,
    pub dynamic: Seq<DynamicSlotView>,
    pub has_dynamic: bool,
    pub has_template_slots: bool,
    pub has_named_default: bool,
    /// The children that go to the implicit default slot
    pub implicit: Seq<usize>,
    /// The static names of the template slots so far
    pub seen: Seq<Seq<char>>,
    /// The key of the next branch of a conditional slot
    pub branch: nat,
    pub errors: Seq<(SlotError, usize)>,
    /// A mixed usage stops the building
    pub stopped: bool,
}

pub open spec fn static_slot_name(n: SlotNameView) -> Option<Seq<char>> {
    match n {
        SlotNameView::Static(s) => Some(s),
        _ => None,
    }
}

pub open spec fn is_static_name(n: SlotNameView) -> bool {
    !(n is Dynamic)
}

pub open spec fn dyn_build(name: SlotNameView, props: Option<Seq<char>>, i: usize, key: Option<usize>) -> DynamicBuildView {
    DynamicBuildView { name, props, source: i, key }
}

pub open spec fn with_error(st: SlotsState, e: SlotError, i: usize) -> SlotsState {
    SlotsState { errors: st.errors.push((e, i)), ..st }
}

/// The last dynamic slot is conditional.
pub open spec fn can_join(d: Seq<DynamicSlotView>) -> bool {
    d.len() > 0 && d.last() is Conditional
}

/// The dynamic slots with a `v-else-if` (with its condition) or `v-else` slot
/// added to the last one.
pub open spec fn joined_dynamic(d: Seq<DynamicSlotView>, cond: Option<Seq<char>>, slot: DynamicBuildView) -> Seq<DynamicSlotView> {
    let last = d.last();
    let joined = match last {
        DynamicSlotView::Conditional { if_slot, else_if_slots, else_slot } => match cond {
            Some(c) => DynamicSlotView::Conditional { if_slot, else_if_slots: else_if_slots.push((c, slot)), else_slot },
            None => DynamicSlotView::Conditional { if_slot, else_if_slots, else_slot: Some(slot) },
        },
        _ => last,
    };
    d.drop_last().push(joined)
}

/// A `v-else-if` or `v-else` slot joins the conditional slot before it.
pub open spec fn join_conditional(st: SlotsState, cond: Option<Seq<char>>, slot: DynamicBuildView, i: usize) -> SlotsState {
    if can_join(st.dynamic) {
        SlotsState { dynamic: joined_dynamic(st.dynamic, cond, slot), branch: st.branch + 1, ..st }
    } else {
        with_error(st, SlotError::ElseNoAdjacentIf, i)
    }
}

/// A `<template v-slot>` child, at index `i`.
pub open spec fn template_slot_step(
    children: Seq<SlotChild>,
    st: SlotsState,
    i: usize,
    vs: VSlot,
    v_if: Option<String>,
    v_else_if: Option<String>,
    v_else: bool,
    has_v_for: bool,
) -> SlotsState {
    let name = slot_name_of(vs);
    let props = text_of(vs.props);
    let st1 = SlotsState {
        has_template_slots: true,
        has_dynamic: st.has_dynamic || static_slot_name(name) is None,
        ..st
    };
    if v_if is Some {
        SlotsState {
            has_dynamic: true,
            dynamic: st1.dynamic.push(
                DynamicSlotView::Conditional {
                    if_slot: (v_if->0@, dyn_build(name, props, i, Some(st1.branch as usize))),
                    else_if_slots: Seq::empty(),
                    else_slot: None,
                },
            ),
            branch: st1.branch + 1,
            ..st1
        }
    } else if v_else_if is Some || v_else {
        match prev_significant(children, i as int) {
            Some(j) if is_template_with_if(children[j]) => join_conditional(
                st1,
                text_of(v_else_if),
                dyn_build(name, props, i, Some(st1.branch as usize)),
                i,
            ),
            _ => with_error(st1, SlotError::ElseNoAdjacentIf, i),
        }
    } else if has_v_for {
        SlotsState {
            has_dynamic: true,
            dynamic: st1.dynamic.push(DynamicSlotView::RenderList { slot_template_index: i, slot: dyn_build(name, props, i, None) }),
            ..st1
        }
    } else {
        let slot = SlotBuildView { name, props, source: SourceView::TemplateChildren(i) };
        match static_slot_name(name) {
            Some(s) => if st1.seen.contains(s) {
                with_error(st1, SlotError::DuplicateSlotNames, i)
            } else {
                SlotsState {
                    seen: st1.seen.push(s),
                    has_named_default: st1.has_named_default || s == "default"@,
                    slots: st1.slots.push(slot),
                    ..st1
                }
            },
            None => SlotsState { slots: st1.slots.push(slot), ..st1 },
        }
    }
}

/// The child at index `i`.
pub open spec fn slot_step(children: Seq<SlotChild>, on_component: bool, st: SlotsState, i: usize) -> SlotsState {
    if st.stopped {
        st
    } else {
        match children[i as int] {
            SlotChild::Comment => st,
            SlotChild::Element { is_template, v_slot, v_if, v_else_if, v_else, has_v_for, .. } => if is_template
                && v_slot is Some {
                if on_component {
                    SlotsState { stopped: true, ..with_error(st, SlotError::MixedSlotUsage, i) }
                } else {
                    template_slot_step(children, st, i, v_slot->0, v_if, v_else_if, v_else, has_v_for)
                }
            } else {
                SlotsState { implicit: st.implicit.push(i), ..st }
            },
            _ => SlotsState { implicit: st.implicit.push(i), ..st },
        }
    }
}

/// The state after the first `k` children.
pub open spec fn slots_fold(children: Seq<SlotChild>, on_component: bool, init: SlotsState, k: nat) -> SlotsState
    decreases k,
{
    if k == 0 {
        init
    } else {
        slot_step(children, on_component, slots_fold(children, on_component, init, (k - 1) as nat), (k - 1) as usize)
    }
}

pub open spec fn indices(n: nat) -> Seq<usize> {
    Seq::new(n, |i: int| i as usize)
}

/// Before the children: the slot of a `v-slot` on the component itself takes all of them.
pub open spec fn initial_state(n: nat, on_component: Option<VSlot>, in_scope: bool) -> SlotsState {
    let base = SlotsState {
        slots: Seq::empty(),
        dynamic: Seq::empty(),
        has_dynamic: in_scope,
        has_template_slots: false,
        has_named_default: false,
        implicit: Seq::empty(),
        seen: Seq::empty(),
        branch: 0,
        errors: Seq::empty(),
        stopped: false,
    };
    match on_component {
        Some(vs) => SlotsState {
            has_dynamic: in_scope || (vs.name is Some && !is_static_name(name_view(vs.name->0))),
            slots: seq![SlotBuildView { name: slot_name_of(vs), props: text_of(vs.props), source: SourceView::ImplicitDefault(indices(n)) }],
            ..base
        },
        None => base,
    }
}

pub open spec fn forwards(c: SlotChild) -> bool {
    match c {
        SlotChild::Element { forwards_slots, .. } => forwards_slots,
        SlotChild::Other { forwards_slots } => forwards_slots,
        _ => false,
    }
}

pub open spec fn all_whitespace(children: Seq<SlotChild>, idx: Seq<usize>) -> bool {
    forall|k: int| 0 <= k < idx.len() ==> #[trigger] children[idx[k] as int] matches SlotChild::Text { is_whitespace: true }
}

/// After the children: the implicit default slot, when there is one to make.
pub open spec fn finish_slots(children: Seq<SlotChild>, on_component: bool, st: SlotsState) -> SlotsState {
    let default_slot = SlotBuildView { name: SlotNameView::Static("default"@), props: None, source: SourceView::ImplicitDefault(st.implicit) };
    if on_component {
        st
    } else if !st.has_template_slots {
        SlotsState { slots: st.slots.push(default_slot), ..st }
    } else if st.implicit.len() > 0 && !all_whitespace(children, st.implicit) {
        if st.has_named_default {
            with_error(st, SlotError::ExtraneousDefaultSlotChildren, st.implicit[0])
        } else {
            SlotsState { slots: st.slots.push(default_slot), ..st }
        }
    } else {
        st
    }
}

pub open spec fn spec_slot_flag(children: Seq<SlotChild>, has_dynamic: bool) -> SlotFlag {
    if has_dynamic {
        SlotFlag::Dynamic
    } else if exists|k: int| 0 <= k < children.len() && forwards(#[trigger] children[k]) {
        SlotFlag::Forwarded
    } else {
        SlotFlag::Stable
    }
}

/// The slots of a component with the given children and `v-slot`, inside `in_scope`
/// other `v-for` or `v-slot` scopes.
pub open spec fn spec_build_slots(children: Seq<SlotChild>, on_component: Option<VSlot>, in_scope: bool) -> SlotsState {
    let n = children.len();
    let st = slots_fold(children, on_component is Some, initial_state(n, on_component, in_scope), n);
    finish_slots(children, on_component is Some, st)
}

pub open spec fn slots_match(r: Slots, st: SlotsState, children: Seq<SlotChild>) -> bool {
    &&& builds_view(r.slots@) == st.slots
    &&& dynamics_view(r.dynamic_slots@) == st.dynamic
    &&& r.has_dynamic_slots == st.has_dynamic
    &&& r.errors@ == st.errors
    &&& r.slot_flag == spec_slot_flag(children, st.has_dynamic)
}

// ---------------------------------------------------------------------------
// Building.
// ---------------------------------------------------------------------------

/// What the children seen so far have built.
struct SlotsBuilder {
    slots: Vec<SlotBuild>,
    dynamic: Vec<DynamicSlot>,
    has_dynamic: bool,
    has_template_slots: bool,
    has_named_default: bool,
    implicit: Vec<usize>,
    seen: Vec<String>,
    branch: usize,
    errors: Vec<(SlotError, usize)>,
    stopped: bool,
}

spec fn builder_view(b: SlotsBuilder) -> SlotsState {
    SlotsState {
        slots: builds_view(b.slots@),
        dynamic: dynamics_view(b.dynamic@),
        has_dynamic: b.has_dynamic,
        has_template_slots: b.has_template_slots,
        has_named_default: b.has_named_default,
        implicit: b.implicit@,
        seen: strings_view(b.seen@),
        branch: b.branch as nat,
        errors: b.errors@,
        stopped: b.stopped,
    }
}

fn clone_name(n: &SlotName) -> (r: SlotName)
    ensures
        name_view(r) == name_view(*n),
{
    match n {
        SlotName::Static(s) => SlotName::Static(to_owned_string(s.as_str())),
        SlotName::Literal(s) => SlotName::Literal(to_owned_string(s.as_str())),
        SlotName::Dynamic(s) => SlotName::Dynamic(to_owned_string(s.as_str())),
    }
}

fn clone_text(o: &Option<String>) -> (r: Option<String>)
    ensures
        text_of(r) == text_of(*o),
{
    match o {
        Some(s) => Some(to_owned_string(s.as_str())),
        None => None,
    }
}

/// The name of a `v-slot`, `default` when none is given.
fn slot_name(vs: &VSlot) -> (r: SlotName)
    ensures
        name_view(r) == slot_name_of(*vs),
{
    match &vs.name {
        Some(n) => clone_name(n),
        None => SlotName::Static(to_owned_string("default")),
    }
}

fn is_comment_or_whitespace_exec(c: &SlotChild) -> (r: bool)
    ensures
        r == is_comment_or_whitespace(*c),
{
    match c {
        SlotChild::Comment => true,
        SlotChild::Text { is_whitespace } => *is_whitespace,
        _ => false,
    }
}

fn is_template_with_if_exec(c: &SlotChild) -> (r: bool)
    ensures
        r == is_template_with_if(*c),
{
    match c {
        SlotChild::Element { is_template, v_if, v_else_if, .. } => *is_template && (v_if.is_some() || v_else_if.is_some()),
        _ => false,
    }
}

/// The last child before index `i` that is neither a comment nor whitespace.
fn find_prev_significant(children: &Vec<SlotChild>, i: usize) -> (r: Option<usize>)
    requires
        i <= children.len(),
    ensures
        match r {
            Some(j) => j < i && prev_significant(children@, i as int) == Some(j as int),
            None => prev_significant(children@, i as int) is None,
        },
{
    let mut j = i;
    while j > 0
        invariant
            j <= i <= children.len(),
            prev_significant(children@, i as int) == prev_significant(children@, j as int),
        decreases j,
    {
        if !is_comment_or_whitespace_exec(&children[j - 1]) {
            return Some(j - 1);
        }
        j = j - 1;
    }
    None
}

proof fn lemma_builds_push(slots: Seq<SlotBuild>, b: SlotBuild)
    ensures
        builds_view(slots.push(b)) == builds_view(slots).push(build_view(b)),
{
    assert(builds_view(slots.push(b)) =~= builds_view(slots).push(build_view(b)));
}

proof fn lemma_dynamics_push(dynamic: Seq<DynamicSlot>, d: DynamicSlot)
    ensures
        dynamics_view(dynamic.push(d)) == dynamics_view(dynamic).push(dynamic_view(d)),
{
    assert(dynamics_view(dynamic.push(d)) =~= dynamics_view(dynamic).push(dynamic_view(d)));
}

/// A `v-else-if` (with its condition) or `v-else` slot joins the last dynamic slot
/// when it is conditional. Gives whether it did.
fn join_conditional_exec(dynamic: &mut Vec<DynamicSlot>, cond: Option<String>, slot: DynamicSlotBuild) -> (joined: bool)
    ensures
        joined == can_join(dynamics_view(old(dynamic)@)),
        joined ==> dynamics_view(final(dynamic)@) == joined_dynamic(dynamics_view(old(dynamic)@), text_of(cond), dynamic_build_view(slot)),
        !joined ==> final(dynamic)@ == old(dynamic)@,
{
    let ghost d0 = dynamics_view(dynamic@);
    let last = match dynamic.pop() {
        Some(d) => d,
        None => return false,
    };
    proof {
        assert(dynamic@ =~= old(dynamic)@.drop_last());
        assert(dynamics_view(dynamic@) =~= d0.drop_last());
    }
    match last {
        DynamicSlot::Conditional { if_slot, mut else_if_slots, else_slot } => {
            let joined = match cond {
                Some(c) => {
                    let ghost before = else_if_slots@;
                    let entry = ConditionalSlot { condition: c, slot };
                    let ghost ev = conditional_view(entry);
                    else_if_slots.push(entry);
                    assert(else_if_slots@.map_values(|c: ConditionalSlot| conditional_view(c)) =~= before.map_values(
                        |c: ConditionalSlot| conditional_view(c),
                    ).push(ev));
                    DynamicSlot::Conditional { if_slot, else_if_slots, else_slot }
                },
                None => DynamicSlot::Conditional { if_slot, else_if_slots, else_slot: Some(slot) },
            };
            proof {
                lemma_dynamics_push(dynamic@, joined);
            }
            dynamic.push(joined);
            true
        },
        other => {
            proof {
                lemma_dynamics_push(dynamic@, other);
            }
            dynamic.push(other);
            assert(dynamic@ =~= old(dynamic)@);
            false
        },
    }
}

proof fn lemma_contains_view(vars: Seq<String>, name: Seq<char>)
    ensures
        spec_contains(vars, name) == strings_view(vars).contains(name),
{
    if spec_contains(vars, name) {
        let k = choose|k: int| 0 <= k < vars.len() && #[trigger] vars[k]@ == name;
        assert(strings_view(vars)[k] == name);
    }
    if strings_view(vars).contains(name) {
        let k = choose|k: int| 0 <= k < strings_view(vars).len() && strings_view(vars)[k] == name;
        assert(vars[k]@ == name);
    }
}

impl SlotsBuilder {
    /// A `<template v-slot>` child at index `i`, with its structural directives.
    #[verifier::spinoff_prover]
    #[verifier::rlimit(50)]
    fn template_slot(
        &mut self,
        children: &Vec<SlotChild>,
        i: usize,
        vs: &VSlot,
        v_if: &Option<String>,
        v_else_if: &Option<String>,
        v_else: bool,
        has_v_for: bool,
    )
        requires
            i < children.len(),
            old(self).branch <= i,
            forall|k: int| 0 <= k < old(self).implicit@.len() ==> #[trigger] old(self).implicit@[k] < i,
        ensures
            builder_view(*final(self)) == template_slot_step(
                children@,
                builder_view(*old(self)),
                i,
                *vs,
                *v_if,
                *v_else_if,
                v_else,
                has_v_for,
            ),
            final(self).branch <= i + 1,
            final(self).implicit@ == old(self).implicit@,
    {
        self.has_template_slots = true;
        let name = slot_name(vs);
        let props = clone_text(&vs.props);
        let is_static = match &name {
            SlotName::Static(_) => true,
            _ => false,
        };
        if !is_static {
            self.has_dynamic = true;
        }
        if let Some(condition) = v_if {
            self.has_dynamic = true;
            let else_if_slots: Vec<ConditionalSlot> = Vec::new();
            assert(else_if_slots@.map_values(|c: ConditionalSlot| conditional_view(c)) =~= Seq::<
                (Seq<char>, DynamicBuildView),
            >::empty());
            let d = DynamicSlot::Conditional {
                if_slot: ConditionalSlot {
                    condition: to_owned_string(condition.as_str()),
                    slot: DynamicSlotBuild { name, props, source: i, key: Some(self.branch) },
                },
                else_if_slots,
                else_slot: None,
            };
            proof {
                lemma_dynamics_push(self.dynamic@, d);
            }
            self.dynamic.push(d);
            self.branch = self.branch + 1;
        } else if v_else_if.is_some() || v_else {
            // find adjacent v-if
            let prev = find_prev_significant(children, i);
            let adjacent = match prev {
                Some(j) => is_template_with_if_exec(&children[j]),
                None => false,
            };
            if adjacent {
                let slot = DynamicSlotBuild { name, props, source: i, key: Some(self.branch) };
                let joined = join_conditional_exec(&mut self.dynamic, clone_text(v_else_if), slot);
                if joined {
                    self.branch = self.branch + 1;
                } else {
                    self.errors.push((SlotError::ElseNoAdjacentIf, i));
                }
            } else {
                self.errors.push((SlotError::ElseNoAdjacentIf, i));
            }
        } else if has_v_for {
            self.has_dynamic = true;
            let d = DynamicSlot::RenderList {
                slot_template_index: i,
                slot: DynamicSlotBuild { name, props, source: i, key: None },
            };
            proof {
                lemma_dynamics_push(self.dynamic@, d);
            }
            self.dynamic.push(d);
        } else {
            let static_name = match &name {
                SlotName::Static(s) => Some(to_owned_string(s.as_str())),
                _ => None,
            };
            match static_name {
                Some(s) => {
                    proof {
                        lemma_contains_view(self.seen@, s@);
                        reveal_strlit("default");
                    }
                    // check duplicate static names
                    if contains_str(&self.seen, s.as_str()) {
                        self.errors.push((SlotError::DuplicateSlotNames, i));
                    } else {
                        let is_default = str_eq(s.as_str(), "default");
                        proof {
                            assert(strings_view(self.seen@.push(s)) =~= strings_view(self.seen@).push(s@));
                        }
                        self.seen.push(s);
                        if is_default {
                            self.has_named_default = true;
                        }
                        let b = SlotBuild { name, props, source: SlotSource::TemplateChildren(i) };
                        proof {
                            lemma_builds_push(self.slots@, b);
                        }
                        self.slots.push(b);
                    }
                },
                None => {
                    let b = SlotBuild { name, props, source: SlotSource::TemplateChildren(i) };
                    proof {
                        lemma_builds_push(self.slots@, b);
                    }
                    self.slots.push(b);
                },
            }
        }
    }
}

/// Once stopped, the state stays as it is.
proof fn lemma_stopped_stays(children: Seq<SlotChild>, on_component: bool, init: SlotsState, k: nat, m: nat)
    requires
        k <= m,
        slots_fold(children, on_component, init, k).stopped,
    ensures
        slots_fold(children, on_component, init, m) == slots_fold(children, on_component, init, k),
    decreases m - k,
{
    if k < m {
        lemma_stopped_stays(children, on_component, init, k, (m - 1) as nat);
    }
}

fn all_whitespace_exec(children: &Vec<SlotChild>, idx: &Vec<usize>) -> (r: bool)
    requires
        forall|k: int| 0 <= k < idx@.len() ==> #[trigger] idx@[k] < children.len(),
    ensures
        r == all_whitespace(children@, idx@),
{
    let mut k: usize = 0;
    while k < idx.len()
        invariant
            k <= idx.len(),
            forall|j: int| 0 <= j < idx@.len() ==> #[trigger] idx@[j] < children.len(),
            forall|j: int| 0 <= j < k ==> #[trigger] children@[idx@[j] as int] matches SlotChild::Text { is_whitespace: true },
        decreases idx.len() - k,
    {
        let whitespace = match &children[idx[k]] {
            SlotChild::Text { is_whitespace } => *is_whitespace,
            _ => false,
        };
        if !whitespace {
            return false;
        }
        k = k + 1;
    }
    true
}

fn any_forwards(children: &Vec<SlotChild>) -> (r: bool)
    ensures
        r == exists|k: int| 0 <= k < children@.len() && forwards(#[trigger] children@[k]),
{
    let mut k: usize = 0;
    while k < children.len()
        invariant
            k <= children.len(),
            forall|j: int| 0 <= j < k ==> !forwards(#[trigger] children@[j]),
        decreases children.len() - k,
    {
        let f = match &children[k] {
            SlotChild::Element { forwards_slots, .. } => *forwards_slots,
            SlotChild::Other { forwards_slots } => *forwards_slots,
            _ => false,
        };
        if f {
            assert(forwards(children@[k as int]));
            return true;
        }
        k = k + 1;
    }
    false
}

pub open spec fn opt_vslot(v: Option<&VSlot>) -> Option<VSlot> {
    match v {
        Some(vs) => Some(*vs),
        None => None,
    }
}

/// Builds the slots of a component from its own `v-slot` (`on_component`) and its
/// children: `<template v-slot>` children become slots of their own (dynamic ones
/// under `v-if`/`v-else-if`/`v-else` or `v-for`), and the other children make the
/// implicit default slot.
#[verifier::spinoff_prover]
#[verifier::rlimit(50)]
pub fn build_slots(children: &Vec<SlotChild>, on_component: Option<&VSlot>, ctx: &TransformSfcContext) -> (r: Slots)
    ensures
        slots_match(
            r,
            spec_build_slots(
                children@,
                opt_vslot(on_component),
                ctx.directive_scopes.v_slot > 0 || ctx.directive_scopes.v_for > 0,
            ),
            children@,
        ),
{
    let n = children.len();
    // If the slot is inside a v-for or another v-slot, force it to be dynamic
    // since it likely uses a scope variable.
    let in_scope = ctx.directive_scopes.v_slot > 0 || ctx.directive_scopes.v_for > 0;
    let ghost on_spec = opt_vslot(on_component);
    let ghost init = initial_state(n as nat, on_spec, in_scope);
    let mut b = SlotsBuilder {
        slots: Vec::new(),
        dynamic: Vec::new(),
        has_dynamic: in_scope,
        has_template_slots: false,
        has_named_default: false,
        implicit: Vec::new(),
        seen: Vec::new(),
        branch: 0,
        errors: Vec::new(),
        stopped: false,
    };

    // 1. Check for slot with slotProps on component itself.
    //    <Comp v-slot="{ prop }"/>
    if let Some(vs) = on_component {
        if let Some(SlotName::Dynamic(_)) = &vs.name {
            b.has_dynamic = true;
        }
        let mut all: Vec<usize> = Vec::new();
        let mut k: usize = 0;
        while k < n
            invariant
                k <= n,
                all@ == indices(k as nat),
            decreases n - k,
        {
            all.push(k);
            k = k + 1;
            assert(all@ =~= indices(k as nat));
        }
        let slot = SlotBuild { name: slot_name(vs), props: clone_text(&vs.props), source: SlotSource::ImplicitDefault(all) };
        proof {
            lemma_builds_push(b.slots@, slot);
        }
        b.slots.push(slot);
    }
    assert(builder_view(b) =~= init) by {
        assert(builds_view(Seq::<SlotBuild>::empty()) =~= Seq::<SlotBuildView>::empty());
        assert(dynamics_view(b.dynamic@) =~= Seq::<DynamicSlotView>::empty());
        assert(strings_view(b.seen@) =~= Seq::<Seq<char>>::empty());
    }

    // 2. Iterate through children and check for template slots
    //    <template v-slot:foo="{ prop }">
    let mut i: usize = 0;
    while i < n && !b.stopped
        invariant
            i <= n,
            n == children.len(),
            on_spec == opt_vslot(on_component),
            b.branch <= i,
            forall|k: int| 0 <= k < b.implicit@.len() ==> #[trigger] b.implicit@[k] < i,
            builder_view(b) == slots_fold(children@, on_spec is Some, init, i as nat),
        decreases n - i,
    {
        let ghost before = builder_view(b);
        match &children[i] {
            SlotChild::Comment => {},
            SlotChild::Element { is_template, v_slot, v_if, v_else_if, v_else, has_v_for, .. } => {
                match v_slot {
                    Some(vs) if *is_template => {
                        if on_component.is_some() {
                            // already has on-component slot - this is incorrect usage.
                            b.errors.push((SlotError::MixedSlotUsage, i));
                            b.stopped = true;
                        } else {
                            b.template_slot(children, i, vs, v_if, v_else_if, *v_else, *has_v_for);
                        }
                    },
                    _ => {
                        b.implicit.push(i);
                    },
                }
            },
            _ => {
                b.implicit.push(i);
            },
        }
        assert(builder_view(b) == slot_step(children@, on_spec is Some, before, i));
        i = i + 1;
    }
    proof {
        if i < n {
            lemma_stopped_stays(children@, on_spec is Some, init, i as nat, n as nat);
        }
    }
    let SlotsBuilder {
        mut slots,
        dynamic,
        has_dynamic,
        has_template_slots,
        has_named_default,
        implicit,
        seen: _,
        branch: _,
        mut errors,
        stopped: _,
    } = b;

    if on_component.is_none() {
        let whitespace_only = all_whitespace_exec(children, &implicit);
        if !has_template_slots {
            // implicit default slot (on component)
            let slot = SlotBuild { name: SlotName::Static(to_owned_string("default")), props: None, source: SlotSource::ImplicitDefault(implicit) };
            proof {
                lemma_builds_push(slots@, slot);
                reveal_strlit("default");
            }
            slots.push(slot);
        } else if implicit.len() > 0 && !whitespace_only {
            // implicit default slot (mixed with named slots)
            if has_named_default {
                errors.push((SlotError::ExtraneousDefaultSlotChildren, implicit[0]));
            } else {
                let slot = SlotBuild { name: SlotName::Static(to_owned_string("default")), props: None, source: SlotSource::ImplicitDefault(implicit) };
                proof {
                    lemma_builds_push(slots@, slot);
                    reveal_strlit("default");
                }
                slots.push(slot);
            }
        }
    }

    let slot_flag = if has_dynamic {
        SlotFlag::Dynamic
    } else if any_forwards(children) {
        SlotFlag::Forwarded
    } else {
        SlotFlag::Stable
    };

    Slots { slots, dynamic_slots: dynamic, has_dynamic_slots: has_dynamic, slot_flag, errors }
}

// ---------------------------------------------------------------------------
// Laws.
// ---------------------------------------------------------------------------

pub open spec fn distinct_static_names(slots: Seq<SlotBuildView>) -> bool {
    forall|i: int, j: int|
        0 <= i < j < slots.len() && static_slot_name(slots[i].name) is Some ==> static_slot_name(#[trigger] slots[i].name)
            != static_slot_name(#[trigger] slots[j].name)
}

spec fn names_inv(st: SlotsState, on_component: bool) -> bool {
    &&& distinct_static_names(st.slots)
    &&& if on_component {
        st.slots.len() <= 1
    } else {
        &&& forall|k: int|
            0 <= k < st.slots.len() && static_slot_name(st.slots[k].name) is Some ==> st.seen.contains(
                static_slot_name(#[trigger] st.slots[k].name)->0,
            )
        &&& st.has_named_default == st.seen.contains("default"@)
        &&& !st.has_template_slots ==> st.slots.len() == 0
    }
}

proof fn lemma_push_distinct(slots: Seq<SlotBuildView>, seen: Seq<Seq<char>>, slot: SlotBuildView)
    requires
        distinct_static_names(slots),
        forall|k: int|
            0 <= k < slots.len() && static_slot_name(slots[k].name) is Some ==> seen.contains(
                static_slot_name(#[trigger] slots[k].name)->0,
            ),
        static_slot_name(slot.name) matches Some(s) ==> !seen.contains(s),
    ensures
        distinct_static_names(slots.push(slot)),
{
    let after = slots.push(slot);
    assert forall|i: int, j: int|
        0 <= i < j < after.len() && static_slot_name(after[i].name) is Some implies static_slot_name(#[trigger] after[i].name)
            != static_slot_name(#[trigger] after[j].name) by {
        if j == slots.len() {
            assert(after[i] == slots[i]);
            assert(seen.contains(static_slot_name(slots[i].name)->0));
        } else {
            assert(after[i] == slots[i]);
            assert(after[j] == slots[j]);
        }
    }
}

proof fn lemma_step_names(children: Seq<SlotChild>, on_component: bool, st: SlotsState, i: usize)
    requires
        names_inv(st, on_component),
        i < children.len(),
    ensures
        names_inv(slot_step(children, on_component, st, i), on_component),
{
    if !st.stopped {
        match children[i as int] {
            SlotChild::Element { is_template, v_slot, v_if, v_else_if, v_else, has_v_for, .. } => {
                if is_template && v_slot is Some && !on_component {
                    let vs = v_slot->0;
                    let name = slot_name_of(vs);
                    let props = text_of(vs.props);
                    let st1 = SlotsState {
                        has_template_slots: true,
                        has_dynamic: st.has_dynamic || static_slot_name(name) is None,
                        ..st
                    };
                    if v_if is None && !(v_else_if is Some || v_else) && !has_v_for {
                        let slot = SlotBuildView { name, props, source: SourceView::TemplateChildren(i) };
                        match static_slot_name(name) {
                            Some(s) => {
                                if !st1.seen.contains(s) {
                                    lemma_push_distinct(st.slots, st.seen, slot);
                                    let seen2 = st.seen.push(s);
                                    assert forall|x: Seq<char>| st.seen.contains(x) implies seen2.contains(x) by {
                                        let k = choose|k: int| 0 <= k < st.seen.len() && st.seen[k] == x;
                                        assert(seen2[k] == x);
                                    }
                                    assert(seen2[st.seen.len() as int] == s);
                                    if seen2.contains("default"@) && s != "default"@ {
                                        let k = choose|k: int| 0 <= k < seen2.len() && seen2[k] == "default"@;
                                        assert(st.seen[k] == "default"@);
                                    }
                                    let after = st.slots.push(slot);
                                    assert forall|k: int|
                                        0 <= k < after.len() && static_slot_name(after[k].name) is Some implies seen2.contains(
                                            static_slot_name(#[trigger] after[k].name)->0,
                                        ) by {
                                        if k < st.slots.len() {
                                            assert(after[k] == st.slots[k]);
                                        }
                                    }
                                }
                            },
                            None => {
                                lemma_push_distinct(st.slots, st.seen, slot);
                                let after = st.slots.push(slot);
                                assert forall|k: int|
                                    0 <= k < after.len() && static_slot_name(after[k].name) is Some implies st.seen.contains(
                                        static_slot_name(#[trigger] after[k].name)->0,
                                    ) by {
                                    if k < st.slots.len() {
                                        assert(after[k] == st.slots[k]);
                                    }
                                }
                            },
                        }
                    }
                }
            },
            _ => {},
        }
    }
}

proof fn lemma_fold_names(children: Seq<SlotChild>, on_component: bool, init: SlotsState, k: nat)
    requires
        names_inv(init, on_component),
        k <= children.len(),
    ensures
        names_inv(slots_fold(children, on_component, init, k), on_component),
    decreases k,
{
    if k > 0 {
        lemma_fold_names(children, on_component, init, (k - 1) as nat);
        lemma_step_names(children, on_component, slots_fold(children, on_component, init, (k - 1) as nat), (k - 1) as usize);
    }
}

/// No two slots of the static slots object share a static name.
pub proof fn lemma_static_slot_names_unique(children: Seq<SlotChild>, on_component: Option<VSlot>, in_scope: bool)
    ensures
        distinct_static_names(spec_build_slots(children, on_component, in_scope).slots),
{
    let n = children.len();
    let init = initial_state(n, on_component, in_scope);
    let on = on_component is Some;
    assert(names_inv(init, on)) by {
        if !on {
            assert(!init.seen.contains("default"@));
        }
    }
    lemma_fold_names(children, on, init, n);
    let st = slots_fold(children, on, init, n);
    if !on {
        let default_slot = SlotBuildView {
            name: SlotNameView::Static("default"@),
            props: None,
            source: SourceView::ImplicitDefault(st.implicit),
        };
        if !st.has_template_slots {
            assert(st.slots.push(default_slot) =~= seq![default_slot]);
        } else if !st.has_named_default {
            lemma_push_distinct(st.slots, st.seen, default_slot);
        }
    }
}

} // verus!
