//! Collection of the variables that a template expression or pattern brings in.
//!
//! Expressions and patterns are held in a small tree of their own: what the
//! collection reads of a JavaScript expression or pattern.
use vstd::prelude::*;

use crate::analyzer::scope::Scope;
use crate::parser::attributes::strings_view;

verus! {

/// A binding pattern: the parameter list of a `v-slot`, the alias of a `v-for`.
pub enum JsPat {
    /// `name`
    Ident(String),
    /// `[a, , b]`: the elements, holes as `None`
    Array(Vec<Option<JsPat>>),
    /// `...arg`
    Rest(Box<JsPat>),
    /// `{ key: value, name = default, ...rest }`
    Object(Vec<ObjectPatProp>),
    /// `left = default`
    Assign(Box<JsPat>, Box<JsExpr>),
    /// An expression in pattern position
    Expr(Box<JsExpr>),
    Invalid,
}

/// A property of an object pattern.
pub enum ObjectPatProp {
    /// `key: value`
    KeyValue(PropName, Box<JsPat>),
    /// `name` or `name = default`
    Assign(String, Option<Box<JsExpr>>),
    /// `...rest`
    Rest(Box<JsPat>),
}

/// The key of a property.
pub enum PropName {
    /// `key`: a name, not a variable
    Ident(String),
    /// `"key"`
    Str(String),
    /// `1`
    Num,
    /// `[expression]`
    Computed(Box<JsExpr>),
}

/// An expression, as far as variables are concerned.
pub enum JsExpr {
    /// A variable reference
    Ident(String),
    /// `{ ... }`
    Object(Vec<PropOrSpread>),
    /// Any other expression, by the expressions it is made of, in source order
    /// (names that are not variables, such as member properties, left out)
    Compound(Vec<JsExpr>),
}

/// A property of an object literal.
pub enum PropOrSpread {
    /// `{ a }`
    Shorthand(String),
    /// `{ key: value }`
    KeyValue(PropName, Box<JsExpr>),
    /// Methods, getters and setters
    Other,
    /// `{ ...value }`
    Spread(Box<JsExpr>),
}

/// The variables of a template scope, and the scope it is nested in.
pub type TemplateScope = Scope;

// ---------------------------------------------------------------------------
// Every identifier, in source order (what a visit of all identifiers gives).
// ---------------------------------------------------------------------------

pub open spec fn pat_idents(p: JsPat) -> Seq<Seq<char>>
    decreases p, 0int, 0int,
{
    match p {
        JsPat::Ident(n) => seq![n@],
        JsPat::Array(elems) => elems_idents(elems@, 0),
        JsPat::Rest(arg) => pat_idents(*arg),
        JsPat::Object(props) => pat_props_idents(props@, 0),
        JsPat::Assign(left, right) => pat_idents(*left) + expr_idents(*right),
        JsPat::Expr(e) => expr_idents(*e),
        JsPat::Invalid => Seq::empty(),
    }
}

pub open spec fn elems_idents(elems: Seq<Option<JsPat>>, i: int) -> Seq<Seq<char>>
    decreases elems, 1int, elems.len() - i,
{
    if i < 0 || i >= elems.len() {
        Seq::empty()
    } else {
        (match elems[i] {
            Some(p) => pat_idents(p),
            None => Seq::empty(),
        }) + elems_idents(elems, i + 1)
    }
}

pub open spec fn pat_props_idents(props: Seq<ObjectPatProp>, i: int) -> Seq<Seq<char>>
    decreases props, 1int, props.len() - i,
{
    if i < 0 || i >= props.len() {
        Seq::empty()
    } else {
        (match props[i] {
            ObjectPatProp::KeyValue(key, value) => prop_name_idents(key) + pat_idents(*value),
            ObjectPatProp::Assign(key, value) => seq![key@] + match value {
                Some(v) => expr_idents(*v),
                None => Seq::empty(),
            },
            ObjectPatProp::Rest(arg) => pat_idents(*arg),
        }) + pat_props_idents(props, i + 1)
    }
}

/// Only a computed key holds variables.
pub open spec fn prop_name_idents(k: PropName) -> Seq<Seq<char>>
    decreases k, 0int, 0int,
{
    match k {
        PropName::Computed(e) => expr_idents(*e),
        _ => Seq::empty(),
    }
}

/// An object literal is not visited further: a shorthand gives its name and a
/// key-value pair its value when that is a variable; nothing else is collected.
pub open spec fn expr_idents(e: JsExpr) -> Seq<Seq<char>>
    decreases e, 0int, 0int,
{
    match e {
        JsExpr::Ident(n) => seq![n@],
        JsExpr::Object(props) => object_lit_idents(props@, 0),
        JsExpr::Compound(es) => exprs_idents(es@, 0),
    }
}

pub open spec fn exprs_idents(es: Seq<JsExpr>, i: int) -> Seq<Seq<char>>
    decreases es, 1int, es.len() - i,
{
    if i < 0 || i >= es.len() {
        Seq::empty()
    } else {
        expr_idents(es[i]) + exprs_idents(es, i + 1)
    }
}

pub open spec fn object_lit_idents(props: Seq<PropOrSpread>, i: int) -> Seq<Seq<char>>
    decreases props.len() - i,
{
    if i < 0 || i >= props.len() {
        Seq::empty()
    } else {
        (match props[i] {
            PropOrSpread::Shorthand(n) => seq![n@],
            PropOrSpread::KeyValue(_, value) => match *value {
                JsExpr::Ident(n) => seq![n@],
                _ => Seq::empty(),
            },
            _ => Seq::empty(),
        }) + object_lit_idents(props, i + 1)
    }
}

// ---------------------------------------------------------------------------
// The names a pattern binds, in source order.
// ---------------------------------------------------------------------------

/// Default values and computed keys are references, not bindings: they are left out.
pub open spec fn pat_bindings(p: JsPat) -> Seq<Seq<char>>
    decreases p, 0int, 0int,
{
    match p {
        JsPat::Ident(n) => seq![n@],
        JsPat::Array(elems) => elems_bindings(elems@, 0),
        JsPat::Rest(arg) => pat_bindings(*arg),
        JsPat::Object(props) => pat_props_bindings(props@, 0),
        JsPat::Assign(left, _) => pat_bindings(*left),
        JsPat::Expr(_) | JsPat::Invalid => Seq::empty(),
    }
}

pub open spec fn elems_bindings(elems: Seq<Option<JsPat>>, i: int) -> Seq<Seq<char>>
    decreases elems, 1int, elems.len() - i,
{
    if i < 0 || i >= elems.len() {
        Seq::empty()
    } else {
        (match elems[i] {
            Some(p) => pat_bindings(p),
            None => Seq::empty(),
        }) + elems_bindings(elems, i + 1)
    }
}

pub open spec fn pat_props_bindings(props: Seq<ObjectPatProp>, i: int) -> Seq<Seq<char>>
    decreases props, 1int, props.len() - i,
{
    if i < 0 || i >= props.len() {
        Seq::empty()
    } else {
        (match props[i] {
            ObjectPatProp::KeyValue(_, value) => pat_bindings(*value),
            ObjectPatProp::Assign(key, _) => seq![key@],
            ObjectPatProp::Rest(arg) => pat_bindings(*arg),
        }) + pat_props_bindings(props, i + 1)
    }
}

/// Collects identifiers: every variable reference of a pattern or expression.
pub struct IdentifierVisitor {
    pub collected: Vec<String>,
}

impl IdentifierVisitor {
    pub fn visit_ident(&mut self, n: &String)
        ensures
            strings_view(final(self).collected@) == strings_view(old(self).collected@).push(n@),
    {
        self.collected.push(n.clone());
        assert(strings_view(self.collected@) =~= strings_view(old(self).collected@).push(n@));
    }

    /// Visits a pattern and everything in it.
    pub fn visit_pat(&mut self, p: &JsPat)
        ensures
            strings_view(final(self).collected@) == strings_view(old(self).collected@) + pat_idents(*p),
        decreases p, 0int, 0int,
    {
        let ghost start = strings_view(self.collected@);
        match p {
            JsPat::Ident(n) => {
                self.visit_ident(n);
                assert(strings_view(self.collected@) =~= start + pat_idents(*p));
            },
            JsPat::Array(elems) => {
                self.visit_pat_elems(elems);
            },
            JsPat::Rest(arg) => {
                self.visit_pat(arg);
            },
            JsPat::Object(props) => {
                self.visit_pat_props(props);
            },
            JsPat::Assign(left, right) => {
                self.visit_pat(left);
                self.visit_expr(right);
                assert(strings_view(self.collected@) =~= start + pat_idents(*p));
            },
            JsPat::Expr(e) => {
                self.visit_expr(e);
            },
            JsPat::Invalid => {
                assert(strings_view(self.collected@) =~= start + pat_idents(*p));
            },
        }
    }

    fn visit_pat_elems(&mut self, elems: &Vec<Option<JsPat>>)
        ensures
            strings_view(final(self).collected@) == strings_view(old(self).collected@) + elems_idents(elems@, 0),
        decreases elems@, 2int, 0int,
    {
        let ghost start = strings_view(self.collected@);
        let mut i: usize = 0;
        while i < elems.len()
            invariant
                i <= elems.len(),
                strings_view(self.collected@) + elems_idents(elems@, i as int) == start + elems_idents(elems@, 0),
            decreases elems.len() - i,
        {
            let ghost before = strings_view(self.collected@);
            if let Some(p) = &elems[i] {
                proof {
                    assert(decreases_to!(elems@ => elems@[i as int]));
                }
                self.visit_pat(p);
            }
            assert(before + elems_idents(elems@, i as int) =~= strings_view(self.collected@) + elems_idents(
                elems@,
                i + 1,
            ));
            i = i + 1;
        }
        assert(strings_view(self.collected@) + elems_idents(elems@, i as int) =~= strings_view(self.collected@));
    }

    fn visit_pat_props(&mut self, props: &Vec<ObjectPatProp>)
        ensures
            strings_view(final(self).collected@) == strings_view(old(self).collected@) + pat_props_idents(props@, 0),
        decreases props@, 2int, 0int,
    {
        let ghost start = strings_view(self.collected@);
        let mut i: usize = 0;
        while i < props.len()
            invariant
                i <= props.len(),
                strings_view(self.collected@) + pat_props_idents(props@, i as int) == start + pat_props_idents(props@, 0),
            decreases props.len() - i,
        {
            let ghost before = strings_view(self.collected@);
            proof {
                assert(decreases_to!(props@ => props@[i as int]));
            }
            match &props[i] {
                ObjectPatProp::KeyValue(key, value) => {
                    self.visit_prop_name(key);
                    self.visit_pat(value);
                },
                ObjectPatProp::Assign(key, value) => {
                    self.visit_ident(key);
                    if let Some(v) = value {
                        self.visit_expr(v);
                    }
                },
                ObjectPatProp::Rest(arg) => {
                    self.visit_pat(arg);
                },
            }
            assert(before + pat_props_idents(props@, i as int) =~= strings_view(self.collected@) + pat_props_idents(
                props@,
                i + 1,
            ));
            i = i + 1;
        }
        assert(strings_view(self.collected@) + pat_props_idents(props@, i as int) =~= strings_view(self.collected@));
    }

    /// A computed key is an expression; other keys are names.
    fn visit_prop_name(&mut self, k: &PropName)
        ensures
            strings_view(final(self).collected@) == strings_view(old(self).collected@) + prop_name_idents(*k),
        decreases k, 0int, 0int,
    {
        match k {
            PropName::Computed(e) => {
                self.visit_expr(e);
            },
            _ => {
                assert(strings_view(self.collected@) =~= strings_view(old(self).collected@) + prop_name_idents(*k));
            },
        }
    }

    /// Visits an expression and everything in it, object literals excepted (see
    /// [`Self::visit_object_lit`]).
    pub fn visit_expr(&mut self, e: &JsExpr)
        ensures
            strings_view(final(self).collected@) == strings_view(old(self).collected@) + expr_idents(*e),
        decreases e, 0int, 0int,
    {
        match e {
            JsExpr::Ident(n) => {
                self.visit_ident(n);
                assert(strings_view(self.collected@) =~= strings_view(old(self).collected@) + expr_idents(*e));
            },
            JsExpr::Object(props) => {
                self.visit_object_lit(props);
            },
            JsExpr::Compound(es) => {
                self.visit_exprs(es);
            },
        }
    }

    fn visit_exprs(&mut self, es: &Vec<JsExpr>)
        ensures
            strings_view(final(self).collected@) == strings_view(old(self).collected@) + exprs_idents(es@, 0),
        decreases es@, 2int, 0int,
    {
        let ghost start = strings_view(self.collected@);
        let mut i: usize = 0;
        while i < es.len()
            invariant
                i <= es.len(),
                strings_view(self.collected@) + exprs_idents(es@, i as int) == start + exprs_idents(es@, 0),
            decreases es.len() - i,
        {
            let ghost before = strings_view(self.collected@);
            proof {
                assert(decreases_to!(es@ => es@[i as int]));
            }
            self.visit_expr(&es[i]);
            assert(before + exprs_idents(es@, i as int) =~= strings_view(self.collected@) + exprs_idents(es@, i + 1));
            i = i + 1;
        }
        assert(strings_view(self.collected@) + exprs_idents(es@, i as int) =~= strings_view(self.collected@));
    }

    /// In an object literal, a shorthand `{ a }` gives `a` and a key-value pair
    /// `{ a: b }` gives `b` when `b` is an identifier (only renaming is supported);
    /// nothing else is collected.
    pub fn visit_object_lit(&mut self, props: &Vec<PropOrSpread>)
        ensures
            strings_view(final(self).collected@) == strings_view(old(self).collected@) + object_lit_idents(props@, 0),
    {
        let ghost start = strings_view(self.collected@);
        let mut i: usize = 0;
        while i < props.len()
            invariant
                i <= props.len(),
                strings_view(self.collected@) + object_lit_idents(props@, i as int) == start + object_lit_idents(
                    props@,
                    0,
                ),
            decreases props.len() - i,
        {
            let ghost before = strings_view(self.collected@);
            match &props[i] {
                // This is shorthand `a` in `{ a }`
                PropOrSpread::Shorthand(ident) => {
                    self.visit_ident(ident);
                },
                // This is key-value `a: b` in `{ a: b }`
                PropOrSpread::KeyValue(_, value) => {
                    // We only support renaming things (therefore value must be an identifier)
                    if let JsExpr::Ident(v) = &**value {
                        self.visit_ident(v);
                    }
                },
                _ => {},
            }
            assert(before + object_lit_idents(props@, i as int) =~= strings_view(self.collected@)
                + object_lit_idents(props@, i + 1));
            i = i + 1;
        }
        assert(strings_view(self.collected@) + object_lit_idents(props@, i as int) =~= strings_view(
            self.collected@,
        ));
    }
}

/// Adds every variable of a pattern (or of an expression, as `JsPat::Expr`) to the scope.
pub fn collect_variables(root: &JsPat, scope: &mut TemplateScope)
    ensures
        strings_view(final(scope).variables@) == strings_view(old(scope).variables@) + pat_idents(*root),
        final(scope).parent == old(scope).parent,
{
    let mut visitor = IdentifierVisitor { collected: Vec::new() };
    visitor.visit_pat(root);
    push_all(&mut scope.variables, &visitor.collected);
    assert(strings_view(visitor.collected@) =~= Seq::<Seq<char>>::empty() + pat_idents(*root));
}

/// Appends copies of `from` to `to`.
fn push_all(to: &mut Vec<String>, from: &Vec<String>)
    ensures
        strings_view(final(to)@) == strings_view(old(to)@) + strings_view(from@),
{
    let mut i: usize = 0;
    while i < from.len()
        invariant
            i <= from.len(),
            strings_view(to@) == strings_view(old(to)@) + strings_view(from@.take(i as int)),
        decreases from.len() - i,
    {
        let ghost before = to@;
        let c = from[i].clone();
        assert(c@ == from@[i as int]@);
        to.push(c);
        assert(from@.take(i + 1) =~= from@.take(i as int).push(from@[i as int]));
        assert(strings_view(to@) =~= strings_view(before).push(c@));
        assert(strings_view(from@.take(i + 1)) =~= strings_view(from@.take(i as int)).push(c@));
        assert(strings_view(to@) =~= strings_view(old(to)@) + strings_view(from@.take(i + 1)));
        i = i + 1;
    }
    assert(from@.take(from.len() as int) =~= from@);
}

/// Find such bindings inside a pattern which would become
/// function local variables.
/// For example, `<template v-slot="{ value = outer }">` would collect `value`
/// since it is the one which becomes available to `template` children,
/// while `outer` is its default value which needs to be transformed.
pub fn collect_pattern_bindings(root: &JsPat, scope: &mut TemplateScope)
    ensures
        strings_view(final(scope).variables@) == strings_view(old(scope).variables@) + pat_bindings(*root),
        final(scope).parent == old(scope).parent,
{
    let mut collected: Vec<String> = Vec::new();
    collect_pattern_binding_idents(root, &mut collected);
    push_all(&mut scope.variables, &collected);
    assert(strings_view(collected@) =~= Seq::<Seq<char>>::empty() + pat_bindings(*root));
}

/// Appends the names that `root` binds.
pub fn collect_pattern_binding_idents(root: &JsPat, collected: &mut Vec<String>)
    ensures
        strings_view(final(collected)@) == strings_view(old(collected)@) + pat_bindings(*root),
    decreases root, 0int, 0int,
{
    let ghost start = strings_view(collected@);
    match root {
        JsPat::Ident(binding) => {
            collected.push(binding.clone());
            assert(strings_view(collected@) =~= start + pat_bindings(*root));
        },
        JsPat::Array(elems) => {
            let mut i: usize = 0;
            while i < elems.len()
                invariant
                    i <= elems.len(),
                    *root == JsPat::Array(*elems),
                    strings_view(collected@) + elems_bindings(elems@, i as int) == start + elems_bindings(elems@, 0),
                decreases elems.len() - i,
            {
                let ghost before = strings_view(collected@);
                if let Some(element) = &elems[i] {
                    proof {
                        assert(decreases_to!(*root => root->Array_0));
                        assert(decreases_to!(root->Array_0 => elems@[i as int]));
                    }
                    collect_pattern_binding_idents(element, collected);
                }
                assert(before + elems_bindings(elems@, i as int) =~= strings_view(collected@) + elems_bindings(
                    elems@,
                    i + 1,
                ));
                i = i + 1;
            }
            assert(strings_view(collected@) + elems_bindings(elems@, i as int) =~= strings_view(collected@));
        },
        JsPat::Rest(rest) => {
            collect_pattern_binding_idents(rest, collected);
        },
        JsPat::Object(props) => {
            let mut i: usize = 0;
            while i < props.len()
                invariant
                    i <= props.len(),
                    *root == JsPat::Object(*props),
                    strings_view(collected@) + pat_props_bindings(props@, i as int) == start + pat_props_bindings(
                        props@,
                        0,
                    ),
                decreases props.len() - i,
            {
                let ghost before = strings_view(collected@);
                proof {
                    assert(decreases_to!(*root => root->Object_0));
                    assert(decreases_to!(root->Object_0 => props@[i as int]));
                }
                match &props[i] {
                    ObjectPatProp::KeyValue(_, value) => {
                        collect_pattern_binding_idents(value, collected);
                    },
                    ObjectPatProp::Assign(key, _) => {
                        collected.push(key.clone());
                    },
                    ObjectPatProp::Rest(rest) => {
                        collect_pattern_binding_idents(rest, collected);
                    },
                }
                assert(before + pat_props_bindings(props@, i as int) =~= strings_view(collected@)
                    + pat_props_bindings(props@, i + 1));
                i = i + 1;
            }
            assert(strings_view(collected@) + pat_props_bindings(props@, i as int) =~= strings_view(collected@));
        },
        JsPat::Assign(left, _) => {
            collect_pattern_binding_idents(left, collected);
        },
        JsPat::Expr(_) | JsPat::Invalid => {
            assert(strings_view(collected@) =~= start + pat_bindings(*root));
        },
    }
}


proof fn lemma_contains_concat(a: Seq<Seq<char>>, b: Seq<Seq<char>>, x: Seq<char>)
    ensures
        (a + b).contains(x) <==> (a.contains(x) || b.contains(x)),
{
    if (a + b).contains(x) {
        let k = choose|k: int| 0 <= k < (a + b).len() && (a + b)[k] == x;
        if k < a.len() {
            assert(a[k] == x);
        } else {
            assert(b[k - a.len()] == x);
        }
    }
    if a.contains(x) {
        let k = choose|k: int| 0 <= k < a.len() && a[k] == x;
        assert((a + b)[k] == x);
    }
    if b.contains(x) {
        let k = choose|k: int| 0 <= k < b.len() && b[k] == x;
        assert((a + b)[k + a.len()] == x);
    }
}

/// Every name a pattern binds is among its identifiers: collecting the bindings
/// only leaves out references (default values, computed keys).
pub proof fn lemma_bindings_are_identifiers(p: JsPat, x: Seq<char>)
    ensures
        pat_bindings(p).contains(x) ==> pat_idents(p).contains(x),
    decreases p, 0int, 0int,
{
    match p {
        JsPat::Array(elems) => {
            lemma_elems_bindings(elems@, 0, x);
        },
        JsPat::Rest(arg) => {
            lemma_bindings_are_identifiers(*arg, x);
        },
        JsPat::Object(props) => {
            lemma_props_bindings(props@, 0, x);
        },
        JsPat::Assign(left, right) => {
            lemma_bindings_are_identifiers(*left, x);
            lemma_contains_concat(pat_idents(*left), expr_idents(*right), x);
        },
        _ => {},
    }
}

proof fn lemma_elems_bindings(elems: Seq<Option<JsPat>>, i: int, x: Seq<char>)
    ensures
        elems_bindings(elems, i).contains(x) ==> elems_idents(elems, i).contains(x),
    decreases elems, 1int, elems.len() - i,
{
    if 0 <= i < elems.len() {
        lemma_elems_bindings(elems, i + 1, x);
        let (b, d) = match elems[i] {
            Some(p) => {
                assert(decreases_to!(elems => elems[i]));
                lemma_bindings_are_identifiers(p, x);
                (pat_bindings(p), pat_idents(p))
            },
            None => (Seq::empty(), Seq::empty()),
        };
        lemma_contains_concat(b, elems_bindings(elems, i + 1), x);
        lemma_contains_concat(d, elems_idents(elems, i + 1), x);
    }
}

proof fn lemma_props_bindings(props: Seq<ObjectPatProp>, i: int, x: Seq<char>)
    ensures
        pat_props_bindings(props, i).contains(x) ==> pat_props_idents(props, i).contains(x),
    decreases props, 1int, props.len() - i,
{
    if 0 <= i < props.len() {
        lemma_props_bindings(props, i + 1, x);
        assert(decreases_to!(props => props[i]));
        match props[i] {
            ObjectPatProp::KeyValue(key, value) => {
                lemma_bindings_are_identifiers(*value, x);
                lemma_contains_concat(prop_name_idents(key), pat_idents(*value), x);
                lemma_contains_concat(pat_bindings(*value), pat_props_bindings(props, i + 1), x);
                lemma_contains_concat(
                    prop_name_idents(key) + pat_idents(*value),
                    pat_props_idents(props, i + 1),
                    x,
                );
            },
            ObjectPatProp::Assign(key, value) => {
                let refs = match value {
                    Some(v) => expr_idents(*v),
                    None => Seq::empty(),
                };
                lemma_contains_concat(seq![key@], refs, x);
                lemma_contains_concat(seq![key@], pat_props_bindings(props, i + 1), x);
                lemma_contains_concat(seq![key@] + refs, pat_props_idents(props, i + 1), x);
            },
            ObjectPatProp::Rest(arg) => {
                lemma_bindings_are_identifiers(*arg, x);
                lemma_contains_concat(pat_bindings(*arg), pat_props_bindings(props, i + 1), x);
                lemma_contains_concat(pat_idents(*arg), pat_props_idents(props, i + 1), x);
            },
        }
    }
}

} // verus!
