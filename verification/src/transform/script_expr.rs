//! Template expressions as a tree: what the identifier rewriting reads and
//! changes, and how an expression is printed.
//!
//! Every node kind that the rewriting treats in its own way has a variant; any
//! other expression is a [`ScriptExpr::Template`]: its own text with holes for
//! the expressions it is made of.
use vstd::prelude::*;

use crate::analyzer::scope::{chain_ends, spec_prefix, ScopeHelper};
use crate::text::{push_str, to_owned_string};

verus! {

/// A JavaScript expression.
pub enum ScriptExpr {
    /// A variable reference
    Ident(String),
    /// `obj.prop`
    Member(Box<ScriptExpr>, String),
    /// `obj[prop]`
    Index(Box<ScriptExpr>, Box<ScriptExpr>),
    /// `callee(args)`
    Call(Box<ScriptExpr>, Vec<ScriptExpr>),
    /// `(params) => body`, the parameters being plain names
    Arrow(Vec<String>, Box<ScriptExpr>),
    /// `target op value`, with `op` one of `=`, `+=`, ...
    Assign(Box<ScriptExpr>, String, Box<ScriptExpr>),
    /// `op arg` (prefix) or `arg op`, with `op` one of `++`, `--`
    Update(String, bool, Box<ScriptExpr>),
    /// `{ props }`
    Object(Vec<ObjectProp>),
    /// Any other expression: the text pieces and the expressions between them,
    /// in turn (`a + b` is the pieces `""`, `"+"`, `""` around `a` and `b`)
    Template(Vec<String>, Vec<ScriptExpr>),
}

/// A property of an object literal.
pub enum ObjectProp {
    /// `{ a }`
    Shorthand(String),
    /// `{ key: value }`, the key as written
    KeyValue(String, Box<ScriptExpr>),
    /// `{ ...value }`
    Spread(Box<ScriptExpr>),
}

/// The mathematical value of a [`ScriptExpr`].
pub enum ExprV {
    Ident(Seq<char>),
    Member(Box<ExprV>, Seq<char>),
    Index(Box<ExprV>, Box<ExprV>),
    Call(Box<ExprV>, Seq<ExprV>),
    Arrow(Seq<Seq<char>>, Box<ExprV>),
    Assign(Box<ExprV>, Seq<char>, Box<ExprV>),
    Update(Seq<char>, bool, Box<ExprV>),
    Object(Seq<PropV>),
    Template(Seq<Seq<char>>, Seq<ExprV>),
}

/// The mathematical value of an [`ObjectProp`].
pub enum PropV {
    Shorthand(Seq<char>),
    KeyValue(Seq<char>, Box<ExprV>),
    Spread(Box<ExprV>),
}

pub open spec fn names_view(v: Seq<String>) -> Seq<Seq<char>> {
    v.map_values(|s: String| s@)
}

pub open spec fn expr_view(e: ScriptExpr) -> ExprV
    decreases e, 1int,
{
    match e {
        ScriptExpr::Ident(x) => ExprV::Ident(x@),
        ScriptExpr::Member(o, p) => ExprV::Member(Box::new(expr_view(*o)), p@),
        ScriptExpr::Index(o, i) => ExprV::Index(Box::new(expr_view(*o)), Box::new(expr_view(*i))),
        ScriptExpr::Call(c, args) => ExprV::Call(Box::new(expr_view(*c)), exprs_view(args@)),
        ScriptExpr::Arrow(ps, b) => ExprV::Arrow(names_view(ps@), Box::new(expr_view(*b))),
        ScriptExpr::Assign(t, op, v) => ExprV::Assign(Box::new(expr_view(*t)), op@, Box::new(expr_view(*v))),
        ScriptExpr::Update(op, prefix, a) => ExprV::Update(op@, prefix, Box::new(expr_view(*a))),
        ScriptExpr::Object(props) => ExprV::Object(props_view(props@)),
        ScriptExpr::Template(pieces, subs) => ExprV::Template(names_view(pieces@), exprs_view(subs@)),
    }
}

pub open spec fn exprs_view(es: Seq<ScriptExpr>) -> Seq<ExprV>
    decreases es, 0int,
{
    Seq::new(es.len(), |k: int| if 0 <= k < es.len() { expr_view(es[k]) } else { ExprV::Ident(Seq::empty()) })
}

pub open spec fn prop_view(p: ObjectProp) -> PropV
    decreases p, 1int,
{
    match p {
        ObjectProp::Shorthand(x) => PropV::Shorthand(x@),
        ObjectProp::KeyValue(key, v) => PropV::KeyValue(key@, Box::new(expr_view(*v))),
        ObjectProp::Spread(v) => PropV::Spread(Box::new(expr_view(*v))),
    }
}

pub open spec fn props_view(ps: Seq<ObjectProp>) -> Seq<PropV>
    decreases ps, 0int,
{
    Seq::new(ps.len(), |k: int| if 0 <= k < ps.len() { prop_view(ps[k]) } else { PropV::Shorthand(Seq::empty()) })
}

// ---------------------------------------------------------------------------
// Printing, as a minifying printer writes: no spaces between tokens.
// ---------------------------------------------------------------------------

/// The text of an expression.
pub open spec fn print_expr(e: ExprV) -> Seq<char>
    decreases e, 0int, 0int,
{
    match e {
        ExprV::Ident(x) => x,
        ExprV::Member(o, p) => print_expr(*o) + "."@ + p,
        ExprV::Index(o, i) => print_expr(*o) + "["@ + print_expr(*i) + "]"@,
        ExprV::Call(c, args) => print_expr(*c) + "("@ + print_list(args, 0) + ")"@,
        ExprV::Arrow(ps, b) => print_params(ps) + "=>"@ + print_expr(*b),
        ExprV::Assign(t, op, v) => print_expr(*t) + op + print_expr(*v),
        ExprV::Update(op, prefix, a) => if prefix { op + print_expr(*a) } else { print_expr(*a) + op },
        ExprV::Object(props) => "{"@ + print_props(props, 0) + "}"@,
        ExprV::Template(pieces, subs) => print_template(pieces, subs, 0),
    }
}

/// The separator written before the `k`-th item of a list.
pub open spec fn sep(k: int) -> Seq<char> {
    if k == 0 { Seq::empty() } else { ","@ }
}

/// The items of `es` from the `k`-th on, separated by commas.
pub open spec fn print_list(es: Seq<ExprV>, k: int) -> Seq<char>
    decreases es, 1int, es.len() - k,
{
    if k < 0 || k >= es.len() {
        Seq::empty()
    } else {
        sep(k) + print_expr(es[k]) + print_list(es, k + 1)
    }
}

/// The names of `ps` from the `k`-th on, separated by commas.
pub open spec fn print_names(ps: Seq<Seq<char>>, k: int) -> Seq<char>
    decreases ps.len() - k,
{
    if k < 0 || k >= ps.len() {
        Seq::empty()
    } else {
        sep(k) + ps[k] + print_names(ps, k + 1)
    }
}

/// A single parameter stands alone; otherwise the list is in parentheses.
pub open spec fn print_params(ps: Seq<Seq<char>>) -> Seq<char> {
    if ps.len() == 1 { ps[0] } else { "("@ + print_names(ps, 0) + ")"@ }
}

pub open spec fn print_prop(p: PropV) -> Seq<char>
    decreases p,
{
    match p {
        PropV::Shorthand(x) => x,
        PropV::KeyValue(key, v) => key + ":"@ + print_expr(*v),
        PropV::Spread(v) => "..."@ + print_expr(*v),
    }
}

/// The properties of `props` from the `k`-th on, separated by commas.
pub open spec fn print_props(props: Seq<PropV>, k: int) -> Seq<char>
    decreases props, 1int, props.len() - k,
{
    if k < 0 || k >= props.len() {
        Seq::empty()
    } else {
        sep(k) + print_prop(props[k]) + print_props(props, k + 1)
    }
}

/// The pieces and the expressions between them, in turn, from the `k`-th on.
pub open spec fn print_template(pieces: Seq<Seq<char>>, subs: Seq<ExprV>, k: int) -> Seq<char>
    decreases subs, 1int, pieces.len() + subs.len() - k,
{
    if k < 0 || (k >= pieces.len() && k >= subs.len()) {
        Seq::empty()
    } else {
        (if k < pieces.len() { pieces[k] } else { Seq::empty() })
            + (if k < subs.len() { print_expr(subs[k]) } else { Seq::empty() })
            + print_template(pieces, subs, k + 1)
    }
}

/// Writes the text of `e` after `buf`.
pub fn write_expr(e: &ScriptExpr, buf: &mut String)
    ensures
        final(buf)@ == old(buf)@ + print_expr(expr_view(*e)),
    decreases e, 0int, 0int,
{
    match e {
        ScriptExpr::Ident(x) => {
            push_str(buf, x.as_str());
        },
        ScriptExpr::Member(o, p) => {
            write_expr(o, buf);
            push_str(buf, ".");
            push_str(buf, p.as_str());
            proof { reveal_strlit("."); }
            assert(buf@ =~= old(buf)@ + print_expr(expr_view(*e)));
        },
        ScriptExpr::Index(o, i) => {
            write_expr(o, buf);
            push_str(buf, "[");
            write_expr(i, buf);
            push_str(buf, "]");
            proof { reveal_strlit("["); reveal_strlit("]"); }
            assert(buf@ =~= old(buf)@ + print_expr(expr_view(*e)));
        },
        ScriptExpr::Call(c, args) => {
            write_expr(c, buf);
            push_str(buf, "(");
            write_list(args, buf);
            push_str(buf, ")");
            proof { reveal_strlit("("); reveal_strlit(")"); }
            assert(buf@ =~= old(buf)@ + print_expr(expr_view(*e)));
        },
        ScriptExpr::Arrow(ps, b) => {
            let ghost start = buf@;
            if ps.len() == 1 {
                push_str(buf, ps[0].as_str());
            } else {
                push_str(buf, "(");
                write_names(ps, buf);
                push_str(buf, ")");
                proof { reveal_strlit("("); reveal_strlit(")"); }
            }
            assert(buf@ =~= start + print_params(names_view(ps@)));
            push_str(buf, "=>");
            write_expr(b, buf);
            proof { reveal_strlit("=>"); }
            assert(buf@ =~= old(buf)@ + print_expr(expr_view(*e)));
        },
        ScriptExpr::Assign(t, op, v) => {
            write_expr(t, buf);
            push_str(buf, op.as_str());
            write_expr(v, buf);
            assert(buf@ =~= old(buf)@ + print_expr(expr_view(*e)));
        },
        ScriptExpr::Update(op, prefix, a) => {
            if *prefix {
                push_str(buf, op.as_str());
                write_expr(a, buf);
            } else {
                write_expr(a, buf);
                push_str(buf, op.as_str());
            }
            assert(buf@ =~= old(buf)@ + print_expr(expr_view(*e)));
        },
        ScriptExpr::Object(props) => {
            push_str(buf, "{");
            write_props(props, buf);
            push_str(buf, "}");
            proof { reveal_strlit("{"); reveal_strlit("}"); }
            assert(buf@ =~= old(buf)@ + print_expr(expr_view(*e)));
        },
        ScriptExpr::Template(pieces, subs) => {
            write_template(pieces, subs, buf);
        },
    }
}

fn write_sep(k: usize, buf: &mut String)
    ensures
        final(buf)@ == old(buf)@ + sep(k as int),
{
    if k > 0 {
        push_str(buf, ",");
        proof { reveal_strlit(","); }
    } else {
        assert(old(buf)@ + sep(k as int) =~= old(buf)@);
    }
}

fn write_list(es: &Vec<ScriptExpr>, buf: &mut String)
    ensures
        final(buf)@ == old(buf)@ + print_list(exprs_view(es@), 0),
    decreases es@, 2int, 0int,
{
    let ghost vs = exprs_view(es@);
    let ghost start = buf@;
    let mut i: usize = 0;
    while i < es.len()
        invariant
            i <= es.len(),
            vs == exprs_view(es@),
            buf@ + print_list(vs, i as int) == start + print_list(vs, 0),
        decreases es.len() - i,
    {
        let ghost before = buf@;
        proof {
            assert(decreases_to!(es@ => es@[i as int]));
        }
        write_sep(i, buf);
        write_expr(&es[i], buf);
        assert(before + print_list(vs, i as int) =~= buf@ + print_list(vs, i + 1));
        i = i + 1;
    }
    assert(buf@ + print_list(vs, i as int) =~= buf@);
}

fn write_names(ps: &Vec<String>, buf: &mut String)
    ensures
        final(buf)@ == old(buf)@ + print_names(names_view(ps@), 0),
{
    let ghost vs = names_view(ps@);
    let ghost start = buf@;
    let mut i: usize = 0;
    while i < ps.len()
        invariant
            i <= ps.len(),
            vs == names_view(ps@),
            buf@ + print_names(vs, i as int) == start + print_names(vs, 0),
        decreases ps.len() - i,
    {
        let ghost before = buf@;
        write_sep(i, buf);
        push_str(buf, ps[i].as_str());
        assert(before + print_names(vs, i as int) =~= buf@ + print_names(vs, i + 1));
        i = i + 1;
    }
    assert(buf@ + print_names(vs, i as int) =~= buf@);
}

fn write_props(props: &Vec<ObjectProp>, buf: &mut String)
    ensures
        final(buf)@ == old(buf)@ + print_props(props_view(props@), 0),
    decreases props@, 2int, 0int,
{
    let ghost vs = props_view(props@);
    let ghost start = buf@;
    let mut i: usize = 0;
    while i < props.len()
        invariant
            i <= props.len(),
            vs == props_view(props@),
            buf@ + print_props(vs, i as int) == start + print_props(vs, 0),
        decreases props.len() - i,
    {
        let ghost before = buf@;
        proof {
            assert(decreases_to!(props@ => props@[i as int]));
        }
        write_sep(i, buf);
        let ghost mid = buf@;
        match &props[i] {
            ObjectProp::Shorthand(x) => {
                push_str(buf, x.as_str());
            },
            ObjectProp::KeyValue(key, v) => {
                push_str(buf, key.as_str());
                push_str(buf, ":");
                write_expr(v, buf);
                proof { reveal_strlit(":"); }
            },
            ObjectProp::Spread(v) => {
                push_str(buf, "...");
                write_expr(v, buf);
                proof { reveal_strlit("..."); }
            },
        }
        assert(buf@ =~= mid + print_prop(vs[i as int]));
        assert(before + print_props(vs, i as int) =~= buf@ + print_props(vs, i + 1));
        i = i + 1;
    }
    assert(buf@ + print_props(vs, i as int) =~= buf@);
}

fn write_template(pieces: &Vec<String>, subs: &Vec<ScriptExpr>, buf: &mut String)
    ensures
        final(buf)@ == old(buf)@ + print_template(names_view(pieces@), exprs_view(subs@), 0),
    decreases subs@, 2int, 0int,
{
    let ghost ps = names_view(pieces@);
    let ghost vs = exprs_view(subs@);
    let ghost start = buf@;
    let mut i: usize = 0;
    while i < pieces.len() || i < subs.len()
        invariant
            i <= pieces.len() || i <= subs.len(),
            ps == names_view(pieces@),
            vs == exprs_view(subs@),
            buf@ + print_template(ps, vs, i as int) == start + print_template(ps, vs, 0),
        decreases pieces.len() + subs.len() - i,
    {
        let ghost before = buf@;
        if i < pieces.len() {
            push_str(buf, pieces[i].as_str());
        }
        if i < subs.len() {
            proof {
                assert(decreases_to!(subs@ => subs@[i as int]));
            }
            write_expr(&subs[i], buf);
        }
        assert(before + print_template(ps, vs, i as int) =~= buf@ + print_template(ps, vs, i + 1));
        i = i + 1;
    }
    assert(buf@ + print_template(ps, vs, i as int) =~= buf@);
}

// ---------------------------------------------------------------------------
// Scoping: every variable written behind the prefix of the scope it comes from.
// ---------------------------------------------------------------------------

/// The variable `x`, used in the template scope `scope`, behind the prefix of the
/// scope it comes from.
pub open spec fn scoped_name(sh: ScopeHelper, scope: u32, n: nat, x: Seq<char>) -> Seq<char> {
    spec_prefix(sh.spec_find_scope(scope, x, n)) + x
}

/// Every identifier of `e` scoped, arrow parameters included; a member's property
/// name stays, and so does the index of an identifier's indexing (`a[b]`); an
/// object shorthand `{ a }` is written out as `{ a: <a scoped> }`, and of a
/// key-value property only the value changes.
pub open spec fn scoped_expr(sh: ScopeHelper, scope: u32, n: nat, e: ExprV) -> ExprV
    decreases e,
{
    match e {
        ExprV::Ident(x) => ExprV::Ident(scoped_name(sh, scope, n, x)),
        ExprV::Member(o, p) => ExprV::Member(Box::new(scoped_expr(sh, scope, n, *o)), p),
        ExprV::Index(o, i) => ExprV::Index(Box::new(scoped_expr(sh, scope, n, *o)),
            if *o is Ident { i } else { Box::new(scoped_expr(sh, scope, n, *i)) }),
        ExprV::Call(c, args) => ExprV::Call(Box::new(scoped_expr(sh, scope, n, *c)), Seq::new(args.len(), |k: int|
            if 0 <= k < args.len() { scoped_expr(sh, scope, n, args[k]) } else { ExprV::Ident(Seq::empty()) })),
        ExprV::Arrow(ps, b) => ExprV::Arrow(ps.map_values(|x: Seq<char>| scoped_name(sh, scope, n, x)),
            Box::new(scoped_expr(sh, scope, n, *b))),
        ExprV::Assign(t, op, v) => ExprV::Assign(Box::new(scoped_expr(sh, scope, n, *t)), op,
            Box::new(scoped_expr(sh, scope, n, *v))),
        ExprV::Update(op, prefix, a) => ExprV::Update(op, prefix, Box::new(scoped_expr(sh, scope, n, *a))),
        ExprV::Object(props) => ExprV::Object(Seq::new(props.len(), |k: int|
            if 0 <= k < props.len() { scoped_prop(sh, scope, n, props[k]) } else { PropV::Shorthand(Seq::empty()) })),
        ExprV::Template(pieces, subs) => ExprV::Template(pieces, Seq::new(subs.len(), |k: int|
            if 0 <= k < subs.len() { scoped_expr(sh, scope, n, subs[k]) } else { ExprV::Ident(Seq::empty()) })),
    }
}

pub open spec fn scoped_prop(sh: ScopeHelper, scope: u32, n: nat, p: PropV) -> PropV
    decreases p,
{
    match p {
        PropV::Shorthand(x) => PropV::KeyValue(x, Box::new(ExprV::Ident(scoped_name(sh, scope, n, x)))),
        PropV::KeyValue(key, v) => PropV::KeyValue(key, Box::new(scoped_expr(sh, scope, n, *v))),
        PropV::Spread(v) => PropV::Spread(Box::new(scoped_expr(sh, scope, n, *v))),
    }
}

/// `e` with every identifier scoped (see [`scoped_expr`]).
pub fn scope_expr(sh: &ScopeHelper, scope: u32, e: &ScriptExpr) -> (r: ScriptExpr)
    requires
        exists|n: nat| chain_ends(sh.template_scopes@, scope as int, n),
    ensures
        forall|n: nat| chain_ends(sh.template_scopes@, scope as int, n) ==>
            expr_view(r) == scoped_expr(*sh, scope, n, expr_view(*e)),
    decreases e, 0int, 0int,
{
    match e {
        ScriptExpr::Ident(x) => ScriptExpr::Ident(sh.scoped_identifier(scope, x.as_str())),
        ScriptExpr::Member(o, p) => ScriptExpr::Member(Box::new(scope_expr(sh, scope, o)), p.clone()),
        ScriptExpr::Index(o, i) => {
            let o2 = scope_expr(sh, scope, o);
            let i2 = match &**o {
                ScriptExpr::Ident(_) => copy_expr(i),
                _ => scope_expr(sh, scope, i),
            };
            ScriptExpr::Index(Box::new(o2), Box::new(i2))
        },
        ScriptExpr::Call(c, args) => {
            let c2 = scope_expr(sh, scope, c);
            let args2 = scope_list(sh, scope, args);
            let r = ScriptExpr::Call(Box::new(c2), args2);
            assert forall|n: nat| chain_ends(sh.template_scopes@, scope as int, n) implies
                expr_view(r) == scoped_expr(*sh, scope, n, expr_view(*e)) by {
                assert forall|k: int| 0 <= k < args@.len() implies exprs_view(args2@)[k]
                    == scoped_expr(*sh, scope, n, exprs_view(args@)[k]) by {
                    assert(scoped_expr(*sh, scope, n, expr_view(args@[k])) == expr_view(args2@[k]));
                }
                assert(exprs_view(args2@) =~= scoped_expr(*sh, scope, n, expr_view(*e))->Call_1);
            }
            r
        },
        ScriptExpr::Arrow(ps, b) => {
            let mut ps2: Vec<String> = Vec::new();
            let mut k: usize = 0;
            while k < ps.len()
                invariant
                    k <= ps.len(),
                    exists|n: nat| chain_ends(sh.template_scopes@, scope as int, n),
                    ps2@.len() == k,
                    forall|j: int, n: nat| 0 <= j < k && chain_ends(sh.template_scopes@, scope as int, n) ==>
                        ps2@[j]@ == #[trigger] scoped_name(*sh, scope, n, ps@[j]@),
                decreases ps.len() - k,
            {
                ps2.push(sh.scoped_identifier(scope, ps[k].as_str()));
                k = k + 1;
            }
            let b2 = scope_expr(sh, scope, b);
            let r = ScriptExpr::Arrow(ps2, Box::new(b2));
            assert forall|n: nat| chain_ends(sh.template_scopes@, scope as int, n) implies
                expr_view(r) == scoped_expr(*sh, scope, n, expr_view(*e)) by {
                assert(names_view(ps2@) =~= names_view(ps@).map_values(|x: Seq<char>| scoped_name(*sh, scope, n, x)));
            }
            r
        },
        ScriptExpr::Assign(t, op, v) => ScriptExpr::Assign(Box::new(scope_expr(sh, scope, t)), op.clone(),
            Box::new(scope_expr(sh, scope, v))),
        ScriptExpr::Update(op, prefix, a) => ScriptExpr::Update(op.clone(), *prefix, Box::new(scope_expr(sh, scope, a))),
        ScriptExpr::Object(props) => {
            let props2 = scope_props(sh, scope, props);
            let r = ScriptExpr::Object(props2);
            assert forall|n: nat| chain_ends(sh.template_scopes@, scope as int, n) implies
                expr_view(r) == scoped_expr(*sh, scope, n, expr_view(*e)) by {
                assert forall|k: int| 0 <= k < props@.len() implies props_view(props2@)[k]
                    == scoped_prop(*sh, scope, n, props_view(props@)[k]) by {
                    assert(scoped_prop(*sh, scope, n, prop_view(props@[k])) == prop_view(props2@[k]));
                }
                assert(props_view(props2@) =~= scoped_expr(*sh, scope, n, expr_view(*e))->Object_0);
            }
            r
        },
        ScriptExpr::Template(pieces, subs) => {
            let subs2 = scope_list(sh, scope, subs);
            let r = ScriptExpr::Template(copy_names(pieces), subs2);
            assert forall|n: nat| chain_ends(sh.template_scopes@, scope as int, n) implies
                expr_view(r) == scoped_expr(*sh, scope, n, expr_view(*e)) by {
                assert forall|k: int| 0 <= k < subs@.len() implies exprs_view(subs2@)[k]
                    == scoped_expr(*sh, scope, n, exprs_view(subs@)[k]) by {
                    assert(scoped_expr(*sh, scope, n, expr_view(subs@[k])) == expr_view(subs2@[k]));
                }
                assert(exprs_view(subs2@) =~= scoped_expr(*sh, scope, n, expr_view(*e))->Template_1);
            }
            r
        },
    }
}

fn scope_list(sh: &ScopeHelper, scope: u32, es: &Vec<ScriptExpr>) -> (r: Vec<ScriptExpr>)
    requires
        exists|n: nat| chain_ends(sh.template_scopes@, scope as int, n),
    ensures
        r@.len() == es@.len(),
        forall|j: int, n: nat| 0 <= j < es@.len() && chain_ends(sh.template_scopes@, scope as int, n) ==>
            expr_view(r@[j]) == #[trigger] scoped_expr(*sh, scope, n, expr_view(es@[j])),
    decreases es@, 2int, 0int,
{
    let mut r: Vec<ScriptExpr> = Vec::new();
    let mut i: usize = 0;
    while i < es.len()
        invariant
            i <= es.len(),
            exists|n: nat| chain_ends(sh.template_scopes@, scope as int, n),
            r@.len() == i,
            forall|j: int, n: nat| 0 <= j < i && chain_ends(sh.template_scopes@, scope as int, n) ==>
                expr_view(r@[j]) == #[trigger] scoped_expr(*sh, scope, n, expr_view(es@[j])),
        decreases es.len() - i,
    {
        proof {
            assert(decreases_to!(es@ => es@[i as int]));
        }
        r.push(scope_expr(sh, scope, &es[i]));
        i = i + 1;
    }
    r
}

fn scope_props(sh: &ScopeHelper, scope: u32, props: &Vec<ObjectProp>) -> (r: Vec<ObjectProp>)
    requires
        exists|n: nat| chain_ends(sh.template_scopes@, scope as int, n),
    ensures
        r@.len() == props@.len(),
        forall|j: int, n: nat| 0 <= j < props@.len() && chain_ends(sh.template_scopes@, scope as int, n) ==>
            prop_view(r@[j]) == #[trigger] scoped_prop(*sh, scope, n, prop_view(props@[j])),
    decreases props@, 2int, 0int,
{
    let mut r: Vec<ObjectProp> = Vec::new();
    let mut i: usize = 0;
    while i < props.len()
        invariant
            i <= props.len(),
            exists|n: nat| chain_ends(sh.template_scopes@, scope as int, n),
            r@.len() == i,
            forall|j: int, n: nat| 0 <= j < i && chain_ends(sh.template_scopes@, scope as int, n) ==>
                prop_view(r@[j]) == #[trigger] scoped_prop(*sh, scope, n, prop_view(props@[j])),
        decreases props.len() - i,
    {
        proof {
            assert(decreases_to!(props@ => props@[i as int]));
        }
        let p = match &props[i] {
            ObjectProp::Shorthand(x) => ObjectProp::KeyValue(x.clone(),
                Box::new(ScriptExpr::Ident(sh.scoped_identifier(scope, x.as_str())))),
            ObjectProp::KeyValue(key, v) => ObjectProp::KeyValue(key.clone(), Box::new(scope_expr(sh, scope, v))),
            ObjectProp::Spread(v) => ObjectProp::Spread(Box::new(scope_expr(sh, scope, v))),
        };
        r.push(p);
        i = i + 1;
    }
    r
}

/// A copy of `e`.
pub fn copy_expr(e: &ScriptExpr) -> (r: ScriptExpr)
    ensures
        expr_view(r) == expr_view(*e),
    decreases e, 0int, 0int,
{
    match e {
        ScriptExpr::Ident(x) => ScriptExpr::Ident(x.clone()),
        ScriptExpr::Member(o, p) => ScriptExpr::Member(Box::new(copy_expr(o)), p.clone()),
        ScriptExpr::Index(o, i) => ScriptExpr::Index(Box::new(copy_expr(o)), Box::new(copy_expr(i))),
        ScriptExpr::Call(c, args) => {
            let args2 = copy_list(args);
            assert(exprs_view(args2@) =~= exprs_view(args@));
            ScriptExpr::Call(Box::new(copy_expr(c)), args2)
        },
        ScriptExpr::Arrow(ps, b) => {
            let ps2 = copy_names(ps);
            ScriptExpr::Arrow(ps2, Box::new(copy_expr(b)))
        },
        ScriptExpr::Assign(t, op, v) => ScriptExpr::Assign(Box::new(copy_expr(t)), op.clone(), Box::new(copy_expr(v))),
        ScriptExpr::Update(op, prefix, a) => ScriptExpr::Update(op.clone(), *prefix, Box::new(copy_expr(a))),
        ScriptExpr::Object(props) => {
            let props2 = copy_props(props);
            assert(props_view(props2@) =~= props_view(props@));
            ScriptExpr::Object(props2)
        },
        ScriptExpr::Template(pieces, subs) => {
            let subs2 = copy_list(subs);
            assert(exprs_view(subs2@) =~= exprs_view(subs@));
            ScriptExpr::Template(copy_names(pieces), subs2)
        },
    }
}

fn copy_list(es: &Vec<ScriptExpr>) -> (r: Vec<ScriptExpr>)
    ensures
        r@.len() == es@.len(),
        forall|j: int| 0 <= j < es@.len() ==> expr_view(#[trigger] r@[j]) == expr_view(es@[j]),
    decreases es@, 2int, 0int,
{
    let mut r: Vec<ScriptExpr> = Vec::new();
    let mut i: usize = 0;
    while i < es.len()
        invariant
            i <= es.len(),
            r@.len() == i,
            forall|j: int| 0 <= j < i ==> expr_view(#[trigger] r@[j]) == expr_view(es@[j]),
        decreases es.len() - i,
    {
        proof {
            assert(decreases_to!(es@ => es@[i as int]));
        }
        r.push(copy_expr(&es[i]));
        i = i + 1;
    }
    r
}

fn copy_props(props: &Vec<ObjectProp>) -> (r: Vec<ObjectProp>)
    ensures
        r@.len() == props@.len(),
        forall|j: int| 0 <= j < props@.len() ==> prop_view(#[trigger] r@[j]) == prop_view(props@[j]),
    decreases props@, 2int, 0int,
{
    let mut r: Vec<ObjectProp> = Vec::new();
    let mut i: usize = 0;
    while i < props.len()
        invariant
            i <= props.len(),
            r@.len() == i,
            forall|j: int| 0 <= j < i ==> prop_view(#[trigger] r@[j]) == prop_view(props@[j]),
        decreases props.len() - i,
    {
        proof {
            assert(decreases_to!(props@ => props@[i as int]));
        }
        let p = match &props[i] {
            ObjectProp::Shorthand(x) => ObjectProp::Shorthand(x.clone()),
            ObjectProp::KeyValue(key, v) => ObjectProp::KeyValue(key.clone(), Box::new(copy_expr(v))),
            ObjectProp::Spread(v) => ObjectProp::Spread(Box::new(copy_expr(v))),
        };
        r.push(p);
        i = i + 1;
    }
    r
}

pub fn copy_names(ps: &Vec<String>) -> (r: Vec<String>)
    ensures
        names_view(r@) == names_view(ps@),
{
    let mut r: Vec<String> = Vec::new();
    let mut i: usize = 0;
    while i < ps.len()
        invariant
            i <= ps.len(),
            r@.len() == i,
            forall|j: int| 0 <= j < i ==> #[trigger] r@[j]@ == ps@[j]@,
        decreases ps.len() - i,
    {
        r.push(ps[i].clone());
        i = i + 1;
    }
    assert(names_view(r@) =~= names_view(ps@));
    r
}

/// The text of `expr` with every identifier behind the prefix of the scope it
/// comes from, seen from the template scope `scope_to_use` (see [`scoped_expr`]).
pub fn transform_scoped(expr: &ScriptExpr, scope_helper: &ScopeHelper, scope_to_use: u32) -> (r: String)
    requires
        exists|n: nat| chain_ends(scope_helper.template_scopes@, scope_to_use as int, n),
    ensures
        forall|n: nat| chain_ends(scope_helper.template_scopes@, scope_to_use as int, n) ==>
            r@ == print_expr(scoped_expr(*scope_helper, scope_to_use, n, expr_view(*expr))),
{
    let scoped = scope_expr(scope_helper, scope_to_use, expr);
    let mut out = String::new();
    write_expr(&scoped, &mut out);
    assert(out@ =~= print_expr(expr_view(scoped)));
    out
}

/// The text of `e`.
pub fn expr_to_string(e: &ScriptExpr) -> (r: String)
    ensures
        r@ == print_expr(expr_view(*e)),
{
    let mut out = String::new();
    write_expr(e, &mut out);
    assert(out@ =~= print_expr(expr_view(*e)));
    out
}

/// The text of `expr` with its identifiers scoped as in a template without
/// scopes or known variables.
pub fn test_swc_transform(expr: &ScriptExpr) -> (r: String)
    ensures
        exists|sh: ScopeHelper| {
            &&& sh.template_scopes@.len() == 0
            &&& sh.setup_vars@.len() == 0
            &&& sh.props_vars@.len() == 0
            &&& sh.data_vars@.len() == 0
            &&& sh.options_vars@.len() == 0
            &&& sh.globals@.len() == 0
            &&& r@ == print_expr(scoped_expr(sh, 0, 0, expr_view(*expr)))
        },
{
    let sh = ScopeHelper::default();
    assert(chain_ends(sh.template_scopes@, 0, 0));
    let r = transform_scoped(expr, &sh, 0);
    assert(r@ == print_expr(scoped_expr(sh, 0, 0, expr_view(*expr))));
    r
}

} // verus!
