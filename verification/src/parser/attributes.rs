//! The attribute grammar of a starting tag.
//!
//! ```text
//! attributes := (space+ attribute)*
//! attribute  := directive ('=' value)? | name ('=' value)?
//! directive  := ('v-' name ':'? | '@' | ':' | '#') argument? ('.' name)*
//! argument   := '[' name ']'        (only for `v-slot` / `#`)
//!             | name
//! value      := '"' [^"]* '"'
//! ```
//! An attribute written without a value takes its own name as its value.
use vstd::prelude::*;

use crate::parser::html_utils::{
    is_space_char, is_valid_name_char, lemma_name_end, lemma_space_end, name_end, scan_name,
    scan_space, space_end, spec_html_name, spec_is_valid_name_char,
};
use crate::text::{chars_of, str_eq, string_from_range, to_owned_string};

verus! {

/// A Vue directive, e.g. `v-on:click.stop="handler"`, `@click`, `:prop`, `#slot`.
pub struct VDirective {
    pub name: String,
    pub argument: String,
    pub modifiers: Vec<String>,
    pub value: Option<String>,
    pub is_dynamic_slot: bool,
}

/// An attribute of a starting tag: either a plain HTML attribute or a directive.
pub enum HtmlAttribute {
    Regular { name: String, value: String },
    VDirective(VDirective),
}

/// The mathematical value of a [`VDirective`].
pub struct SpecDirective {
    pub name: Seq<char>,
    pub argument: Seq<char>,
    pub modifiers: Seq<Seq<char>>,
    pub value: Option<Seq<char>>,
    pub is_dynamic_slot: bool,
}

/// The mathematical value of an [`HtmlAttribute`].
pub enum SpecAttr {
    Regular { name: Seq<char>, value: Seq<char> },
    Directive(SpecDirective),
}

pub open spec fn opt_str_view(o: Option<String>) -> Option<Seq<char>> {
    match o {
        Some(s) => Some(s@),
        None => None,
    }
}

pub open spec fn strings_view(v: Seq<String>) -> Seq<Seq<char>> {
    v.map_values(|m: String| m@)
}

impl View for VDirective {
    type V = SpecDirective;

    open spec fn view(&self) -> SpecDirective {
        SpecDirective {
            name: self.name@,
            argument: self.argument@,
            modifiers: strings_view(self.modifiers@),
            value: opt_str_view(self.value),
            is_dynamic_slot: self.is_dynamic_slot,
        }
    }
}

impl View for HtmlAttribute {
    type V = SpecAttr;

    open spec fn view(&self) -> SpecAttr {
        match self {
            HtmlAttribute::Regular { name, value } => SpecAttr::Regular {
                name: name@,
                value: value@,
            },
            HtmlAttribute::VDirective(d) => SpecAttr::Directive(d@),
        }
    }
}

pub open spec fn attrs_view(v: Seq<HtmlAttribute>) -> Seq<SpecAttr> {
    v.map_values(|a: HtmlAttribute| a@)
}

// ---------------------------------------------------------------------------
// The grammar, as spec functions over the input characters and a position.
// Each returns the position just past what it read, or `None` on failure.
// ---------------------------------------------------------------------------

/// The first index at or after `i` that holds a double quote, or the length.
pub open spec fn quote_end(s: Seq<char>, i: int) -> int
    decreases s.len() - i,
{
    if 0 <= i < s.len() && s[i] != '"' {
        quote_end(s, i + 1)
    } else {
        i
    }
}

/// `'"' [^"]* '"'`, giving the characters between the quotes.
pub open spec fn spec_parse_attr_value(s: Seq<char>, i: int) -> Option<(int, Seq<char>)> {
    if 0 <= i < s.len() && s[i] == '"' {
        let j = quote_end(s, i + 1);
        if j < s.len() {
            Some((j + 1, s.subrange(i + 1, j)))
        } else {
            None
        }
    } else {
        None
    }
}

/// `('.' name)*`, stopping (without consuming the dot) at the first dot that
/// is not followed by a name.
pub open spec fn spec_parse_modifiers(s: Seq<char>, q: int) -> (int, Seq<Seq<char>>)
    decreases s.len() - q,
{
    if 0 <= q < s.len() && s[q] == '.' {
        match spec_html_name(s, q + 1) {
            Some(e) => {
                proof {
                    lemma_name_end(s, q + 1);
                }
                let (r, rest) = spec_parse_modifiers(s, e);
                (r, seq![s.subrange(q + 1, e)] + rest)
            },
            None => (q, Seq::empty()),
        }
    } else {
        (q, Seq::empty())
    }
}

/// The argument of a directive, if it has one: `[name]` for a dynamic slot, or a name.
/// Gives the end position, the argument and whether it is a dynamic slot name.
pub open spec fn spec_parse_argument(s: Seq<char>, p: int, name: Seq<char>, has_argument: bool) -> Option<(int, Seq<char>, bool)> {
    if has_argument {
        if name == "slot"@ && 0 <= p < s.len() && s[p] == '[' {
            match spec_html_name(s, p + 1) {
                Some(e) => if e < s.len() && s[e] == ']' {
                    Some((e + 1, s.subrange(p + 1, e), true))
                } else {
                    None
                },
                None => None,
            }
        } else {
            match spec_html_name(s, p) {
                Some(e) => Some((e, s.subrange(p, e), false)),
                None => None,
            }
        }
    } else {
        Some((p, Seq::empty(), false))
    }
}

/// Argument and modifiers of a directive whose name is known, starting at `p`.
pub open spec fn spec_directive_rest(s: Seq<char>, p: int, name: Seq<char>, has_argument: bool) -> Option<(int, SpecDirective)> {
    match spec_parse_argument(s, p, name, has_argument) {
        Some((q, argument, is_dynamic_slot)) => {
            let (r, modifiers) = spec_parse_modifiers(s, q);
            Some((r, SpecDirective { name, argument, modifiers, value: None, is_dynamic_slot }))
        },
        None => None,
    }
}

/// A directive without its value: `v-name[:arg]`, `@arg`, `:arg` or `#arg`, then modifiers.
pub open spec fn spec_parse_directive(s: Seq<char>, i: int) -> Option<(int, SpecDirective)> {
    if 0 <= i && i + 1 < s.len() && s[i] == 'v' && s[i + 1] == '-' {
        match spec_html_name(s, i + 2) {
            Some(e) => {
                let name = s.subrange(i + 2, e);
                if e < s.len() && s[e] == ':' {
                    spec_directive_rest(s, e + 1, name, true)
                } else {
                    spec_directive_rest(s, e, name, false)
                }
            },
            None => None,
        }
    } else if 0 <= i < s.len() && s[i] == '@' {
        spec_directive_rest(s, i + 1, "on"@, true)
    } else if 0 <= i < s.len() && s[i] == '#' {
        spec_directive_rest(s, i + 1, "slot"@, true)
    } else if 0 <= i < s.len() && s[i] == ':' {
        spec_directive_rest(s, i + 1, "bind"@, true)
    } else {
        None
    }
}

/// A directive followed by an optional `="value"`.
pub open spec fn spec_parse_dynamic_attr(s: Seq<char>, i: int) -> Option<(int, SpecDirective)> {
    match spec_parse_directive(s, i) {
        Some((j, d)) => if j < s.len() && s[j] == '=' {
            match spec_parse_attr_value(s, j + 1) {
                Some((k, v)) => Some((k, SpecDirective { value: Some(v), ..d })),
                None => None,
            }
        } else {
            Some((j, d))
        },
        None => None,
    }
}

/// A plain attribute `name` or `name="value"`; without a value it takes its own name.
pub open spec fn spec_parse_vanilla_attr(s: Seq<char>, i: int) -> Option<(int, SpecAttr)> {
    match spec_html_name(s, i) {
        Some(e) => {
            let name = s.subrange(i, e);
            if e < s.len() && s[e] == '=' {
                match spec_parse_attr_value(s, e + 1) {
                    Some((k, v)) => Some((k, SpecAttr::Regular { name, value: v })),
                    None => None,
                }
            } else {
                Some((e, SpecAttr::Regular { name, value: name }))
            }
        },
        None => None,
    }
}

/// A directive if one can be read, a plain attribute otherwise.
pub open spec fn spec_parse_attr(s: Seq<char>, i: int) -> Option<(int, SpecAttr)> {
    match spec_parse_dynamic_attr(s, i) {
        Some((j, d)) => Some((j, SpecAttr::Directive(d))),
        None => spec_parse_vanilla_attr(s, i),
    }
}

/// `(space+ attribute)*`: stops before the first space run that is not followed by an attribute.
pub open spec fn spec_parse_attributes(s: Seq<char>, i: int) -> (int, Seq<SpecAttr>)
    decreases s.len() - i,
{
    if 0 <= i <= s.len() {
        let j = space_end(s, i);
        if j > i {
            match spec_parse_attr(s, j) {
                Some((k, a)) => {
                    proof {
                        lemma_space_end(s, i);
                        lemma_parse_attr_bounds(s, j);
                    }
                    let (r, rest) = spec_parse_attributes(s, k);
                    (r, seq![a] + rest)
                },
                None => (i, Seq::empty()),
            }
        } else {
            (i, Seq::empty())
        }
    } else {
        (i, Seq::empty())
    }
}

// ---------------------------------------------------------------------------
// Bounds: every successful parse moves forward and stays within the input.
// ---------------------------------------------------------------------------

pub proof fn lemma_quote_end(s: Seq<char>, i: int)
    requires
        0 <= i <= s.len(),
    ensures
        i <= quote_end(s, i) <= s.len(),
        quote_end(s, i) < s.len() ==> s[quote_end(s, i)] == '"',
    decreases s.len() - i,
{
    if i < s.len() && s[i] != '"' {
        lemma_quote_end(s, i + 1);
    }
}

pub proof fn lemma_modifiers_bounds(s: Seq<char>, q: int)
    requires
        0 <= q <= s.len(),
    ensures
        q <= spec_parse_modifiers(s, q).0 <= s.len(),
    decreases s.len() - q,
{
    if q < s.len() && s[q] == '.' {
        lemma_name_end(s, q + 1);
        if let Some(e) = spec_html_name(s, q + 1) {
            lemma_modifiers_bounds(s, e);
        }
    }
}

pub proof fn lemma_directive_rest_bounds(s: Seq<char>, p: int, name: Seq<char>, has_argument: bool)
    requires
        0 <= p <= s.len(),
    ensures
        spec_directive_rest(s, p, name, has_argument) matches Some((r, _)) ==> p <= r <= s.len(),
        has_argument ==> (spec_directive_rest(s, p, name, has_argument) matches Some((r, _)) ==> p < r),
{
    lemma_name_end(s, p);
    if p < s.len() {
        lemma_name_end(s, p + 1);
    }
    if let Some((q, _, _)) = spec_parse_argument(s, p, name, has_argument) {
        lemma_modifiers_bounds(s, q);
    }
}

pub proof fn lemma_parse_directive_bounds(s: Seq<char>, i: int)
    requires
        0 <= i <= s.len(),
    ensures
        spec_parse_directive(s, i) matches Some((r, _)) ==> i < r <= s.len(),
{
    if i < s.len() && i + 1 < s.len() && s[i] == 'v' && s[i + 1] == '-' {
        lemma_name_end(s, i + 2);
        if let Some(e) = spec_html_name(s, i + 2) {
            if e < s.len() && s[e] == ':' {
                lemma_directive_rest_bounds(s, e + 1, s.subrange(i + 2, e), true);
            } else {
                lemma_directive_rest_bounds(s, e, s.subrange(i + 2, e), false);
            }
        }
    } else if i < s.len() {
        lemma_directive_rest_bounds(s, i + 1, "on"@, true);
        lemma_directive_rest_bounds(s, i + 1, "slot"@, true);
        lemma_directive_rest_bounds(s, i + 1, "bind"@, true);
    }
}

pub proof fn lemma_parse_attr_bounds(s: Seq<char>, i: int)
    requires
        0 <= i <= s.len(),
    ensures
        spec_parse_attr(s, i) matches Some((r, _)) ==> i < r <= s.len(),
{
    lemma_parse_directive_bounds(s, i);
    lemma_name_end(s, i);
    if let Some((j, _)) = spec_parse_directive(s, i) {
        if j + 2 <= s.len() {
            lemma_quote_end(s, j + 2);
        }
    }
    if let Some(e) = spec_html_name(s, i) {
        if e + 2 <= s.len() {
            lemma_quote_end(s, e + 2);
        }
    }
}

pub proof fn lemma_parse_attributes_bounds(s: Seq<char>, i: int)
    requires
        0 <= i <= s.len(),
    ensures
        i <= spec_parse_attributes(s, i).0 <= s.len(),
    decreases s.len() - i,
{
    lemma_space_end(s, i);
    let j = space_end(s, i);
    if j > i {
        lemma_parse_attr_bounds(s, j);
        if let Some((k, _)) = spec_parse_attr(s, j) {
            lemma_parse_attributes_bounds(s, k);
        }
    }
}

// ---------------------------------------------------------------------------
// The parser itself.
// ---------------------------------------------------------------------------

pub open spec fn opt_value_view(r: Option<(usize, String)>) -> Option<(int, Seq<char>)> {
    match r {
        Some((j, v)) => Some((j as int, v@)),
        None => None,
    }
}

pub open spec fn opt_directive_view(r: Option<(usize, VDirective)>) -> Option<(int, SpecDirective)> {
    match r {
        Some((j, d)) => Some((j as int, d@)),
        None => None,
    }
}

pub open spec fn opt_attr_view(r: Option<(usize, HtmlAttribute)>) -> Option<(int, SpecAttr)> {
    match r {
        Some((j, a)) => Some((j as int, a@)),
        None => None,
    }
}

fn scan_quote(s: &Vec<char>, i: usize) -> (e: usize)
    requires
        i <= s.len(),
    ensures
        e == quote_end(s@, i as int),
{
    proof {
        lemma_quote_end(s@, i as int);
    }
    let mut j = i;
    while j < s.len() && s[j] != '"'
        invariant
            i <= j <= s.len(),
            quote_end(s@, j as int) == quote_end(s@, i as int),
        decreases s.len() - j,
    {
        j = j + 1;
    }
    j
}

/// Reads `"value"` at position `i`.
fn parse_attr_value_at(s: &Vec<char>, i: usize) -> (r: Option<(usize, String)>)
    requires
        i <= s.len(),
    ensures
        opt_value_view(r) == spec_parse_attr_value(s@, i as int),
{
    if i < s.len() && s[i] == '"' {
        let j = scan_quote(s, i + 1);
        proof {
            lemma_quote_end(s@, i + 1);
        }
        if j < s.len() {
            Some((j + 1, string_from_range(s, i + 1, j)))
        } else {
            None
        }
    } else {
        None
    }
}

/// Reads the modifiers `.m1.m2...` at position `q`.
fn parse_modifiers_at(s: &Vec<char>, q: usize) -> (r: (usize, Vec<String>))
    requires
        q <= s.len(),
    ensures
        (r.0 as int, strings_view(r.1@)) == spec_parse_modifiers(s@, q as int),
{
    let mut p = q;
    let mut mods: Vec<String> = Vec::new();
    loop
        invariant
            q <= p <= s.len(),
            spec_parse_modifiers(s@, q as int) == (spec_parse_modifiers(s@, p as int).0,
                strings_view(mods@) + spec_parse_modifiers(s@, p as int).1),
        decreases s.len() - p,
    {
        if p < s.len() && s[p] == '.' {
            let e = scan_name(s, p + 1);
            if e > p + 1 {
                let m = string_from_range(s, p + 1, e);
                proof {
                    let rest = spec_parse_modifiers(s@, e as int).1;
                    assert(strings_view(mods@.push(m)) =~= strings_view(mods@) + seq![m@]);
                    assert(strings_view(mods@) + (seq![m@] + rest) =~= strings_view(mods@.push(m)) + rest);
                }
                mods.push(m);
                p = e;
            } else {
                assert(strings_view(mods@) + Seq::<Seq<char>>::empty() =~= strings_view(mods@));
                return (p, mods);
            }
        } else {
            assert(strings_view(mods@) + Seq::<Seq<char>>::empty() =~= strings_view(mods@));
            return (p, mods);
        }
    }
}

fn directive_rest_at(s: &Vec<char>, p: usize, name: String, has_argument: bool) -> (r: Option<(usize, VDirective)>)
    requires
        p <= s.len(),
    ensures
        opt_directive_view(r) == spec_directive_rest(s@, p as int, name@, has_argument),
{
    let (q, argument, is_dynamic_slot) = if has_argument {
        if str_eq(name.as_str(), "slot") && p < s.len() && s[p] == '[' {
            let e = scan_name(s, p + 1);
            if e > p + 1 && e < s.len() && s[e] == ']' {
                (e + 1, string_from_range(s, p + 1, e), true)
            } else {
                return None;
            }
        } else {
            let e = scan_name(s, p);
            if e > p {
                (e, string_from_range(s, p, e), false)
            } else {
                return None;
            }
        }
    } else {
        (p, String::new(), false)
    };
    let (r, modifiers) = parse_modifiers_at(s, q);
    Some((r, VDirective { name, argument, modifiers, value: None, is_dynamic_slot }))
}

/// Reads a directive (without its value) at position `i`.
fn parse_directive_at(s: &Vec<char>, i: usize) -> (r: Option<(usize, VDirective)>)
    requires
        i <= s.len(),
    ensures
        opt_directive_view(r) == spec_parse_directive(s@, i as int),
{
    if i < s.len() && i + 1 < s.len() && s[i] == 'v' && s[i + 1] == '-' {
        let e = scan_name(s, i + 2);
        if e > i + 2 {
            let name = string_from_range(s, i + 2, e);
            if e < s.len() && s[e] == ':' {
                directive_rest_at(s, e + 1, name, true)
            } else {
                directive_rest_at(s, e, name, false)
            }
        } else {
            None
        }
    } else if i < s.len() && s[i] == '@' {
        directive_rest_at(s, i + 1, to_owned_string("on"), true)
    } else if i < s.len() && s[i] == '#' {
        directive_rest_at(s, i + 1, to_owned_string("slot"), true)
    } else if i < s.len() && s[i] == ':' {
        directive_rest_at(s, i + 1, to_owned_string("bind"), true)
    } else {
        None
    }
}

/// Reads a directive with its optional value at position `i`.
fn parse_dynamic_attr_at(s: &Vec<char>, i: usize) -> (r: Option<(usize, VDirective)>)
    requires
        i <= s.len(),
    ensures
        opt_directive_view(r) == spec_parse_dynamic_attr(s@, i as int),
{
    proof {
        lemma_parse_directive_bounds(s@, i as int);
    }
    match parse_directive_at(s, i) {
        Some((j, d)) => {
            if j < s.len() && s[j] == '=' {
                match parse_attr_value_at(s, j + 1) {
                    Some((k, v)) => Some((k, VDirective { value: Some(v), ..d })),
                    None => None,
                }
            } else {
                Some((j, d))
            }
        },
        None => None,
    }
}

/// Reads a plain attribute at position `i`.
fn parse_vanilla_attr_at(s: &Vec<char>, i: usize) -> (r: Option<(usize, HtmlAttribute)>)
    requires
        i <= s.len(),
    ensures
        opt_attr_view(r) == spec_parse_vanilla_attr(s@, i as int),
{
    let e = scan_name(s, i);
    if e > i {
        let name = string_from_range(s, i, e);
        if e < s.len() && s[e] == '=' {
            match parse_attr_value_at(s, e + 1) {
                Some((k, value)) => Some((k, HtmlAttribute::Regular { name, value })),
                None => None,
            }
        } else {
            let value = string_from_range(s, i, e);
            Some((e, HtmlAttribute::Regular { name, value }))
        }
    } else {
        None
    }
}

/// Reads one attribute at position `i`.
fn parse_attr_at(s: &Vec<char>, i: usize) -> (r: Option<(usize, HtmlAttribute)>)
    requires
        i <= s.len(),
    ensures
        opt_attr_view(r) == spec_parse_attr(s@, i as int),
{
    match parse_dynamic_attr_at(s, i) {
        Some((j, d)) => Some((j, HtmlAttribute::VDirective(d))),
        None => parse_vanilla_attr_at(s, i),
    }
}

/// Reads the attribute list starting at position `i`.
pub fn parse_attributes_at(s: &Vec<char>, i: usize) -> (r: (usize, Vec<HtmlAttribute>))
    requires
        i <= s.len(),
    ensures
        (r.0 as int, attrs_view(r.1@)) == spec_parse_attributes(s@, i as int),
        i <= r.0 <= s.len(),
{
    proof {
        lemma_parse_attributes_bounds(s@, i as int);
    }
    let mut p = i;
    let mut attrs: Vec<HtmlAttribute> = Vec::new();
    loop
        invariant
            i <= p <= s.len(),
            spec_parse_attributes(s@, i as int) == (spec_parse_attributes(s@, p as int).0,
                attrs_view(attrs@) + spec_parse_attributes(s@, p as int).1),
        decreases s.len() - p,
    {
        let j = scan_space(s, p);
        if j > p {
            proof {
                lemma_parse_attr_bounds(s@, j as int);
            }
            match parse_attr_at(s, j) {
                Some((k, a)) => {
                    proof {
                        let rest = spec_parse_attributes(s@, k as int).1;
                        assert(attrs_view(attrs@.push(a)) =~= attrs_view(attrs@) + seq![a@]);
                        assert(attrs_view(attrs@) + (seq![a@] + rest) =~= attrs_view(attrs@.push(a)) + rest);
                    }
                    attrs.push(a);
                    p = k;
                },
                None => {
                    assert(attrs_view(attrs@) + Seq::<SpecAttr>::empty() =~= attrs_view(attrs@));
                    return (p, attrs);
                },
            }
        } else {
            assert(attrs_view(attrs@) + Seq::<SpecAttr>::empty() =~= attrs_view(attrs@));
            return (p, attrs);
        }
    }
}

/// Parses the attributes of a starting tag: each is preceded by at least one
/// space. Reading stops before the first space run not followed by an attribute.
/// Gives back the input that was not read and the attributes in order.
pub fn parse_attributes(input: &str) -> (r: (String, Vec<HtmlAttribute>))
    ensures
        ({
            let (end, attrs) = spec_parse_attributes(input@, 0);
            r.0@ == input@.skip(end) && attrs_view(r.1@) == attrs
        }),
{
    let s = chars_of(input);
    let (end, attrs) = parse_attributes_at(&s, 0);
    let rest = string_from_range(&s, end, s.len());
    assert(s@.subrange(end as int, s@.len() as int) =~= input@.skip(end as int));
    (rest, attrs)
}

} // verus!
