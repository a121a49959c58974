use vstd::prelude::*;

use crate::parser::attributes::{
    attrs_view, lemma_parse_attributes_bounds, parse_attributes_at, spec_parse_attributes, SpecAttr,
};
use crate::parser::html_utils::{
    is_void_element, lemma_name_end, lemma_space_end, scan_name, scan_space, space_end,
    spec_html_name, spec_is_valid_name_char, spec_is_void_element,
};
use crate::parser::structs::{ElementKind, StartingTag};
use crate::text::{chars_of, str_eq, string_from_range};

verus! {

/// The kind of an element, by its tag name.
pub open spec fn spec_element_kind(tag_name: Seq<char>) -> ElementKind {
    if spec_is_void_element(tag_name) {
        ElementKind::Void
    } else if tag_name == "template"@ {
        ElementKind::Template
    } else if tag_name == "script"@ || tag_name == "style"@ {
        ElementKind::RawText
    } else if tag_name == "textarea"@ || tag_name == "title"@ {
        ElementKind::EscapableRawText
    } else if tag_name == "svg"@ || tag_name == "math"@ {
        ElementKind::Foreign
    } else {
        ElementKind::Normal
    }
}

pub fn classify_element_kind(tag_name: &str) -> (k: ElementKind)
    ensures
        k == spec_element_kind(tag_name@),
{
    if is_void_element(tag_name) {
        ElementKind::Void
    } else if str_eq(tag_name, "template") {
        ElementKind::Template
    } else if str_eq(tag_name, "script") || str_eq(tag_name, "style") {
        ElementKind::RawText
    } else if str_eq(tag_name, "textarea") || str_eq(tag_name, "title") {
        ElementKind::EscapableRawText
    } else if str_eq(tag_name, "svg") || str_eq(tag_name, "math") {
        ElementKind::Foreign
    } else {
        ElementKind::Normal
    }
}

/// What a starting tag `<name attributes space* (> | />)` is made of:
/// the end of the tag, the tag name, the attributes and whether it closes itself.
pub struct SpecStartingTag {
    pub end: int,
    pub tag_name: Seq<char>,
    pub attributes: Seq<SpecAttr>,
    pub is_self_closing: bool,
}

pub open spec fn spec_parse_starting_tag(s: Seq<char>) -> Option<SpecStartingTag> {
    if 0 < s.len() && s[0] == '<' {
        match spec_html_name(s, 1) {
            Some(e) => {
                let (a, attributes) = spec_parse_attributes(s, e);
                let b = space_end(s, a);
                if b < s.len() && s[b] == '>' {
                    Some(SpecStartingTag { end: b + 1, tag_name: s.subrange(1, e), attributes, is_self_closing: false })
                } else if b + 1 < s.len() && s[b] == '/' && s[b + 1] == '>' {
                    Some(SpecStartingTag { end: b + 2, tag_name: s.subrange(1, e), attributes, is_self_closing: true })
                } else {
                    None
                }
            },
            None => None,
        }
    } else {
        None
    }
}

/// Parses a starting tag such as `<div class="a" @click="go">` or `<br/>`.
/// Gives back the input that follows the tag, and the tag; `None` when the
/// input does not start with a well-formed starting tag.
pub fn parse_element_starting_tag(input: &str) -> (r: Option<(String, StartingTag)>)
    ensures
        match spec_parse_starting_tag(input@) {
            Some(t) => r matches Some((rest, tag)) && rest@ == input@.skip(t.end)
                && tag.tag_name@ == t.tag_name && attrs_view(tag.attributes@) == t.attributes
                && tag.is_self_closing == t.is_self_closing
                && tag.kind == spec_element_kind(t.tag_name),
            None => r is None,
        },
{
    let s = chars_of(input);
    if s.len() > 0 && s[0] == '<' {
        let e = scan_name(&s, 1);
        if e > 1 {
            proof {
                lemma_parse_attributes_bounds(s@, e as int);
            }
            let (a, attributes) = parse_attributes_at(&s, e);
            let b = scan_space(&s, a);
            proof {
                lemma_space_end(s@, a as int);
            }
            let end;
            let is_self_closing;
            if b < s.len() && s[b] == '>' {
                end = b + 1;
                is_self_closing = false;
            } else if b < s.len() && b + 1 < s.len() && s[b] == '/' && s[b + 1] == '>' {
                end = b + 2;
                is_self_closing = true;
            } else {
                return None;
            }
            let tag_name = string_from_range(&s, 1, e);
            let kind = classify_element_kind(tag_name.as_str());
            let rest = string_from_range(&s, end, s.len());
            assert(s@.subrange(end as int, s@.len() as int) =~= input@.skip(end as int));
            Some((rest, StartingTag { tag_name, attributes, is_self_closing, kind }))
        } else {
            None
        }
    } else {
        None
    }
}

/// Parses a node. Only the starting tag is read so far; `parse_body` is not used yet.
pub fn parse_node(input: &str, parse_body: bool) -> (r: Option<(String, StartingTag)>)
    ensures
        match spec_parse_starting_tag(input@) {
            Some(t) => r matches Some((rest, tag)) && rest@ == input@.skip(t.end)
                && tag.tag_name@ == t.tag_name && attrs_view(tag.attributes@) == t.attributes
                && tag.is_self_closing == t.is_self_closing
                && tag.kind == spec_element_kind(t.tag_name),
            None => r is None,
        },
{
    parse_element_starting_tag(input)
}


/// A starting tag that parses spans `<`, a non-empty name of name characters, and
/// ends with `>` (with `/>` when it closes itself); what follows it is left unread.
pub proof fn lemma_starting_tag_shape(s: Seq<char>)
    ensures
        spec_parse_starting_tag(s) matches Some(t) ==> {
            &&& 2 <= t.end <= s.len()
            &&& s[0] == '<'
            &&& s[t.end - 1] == '>'
            &&& t.tag_name.len() > 0
            &&& t.tag_name == s.subrange(1, 1 + t.tag_name.len() as int)
            &&& forall|k: int| 0 <= k < t.tag_name.len() ==> spec_is_valid_name_char(#[trigger] t.tag_name[k])
            &&& (t.is_self_closing ==> t.end >= 3 && s[t.end - 2] == '/')
        },
{
    if 0 < s.len() && s[0] == '<' {
        lemma_name_end(s, 1);
        if let Some(e) = spec_html_name(s, 1) {
            lemma_parse_attributes_bounds(s, e);
            let (a, _) = spec_parse_attributes(s, e);
            lemma_space_end(s, a);
            let b = space_end(s, a);
            if let Some(t) = spec_parse_starting_tag(s) {
                assert forall|k: int| 0 <= k < t.tag_name.len() implies spec_is_valid_name_char(#[trigger] t.tag_name[k]) by {
                    assert(t.tag_name[k] == s[1 + k]);
                }
            }
        }
    }
}

} // verus!
