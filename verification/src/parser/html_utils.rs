use vstd::prelude::*;

use crate::text::str_eq;

verus! {

/// The void elements of HTML: they have no closing tag and no children.
pub open spec fn spec_is_void_element(tag_name: Seq<char>) -> bool {
    ||| tag_name == "area"@
    ||| tag_name == "base"@
    ||| tag_name == "br"@
    ||| tag_name == "col"@
    ||| tag_name == "command"@
    ||| tag_name == "embed"@
    ||| tag_name == "hr"@
    ||| tag_name == "img"@
    ||| tag_name == "input"@
    ||| tag_name == "keygen"@
    ||| tag_name == "link"@
    ||| tag_name == "meta"@
    ||| tag_name == "param"@
    ||| tag_name == "source"@
    ||| tag_name == "track"@
    ||| tag_name == "wbr"@
}

/// HTML space characters: space, tab, line feed, form feed and carriage return.
pub open spec fn spec_is_space_char(x: char) -> bool {
    x == ' ' || x == '\t' || x == '\n' || x == '\r' || x == '\u{000C}'
}

/// Characters accepted in a tag or attribute name: ASCII letters.
pub open spec fn spec_is_valid_name_char(x: char) -> bool {
    ('A' <= x && x <= 'Z') || ('a' <= x && x <= 'z')
}

pub fn is_space_char(x: char) -> (r: bool)
    ensures
        r == spec_is_space_char(x),
{
    x == ' ' || x == '\t' || x == '\n' || x == '\r' || x == '\u{000C}'
}

pub fn is_valid_name_char(x: char) -> (r: bool)
    ensures
        r == spec_is_valid_name_char(x),
{
    (x >= 'A' && x <= 'Z') || (x >= 'a' && x <= 'z')
}

pub fn is_void_element(tag_name: &str) -> (r: bool)
    ensures
        r == spec_is_void_element(tag_name@),
{
    str_eq(tag_name, "area") || str_eq(tag_name, "base") || str_eq(tag_name, "br")
        || str_eq(tag_name, "col") || str_eq(tag_name, "command") || str_eq(tag_name, "embed")
        || str_eq(tag_name, "hr") || str_eq(tag_name, "img") || str_eq(tag_name, "input")
        || str_eq(tag_name, "keygen") || str_eq(tag_name, "link") || str_eq(tag_name, "meta")
        || str_eq(tag_name, "param") || str_eq(tag_name, "source") || str_eq(tag_name, "track")
        || str_eq(tag_name, "wbr")
}

/// The index just past the run of name characters that starts at `i`.
pub open spec fn name_end(s: Seq<char>, i: int) -> int
    decreases s.len() - i,
{
    if 0 <= i < s.len() && spec_is_valid_name_char(s[i]) {
        name_end(s, i + 1)
    } else {
        i
    }
}

/// The index just past the run of space characters that starts at `i`.
pub open spec fn space_end(s: Seq<char>, i: int) -> int
    decreases s.len() - i,
{
    if 0 <= i < s.len() && spec_is_space_char(s[i]) {
        space_end(s, i + 1)
    } else {
        i
    }
}

/// A name is a non-empty run of name characters; the result is where it ends.
pub open spec fn spec_html_name(s: Seq<char>, i: int) -> Option<int> {
    if name_end(s, i) > i {
        Some(name_end(s, i))
    } else {
        None
    }
}

pub proof fn lemma_name_end(s: Seq<char>, i: int)
    requires
        0 <= i <= s.len(),
    ensures
        i <= name_end(s, i) <= s.len(),
        forall|k: int| i <= k < name_end(s, i) ==> spec_is_valid_name_char(#[trigger] s[k]),
    decreases s.len() - i,
{
    if i < s.len() && spec_is_valid_name_char(s[i]) {
        lemma_name_end(s, i + 1);
    }
}

pub proof fn lemma_space_end(s: Seq<char>, i: int)
    requires
        0 <= i <= s.len(),
    ensures
        i <= space_end(s, i) <= s.len(),
    decreases s.len() - i,
{
    if i < s.len() && spec_is_space_char(s[i]) {
        lemma_space_end(s, i + 1);
    }
}

/// Scans the run of name characters starting at `i`.
pub fn scan_name(s: &Vec<char>, i: usize) -> (e: usize)
    requires
        i <= s.len(),
    ensures
        e == name_end(s@, i as int),
        i <= e <= s.len(),
{
    proof {
        lemma_name_end(s@, i as int);
    }
    let mut j = i;
    while j < s.len() && is_valid_name_char(s[j])
        invariant
            i <= j <= s.len(),
            name_end(s@, j as int) == name_end(s@, i as int),
        decreases s.len() - j,
    {
        j = j + 1;
    }
    j
}

/// Scans the run of space characters starting at `i`.
pub fn scan_space(s: &Vec<char>, i: usize) -> (e: usize)
    requires
        i <= s.len(),
    ensures
        e == space_end(s@, i as int),
        i <= e <= s.len(),
{
    proof {
        lemma_space_end(s@, i as int);
    }
    let mut j = i;
    while j < s.len() && is_space_char(s[j])
        invariant
            i <= j <= s.len(),
            space_end(s@, j as int) == space_end(s@, i as int),
        decreases s.len() - j,
    {
        j = j + 1;
    }
    j
}

} // verus!
