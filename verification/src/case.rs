//! Case conversions of dash-separated identifiers.
use vstd::prelude::*;

use crate::text::chars_of;

verus! {

/// What `char::to_uppercase` yields for `c`: the Unicode uppercase mapping.
pub uninterp spec fn char_to_uppercase(c: char) -> Seq<char>;

/// ASCII lowercase letters map to their uppercase letter.
pub open spec fn ascii_upper(c: char) -> char {
    if 'a' <= c && c <= 'z' {
        ((c as u32) - 32) as char
    } else {
        c
    }
}

/// Appends the uppercase mapping of `c` (`buf.extend(c.to_uppercase())`).
/// The mapping is named; of it, the contract states only what holds of ASCII:
/// a lowercase ASCII letter becomes its uppercase letter and any other ASCII
/// character stays as it is. For other characters nothing is stated.
#[verifier::external_body]
pub(crate) fn push_uppercase(buf: &mut String, c: char)
    ensures
        final(buf)@ == old(buf)@ + char_to_uppercase(c),
        (c as u32) < 128 ==> final(buf)@ == old(buf)@.push(ascii_upper(c)),
{
    buf.extend(c.to_uppercase());
}

/// Drops each `-` of `s[i..]` and upper-cases the character that follows it;
/// when `cap` holds the first character is upper-cased too.
pub open spec fn dash_case_from(s: Seq<char>, i: int, cap: bool) -> Seq<char>
    decreases s.len() - i,
{
    if 0 <= i < s.len() {
        if s[i] == '-' {
            dash_case_from(s, i + 1, true)
        } else if cap {
            char_to_uppercase(s[i]) + dash_case_from(s, i + 1, false)
        } else {
            seq![s[i]] + dash_case_from(s, i + 1, false)
        }
    } else {
        Seq::empty()
    }
}

/// [`dash_case_from`] where every character is ASCII: upper-casing is that of ASCII letters.
pub open spec fn ascii_dash_case_from(s: Seq<char>, i: int, cap: bool) -> Seq<char>
    decreases s.len() - i,
{
    if 0 <= i < s.len() {
        if s[i] == '-' {
            ascii_dash_case_from(s, i + 1, true)
        } else if cap {
            seq![ascii_upper(s[i])] + ascii_dash_case_from(s, i + 1, false)
        } else {
            seq![s[i]] + ascii_dash_case_from(s, i + 1, false)
        }
    } else {
        Seq::empty()
    }
}

pub open spec fn all_ascii(s: Seq<char>) -> bool {
    forall|k: int| 0 <= k < s.len() ==> (#[trigger] s[k] as u32) < 128
}

/// `foo-bar-baz` -> `fooBarBaz`
pub open spec fn spec_camel_case(s: Seq<char>) -> Seq<char> {
    dash_case_from(s, 0, false)
}

/// `foo-bar-baz` -> `FooBarBaz`
pub open spec fn spec_pascal_case(s: Seq<char>) -> Seq<char> {
    dash_case_from(s, 0, true)
}

/// Appends `dash_case_from(raw, 0, cap)` to `out`.
pub fn push_dash_case(raw: &str, out: &mut String, cap: bool)
    ensures
        final(out)@ == old(out)@ + dash_case_from(raw@, 0, cap),
        all_ascii(raw@) ==> dash_case_from(raw@, 0, cap) == ascii_dash_case_from(raw@, 0, cap),
{
    let s = chars_of(raw);
    let mut i: usize = 0;
    let mut c = cap;
    while i < s.len()
        invariant
            s@ == raw@,
            i <= s.len(),
            old(out)@ + dash_case_from(s@, 0, cap) == out@ + dash_case_from(s@, i as int, c),
            all_ascii(s@) ==> old(out)@ + ascii_dash_case_from(s@, 0, cap) == out@ + ascii_dash_case_from(
                s@,
                i as int,
                c,
            ),
        decreases s.len() - i,
    {
        let ch = s[i];
        let ghost before = out@;
        if ch == '-' {
            c = true;
        } else if c {
            push_uppercase(out, ch);
            c = false;
            assert(before + (char_to_uppercase(ch) + dash_case_from(s@, i + 1, false))
                =~= out@ + dash_case_from(s@, i + 1, false));
            proof {
                if all_ascii(s@) {
                    assert((s@[i as int] as u32) < 128);
                    assert(before + (seq![ascii_upper(ch)] + ascii_dash_case_from(s@, i + 1, false))
                        =~= out@ + ascii_dash_case_from(s@, i + 1, false));
                }
            }
        } else {
            crate::text::push_char(out, ch);
            c = false;
            assert(before + (seq![ch] + dash_case_from(s@, i + 1, false))
                =~= out@ + dash_case_from(s@, i + 1, false));
            assert(before + (seq![ch] + ascii_dash_case_from(s@, i + 1, false))
                =~= out@ + ascii_dash_case_from(s@, i + 1, false));
        }
        i = i + 1;
    }
    assert(out@ + dash_case_from(s@, i as int, c) =~= out@);
    assert(out@ + ascii_dash_case_from(s@, i as int, c) =~= out@);
    proof {
        if all_ascii(raw@) {
            let o = old(out)@;
            assert(dash_case_from(raw@, 0, cap) =~= (o + dash_case_from(raw@, 0, cap)).skip(o.len() as int));
            assert(ascii_dash_case_from(raw@, 0, cap) =~= (o + ascii_dash_case_from(raw@, 0, cap)).skip(o.len() as int));
        }
    }
}

/// `foo-bar-baz` -> `FooBarBaz`, appended to `out`.
pub fn to_pascal_case(raw: &str, out: &mut String)
    ensures
        final(out)@ == old(out)@ + spec_pascal_case(raw@),
        all_ascii(raw@) ==> spec_pascal_case(raw@) == ascii_dash_case_from(raw@, 0, true),
{
    push_dash_case(raw, out, true)
}

/// `foo-bar-baz` -> `fooBarBaz`, appended to `out`.
pub fn to_camel_case(raw: &str, out: &mut String)
    ensures
        final(out)@ == old(out)@ + spec_camel_case(raw@),
        all_ascii(raw@) ==> spec_camel_case(raw@) == ascii_dash_case_from(raw@, 0, false),
{
    push_dash_case(raw, out, false)
}

} // verus!
