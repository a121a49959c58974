//! Event names of `v-on` and the modifiers of DOM events.
use vstd::prelude::*;

use crate::case::{dash_case_from, spec_pascal_case, to_camel_case, to_pascal_case};
use crate::compiler::helper::is_ascii_alphanumeric;
use crate::text::{chars_of, push_char, push_str, str_eq, string_from_range, to_owned_string};
use crate::transform::asset_urls::{chars_start_with, starts_with};

verus! {

pub open spec fn is_ascii_upper(c: char) -> bool {
    'A' <= c && c <= 'Z'
}

/// Characters of a word group: ASCII letters and digits, and `-`.
pub open spec fn is_word_char(c: char) -> bool {
    is_ascii_alphanumeric(c) || c == '-'
}

/// The end of the group of word characters that starts at `i`.
pub open spec fn word_end(s: Seq<char>, i: int) -> int
    decreases s.len() - i,
{
    if 0 <= i < s.len() && is_word_char(s[i]) {
        word_end(s, i + 1)
    } else {
        i
    }
}

pub proof fn lemma_word_end(s: Seq<char>, i: int)
    requires
        0 <= i <= s.len(),
    ensures
        i <= word_end(s, i) <= s.len(),
        forall|k: int| i <= k < word_end(s, i) ==> is_word_char(#[trigger] s[k]),
        word_end(s, i) < s.len() ==> !is_word_char(s[word_end(s, i)]),
    decreases s.len() - i,
{
    if i < s.len() && is_word_char(s[i]) {
        lemma_word_end(s, i + 1);
    }
}

/// From `i` on: each group of word characters converted (the first one, when `cap`
/// holds, to PascalCase, the others to camelCase), each followed by the character
/// that ends it.
pub open spec fn word_groups(s: Seq<char>, i: int, cap: bool) -> Seq<char>
    decreases s.len() - i,
{
    if i < 0 || i >= s.len() {
        Seq::empty()
    } else {
        let j = word_end(s, i);
        let conv = dash_case_from(s.subrange(i, j), 0, cap);
        if j < s.len() {
            proof {
                lemma_word_end(s, i);
            }
            conv + seq![s[j]] + word_groups(s, j + 1, false)
        } else {
            conv
        }
    }
}

/// `on` followed by the event name: as it is after `:` when it has an ASCII
/// uppercase letter, word group by word group otherwise.
pub open spec fn spec_camelcase_with_word_groups(s: Seq<char>) -> Seq<char> {
    if exists|k: int| 0 <= k < s.len() && is_ascii_upper(#[trigger] s[k]) {
        "on:"@ + s
    } else {
        "on"@ + word_groups(s, 0, true)
    }
}

/// Turns an event name to an `on` event handler.
/// The algorithm is as follows:
/// 0. Push `on` to buffer;
/// 1. Check that event is all not-uppercase.
///    a. If it is, push `:` and event itself to the buffer. Return;
///    b. Otherwise set `is_capital=true`;
/// 2. Read ASCII letters and `-` symbols until non-matching character or EOL;
/// 3. Convert the read sequence into camel-case if `is_capital=false`; or pascal-case otherwise;
/// 4. Push converted sequence and non-matching character;
/// 5. Repeat steps 2-5 until EOL.
pub fn camelcase_with_word_groups(from: &str) -> (r: String)
    ensures
        r@ == spec_camelcase_with_word_groups(from@),
{
    let chars = chars_of(from);
    let mut buf = to_owned_string("on");

    let mut k: usize = 0;
    while k < chars.len()
        invariant
            chars@ == from@,
            k <= chars.len(),
            buf@ == "on"@,
            forall|j: int| 0 <= j < k ==> !is_ascii_upper(#[trigger] chars@[j]),
        decreases chars.len() - k,
    {
        let c = chars[k];
        if 'A' <= c && c <= 'Z' {
            push_char(&mut buf, ':');
            push_str(&mut buf, from);
            proof {
                reveal_strlit("on");
                reveal_strlit("on:");
                assert(is_ascii_upper(from@[k as int]));
            }
            assert(buf@ =~= "on:"@ + from@);
            return buf;
        }
        k = k + 1;
    }

    let mut is_capital = true;
    let mut i: usize = 0;
    while i < chars.len()
        invariant
            chars@ == from@,
            i <= chars.len(),
            buf@ + word_groups(from@, i as int, is_capital) == "on"@ + word_groups(from@, 0, true),
        decreases chars.len() - i,
    {
        let ghost before = buf@;
        let ghost cap = is_capital;
        let ghost i0 = i as int;
        proof {
            lemma_word_end(from@, i0);
        }
        let mut j = i;
        while j < chars.len() && (is_ascii_alnum(chars[j]) || chars[j] == '-')
            invariant
                chars@ == from@,
                i <= j <= chars.len(),
                word_end(from@, i as int) == word_end(from@, j as int),
            decreases chars.len() - j,
        {
            j = j + 1;
        }
        let matching = string_from_range(&chars, i, j);
        if is_capital {
            to_pascal_case(matching.as_str(), &mut buf);
            is_capital = false;
        } else {
            to_camel_case(matching.as_str(), &mut buf);
        }
        let ghost conv = dash_case_from(from@.subrange(i0, j as int), 0, cap);
        assert(buf@ == before + conv);
        i = j;
        if i < chars.len() {
            push_char(&mut buf, chars[i]);
            i = i + 1;
            assert(before + word_groups(from@, i0, cap) =~= buf@ + word_groups(from@, i as int, is_capital));
        } else {
            assert(before + word_groups(from@, i0, cap) =~= buf@ + word_groups(from@, i as int, is_capital));
        }
    }
    assert(buf@ + word_groups(from@, i as int, is_capital) =~= buf@);
    buf
}

fn is_ascii_alnum(c: char) -> (r: bool)
    ensures
        r == is_ascii_alphanumeric(c),
{
    ('a' <= c && c <= 'z') || ('A' <= c && c <= 'Z') || ('0' <= c && c <= '9')
}

/// The handler key of a static event: `vue:` events become `onVnode...` hooks,
/// other events go through [`spec_camelcase_with_word_groups`].
pub open spec fn spec_static_event(s: Seq<char>) -> Seq<char> {
    if s.len() >= 4 && s.take(4) == "vue:"@ {
        "on"@ + spec_pascal_case("vnode-"@ + s.skip(4))
    } else {
        spec_camelcase_with_word_groups(s)
    }
}

/// Turns a static event name into its handler key, in place
/// (`vue:update` -> `onVnodeUpdate`, `click` -> `onClick`).
pub fn transform_v_on_static_event(static_event: &mut String)
    ensures
        final(static_event)@ == spec_static_event(old(static_event)@),
{
    let chars = chars_of(static_event.as_str());
    proof {
        reveal_strlit("vue:");
    }
    let starts_with_vue = chars.len() >= 4 && chars[0] == 'v' && chars[1] == 'u' && chars[2] == 'e' && chars[3] == ':';
    proof {
        if starts_with_vue {
            assert(chars@.take(4) =~= "vue:"@);
        } else if chars@.len() >= 4 && chars@.take(4) == "vue:"@ {
            assert(chars@[0] == chars@.take(4)[0]);
            assert(chars@[1] == chars@.take(4)[1]);
            assert(chars@[2] == chars@.take(4)[2]);
            assert(chars@[3] == chars@.take(4)[3]);
        }
    }
    let transformed_event = if starts_with_vue {
        // `vue:` events have special transform
        // `vue:update` -> `onVnodeUpdate`
        let mut replaced = to_owned_string("vnode-");
        let rest = string_from_range(&chars, 4, chars.len());
        push_str(&mut replaced, rest.as_str());
        let mut out = to_owned_string("on");
        to_pascal_case(replaced.as_str(), &mut out);
        assert(rest@ =~= old(static_event)@.skip(4));
        out
    } else {
        camelcase_with_word_groups(static_event.as_str())
    };
    *static_event = transformed_event;
}

pub open spec fn spec_is_event_option_modifier(m: Seq<char>) -> bool {
    m == "passive"@ || m == "once"@ || m == "capture"@
}

/// `passive`, `once` and `capture` become event options.
pub fn is_event_option_modifier(modifier: &str) -> (r: bool)
    ensures
        r == spec_is_event_option_modifier(modifier@),
{
    str_eq(modifier, "passive") || str_eq(modifier, "once") || str_eq(modifier, "capture")
}

pub open spec fn spec_is_non_key_modifier(m: Seq<char>) -> bool {
    m == "stop"@ || m == "prevent"@ || m == "self"@ || m == "ctrl"@ || m == "shift"@ || m == "alt"@
        || m == "meta"@ || m == "exact"@ || m == "middle"@
}

/// Modifiers that are not keys: event propagation management, system modifiers
/// with `exact`, and the middle mouse button.
pub fn is_non_key_modifier(modifier: &str) -> (r: bool)
    ensures
        r == spec_is_non_key_modifier(modifier@),
{
    // event propagation management
    str_eq(modifier, "stop") || str_eq(modifier, "prevent") || str_eq(modifier, "self")
    // system modifiers + exact
     || str_eq(modifier, "ctrl") || str_eq(modifier, "shift") || str_eq(modifier, "alt") || str_eq(
        modifier,
        "meta",
    ) || str_eq(modifier, "exact")
    // mouse
     || str_eq(modifier, "middle")
}

/// left & right could be mouse or key modifiers based on event type
pub fn maybe_key_modifier(modifier: &str) -> (r: bool)
    ensures
        r == (modifier@ == "left"@ || modifier@ == "right"@),
{
    str_eq(modifier, "left") || str_eq(modifier, "right")
}

pub open spec fn ascii_lower(c: char) -> char {
    if 'A' <= c && c <= 'Z' {
        ((c as u32) + 32) as char
    } else {
        c
    }
}

/// Equal up to ASCII case.
pub open spec fn spec_eq_ignore_ascii_case(a: Seq<char>, b: Seq<char>) -> bool {
    a.len() == b.len() && forall|k: int| 0 <= k < a.len() ==> ascii_lower(#[trigger] a[k]) == ascii_lower(b[k])
}

fn to_ascii_lower(c: char) -> (r: char)
    ensures
        r == ascii_lower(c),
{
    if 'A' <= c && c <= 'Z' {
        ((c as u32) + 32) as u8 as char
    } else {
        c
    }
}

/// Whether two strings are equal up to ASCII case (`str::eq_ignore_ascii_case`).
pub fn eq_ignore_ascii_case(a: &str, b: &str) -> (r: bool)
    ensures
        r == spec_eq_ignore_ascii_case(a@, b@),
{
    let va = chars_of(a);
    let vb = chars_of(b);
    if va.len() != vb.len() {
        return false;
    }
    let mut i: usize = 0;
    while i < va.len()
        invariant
            va@ == a@,
            vb@ == b@,
            va.len() == vb.len(),
            i <= va.len(),
            forall|k: int| 0 <= k < i ==> ascii_lower(#[trigger] va@[k]) == ascii_lower(vb@[k]),
        decreases va.len() - i,
    {
        if to_ascii_lower(va[i]) != to_ascii_lower(vb[i]) {
            return false;
        }
        i = i + 1;
    }
    true
}

/// `onkeyup`, `onkeydown` and `onkeypress`, in any ASCII case.
pub fn is_keyboard_event(modifier: &str) -> (r: bool)
    ensures
        r == (spec_eq_ignore_ascii_case(modifier@, "onkeyup"@) || spec_eq_ignore_ascii_case(
            modifier@,
            "onkeydown"@,
        ) || spec_eq_ignore_ascii_case(modifier@, "onkeypress"@)),
{
    eq_ignore_ascii_case(modifier, "onkeyup") || eq_ignore_ascii_case(modifier, "onkeydown")
        || eq_ignore_ascii_case(modifier, "onkeypress")
}


/// The key of the handler of a static event on an element (or a component when
/// `is_element` does not hold), and whether the event is a deprecated `vnode-`
/// hook (reported outside production): `vue:` events become `vnode-` hooks;
/// element events with an uppercase letter keep their name behind `on:`, the
/// others are written `on` and the name in PascalCase.
pub open spec fn spec_static_event_key(is_element: bool, raw_name: Seq<char>, is_prod: bool) -> (Seq<char>, bool) {
    let deprecated = !is_prod && starts_with(raw_name, "vnode"@);
    let name = if starts_with(raw_name, "vue:"@) {
        "vnode-"@ + raw_name.skip(4)
    } else {
        raw_name
    };
    let wrap = !is_element || starts_with(name, "vnode"@) || !has_upper(name);
    (if wrap {
        "on"@ + spec_pascal_case(name)
    } else {
        "on:"@ + name
    }, deprecated)
}

/// Whether one of `s` is an ASCII uppercase letter.
pub open spec fn has_upper(s: Seq<char>) -> bool {
    exists|k: int| 0 <= k < s.len() && is_ascii_upper(s[k])
}

fn has_ascii_upper(s: &Vec<char>) -> (r: bool)
    ensures
        r == has_upper(s@),
{
    let mut i: usize = 0;
    while i < s.len()
        invariant
            i <= s.len(),
            forall|k: int| 0 <= k < i ==> !is_ascii_upper(s@[k]),
        decreases s.len() - i,
    {
        if 'A' <= s[i] && s[i] <= 'Z' {
            return true;
        }
        i = i + 1;
    }
    false
}

/// The handler key of a static `v-on` event (see [`spec_static_event_key`]).
pub fn static_event_key(is_element: bool, raw_name: &str, is_prod: bool) -> (r: (String, bool))
    ensures
        (r.0@, r.1) == spec_static_event_key(is_element, raw_name@, is_prod),
{
    let raw = chars_of(raw_name);
    assert(raw@.skip(0) =~= raw@);
    let deprecated = !is_prod && chars_start_with(&raw, 0, "vnode");
    let name = if chars_start_with(&raw, 0, "vue:") {
        proof {
            reveal_strlit("vue:");
        }
        let mut n = to_owned_string("vnode-");
        let rest = string_from_range(&raw, 4, raw.len());
        push_str(&mut n, rest.as_str());
        assert(rest@ =~= raw_name@.skip(4));
        n
    } else {
        to_owned_string(raw_name)
    };
    let ghost spec_name = if starts_with(raw_name@, "vue:"@) {
        "vnode-"@ + raw_name@.skip(4)
    } else {
        raw_name@
    };
    assert(name@ == spec_name);
    let name_chars = chars_of(name.as_str());
    assert(name_chars@.skip(0) =~= name_chars@);
    let wrap_with_to_handler_key = !is_element || chars_start_with(&name_chars, 0, "vnode") || !has_ascii_upper(&name_chars);
    assert(wrap_with_to_handler_key == (!is_element || starts_with(spec_name, "vnode"@) || !has_upper(spec_name)));
    let event_string = if wrap_with_to_handler_key {
        let mut out = to_owned_string("on");
        to_pascal_case(name.as_str(), &mut out);
        out
    } else {
        let mut out = to_owned_string("on:");
        push_str(&mut out, name.as_str());
        out
    };
    assert(event_string@ == if wrap_with_to_handler_key {
        "on"@ + spec_pascal_case(spec_name)
    } else {
        "on:"@ + spec_name
    });
    (event_string, deprecated)
}

/// Every handler key starts with `on`.
pub proof fn lemma_handler_key_starts_with_on(s: Seq<char>)
    ensures
        spec_camelcase_with_word_groups(s).take(2) == "on"@,
        spec_static_event(s).take(2) == "on"@,
{
    reveal_strlit("on");
    reveal_strlit("on:");
    let r = spec_camelcase_with_word_groups(s);
    assert(r.take(2) =~= "on"@);
    assert(spec_static_event(s).take(2) =~= "on"@);
}

} // verus!
