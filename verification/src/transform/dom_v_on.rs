//! The modifiers of a DOM `v-on`: which of them guard the handler, which guard
//! the pressed keys, which become event options, and what they do to the key.
use vstd::prelude::*;

use crate::case::{char_to_uppercase, push_uppercase};
use crate::parser::attributes::strings_view;
use crate::text::{chars_of, push_char, push_str, str_eq, to_owned_string};
use crate::transform::v_on::{
    eq_ignore_ascii_case, is_event_option_modifier, is_keyboard_event, is_non_key_modifier,
    maybe_key_modifier, spec_eq_ignore_ascii_case, spec_is_event_option_modifier,
    spec_is_non_key_modifier,
};

verus! {

/// The key of a handler property: a simple expression, either a static name or a
/// dynamic identifier, or a compound expression.
#[derive(Debug)]
pub enum HandlerKey {
    Simple { sym: String, is_static: bool },
    Compound,
}

/// What a key is to the rules below: its name and whether it is static, or nothing
/// for a compound expression.
pub open spec fn key_model(k: HandlerKey) -> Option<(Seq<char>, bool)> {
    match k {
        HandlerKey::Simple { sym, is_static } => Some((sym@, is_static)),
        HandlerKey::Compound => None,
    }
}

pub open spec fn spec_is_keyboard_event(s: Seq<char>) -> bool {
    spec_eq_ignore_ascii_case(s, "onkeyup"@) || spec_eq_ignore_ascii_case(s, "onkeydown"@)
        || spec_eq_ignore_ascii_case(s, "onkeypress"@)
}

/// The modifiers, sorted out: (key guards, handler guards, event options).
/// `left` and `right` guard keys on a static keyboard event, guard the handler on
/// another static event, and guard both on a dynamic one.
pub open spec fn spec_resolve(k: Option<(Seq<char>, bool)>, mods: Seq<Seq<char>>) -> (Seq<Seq<char>>, Seq<Seq<char>>, Seq<Seq<char>>)
    decreases mods.len(),
{
    if mods.len() == 0 {
        (Seq::empty(), Seq::empty(), Seq::empty())
    } else {
        let (a, b, c) = spec_resolve(k, mods.drop_last());
        let m = mods.last();
        if spec_is_event_option_modifier(m) {
            (a, b, c.push(m))
        } else if m == "left"@ || m == "right"@ {
            match k {
                Some((sym, true)) => if spec_is_keyboard_event(sym) {
                    (a.push(m), b, c)
                } else {
                    (a, b.push(m), c)
                },
                _ => (a.push(m), b.push(m), c),
            }
        } else if spec_is_non_key_modifier(m) {
            (a, b.push(m), c)
        } else {
            (a.push(m), b, c)
        }
    }
}

/// The modifiers of a `v-on`, sorted out.
pub struct ResolveModifiersResult {
    pub key_modifiers: Vec<String>,
    pub non_key_modifiers: Vec<String>,
    pub event_option_modifiers: Vec<String>,
}

/// Sorts the modifiers into key guards, handler guards and event options, keeping
/// their order.
pub fn resolve_modifiers(key: &HandlerKey, modifiers: &Vec<String>) -> (r: ResolveModifiersResult)
    ensures
        (strings_view(r.key_modifiers@), strings_view(r.non_key_modifiers@), strings_view(r.event_option_modifiers@))
            == spec_resolve(key_model(*key), strings_view(modifiers@)),
{
    let mut result = ResolveModifiersResult {
        key_modifiers: Vec::new(),
        non_key_modifiers: Vec::new(),
        event_option_modifiers: Vec::new(),
    };
    let ghost k = key_model(*key);
    let ghost mods = strings_view(modifiers@);
    let mut i: usize = 0;
    while i < modifiers.len()
        invariant
            i <= modifiers.len(),
            k == key_model(*key),
            mods == strings_view(modifiers@),
            (strings_view(result.key_modifiers@), strings_view(result.non_key_modifiers@), strings_view(result.event_option_modifiers@))
                == spec_resolve(k, mods.take(i as int)),
        decreases modifiers.len() - i,
    {
        let modifier = &modifiers[i];
        proof {
            assert(mods.take(i + 1).drop_last() =~= mods.take(i as int));
            assert(mods.take(i + 1).last() == modifier@);
        }
        let ghost (a0, b0, c0) = spec_resolve(k, mods.take(i as int));
        if is_event_option_modifier(modifier.as_str()) {
            result.event_option_modifiers.push(to_owned_string(modifier.as_str()));
            proof { assert(strings_view(result.event_option_modifiers@) =~= c0.push(modifier@)); }
        } else if maybe_key_modifier(modifier.as_str()) {
            let static_keyboard = match key {
                HandlerKey::Simple { sym, is_static } => if *is_static {
                    Some(is_keyboard_event(sym.as_str()))
                } else {
                    None
                },
                HandlerKey::Compound => None,
            };
            match static_keyboard {
                Some(true) => {
                    result.key_modifiers.push(to_owned_string(modifier.as_str()));
                    proof { assert(strings_view(result.key_modifiers@) =~= a0.push(modifier@)); }
                },
                Some(false) => {
                    result.non_key_modifiers.push(to_owned_string(modifier.as_str()));
                    proof { assert(strings_view(result.non_key_modifiers@) =~= b0.push(modifier@)); }
                },
                None => {
                    result.key_modifiers.push(to_owned_string(modifier.as_str()));
                    result.non_key_modifiers.push(to_owned_string(modifier.as_str()));
                    proof {
                        assert(strings_view(result.key_modifiers@) =~= a0.push(modifier@));
                        assert(strings_view(result.non_key_modifiers@) =~= b0.push(modifier@));
                    }
                },
            }
        } else if is_non_key_modifier(modifier.as_str()) {
            result.non_key_modifiers.push(to_owned_string(modifier.as_str()));
            proof { assert(strings_view(result.non_key_modifiers@) =~= b0.push(modifier@)); }
        } else {
            result.key_modifiers.push(to_owned_string(modifier.as_str()));
            proof { assert(strings_view(result.key_modifiers@) =~= a0.push(modifier@)); }
        }
        i = i + 1;
    }
    proof {
        assert(mods.take(modifiers.len() as int) =~= mods);
    }
    result
}

/// A modifier with its first character upper-cased.
pub open spec fn spec_capitalize(m: Seq<char>) -> Seq<char> {
    if m.len() == 0 {
        Seq::empty()
    } else {
        char_to_uppercase(m[0]) + m.skip(1)
    }
}

/// The event options, each capitalized, one after the other (`OnceCapture`).
pub open spec fn spec_options_postfix(mods: Seq<Seq<char>>) -> Seq<char>
    decreases mods.len(),
{
    if mods.len() == 0 {
        Seq::empty()
    } else {
        spec_options_postfix(mods.drop_last()) + spec_capitalize(mods.last())
    }
}

/// The postfix that event options add to the handler key.
pub fn options_postfix(modifiers: &Vec<String>) -> (r: String)
    ensures
        r@ == spec_options_postfix(strings_view(modifiers@)),
{
    let ghost mods = strings_view(modifiers@);
    let mut postfix = String::new();
    let mut i: usize = 0;
    while i < modifiers.len()
        invariant
            i <= modifiers.len(),
            mods == strings_view(modifiers@),
            postfix@ == spec_options_postfix(mods.take(i as int)),
        decreases modifiers.len() - i,
    {
        proof {
            assert(mods.take(i + 1).drop_last() =~= mods.take(i as int));
        }
        let cs = chars_of(modifiers[i].as_str());
        if cs.len() > 0 {
            push_uppercase(&mut postfix, cs[0]);
            let mut j: usize = 1;
            while j < cs.len()
                invariant
                    1 <= j <= cs.len(),
                    cs@ == modifiers@[i as int]@,
                    postfix@ == spec_options_postfix(mods.take(i as int)) + char_to_uppercase(cs@[0]) + cs@.subrange(1, j as int),
                decreases cs.len() - j,
            {
                push_char(&mut postfix, cs[j]);
                proof {
                    assert(cs@.subrange(1, j + 1) =~= cs@.subrange(1, j as int).push(cs@[j as int]));
                }
                j = j + 1;
            }
            proof {
                assert(cs@.subrange(1, cs@.len() as int) =~= cs@.skip(1));
            }
        }
        proof {
            assert(postfix@ =~= spec_options_postfix(mods.take(i + 1)));
        }
        i = i + 1;
    }
    proof {
        assert(mods.take(modifiers.len() as int) =~= mods);
    }
    postfix
}

/// `click.right` and `click.middle` do not fire: a static `onClick` key (in any
/// ASCII case) becomes `event`; a dynamic identifier stays as it is; a compound key
/// is compared with `onClick` when the handler runs.
pub open spec fn spec_remap_click(k: Option<(Seq<char>, bool)>, event: Seq<char>) -> Option<(Seq<char>, bool)> {
    match k {
        Some((sym, true)) => if spec_eq_ignore_ascii_case(sym, "onclick"@) {
            Some((event, true))
        } else {
            k
        },
        _ => k,
    }
}

/// What the modifiers of a DOM `v-on` do to its key and handler.
pub struct VOnModifiersPlan {
    /// The key once remapped and, when static, postfixed with the event options.
    /// A dynamic identifier with event options becomes a compound key.
    pub key: HandlerKey,
    /// The events a compound key is compared against `onClick` for, in order.
    pub click_remaps: Vec<String>,
    /// The event options, capitalized; a dynamic key adds them when the handler runs.
    pub postfix: String,
    /// The handler guards of `_withModifiers` (none: no wrapper).
    pub with_modifiers: Vec<String>,
    /// The key guards of `_withKeys`, when the handler is wrapped in it.
    pub with_keys: Option<Vec<String>>,
}

/// Whether `m` is among `mods`.
pub open spec fn has_modifier(mods: Seq<Seq<char>>, m: Seq<char>) -> bool {
    exists|i: int| 0 <= i < mods.len() && mods[i] == m
}

/// The key after `.right` (to `onContextmenu`) and then `.middle` (to `onMouseup`).
pub open spec fn spec_remapped_key(k: Option<(Seq<char>, bool)>, non_key: Seq<Seq<char>>) -> Option<(Seq<char>, bool)> {
    let k1 = if has_modifier(non_key, "right"@) {
        spec_remap_click(k, "onContextmenu"@)
    } else {
        k
    };
    if has_modifier(non_key, "middle"@) {
        spec_remap_click(k1, "onMouseup"@)
    } else {
        k1
    }
}

/// Whether the key guards wrap the handler: on a keyboard event name (static or
/// not), and always on a compound key.
pub open spec fn spec_wraps_keys(k: Option<(Seq<char>, bool)>) -> bool {
    match k {
        Some((sym, _)) => spec_is_keyboard_event(sym),
        None => true,
    }
}

/// The key once the event options are added: a static name takes the postfix, a
/// dynamic one becomes compound.
pub open spec fn spec_postfixed_key(k: Option<(Seq<char>, bool)>, postfix: Seq<char>, has_options: bool) -> Option<(Seq<char>, bool)> {
    if !has_options {
        k
    } else {
        match k {
            Some((sym, true)) => Some((sym + postfix, true)),
            _ => None,
        }
    }
}

/// Whether the key was compound before the click remaps, so that they apply at run time.
pub open spec fn spec_click_remaps(k: Option<(Seq<char>, bool)>, non_key: Seq<Seq<char>>) -> Seq<Seq<char>> {
    if k is Some {
        Seq::empty()
    } else {
        (if has_modifier(non_key, "right"@) { seq!["onContextmenu"@] } else { Seq::empty() })
            + (if has_modifier(non_key, "middle"@) { seq!["onMouseup"@] } else { Seq::empty() })
    }
}

/// Whether one of `mods` is `m`.
fn contains_modifier(mods: &Vec<String>, m: &str) -> (r: bool)
    ensures
        r == has_modifier(strings_view(mods@), m@),
{
    let mut i: usize = 0;
    while i < mods.len()
        invariant
            i <= mods.len(),
            forall|j: int| 0 <= j < i ==> #[trigger] mods@[j]@ != m@,
        decreases mods.len() - i,
    {
        if str_eq(mods[i].as_str(), m) {
            proof {
                assert(strings_view(mods@)[i as int] == m@);
            }
            return true;
        }
        i = i + 1;
    }
    proof {
        assert forall|j: int| 0 <= j < strings_view(mods@).len() implies strings_view(mods@)[j] != m@ by {
            assert(strings_view(mods@)[j] == mods@[j]@);
        }
    }
    false
}

fn remap_click(key: HandlerKey, event: &str) -> (r: HandlerKey)
    ensures
        key_model(r) == spec_remap_click(key_model(key), event@),
{
    match key {
        HandlerKey::Simple { sym, is_static } => {
            if is_static && eq_ignore_ascii_case(sym.as_str(), "onclick") {
                HandlerKey::Simple { sym: to_owned_string(event), is_static: true }
            } else {
                HandlerKey::Simple { sym, is_static }
            }
        },
        HandlerKey::Compound => HandlerKey::Compound,
    }
}

/// What the modifiers of a DOM `v-on` with the key `key` do: the `.right` and
/// `.middle` click remaps, the `_withModifiers` and `_withKeys` guards and the event
/// option postfix. Without modifiers nothing changes.
pub fn plan_v_on_modifiers(key: HandlerKey, modifiers: &Vec<String>) -> (r: VOnModifiersPlan)
    ensures
        ({
            let (key_mods, non_key, options) = spec_resolve(key_model(key), strings_view(modifiers@));
            let remapped = spec_remapped_key(key_model(key), non_key);
            let postfix = spec_options_postfix(options);
            &&& strings_view(r.with_modifiers@) == non_key
            &&& (match r.with_keys {
                Some(v) => key_mods.len() > 0 && spec_wraps_keys(remapped) && strings_view(v@) == key_mods,
                None => !(key_mods.len() > 0 && spec_wraps_keys(remapped)),
            })
            &&& r.postfix@ == postfix
            &&& key_model(r.key) == spec_postfixed_key(remapped, postfix, options.len() > 0)
            &&& strings_view(r.click_remaps@) == spec_click_remaps(key_model(key), non_key)
        }),
        modifiers@.len() == 0 ==> key_model(r.key) == key_model(key) && r.with_modifiers@.len() == 0
            && r.with_keys is None && r.postfix@.len() == 0 && r.click_remaps@.len() == 0,
{
    let ghost k0 = key_model(key);
    let resolved = resolve_modifiers(&key, modifiers);
    proof {
        if modifiers@.len() == 0 {
            assert(strings_view(modifiers@) =~= Seq::<Seq<char>>::empty());
        }
    }
    let right = contains_modifier(&resolved.non_key_modifiers, "right");
    let middle = contains_modifier(&resolved.non_key_modifiers, "middle");
    let was_compound = match &key {
        HandlerKey::Compound => true,
        HandlerKey::Simple { .. } => false,
    };

    // Normalize click.right and click.middle since they don't actually fire
    let mut click_remaps: Vec<String> = Vec::new();
    let mut key = key;
    if right {
        key = remap_click(key, "onContextmenu");
        if was_compound {
            click_remaps.push(to_owned_string("onContextmenu"));
        }
    }
    if middle {
        key = remap_click(key, "onMouseup");
        if was_compound {
            click_remaps.push(to_owned_string("onMouseup"));
        }
    }
    proof {
        reveal_strlit("onContextmenu");
        reveal_strlit("onMouseup");
        let cr = spec_click_remaps(k0, strings_view(resolved.non_key_modifiers@));
        assert(strings_view(click_remaps@) =~= cr);
    }

    // If event name is dynamic, always wrap with keys guard
    let wrap = match &key {
        HandlerKey::Simple { sym, .. } => is_keyboard_event(sym.as_str()),
        HandlerKey::Compound => true,
    };
    let with_keys = if resolved.key_modifiers.len() > 0 && wrap {
        Some(resolved.key_modifiers)
    } else {
        None
    };

    let postfix = options_postfix(&resolved.event_option_modifiers);
    if resolved.event_option_modifiers.len() > 0 {
        key = match key {
            HandlerKey::Simple { sym, is_static } => if is_static {
                let mut name = sym;
                push_str(&mut name, postfix.as_str());
                HandlerKey::Simple { sym: name, is_static: true }
            } else {
                HandlerKey::Compound
            },
            HandlerKey::Compound => HandlerKey::Compound,
        };
    }
    VOnModifiersPlan {
        key,
        click_remaps,
        postfix,
        with_modifiers: resolved.non_key_modifiers,
        with_keys,
    }
}

} // verus!
