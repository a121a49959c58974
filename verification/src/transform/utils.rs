//! Identifiers for assets, and taking the elements of a list in order.
use vstd::prelude::*;

use crate::compiler::helper::is_ascii_alphanumeric;
use crate::text::{chars_of, decimal, push_char, push_decimal, push_str};

verus! {

/// One character of an asset name in an identifier: ASCII letters, digits and `_`
/// stay, `-` becomes `_`, anything else becomes its character code.
pub open spec fn asset_char(c: char) -> Seq<char> {
    if is_ascii_alphanumeric(c) || c == '_' {
        seq![c]
    } else if c == '-' {
        seq!['_']
    } else {
        decimal((c as u32) as nat)
    }
}

pub open spec fn asset_chars(s: Seq<char>) -> Seq<char>
    decreases s.len(),
{
    if s.len() == 0 {
        Seq::empty()
    } else {
        asset_chars(s.drop_last()) + asset_char(s.last())
    }
}

/// `_<asset_type>_<name>` with the name made a valid identifier (see [`asset_char`]).
pub open spec fn spec_valid_asset_id(name: Seq<char>, asset_type: Seq<char>) -> Seq<char> {
    seq!['_'] + asset_type + seq!['_'] + asset_chars(name)
}

/// Converts `-` and special characters in `name` to `_` and character codes.
/// `asset_type` is one of: 'component', 'directive' or 'filter'.
/// Note that this mismatches with JS implementation as it operates on UTF-8 characters and not UTF-16 code units.
pub fn to_valid_asset_id(name: &str, asset_type: &str) -> (r: String)
    ensures
        r@ == spec_valid_asset_id(name@, asset_type@),
{
    let mut out = String::new();
    push_char(&mut out, '_');
    push_str(&mut out, asset_type);
    push_char(&mut out, '_');
    let ghost head = out@;

    let chars = chars_of(name);
    let mut i: usize = 0;
    while i < chars.len()
        invariant
            chars@ == name@,
            i <= chars.len(),
            out@ == head + asset_chars(name@.take(i as int)),
        decreases chars.len() - i,
    {
        let ch = chars[i];
        if ('a' <= ch && ch <= 'z') || ('A' <= ch && ch <= 'Z') || ('0' <= ch && ch <= '9') || ch == '_' {
            push_char(&mut out, ch);
        } else if ch == '-' {
            push_char(&mut out, '_');
        } else {
            push_decimal(&mut out, (ch as u32) as u64);
        }
        proof {
            let t = name@.take(i + 1);
            assert(t.drop_last() =~= name@.take(i as int));
            assert(t.last() == ch);
        }
        assert(out@ =~= head + asset_chars(name@.take(i + 1)));
        i = i + 1;
    }
    assert(name@.take(chars.len() as int) =~= name@);
    out
}

/// Empties `v` and gives its elements last first, so that popping them gives
/// them in their order.
pub fn take_reversed<T>(v: &mut Vec<T>) -> (r: Vec<T>)
    ensures
        final(v)@.len() == 0,
        r@.len() == old(v)@.len(),
        forall|j: int| 0 <= j < r@.len() ==> #[trigger] r@[j] == old(v)@[old(v)@.len() - 1 - j],
{
    let ghost orig = v@;
    let n = v.len();
    let mut reversed: Vec<T> = Vec::new();
    while v.len() > 0
        invariant
            v.len() <= n,
            n == orig.len(),
            v@ == orig.take(v.len() as int),
            reversed.len() == n - v.len(),
            forall|j: int| 0 <= j < reversed.len() ==> #[trigger] reversed@[j] == orig[n - 1 - j],
        decreases v.len(),
    {
        let last = match v.pop() {
            Some(x) => x,
            None => vstd::pervasive::unreached(),
        };
        assert(last == orig[v.len() as int]);
        reversed.push(last);
        assert(v@ =~= orig.take(v.len() as int));
    }
    reversed
}

} // verus!
