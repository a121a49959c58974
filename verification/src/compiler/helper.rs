//! Formatting helpers for the generated JavaScript.
use vstd::prelude::*;

use crate::case::{push_dash_case, spec_camel_case};
use crate::text::{chars_of, push_char, push_str};
use vstd::string::StringSliceAdditionalSpecFns;

verus! {

/// `s` repeated `n` times.
pub open spec fn repeat(s: Seq<char>, n: nat) -> Seq<char>
    decreases n,
{
    if n == 0 {
        Seq::empty()
    } else {
        repeat(s, (n - 1) as nat) + s
    }
}

pub open spec fn is_ascii_alphabetic(c: char) -> bool {
    ('a' <= c && c <= 'z') || ('A' <= c && c <= 'Z')
}

pub open spec fn is_ascii_alphanumeric(c: char) -> bool {
    is_ascii_alphabetic(c) || ('0' <= c && c <= '9')
}

/// A JavaScript identifier needs quoting unless it starts with an ASCII letter
/// and goes on with ASCII letters and digits only.
pub open spec fn spec_needs_escape(ident: Seq<char>) -> bool {
    exists|k: int|
        0 <= k < ident.len() && ((k == 0 && !is_ascii_alphabetic(#[trigger] ident[k])) || (k > 0
            && !is_ascii_alphanumeric(ident[k])))
}

/// An object key as written: quoted when it needs escaping.
pub open spec fn key_text(key: Seq<char>) -> Seq<char> {
    if spec_needs_escape(key) {
        seq!['"'] + key + seq!['"']
    } else {
        key
    }
}

/// `key: value`
pub open spec fn entry_text(entry: (Seq<char>, Seq<char>)) -> Seq<char> {
    key_text(entry.0) + ": "@ + entry.1
}

/// The entries joined by `sep`.
pub open spec fn join_entries(entries: Seq<(Seq<char>, Seq<char>)>, sep: Seq<char>) -> Seq<char>
    decreases entries.len(),
{
    if entries.len() == 0 {
        Seq::empty()
    } else if entries.len() == 1 {
        entry_text(entries[0])
    } else {
        join_entries(entries.drop_last(), sep) + sep + entry_text(entries.last())
    }
}

pub open spec fn entries_view(entries: Seq<(&str, &str)>) -> Seq<(Seq<char>, Seq<char>)> {
    entries.map_values(|e: (&str, &str)| (e.0@, e.1@))
}

/// Writes code with a current indentation.
pub struct CodeHelper<'a> {
    pub indent_level: usize,
    pub indent_str: &'a str,
}

impl<'a> Default for CodeHelper<'a> {
    fn default() -> (r: Self)
        ensures
            r.indent_level == 0,
            r.indent_str@ == "  "@,
    {
        CodeHelper { indent_level: 0, indent_str: "  " }
    }
}

impl<'a> CodeHelper<'a> {
    /// A line break followed by the indentation of the current level.
    pub open spec fn newline_text(&self) -> Seq<char> {
        seq!['\n'] + repeat(self.indent_str@, self.indent_level as nat)
    }

    /// A line break followed by the indentation of `level`.
    pub open spec fn newline_text_at(&self, level: nat) -> Seq<char> {
        seq!['\n'] + repeat(self.indent_str@, level)
    }

    pub fn indent(&mut self)
        requires
            old(self).indent_level < usize::MAX,
        ensures
            final(self).indent_level == old(self).indent_level + 1,
            final(self).indent_str == old(self).indent_str,
    {
        self.indent_level += 1
    }

    pub fn unindent(&mut self)
        requires
            old(self).indent_level > 0,
        ensures
            final(self).indent_level == old(self).indent_level - 1,
            final(self).indent_str == old(self).indent_str,
    {
        self.indent_level -= 1
    }

    /// Whether `ident` must be quoted to be a JavaScript object key.
    pub fn needs_escape(ident: &str) -> (r: bool)
        ensures
            r == spec_needs_escape(ident@),
    {
        let s = chars_of(ident);
        let mut k: usize = 0;
        while k < s.len()
            invariant
                s@ == ident@,
                k <= s.len(),
                forall|j: int|
                    0 <= j < k ==> !((j == 0 && !is_ascii_alphabetic(#[trigger] s@[j])) || (j > 0
                        && !is_ascii_alphanumeric(s@[j]))),
            decreases s.len() - k,
        {
            let c = s[k];
            let alpha = ('a' <= c && c <= 'z') || ('A' <= c && c <= 'Z');
            let alnum = alpha || ('0' <= c && c <= '9');
            if (k == 0 && !alpha) || (k > 0 && !alnum) {
                assert(s@[k as int] == c);
                return true;
            }
            k = k + 1;
        }
        false
    }

    /// Writes a line break and the current indentation: one character more than the
    /// indentation, which with an ASCII `indent_str` is `newline_size_hint` characters.
    pub fn newline(&self, buf: &mut String)
        ensures
            final(buf)@ == old(buf)@ + self.newline_text(),
            final(buf)@.len() == old(buf)@.len() + 1 + self.indent_level * self.indent_str@.len(),
            vstd::string::is_ascii(self.indent_str) ==> final(buf)@.len() == old(buf)@.len() + 1 + self.indent_level
                * self.indent_str.spec_bytes().len(),
    {
        proof {
            lemma_repeat_len(self.indent_str@, self.indent_level as nat);
            if vstd::string::is_ascii(self.indent_str) {
                lemma_newline_size(*self);
            }
        }
        push_char(buf, '\n');
        let mut i: usize = 0;
        while i < self.indent_level
            invariant
                i <= self.indent_level,
                buf@ == old(buf)@ + seq!['\n'] + repeat(self.indent_str@, i as nat),
            decreases self.indent_level - i,
        {
            push_str(buf, self.indent_str);
            i = i + 1;
        }
    }

    /// The number of bytes of indentation that `newline` writes after the line break.
    pub fn newline_size_hint(&self) -> (r: usize)
        requires
            self.indent_str.spec_bytes().len() <= usize::MAX,
            self.indent_level * self.indent_str.spec_bytes().len() <= usize::MAX,
        ensures
            r == self.indent_level * self.indent_str.spec_bytes().len(),
    {
        let len = self.indent_str.len();
        assert(len == self.indent_str.spec_bytes().len());
        self.indent_level * len
    }

    /// Writes `n - 1` bare line breaks followed, when `n > 1`, by an indented one:
    /// empty lines are not indented. With `n == 1` nothing is written.
    pub fn newline_n(&self, buf: &mut String, n: u8)
        requires
            n >= 1,
        ensures
            final(buf)@ == old(buf)@ + repeat(seq!['\n'], (n - 1) as nat) + (if n > 1 {
                self.newline_text()
            } else {
                Seq::empty()
            }),
    {
        let mut i: u8 = 0;
        while i < n - 1
            invariant
                n >= 1,
                i <= n - 1,
                buf@ == old(buf)@ + repeat(seq!['\n'], i as nat),
            decreases n - 1 - i,
        {
            push_char(buf, '\n');
            i = i + 1;
        }
        if n > 1 {
            self.newline(buf);
        } else {
            assert(buf@ == buf@ + Seq::<char>::empty());
        }
    }

    /// Writes a `: ` sequence
    pub fn colon(buf: &mut String)
        ensures
            final(buf)@ == old(buf)@ + ": "@,
    {
        push_str(buf, ": ")
    }

    pub fn comma(buf: &mut String)
        ensures
            final(buf)@ == old(buf)@ + ", "@,
    {
        push_str(buf, ", ")
    }

    pub fn comma_newline(&self, buf: &mut String)
        ensures
            final(buf)@ == old(buf)@ + seq![','] + self.newline_text(),
    {
        push_char(buf, ',');
        self.newline(buf);
        assert(buf@ =~= old(buf)@ + seq![','] + self.newline_text());
    }

    pub fn null(buf: &mut String)
        ensures
            final(buf)@ == old(buf)@ + "null"@,
    {
        push_str(buf, "null")
    }

    pub fn open_paren(buf: &mut String)
        ensures
            final(buf)@ == old(buf)@.push('('),
    {
        push_char(buf, '(')
    }

    pub fn close_paren(buf: &mut String)
        ensures
            final(buf)@ == old(buf)@.push(')'),
    {
        push_char(buf, ')')
    }

    /// `(value)`, or `()` without a value.
    pub fn parens_option(buf: &mut String, v: Option<&str>)
        ensures
            final(buf)@ == old(buf)@ + seq!['('] + (match v {
                Some(value) => value@,
                None => Seq::empty(),
            }) + seq![')'],
    {
        Self::open_paren(buf);
        if let Some(value) = v {
            push_str(buf, value);
        }
        Self::close_paren(buf);
        assert(buf@ =~= old(buf)@ + seq!['('] + (match v {
            Some(value) => value@,
            None => Seq::empty(),
        }) + seq![')']);
    }

    pub fn open_sq_bracket(buf: &mut String)
        ensures
            final(buf)@ == old(buf)@.push('['),
    {
        push_char(buf, '[')
    }

    pub fn close_sq_bracket(buf: &mut String)
        ensures
            final(buf)@ == old(buf)@.push(']'),
    {
        push_char(buf, ']')
    }

    /// Generates a Js object from the `(key, value)` entries.
    /// `size_hint` is the lower bound that the producer of the entries gives for their
    /// number (an iterator's `size_hint().0`): the object spans several lines when it
    /// is more than one, and is written on one line, entries separated by `, `, otherwise.
    ///
    /// # Example
    /// Calling this function with `[("foo", "true"), ("1bar", "false")]` and a size hint
    /// of 2 would generate
    /// `{
    ///   foo: true,
    ///   "1bar": false
    /// }`.
    pub fn obj_from_entries_iter(&mut self, buf: &mut String, entries: &[(&str, &str)], size_hint: usize)
        requires
            old(self).indent_level < usize::MAX,
        ensures
            final(self).indent_level == old(self).indent_level,
            final(self).indent_str == old(self).indent_str,
            ({
                let multiline = size_hint > 1;
                let level = old(self).indent_level as nat;
                let sep = if multiline {
                    seq![','] + old(self).newline_text_at(level + 1)
                } else {
                    ", "@
                };
                final(buf)@ == old(buf)@ + seq!['{'] + (if multiline {
                    old(self).newline_text_at(level + 1)
                } else {
                    Seq::empty()
                }) + join_entries(entries_view(entries@), sep) + (if multiline {
                    old(self).newline_text_at(level)
                } else {
                    Seq::empty()
                }) + seq!['}']
            }),
    {
        let is_multiline = size_hint > 1;
        let ghost level = self.indent_level as nat;
        let ghost sep = if is_multiline {
            seq![','] + self.newline_text_at(level + 1)
        } else {
            ", "@
        };

        self.obj_open_paren(buf, is_multiline);
        let ghost start = buf@;
        let ghost ev = entries_view(entries@);

        let mut index: usize = 0;
        while index < entries.len()
            invariant
                is_multiline == (size_hint > 1),
                ev == entries_view(entries@),
                self.indent_level == (if is_multiline { level + 1 } else { level }),
                sep == (if is_multiline {
                    seq![','] + self.newline_text_at(level + 1)
                } else {
                    ", "@
                }),
                self.indent_str == old(self).indent_str,
                index <= entries.len(),
                buf@ == start + join_entries(ev.take(index as int), sep),
            decreases entries.len() - index,
        {
            let (key, value) = entries[index];
            let ghost before = buf@;
            if index > 0 && is_multiline {
                self.comma_newline(buf);
            } else if index > 0 {
                CodeHelper::comma(buf);
            }
            if Self::needs_escape(key) {
                CodeHelper::quoted(buf, key)
            } else {
                push_str(buf, key)
            }
            CodeHelper::colon(buf);
            push_str(buf, value);
            proof {
                let t = ev.take(index + 1);
                assert(t.drop_last() =~= ev.take(index as int));
                assert(t.last() == ev[index as int]);
                assert(ev[index as int] == (key@, value@));
                if index == 0 {
                    assert(buf@ =~= before + entry_text(ev[index as int]));
                } else {
                    assert(buf@ =~= before + sep + entry_text(ev[index as int]));
                }
            }
            index = index + 1;
        }
        assert(ev.take(entries.len() as int) =~= ev);
        let ghost mid = buf@;
        self.obj_close_paren(buf, is_multiline);
        assert(buf@ =~= old(buf)@ + seq!['{'] + (if is_multiline {
            old(self).newline_text_at(level + 1)
        } else {
            Seq::empty()
        }) + join_entries(ev, sep) + (if is_multiline {
            old(self).newline_text_at(level)
        } else {
            Seq::empty()
        }) + seq!['}']);
    }

    /// Opens the Js object paren `{`.
    /// Will indent and start a new line if `is_multiline` set to `true`
    pub fn obj_open_paren(&mut self, buf: &mut String, is_multiline: bool)
        requires
            is_multiline ==> old(self).indent_level < usize::MAX,
        ensures
            final(self).indent_str == old(self).indent_str,
            final(self).indent_level == old(self).indent_level + (if is_multiline {
                1int
            } else {
                0
            }),
            final(buf)@ == old(buf)@ + seq!['{'] + (if is_multiline {
                final(self).newline_text()
            } else {
                Seq::empty()
            }),
    {
        push_char(buf, '{');
        if is_multiline {
            self.indent();
            self.newline(buf);
        }
        assert(buf@ =~= old(buf)@ + seq!['{'] + (if is_multiline {
            self.newline_text()
        } else {
            Seq::empty()
        }));
    }

    /// Closes the Js object paren `}`.
    /// Will unindent and add a new line if `is_multiline` set to `true`
    pub fn obj_close_paren(&mut self, buf: &mut String, is_multiline: bool)
        requires
            is_multiline ==> old(self).indent_level > 0,
        ensures
            final(self).indent_str == old(self).indent_str,
            final(self).indent_level == old(self).indent_level - (if is_multiline {
                1int
            } else {
                0
            }),
            final(buf)@ == old(buf)@ + (if is_multiline {
                final(self).newline_text()
            } else {
                Seq::empty()
            }) + seq!['}'],
    {
        let ghost before = buf@;
        if is_multiline {
            self.unindent();
            self.newline(buf);
        }
        push_char(buf, '}');
        assert(buf@ =~= before + (if is_multiline {
            self.newline_text()
        } else {
            Seq::empty()
        }) + seq!['}']);
    }

    pub fn quote(buf: &mut String)
        ensures
            final(buf)@ == old(buf)@.push('"'),
    {
        push_char(buf, '"')
    }

    /// `"v"`
    pub fn quoted(buf: &mut String, v: &str)
        ensures
            final(buf)@ == old(buf)@ + seq!['"'] + v@ + seq!['"'],
    {
        Self::quote(buf);
        push_str(buf, v);
        Self::quote(buf);
        assert(buf@ =~= old(buf)@ + seq!['"'] + v@ + seq!['"']);
    }

    /// Transforms a kebab-case identifier to camelCase
    pub fn to_camelcase(buf: &mut String, ident: &str)
        ensures
            final(buf)@ == old(buf)@ + spec_camel_case(ident@),
    {
        push_dash_case(ident, buf, false)
    }
}

proof fn lemma_repeat_len(s: Seq<char>, n: nat)
    ensures
        repeat(s, n).len() == n * s.len(),
    decreases n,
{
    if n > 0 {
        lemma_repeat_len(s, (n - 1) as nat);
        assert(n * s.len() == (n - 1) * s.len() + s.len()) by (nonlinear_arith);
    } else {
        assert(n * s.len() == 0) by (nonlinear_arith)
            requires
                n == 0,
        ;
    }
}

/// With an ASCII indentation, `newline` writes one line break and then exactly as
/// many characters as `newline_size_hint` counts bytes.
pub proof fn lemma_newline_size(h: CodeHelper)
    requires
        vstd::string::is_ascii(h.indent_str),
    ensures
        h.newline_text().len() == 1 + h.indent_level * h.indent_str.spec_bytes().len(),
{
    broadcast use vstd::string::is_ascii_spec_bytes;
    lemma_repeat_len(h.indent_str@, h.indent_level as nat);
    assert(h.indent_str.spec_bytes().len() == h.indent_str@.len());
}

/// `obj_open_paren` and then `obj_close_paren` with the same `is_multiline` give the
/// indentation back and write `{}`, or, multiline, `{`, a line at one level deeper,
/// a line at the first level, and `}`.
pub proof fn lemma_obj_parens(h0: CodeHelper, h1: CodeHelper, h2: CodeHelper, b0: Seq<char>, b1: Seq<char>, b2: Seq<char>, m: bool)
    requires
        h1.indent_str == h0.indent_str,
        h1.indent_level == h0.indent_level + (if m { 1int } else { 0 }),
        b1 == b0 + seq!['{'] + (if m { h1.newline_text() } else { Seq::empty() }),
        h2.indent_str == h1.indent_str,
        h2.indent_level == h1.indent_level - (if m { 1int } else { 0 }),
        b2 == b1 + (if m { h2.newline_text() } else { Seq::empty() }) + seq!['}'],
    ensures
        h2.indent_level == h0.indent_level,
        b2 == b0 + if m {
            seq!['{', '\n'] + repeat(h0.indent_str@, (h0.indent_level + 1) as nat) + seq!['\n'] + repeat(
                h0.indent_str@,
                h0.indent_level as nat,
            ) + seq!['}']
        } else {
            seq!['{', '}']
        },
{
    if m {
        assert(b2 =~= b0 + (seq!['{', '\n'] + repeat(h0.indent_str@, (h0.indent_level + 1) as nat) + seq!['\n'] + repeat(
            h0.indent_str@,
            h0.indent_level as nat,
        ) + seq!['}']));
    } else {
        assert(b2 =~= b0 + seq!['{', '}']);
    }
}

} // verus!
