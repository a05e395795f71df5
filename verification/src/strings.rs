//! String literals: trimming, unquoting, escapes and `${name}` interpolation.
use vstd::prelude::*;
use crate::ast::StringType;
use crate::format::display_value;
use crate::host::Host;
use crate::semantics::{
    escape_target, interp, interp_name, is_quote, is_white, prepend, string_literal, strip_end,
    strip_start, strippable, substitution, trim, unquote_spec,
};
use crate::state::{Evaluator, Out};
use crate::text::{chars_of, push_char, push_str, string_from_chars};

verus! {

/// Whether `c` is removed by trimming (quotes, or else white space).
fn is_strippable(c: char, quotes: bool) -> (r: bool)
    ensures
        r == strippable(c, quotes),
{
    if quotes {
        c == '"' || c == '\''
    } else {
        c == ' ' || ('\t' <= c && c <= '\r') || c == '\u{85}' || c == '\u{a0}' || c == '\u{1680}'
            || ('\u{2000}' <= c && c <= '\u{200a}') || c == '\u{2028}' || c == '\u{2029}'
            || c == '\u{202f}' || c == '\u{205f}' || c == '\u{3000}'
    }
}

/// The characters `lo..hi` of `s`.
fn slice_chars(s: &Vec<char>, lo: usize, hi: usize) -> (r: Vec<char>)
    requires
        lo <= hi <= s@.len(),
    ensures
        r@ == s@.subrange(lo as int, hi as int),
{
    let mut out: Vec<char> = Vec::new();
    let mut k = lo;
    while k < hi
        invariant
            lo <= k <= hi,
            hi <= s@.len(),
            out@ == s@.subrange(lo as int, k as int),
        decreases hi - k,
    {
        out.push(s[k]);
        k = k + 1;
        assert(out@ =~= s@.subrange(lo as int, k as int));
    }
    out
}

/// `s` without strippable characters at either end.
fn strip(s: &Vec<char>, quotes: bool) -> (r: Vec<char>)
    ensures
        r@ == strip_end(strip_start(s@, quotes), quotes),
{
    let n = s.len();
    let mut i: usize = 0;
    assert(s@.subrange(0, n as int) =~= s@);
    while i < n && is_strippable(s[i], quotes)
        invariant
            i <= n,
            n == s@.len(),
            strip_start(s@, quotes) == strip_start(s@.subrange(i as int, n as int), quotes),
        decreases n - i,
    {
        assert(s@.subrange(i as int, n as int).drop_first() =~= s@.subrange(i + 1, n as int));
        i = i + 1;
    }
    let ghost t = s@.subrange(i as int, n as int);
    assert(strip_start(t, quotes) == t);
    let mut j: usize = n;
    while j > i && is_strippable(s[j - 1], quotes)
        invariant
            i <= j <= n,
            n == s@.len(),
            t == s@.subrange(i as int, n as int),
            strip_end(t, quotes) == strip_end(s@.subrange(i as int, j as int), quotes),
        decreases j - i,
    {
        assert(s@.subrange(i as int, j as int).drop_last() =~= s@.subrange(i as int, j - 1));
        j = j - 1;
    }
    assert(strip_end(s@.subrange(i as int, j as int), quotes) == s@.subrange(i as int, j as int));
    slice_chars(s, i, j)
}

/// `s` without leading and trailing white space.
pub fn trim_text(s: &str) -> (r: String)
    ensures
        r@ == trim(s@),
{
    let cs = chars_of(s);
    let t = strip(&cs, false);
    string_from_chars(&t)
}

/// `s` without the single and double quotes at either end.
pub fn unquote(s: &str) -> (r: String)
    ensures
        r@ == unquote_spec(s@),
{
    let cs = chars_of(s);
    let t = strip(&cs, true);
    string_from_chars(&t)
}

/// The character an escape `\c` stands for.
fn escape_of(c: char) -> (r: Option<char>)
    ensures
        r == escape_target(c),
{
    if c == '$' { Some('$') }
    else if c == '\\' { Some('\\') }
    else if c == 'n' { Some('\n') }
    else if c == 't' { Some('\t') }
    else if c == 'r' { Some('\r') }
    else if c == '"' { Some('"') }
    else if c == '\'' { Some('\'') }
    else if c == '0' { Some('\0') }
    else { None }
}

impl Evaluator {
    /// The text that `${name}` stands for.
    pub fn substitute<H: Host>(&self, name: &str, host: &mut H) -> (r: String)
        ensures
            match substitution(self.deep_view(), name@) {
                Out::Done(t) => r@ == t,
                Out::Fail(_) => false,
                Out::Host => true,
            },
    {
        let key = trim_text(name);
        match self.lookup(key.as_str()) {
            Some(v) => {
                let shown = display_value(&v, host);
                unquote(shown.as_str())
            },
            None => String::new(),
        }
    }

    /// The value of a string literal: raw strings as written; others with escapes
    /// replaced and, for format strings, `${name}` substituted.
    pub fn string_value<H: Host>(&self, s: &str, ty: &StringType, host: &mut H) -> (r: String)
        ensures
            match string_literal(self.deep_view(), s@, *ty) {
                Out::Done(t) => r@ == t,
                Out::Fail(_) => false,
                Out::Host => true,
            },
    {
        let fmt = match ty {
            StringType::Raw => { return s.to_string(); },
            StringType::Normal => false,
            StringType::Format => true,
        };
        let ghost st = self.deep_view();
        let ghost whole = interp(st, s@, fmt, 0);
        let cs = chars_of(s);
        let n = cs.len();
        let mut out = String::new();
        let mut i: usize = 0;
        while i < n
            invariant
                cs@ == s@,
                n == s@.len(),
                i <= n,
                st == self.deep_view(),
                whole == interp(st, s@, fmt, 0),
                whole is Host || whole == prepend(out@, interp(st, s@, fmt, i as int)),
            decreases n - i,
        {
            let c = cs[i];
            let esc = if c == '\\' && i + 1 < n { escape_of(cs[i + 1]) } else { None };
            match esc {
                Some(e) => {
                    proof {
                        let rest = interp(st, s@, fmt, i + 2);
                        assert(interp(st, s@, fmt, i as int) == prepend(seq![e], rest));
                        if !(whole is Host) {
                            match rest {
                                Out::Done(x) => { assert(out@ + (seq![e] + x) =~= out@.push(e) + x); },
                                _ => {},
                            }
                        }
                    }
                    push_char(&mut out, e);
                    i = i + 2;
                },
                None => {
                    if c == '$' && fmt && i + 1 < n && cs[i + 1] == '{' {
                        let start = i + 2;
                        let mut j = start;
                        while j < n && cs[j] != '}'
                            invariant
                                cs@ == s@,
                                n == s@.len(),
                                start <= j <= n,
                                interp(st, s@, fmt, i as int) == interp_name(st, s@, fmt, start as int, j as int),
                            decreases n - j,
                        {
                            j = j + 1;
                        }
                        let name_chars = slice_chars(&cs, start, j);
                        let name = string_from_chars(&name_chars);
                        let t = self.substitute(name.as_str(), host);
                        proof {
                            let sub = substitution(st, s@.subrange(start as int, j as int));
                            if !(whole is Host) {
                                if j < n {
                                    let rest = interp(st, s@, fmt, j + 1);
                                    match sub {
                                        Out::Done(x) => {
                                            match rest {
                                                Out::Done(y) => { assert(out@ + (x + y) =~= (out@ + x) + y); },
                                                _ => {},
                                            }
                                        },
                                        _ => {},
                                    }
                                } else {
                                    match sub {
                                        Out::Done(x) => {
                                            assert(interp(st, s@, fmt, n as int) == Out::<Seq<char>>::Done(Seq::empty()));
                                            assert(out@ + x =~= (out@ + x) + Seq::<char>::empty());
                                        },
                                        _ => {},
                                    }
                                }
                            }
                        }
                        push_str(&mut out, t.as_str());
                        i = if j < n { j + 1 } else { n };
                    } else {
                        proof {
                            let rest = interp(st, s@, fmt, i + 1);
                            assert(interp(st, s@, fmt, i as int) == prepend(seq![c], rest));
                            if !(whole is Host) {
                                match rest {
                                    Out::Done(x) => { assert(out@ + (seq![c] + x) =~= out@.push(c) + x); },
                                    _ => {},
                                }
                            }
                        }
                        push_char(&mut out, c);
                        i = i + 1;
                    }
                },
            }
        }
        proof {
            if !(whole is Host) {
                assert(out@ + Seq::<char>::empty() =~= out@);
            }
        }
        out
    }
}

} // verus!
