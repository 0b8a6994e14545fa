//! Reading the printed result of a Scheme evaluation back into a value: the
//! scalars (`#t`, `#f`, integers, strings) come back typed; anything else
//! comes back as its text. Running the Scheme session is the caller's part.

use vstd::prelude::*;
use crate::options::trim_spec;
use crate::text::{chars_of, parse_i64, parse_i64_spec, push_char, str_eq, string_of};
use crate::value::{ev, Ev, ExtensionValue};

verus! {

/// The character an escape `\c` stands for: `n` and `t` are the newline and
/// the tab; any other character stands for itself.
pub open spec fn escape_of(c: char) -> char {
    if c == 'n' { '\n' } else if c == 't' { '\t' } else { c }
}

/// `s` with its escapes resolved; a lone trailing backslash is dropped.
pub open spec fn unescape_spec(s: Seq<char>) -> Seq<char>
    decreases s.len(),
{
    if s.len() == 0 {
        Seq::empty()
    } else if s[0] == '\\' {
        if s.len() == 1 { Seq::empty() } else { seq![escape_of(s[1])] + unescape_spec(s.skip(2)) }
    } else {
        seq![s[0]] + unescape_spec(s.skip(1))
    }
}

/// Resolve the escapes of a printed string's body.
pub fn unescape(s: &[char]) -> (r: String)
    ensures
        r@ == unescape_spec(s@),
{
    let mut out = String::new();
    let mut i: usize = 0;
    assert(s@.skip(0) =~= s@);
    while i < s.len()
        invariant
            i <= s@.len(),
            out@ + unescape_spec(s@.skip(i as int)) == unescape_spec(s@),
        decreases s@.len() - i,
    {
        let ghost before = out@;
        let ghost rest = s@.skip(i as int);
        if s[i] == '\\' {
            if i + 1 < s.len() {
                let c = s[i + 1];
                let e = if c == 'n' { '\n' } else if c == 't' { '\t' } else { c };
                push_char(&mut out, e);
                assert(rest.skip(2) =~= s@.skip(i + 2));
                assert(out@ + unescape_spec(s@.skip(i + 2)) =~= before + unescape_spec(rest));
                i = i + 2;
            } else {
                assert(s@.skip(i + 1) =~= Seq::<char>::empty());
                assert(out@ + unescape_spec(s@.skip(i + 1)) =~= before + unescape_spec(rest));
                i = i + 1;
            }
        } else {
            push_char(&mut out, s[i]);
            assert(rest.skip(1) =~= s@.skip(i + 1));
            assert(out@ + unescape_spec(s@.skip(i + 1)) =~= before + unescape_spec(rest));
            i = i + 1;
        }
    }
    assert(s@.skip(i as int) =~= Seq::<char>::empty());
    assert(out@ =~= out@ + unescape_spec(s@.skip(i as int)));
    out
}

/// The value a printed result reads as, once trimmed: nothing is Nil; `#t`,
/// `#true`, `#f`, `#false` are booleans; a quoted text is a string with its
/// escapes resolved; an integer is an integer; anything else is its text.
pub open spec fn value_spec(s: Seq<char>) -> Ev {
    let t = trim_spec(s);
    if t.len() == 0 {
        Ev::Nil
    } else if t == "#t"@ || t == "#true"@ {
        Ev::Bool(true)
    } else if t == "#f"@ || t == "#false"@ {
        Ev::Bool(false)
    } else if t.len() >= 2 && t[0] == '"' && t.last() == '"' {
        Ev::Str(unescape_spec(t.subrange(1, t.len() - 1)))
    } else {
        match parse_i64_spec(t) {
            Some(i) => Ev::Int(i),
            None => Ev::Str(t),
        }
    }
}

fn trim_str(s: &str) -> (r: Vec<char>)
    ensures
        r@ == trim_spec(s@),
{
    let cs = chars_of(s);
    crate::options::trim_chars(cs.as_slice())
}

/// Parse the printed result of an evaluation into a value.
pub fn parse_value(s: &str) -> (r: ExtensionValue)
    ensures
        ev(r) == value_spec(s@),
{
    proof {
        reveal_strlit("#t");
        reveal_strlit("#true");
        reveal_strlit("#f");
        reveal_strlit("#false");
    }
    let t = trim_str(s);
    let text = string_of(t.as_slice());
    let ts = text.as_str();
    if t.len() == 0 {
        return ExtensionValue::Nil;
    }
    if str_eq(ts, "#t") || str_eq(ts, "#true") {
        return ExtensionValue::Bool(true);
    }
    if str_eq(ts, "#f") || str_eq(ts, "#false") {
        return ExtensionValue::Bool(false);
    }
    if t.len() >= 2 && t[0] == '"' && t[t.len() - 1] == '"' {
        let mut body: Vec<char> = Vec::new();
        let mut i: usize = 1;
        while i < t.len() - 1
            invariant
                1 <= i <= t@.len() - 1,
                t@.len() >= 2,
                body@ == t@.subrange(1, i as int),
            decreases t@.len() - 1 - i,
        {
            body.push(t[i]);
            i = i + 1;
            assert(body@ =~= t@.subrange(1, i as int));
        }
        return ExtensionValue::String(unescape(body.as_slice()));
    }
    match parse_i64(ts) {
        Some(i) => ExtensionValue::Int(i),
        None => ExtensionValue::String(text),
    }
}

} // verus!
