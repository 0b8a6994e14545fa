//! The single codec for key, intent and condition forms: formats key names
//! and decodes the Scheme-sourced configuration (data read by `sexpr`) into
//! core types.

use vstd::prelude::*;
use crate::condition::{Cond, CondM, cm, eval_spec, Predicate};
use crate::state::AppState;
use crate::event::{PanelContent, StyleRun};
use crate::intent::{ExtensionIntent, Intent, Key, KeyCode, Mods};
use crate::mode::{Mode, ResolveFill, SelectInput, SelectSource, SelectSpec, OnConfirm, FunctionHint, SubLayout};
use crate::sexpr::{Datum, Dm, dm, dms, escaped, parse_spec, render_items, render_spec, syms_ok};
use crate::text::{chars_of, i64_to_string, int_decimal, is_prefix, owned, push_char, push_str, starts_with, str_eq, string_of};
use crate::value::{Ev, ExtensionValue, ev};

verus! {

// --- key names -----------------------------------------------------------------

/// The name of a key code.
pub open spec fn code_name(c: KeyCode) -> Seq<char> {
    match c {
        KeyCode::Char(ch) => if ch == ' ' { "Space"@ } else { seq![ch] },
        KeyCode::Enter => "Enter"@,
        KeyCode::Esc => "Esc"@,
        KeyCode::Tab => "Tab"@,
        KeyCode::BackTab => "Shift-Tab"@,
        KeyCode::Backspace => "Backspace"@,
        KeyCode::Delete => "Delete"@,
        KeyCode::Left => "Left"@,
        KeyCode::Right => "Right"@,
        KeyCode::Up => "Up"@,
        KeyCode::Down => "Down"@,
        KeyCode::Home => "Home"@,
        KeyCode::End => "End"@,
        KeyCode::PageUp => "PageUp"@,
        KeyCode::PageDown => "PageDown"@,
    }
}

/// A human-readable key name: `Ctrl-`, `Alt-` and (for non-character keys)
/// `Shift-` prefixes, then the code's name.
pub open spec fn key_name_spec(k: Key) -> Seq<char> {
    (if k.mods.ctrl { "Ctrl-"@ } else { Seq::empty() })
        + (if k.mods.alt { "Alt-"@ } else { Seq::empty() })
        + (if k.mods.shift && !(k.code is Char) { "Shift-"@ } else { Seq::empty() })
        + code_name(k.code)
}

fn code_name_str(c: KeyCode) -> (r: String)
    ensures
        r@ == code_name(c),
{
    match c {
        KeyCode::Char(ch) => {
            if ch == ' ' {
                "Space".to_owned()
            } else {
                let mut s = String::new();
                push_char(&mut s, ch);
                assert(s@ =~= seq![ch]);
                s
            }
        }
        KeyCode::Enter => "Enter".to_owned(),
        KeyCode::Esc => "Esc".to_owned(),
        KeyCode::Tab => "Tab".to_owned(),
        KeyCode::BackTab => "Shift-Tab".to_owned(),
        KeyCode::Backspace => "Backspace".to_owned(),
        KeyCode::Delete => "Delete".to_owned(),
        KeyCode::Left => "Left".to_owned(),
        KeyCode::Right => "Right".to_owned(),
        KeyCode::Up => "Up".to_owned(),
        KeyCode::Down => "Down".to_owned(),
        KeyCode::Home => "Home".to_owned(),
        KeyCode::End => "End".to_owned(),
        KeyCode::PageUp => "PageUp".to_owned(),
        KeyCode::PageDown => "PageDown".to_owned(),
    }
}

/// A human-readable name for a key, e.g. `Ctrl-a`, `Enter`, `w`.
pub fn key_name(key: Key) -> (r: String)
    ensures
        r@ == key_name_spec(key),
{
    let mut s = String::new();
    if key.mods.ctrl {
        push_str(&mut s, "Ctrl-");
    }
    if key.mods.alt {
        push_str(&mut s, "Alt-");
    }
    let is_char = match key.code {
        KeyCode::Char(_) => true,
        _ => false,
    };
    if key.mods.shift && !is_char {
        push_str(&mut s, "Shift-");
    }
    let name = code_name_str(key.code);
    push_str(&mut s, name.as_str());
    assert(s@ =~= key_name_spec(key));
    s
}

/// The key code a (modifier-free) name stands for.
pub open spec fn code_of_name(r: Seq<char>) -> Option<KeyCode> {
    if r == "Enter"@ { Some(KeyCode::Enter) }
    else if r == "Esc"@ || r == "Escape"@ { Some(KeyCode::Esc) }
    else if r == "Tab"@ { Some(KeyCode::Tab) }
    else if r == "BackTab"@ { Some(KeyCode::BackTab) }
    else if r == "Backspace"@ { Some(KeyCode::Backspace) }
    else if r == "Delete"@ { Some(KeyCode::Delete) }
    else if r == "Space"@ { Some(KeyCode::Char(' ')) }
    else if r == "Up"@ { Some(KeyCode::Up) }
    else if r == "Down"@ { Some(KeyCode::Down) }
    else if r == "Left"@ { Some(KeyCode::Left) }
    else if r == "Right"@ { Some(KeyCode::Right) }
    else if r == "Home"@ { Some(KeyCode::Home) }
    else if r == "End"@ { Some(KeyCode::End) }
    else if r == "PageUp"@ { Some(KeyCode::PageUp) }
    else if r == "PageDown"@ { Some(KeyCode::PageDown) }
    else if r.len() == 1 { Some(KeyCode::Char(r[0])) }
    else { None }
}

pub open spec fn ctrl_prefix() -> Seq<char> { seq!['C', 't', 'r', 'l', '-'] }
pub open spec fn alt_prefix() -> Seq<char> { seq!['A', 'l', 't', '-'] }
pub open spec fn shift_prefix() -> Seq<char> { seq!['S', 'h', 'i', 'f', 't', '-'] }

/// Parsing a key name: modifier prefixes in any order, then a code name;
/// `Shift-Tab` is its own code.
pub open spec fn parse_key_from(rest: Seq<char>, m: Mods) -> Option<Key>
    decreases rest.len(),
{
    if is_prefix(ctrl_prefix(), rest) {
        parse_key_from(rest.skip(5), Mods { ctrl: true, ..m })
    } else if is_prefix(alt_prefix(), rest) {
        parse_key_from(rest.skip(4), Mods { alt: true, ..m })
    } else if is_prefix(shift_prefix(), rest) {
        parse_key_from(rest.skip(6), Mods { shift: true, ..m })
    } else {
        match code_of_name(rest) {
            Some(code) => if m.shift && code == KeyCode::Tab {
                Some(Key { code: KeyCode::BackTab, mods: Mods { ctrl: false, shift: false, alt: false } })
            } else {
                Some(Key { code, mods: m })
            },
            None => None,
        }
    }
}

pub open spec fn parse_key_spec(name: Seq<char>) -> Option<Key> {
    parse_key_from(name, Mods { ctrl: false, shift: false, alt: false })
}

/// A key a name can be read back into: shift is folded into a character, so
/// a character with shift has no name of its own; `Shift-Tab` names the
/// back-tab key alone, so neither a shifted tab nor a back-tab with any
/// modifier reads back.
pub open spec fn nameable(k: Key) -> bool {
    &&& !(k.code is Char && k.mods.shift)
    &&& !(k.code is Tab && k.mods.shift)
    &&& !(k.code is BackTab && (k.mods.ctrl || k.mods.alt || k.mods.shift))
}

proof fn lemma_prefix_step(p: Seq<char>, rest: Seq<char>)
    ensures
        is_prefix(p, p + rest),
        (p + rest).skip(p.len() as int) == rest,
{
    assert((p + rest).take(p.len() as int) =~= p);
    assert((p + rest).skip(p.len() as int) =~= rest);
}

/// The first characters that tell the code names of one length apart.
proof fn lemma_name_heads()
    ensures
        "Esc"@[0] == 'E' && "Esc"@[1] == 's' && "Tab"@[0] == 'T' && "End"@[0] == 'E' && "End"@[1] == 'n',
        "Down"@[0] == 'D' && "Left"@[0] == 'L' && "Home"@[0] == 'H',
        "Enter"@[0] == 'E' && "Right"@[0] == 'R' && "Space"@[0] == 'S',
        "Escape"@[0] == 'E' && "Delete"@[0] == 'D' && "PageUp"@[0] == 'P',
        "Up"@.len() == 2 && "Esc"@.len() == 3 && "Tab"@.len() == 3 && "End"@.len() == 3,
        "Down"@.len() == 4 && "Left"@.len() == 4 && "Home"@.len() == 4,
        "Enter"@.len() == 5 && "Right"@.len() == 5 && "Space"@.len() == 5,
        "Escape"@.len() == 6 && "Delete"@.len() == 6 && "PageUp"@.len() == 6,
        "BackTab"@.len() == 7 && "PageDown"@.len() == 8 && "Backspace"@.len() == 9,
{
    reveal_strlit("Enter");
    reveal_strlit("Esc");
    reveal_strlit("Escape");
    reveal_strlit("Tab");
    reveal_strlit("BackTab");
    reveal_strlit("Backspace");
    reveal_strlit("Delete");
    reveal_strlit("Space");
    reveal_strlit("Up");
    reveal_strlit("Down");
    reveal_strlit("Left");
    reveal_strlit("Right");
    reveal_strlit("Home");
    reveal_strlit("End");
    reveal_strlit("PageUp");
    reveal_strlit("PageDown");
}

proof fn lemma_code_name_reads_back(c: KeyCode, m: Mods)
    requires
        !(c is BackTab),
        !(c is Tab && m.shift),
    ensures
        parse_key_from(code_name(c), m) == Some(Key { code: c, mods: m }),
{
    reveal_strlit("Enter");
    reveal_strlit("Esc");
    reveal_strlit("Escape");
    reveal_strlit("Tab");
    reveal_strlit("BackTab");
    reveal_strlit("Backspace");
    reveal_strlit("Delete");
    reveal_strlit("Space");
    reveal_strlit("Up");
    reveal_strlit("Down");
    reveal_strlit("Left");
    reveal_strlit("Right");
    reveal_strlit("Home");
    reveal_strlit("End");
    reveal_strlit("PageUp");
    reveal_strlit("PageDown");
    lemma_name_heads();
    let n = code_name(c);
    assert(!is_prefix(ctrl_prefix(), n)) by {
        if n.len() >= 5 {
            assert(n.take(5)[0] == n[0]);
        }
    }
    assert(!is_prefix(alt_prefix(), n)) by {
        if n.len() >= 4 {
            assert(n.take(4)[0] == n[0]);
        }
    }
    assert(!is_prefix(shift_prefix(), n)) by {
        if n.len() >= 6 {
            assert(n.take(6)[0] == n[0]);
            assert(n.take(6)[1] == n[1]);
        }
    }
    assert(code_of_name(n) == Some(c)) by {
        match c {
            KeyCode::Char(ch) => {
                if ch == ' ' {
                    assert(n == "Space"@);
                } else {
                    assert(n =~= seq![ch]);
                }
            }
            _ => {}
        }
    }
}

/// A nameable key's name reads back as the key: parsing undoes naming.
pub proof fn law_key_names_read_back(k: Key)
    requires
        nameable(k),
    ensures
        parse_key_spec(key_name_spec(k)) == Some(k),
{
    reveal_strlit("Ctrl-");
    reveal_strlit("Alt-");
    reveal_strlit("Shift-");
    reveal_strlit("Shift-Tab");
    reveal_strlit("Tab");
    assert("Ctrl-"@ =~= ctrl_prefix());
    assert("Alt-"@ =~= alt_prefix());
    assert("Shift-"@ =~= shift_prefix());
    let none = Mods { ctrl: false, shift: false, alt: false };
    let code = code_name(k.code);
    let shift_part: Seq<char> = if k.mods.shift && !(k.code is Char) { "Shift-"@ } else { Seq::empty() };
    let alt_part: Seq<char> = if k.mods.alt { "Alt-"@ } else { Seq::empty() };
    let ctrl_part: Seq<char> = if k.mods.ctrl { "Ctrl-"@ } else { Seq::empty() };
    let m1 = Mods { ctrl: k.mods.ctrl, ..none };
    let m2 = Mods { alt: k.mods.alt, ..m1 };
    let m3 = Mods { shift: k.mods.shift && !(k.code is Char), ..m2 };
    assert(m3 == k.mods);
    let r3 = code;
    let r2 = shift_part + r3;
    let r1 = alt_part + r2;
    let r0 = ctrl_part + r1;
    assert(key_name_spec(k) =~= r0);
    if k.code is BackTab {
        // No modifiers: the name is `Shift-Tab`, read as the back-tab key.
        assert(r0 =~= shift_prefix() + "Tab"@);
        lemma_prefix_step(shift_prefix(), "Tab"@);
        assert(!is_prefix(ctrl_prefix(), r0)) by {
            if is_prefix(ctrl_prefix(), r0) {
                assert(r0.take(5)[0] == r0[0]);
            }
        }
        assert(!is_prefix(alt_prefix(), r0)) by {
            if is_prefix(alt_prefix(), r0) {
                assert(r0.take(4)[0] == r0[0]);
            }
        }
        let t = "Tab"@;
        lemma_name_heads();
        assert(!is_prefix(ctrl_prefix(), t));
        assert(!is_prefix(alt_prefix(), t));
        assert(!is_prefix(shift_prefix(), t));
        assert(code_of_name(t) == Some(KeyCode::Tab));
        let sh = Mods { shift: true, ..none };
        assert(parse_key_from(t, sh) == Some(Key { code: KeyCode::BackTab, mods: none }));
        assert(parse_key_from(r0, none) == parse_key_from(t, sh));
        assert(k.mods == none);
    } else {
        lemma_code_name_reads_back(k.code, m3);
        // The shift prefix (only on a non-character key).
        if k.mods.shift && !(k.code is Char) {
            lemma_prefix_step(shift_prefix(), r3);
            assert(!is_prefix(ctrl_prefix(), r2)) by {
                if is_prefix(ctrl_prefix(), r2) {
                    assert(r2.take(5)[0] == r2[0]);
                }
            }
            assert(!is_prefix(alt_prefix(), r2)) by {
                if is_prefix(alt_prefix(), r2) {
                    assert(r2.take(4)[0] == r2[0]);
                }
            }
            assert(parse_key_from(r2, m2) == parse_key_from(r3, m3));
        } else {
            assert(r2 =~= r3);
            assert(m2 == m3);
        }
        // The alt prefix.
        if k.mods.alt {
            lemma_prefix_step(alt_prefix(), r2);
            assert(!is_prefix(ctrl_prefix(), r1)) by {
                if is_prefix(ctrl_prefix(), r1) {
                    assert(r1.take(5)[0] == r1[0]);
                }
            }
            assert(parse_key_from(r1, m1) == parse_key_from(r2, m2));
        } else {
            assert(r1 =~= r2);
            assert(m1 == m2);
        }
        // The ctrl prefix.
        if k.mods.ctrl {
            lemma_prefix_step(ctrl_prefix(), r1);
            assert(parse_key_from(r0, none) == parse_key_from(r1, m1));
        } else {
            assert(r0 =~= r1);
            assert(none == m1);
        }
        assert(parse_key_from(r0, none) == Some(k));
    }
}

fn code_of(r: &str) -> (c: Option<KeyCode>)
    ensures
        c == code_of_name(r@),
{
    if str_eq(r, "Enter") { Some(KeyCode::Enter) }
    else if str_eq(r, "Esc") || str_eq(r, "Escape") { Some(KeyCode::Esc) }
    else if str_eq(r, "Tab") { Some(KeyCode::Tab) }
    else if str_eq(r, "BackTab") { Some(KeyCode::BackTab) }
    else if str_eq(r, "Backspace") { Some(KeyCode::Backspace) }
    else if str_eq(r, "Delete") { Some(KeyCode::Delete) }
    else if str_eq(r, "Space") { Some(KeyCode::Char(' ')) }
    else if str_eq(r, "Up") { Some(KeyCode::Up) }
    else if str_eq(r, "Down") { Some(KeyCode::Down) }
    else if str_eq(r, "Left") { Some(KeyCode::Left) }
    else if str_eq(r, "Right") { Some(KeyCode::Right) }
    else if str_eq(r, "Home") { Some(KeyCode::Home) }
    else if str_eq(r, "End") { Some(KeyCode::End) }
    else if str_eq(r, "PageUp") { Some(KeyCode::PageUp) }
    else if str_eq(r, "PageDown") { Some(KeyCode::PageDown) }
    else {
        let cs = chars_of(r);
        if cs.len() == 1 { Some(KeyCode::Char(cs[0])) } else { None }
    }
}

/// Parse a key name (`w`, `Enter`, `Ctrl-a`, `Shift-Tab`, `Space`, ...).
pub fn parse_key(name: &str) -> (r: Option<Key>)
    ensures
        r == parse_key_spec(name@),
{
    proof {
        reveal_strlit("Ctrl-");
        reveal_strlit("Alt-");
        reveal_strlit("Shift-");
        assert("Ctrl-"@ =~= ctrl_prefix());
        assert("Alt-"@ =~= alt_prefix());
        assert("Shift-"@ =~= shift_prefix());
    }
    let mut mods = Mods { ctrl: false, shift: false, alt: false };
    let mut rest = owned(name);
    loop
        invariant
            parse_key_spec(name@) == parse_key_from(rest@, mods),
            "Ctrl-"@ == ctrl_prefix(),
            "Alt-"@ == alt_prefix(),
            "Shift-"@ == shift_prefix(),
        ensures
            parse_key_spec(name@) == parse_key_from(rest@, mods),
            !is_prefix(ctrl_prefix(), rest@),
            !is_prefix(alt_prefix(), rest@),
            !is_prefix(shift_prefix(), rest@),
        decreases rest@.len(),
    {
        let cs = chars_of(rest.as_str());
        if starts_with(rest.as_str(), "Ctrl-") {
            mods.ctrl = true;
            rest = string_of(&cs.as_slice()[5..cs.len()]);
            assert(rest@ =~= cs@.skip(5));
        } else if starts_with(rest.as_str(), "Alt-") {
            mods.alt = true;
            rest = string_of(&cs.as_slice()[4..cs.len()]);
            assert(rest@ =~= cs@.skip(4));
        } else if starts_with(rest.as_str(), "Shift-") {
            mods.shift = true;
            rest = string_of(&cs.as_slice()[6..cs.len()]);
            assert(rest@ =~= cs@.skip(6));
        } else {
            break;
        }
    }
    match code_of(rest.as_str()) {
        Some(code) => {
            if mods.shift && code == KeyCode::Tab {
                Some(Key { code: KeyCode::BackTab, mods: Mods { ctrl: false, shift: false, alt: false } })
            } else {
                Some(Key { code, mods })
            }
        }
        None => None,
    }
}

// --- values --------------------------------------------------------------------

/// The extension value a datum decodes to (symbols read as strings).
pub open spec fn ev_of(d: Dm) -> Ev
    decreases d,
{
    match d {
        Dm::Bool(b) => Ev::Bool(b),
        Dm::Int(i) => Ev::Int(i),
        Dm::Str(s) => Ev::Str(s),
        Dm::Sym(s) => Ev::Str(s),
        Dm::List(items) => Ev::List(Seq::new(items.len(), |i: int| if 0 <= i < items.len() { ev_of(items[i]) } else { Ev::Nil })),
    }
}

/// Decode a datum into an ExtensionValue.
#[verifier::loop_isolation(false)]
pub fn ext_value_from_datum(d: &Datum) -> (v: ExtensionValue)
    ensures
        ev(v) == ev_of(dm(*d)),
    decreases d,
{
    match d {
        Datum::Bool(b) => ExtensionValue::Bool(*b),
        Datum::Int(i) => ExtensionValue::Int(*i),
        Datum::Str(s) => ExtensionValue::String(s.clone()),
        Datum::Sym(s) => ExtensionValue::String(s.clone()),
        Datum::List(items) => {
            let mut out: Vec<ExtensionValue> = Vec::new();
            let mut k: usize = 0;
            while k < items.len()
                invariant
                    k <= items@.len(),
                    out@.len() == k,
                    forall|j: int| 0 <= j < k ==> ev(#[trigger] out@[j]) == ev_of(dm(items@[j])),
                decreases items@.len() - k,
            {
                proof {
                    broadcast use vstd::std_specs::vec::axiom_vec_index_decreases;
                    assert(decreases_to!(*d => items@[k as int]));
                }
                out.push(ext_value_from_datum(&items[k]));
                k = k + 1;
            }
            let v = ExtensionValue::List(out);
            assert(ev(v)->List_0 =~= ev_of(dm(*d))->List_0);
            v
        }
    }
}

/// The rank that lets a value's rendering call back into its elements.
pub open spec fn value_rank(v: Ev) -> int {
    match v {
        Ev::List(items) => items.len() as int + 1,
        Ev::Table(m) => m.len() as int + 1,
        _ => 0,
    }
}

/// A value as Scheme datum text.
pub open spec fn scheme_spec(v: Ev) -> Seq<char>
    decreases v, value_rank(v),
{
    match v {
        Ev::Nil => "()"@,
        Ev::Bool(b) => if b { seq!['#', 't'] } else { seq!['#', 'f'] },
        Ev::Int(i) => int_decimal(i as int),
        Ev::Str(s) => seq!['"'] + escaped(s) + seq!['"'],
        Ev::Path(p) => seq!['"'] + escaped(p) + seq!['"'],
        Ev::List(items) => seq!['('] + scheme_items(v, items.len() as int) + seq![')'],
        Ev::Table(m) => seq!['('] + scheme_items(v, m.len() as int) + seq![')'],
    }
}

/// The first `n` elements of a list or table value, as text joined by spaces
/// (a table entry reads `("key" value)`).
pub open spec fn scheme_items(v: Ev, n: int) -> Seq<char>
    decreases v, if n > 0 { n } else { 0 },
{
    if n <= 0 {
        Seq::empty()
    } else {
        match v {
            Ev::List(items) => if n > items.len() { Seq::empty() } else if n == 1 {
                scheme_spec(items[0])
            } else {
                scheme_items(v, n - 1) + seq![' '] + scheme_spec(items[n - 1])
            },
            Ev::Table(m) => if n > m.len() { Seq::empty() } else {
                let entry = seq!['(', '"'] + escaped(m[n - 1].0) + seq!['"', ' '] + scheme_spec(m[n - 1].1) + seq![')'];
                if n == 1 { entry } else { scheme_items(v, n - 1) + seq![' '] + entry }
            },
            _ => Seq::empty(),
        }
    }
}

fn push_quoted(out: &mut String, s: &str)
    ensures
        final(out)@ == old(out)@ + (seq!['"'] + escaped(s@) + seq!['"']),
{
    push_char(out, '"');
    crate::sexpr::push_escaped(out, s);
    push_char(out, '"');
    assert(final(out)@ =~= old(out)@ + (seq!['"'] + escaped(s@) + seq!['"']));
}

/// A list value as text.
#[verifier::loop_isolation(false)]
fn scheme_list(v: &ExtensionValue) -> (r: String)
    requires
        ev(*v) is List,
    ensures
        r@ == scheme_spec(ev(*v)),
    decreases v, 0int,
{
    match v {
        ExtensionValue::List(items) => {
            let ghost m = ev(*v);
            let mut out = String::new();
            push_char(&mut out, '(');
            let mut k: usize = 0;
            assert(out@ =~= seq!['('] + scheme_items(m, 0));
            while k < items.len()
                invariant
                    k <= items@.len(),
                    m == ev(*v),
                    m->List_0.len() == items@.len(),
                    out@ == seq!['('] + scheme_items(m, k as int),
                decreases items@.len() - k,
            {
                proof {
                    broadcast use vstd::std_specs::vec::axiom_vec_index_decreases;
                    assert(decreases_to!(*v => items@[k as int]));
                }
                let part = ext_value_to_scheme(&items[k]);
                assert(m->List_0[k as int] == ev(items@[k as int]));
                if k > 0 {
                    push_char(&mut out, ' ');
                }
                push_str(&mut out, part.as_str());
                k = k + 1;
                assert(out@ =~= seq!['('] + scheme_items(m, k as int));
            }
            push_char(&mut out, ')');
            assert(out@ =~= seq!['('] + scheme_items(m, m->List_0.len() as int) + seq![')']);
            out
                }
        _ => String::new(),
    }
}

/// A table value as text: one `("key" value)` entry per pair.
#[verifier::loop_isolation(false)]
fn scheme_table(v: &ExtensionValue) -> (r: String)
    requires
        ev(*v) is Table,
    ensures
        r@ == scheme_spec(ev(*v)),
    decreases v, 0int,
{
    match v {
        ExtensionValue::Table(pairs) => {
            let ghost m = ev(*v);
            let mut out = String::new();
            push_char(&mut out, '(');
            let mut k: usize = 0;
            assert(out@ =~= seq!['('] + scheme_items(m, 0));
            while k < pairs.len()
                invariant
                    k <= pairs@.len(),
                    m == ev(*v),
                    m->Table_0.len() == pairs@.len(),
                    out@ == seq!['('] + scheme_items(m, k as int),
                decreases pairs@.len() - k,
            {
                proof {
                    broadcast use vstd::std_specs::vec::axiom_vec_index_decreases;
                    assert(decreases_to!(*v => pairs@[k as int]));
                    assert(decreases_to!(pairs@[k as int] => pairs@[k as int].1));
                }
                let part = ext_value_to_scheme(&pairs[k].1);
                assert(m->Table_0[k as int] == (pairs@[k as int].0@, ev(pairs@[k as int].1)));
                let ghost before = out@;
                if k > 0 {
                    push_char(&mut out, ' ');
                }
                push_char(&mut out, '(');
                push_quoted(&mut out, pairs[k].0.as_str());
                push_char(&mut out, ' ');
                push_str(&mut out, part.as_str());
                push_char(&mut out, ')');
                k = k + 1;
                assert(out@ =~= seq!['('] + scheme_items(m, k as int));
            }
            push_char(&mut out, ')');
            assert(out@ =~= seq!['('] + scheme_items(m, m->Table_0.len() as int) + seq![')']);
            out
                }
        _ => String::new(),
    }
}

/// Render an ExtensionValue as a Scheme datum string.
#[verifier::loop_isolation(false)]
pub fn ext_value_to_scheme(v: &ExtensionValue) -> (r: String)
    ensures
        r@ == scheme_spec(ev(*v)),
    decreases v, 1int,
{
    match v {
        ExtensionValue::Nil => "()".to_owned(),
        ExtensionValue::Bool(b) => {
            let mut s = String::new();
            push_char(&mut s, '#');
            push_char(&mut s, if *b { 't' } else { 'f' });
            assert(s@ =~= (if *b { seq!['#', 't'] } else { seq!['#', 'f'] }));
            s
        }
        ExtensionValue::Int(i) => i64_to_string(*i),
        ExtensionValue::String(s) => {
            let mut out = String::new();
            push_quoted(&mut out, s.as_str());
            assert(out@ =~= seq!['"'] + escaped(s@) + seq!['"']);
            out
        }
        ExtensionValue::Path(p) => {
            let mut out = String::new();
            push_quoted(&mut out, p.as_str());
            assert(out@ =~= seq!['"'] + escaped(p@) + seq!['"']);
            out
        }
        ExtensionValue::List(_) => scheme_list(v),
        ExtensionValue::Table(_) => scheme_table(v),
    }
}

// --- intents -------------------------------------------------------------------

/// The core intents a bare name stands for (those that carry no data).
pub open spec fn named_intents() -> Seq<(Seq<char>, Intent)> {
    seq![
        ("cursor-up"@, Intent::CursorUp),
        ("cursor-down"@, Intent::CursorDown),
        ("cursor-left"@, Intent::CursorLeft),
        ("cursor-right"@, Intent::CursorRight),
        ("activate"@, Intent::Activate),
        ("cursor-top"@, Intent::CursorTop),
        ("cursor-bottom"@, Intent::CursorBottom),
        ("func-up"@, Intent::FuncUp),
        ("func-down"@, Intent::FuncDown),
        ("func-left"@, Intent::FuncLeft),
        ("func-right"@, Intent::FuncRight),
        ("toggle-select"@, Intent::ToggleSelect),
        ("select-all"@, Intent::SelectAll),
        ("clear-selection"@, Intent::ClearSelection),
        ("start-copy"@, Intent::StartCopy),
        ("start-move"@, Intent::StartMove),
        ("start-rename"@, Intent::StartRename),
        ("delete-selected"@, Intent::DeleteSelected),
        ("start-edit"@, Intent::StartEdit),
        ("cycle-function-panel"@, Intent::CycleFunctionPanel),
        ("hide-function-panel"@, Intent::HideFunctionPanel),
        ("toggle-dotfiles"@, Intent::ToggleDotFiles),
        ("toggle-line-numbers"@, Intent::ToggleLineNumbers),
        ("cycle-list-layout"@, Intent::CycleListLayout),
        ("scroll-up"@, Intent::ScrollUp),
        ("scroll-down"@, Intent::ScrollDown),
        ("scroll-top"@, Intent::ScrollTop),
        ("scroll-bottom"@, Intent::ScrollBottom),
        ("page-up"@, Intent::PageUp),
        ("page-down"@, Intent::PageDown),
        ("function-search-start"@, Intent::FunctionSearchStart),
        ("function-search-submit"@, Intent::FunctionSearchSubmit),
        ("function-search-next"@, Intent::FunctionSearchNext),
        ("function-search-prev"@, Intent::FunctionSearchPrev),
        ("function-search-cancel"@, Intent::FunctionSearchCancel),
        ("confirm"@, Intent::Confirm),
        ("cancel"@, Intent::Cancel),
        ("focus-next-panel"@, Intent::FocusNextPanel),
        ("focus-prev-panel"@, Intent::FocusPrevPanel),
        ("kill-process"@, Intent::KillProcess),
        ("refresh"@, Intent::Refresh),
        ("quit"@, Intent::Quit),
        ("noop"@, Intent::Noop),
        ("set-sublayout-content"@, Intent::SetSubLayout(SubLayout::Content)),
        ("set-sublayout-exec"@, Intent::SetSubLayout(SubLayout::Exec)),
    ]
}

/// The intent paired with the first entry named `s`.
pub open spec fn assoc_intent(t: Seq<(Seq<char>, Intent)>, s: Seq<char>) -> Option<Intent>
    decreases t.len(),
{
    if t.len() == 0 {
        None
    } else if t[0].0 == s {
        Some(t[0].1)
    } else {
        assoc_intent(t.drop_first(), s)
    }
}

/// The file-search picker pushed by `file-search`.
pub open spec fn is_file_search(m: Mode) -> bool {
    &&& m matches Mode::Select(spec)
    &&& spec.id@ == "file-search"@
    &&& spec.source == SelectSource::FileWalk
    &&& spec.input == SelectInput::Fuzzy
    &&& spec.on_confirm == OnConfirm::Navigate
    &&& spec.initial_query is None
    &&& spec.function_hint == Some(FunctionHint::DirListing)
    &&& spec.command_line@.len() == 0
}

/// The empty command palette pushed by `command-palette`.
pub open spec fn is_empty_palette(m: Mode) -> bool {
    &&& m matches Mode::Select(spec)
    &&& spec.id@ == "command-palette"@
    &&& spec.source == SelectSource::Commands
    &&& spec.input == SelectInput::Fuzzy
    &&& spec.on_confirm == OnConfirm::RunCommand
    &&& spec.initial_query is None
    &&& spec.function_hint is None
    &&& spec.command_line@.len() == 0
}

/// What a bare intent name decodes to.
pub open spec fn name_decodes(s: Seq<char>, r: Option<Intent>) -> bool {
    match assoc_intent(named_intents(), s) {
        Some(i) => r == Some(i),
        None => if s == "open"@ {
            r matches Some(Intent::Open { path }) && path@.len() == 0
        } else if s == "file-search"@ {
            r matches Some(Intent::PushMode(m)) && is_file_search(*m)
        } else if s == "command-palette"@ {
            r matches Some(Intent::PushMode(m)) && is_empty_palette(*m)
        } else {
            r is None
        },
    }
}

fn intent_from_name(s: &str) -> (r: Option<Intent>)
    ensures
        name_decodes(s@, r),
{
    let mut table: Vec<(&str, Intent)> = vec![
        ("cursor-up", Intent::CursorUp),
        ("cursor-down", Intent::CursorDown),
        ("cursor-left", Intent::CursorLeft),
        ("cursor-right", Intent::CursorRight),
        ("activate", Intent::Activate),
        ("cursor-top", Intent::CursorTop),
        ("cursor-bottom", Intent::CursorBottom),
        ("func-up", Intent::FuncUp),
        ("func-down", Intent::FuncDown),
        ("func-left", Intent::FuncLeft),
        ("func-right", Intent::FuncRight),
        ("toggle-select", Intent::ToggleSelect),
        ("select-all", Intent::SelectAll),
        ("clear-selection", Intent::ClearSelection),
        ("start-copy", Intent::StartCopy),
        ("start-move", Intent::StartMove),
        ("start-rename", Intent::StartRename),
        ("delete-selected", Intent::DeleteSelected),
        ("start-edit", Intent::StartEdit),
        ("cycle-function-panel", Intent::CycleFunctionPanel),
        ("hide-function-panel", Intent::HideFunctionPanel),
        ("toggle-dotfiles", Intent::ToggleDotFiles),
        ("toggle-line-numbers", Intent::ToggleLineNumbers),
        ("cycle-list-layout", Intent::CycleListLayout),
        ("scroll-up", Intent::ScrollUp),
        ("scroll-down", Intent::ScrollDown),
        ("scroll-top", Intent::ScrollTop),
        ("scroll-bottom", Intent::ScrollBottom),
        ("page-up", Intent::PageUp),
        ("page-down", Intent::PageDown),
        ("function-search-start", Intent::FunctionSearchStart),
        ("function-search-submit", Intent::FunctionSearchSubmit),
        ("function-search-next", Intent::FunctionSearchNext),
        ("function-search-prev", Intent::FunctionSearchPrev),
        ("function-search-cancel", Intent::FunctionSearchCancel),
        ("confirm", Intent::Confirm),
        ("cancel", Intent::Cancel),
        ("focus-next-panel", Intent::FocusNextPanel),
        ("focus-prev-panel", Intent::FocusPrevPanel),
        ("kill-process", Intent::KillProcess),
        ("refresh", Intent::Refresh),
        ("quit", Intent::Quit),
        ("noop", Intent::Noop),
        ("set-sublayout-content", Intent::SetSubLayout(SubLayout::Content)),
        ("set-sublayout-exec", Intent::SetSubLayout(SubLayout::Exec)),
    ];
    let ghost t = named_intents();
    assert(Seq::new(table@.len(), |i: int| (table@[i].0@, table@[i].1)) =~= t);
    let mut i: usize = 0;
    assert(t.skip(0) =~= t);
    while i < table.len()
        invariant
            i <= table@.len(),
            t == named_intents(),
            t == Seq::new(table@.len(), |k: int| (table@[k].0@, table@[k].1)),
            assoc_intent(t, s@) == assoc_intent(t.skip(i as int), s@),
        decreases table@.len() - i,
    {
        assert(t.skip(i as int).drop_first() =~= t.skip(i + 1));
        assert(t.skip(i as int)[0] == t[i as int]);
        assert(t[i as int] == (table@[i as int].0@, table@[i as int].1));
        if str_eq(table[i].0, s) {
            let (_, intent) = table.remove(i);
            return Some(intent);
        }
        i = i + 1;
    }
    assert(assoc_intent(t, s@) is None);
    if str_eq(s, "open") {
        Some(Intent::Open { path: String::new() })
    } else if str_eq(s, "file-search") {
        Some(Intent::PushMode(Box::new(Mode::Select(SelectSpec::file_search()))))
    } else if str_eq(s, "command-palette") {
        Some(Intent::PushMode(Box::new(Mode::Select(SelectSpec::command_palette(Vec::new())))))
    } else {
        None
    }
}

/// A string literal or a bare symbol, as text.
pub open spec fn text_of(d: Dm) -> Option<Seq<char>> {
    match d {
        Dm::Sym(s) => Some(s),
        Dm::Str(s) => Some(s),
        _ => None,
    }
}

/// The `i`-th element of a run list when it is an integer.
pub open spec fn int_at(parts: Seq<Dm>, i: int) -> Option<i64> {
    if 0 <= i < parts.len() && parts[i] is Int { Some(parts[i]->Int_0) } else { None }
}

/// A style run `(LEN R G B)` or `(LEN R G B BR BG BB)`.
pub open spec fn run_of(r: Dm) -> Option<StyleRun> {
    match r {
        Dm::List(p) => {
            if int_at(p, 0) is None || int_at(p, 1) is None || int_at(p, 2) is None || int_at(p, 3) is None {
                None
            } else if p.len() >= 7 && (int_at(p, 4) is None || int_at(p, 5) is None || int_at(p, 6) is None) {
                None
            } else {
                Some(StyleRun {
                    len: int_at(p, 0)->0 as usize,
                    fg: (int_at(p, 1)->0 as u8, int_at(p, 2)->0 as u8, int_at(p, 3)->0 as u8),
                    bg: if p.len() >= 7 {
                        Some((int_at(p, 4)->0 as u8, int_at(p, 5)->0 as u8, int_at(p, 6)->0 as u8))
                    } else {
                        None
                    },
                })
            }
        },
        _ => None,
    }
}

/// The runs of `parts[1..n]`, or `None` if one is malformed.
pub open spec fn runs_upto(parts: Seq<Dm>, n: int) -> Option<Seq<StyleRun>>
    decreases n,
{
    if n <= 1 {
        Some(Seq::empty())
    } else {
        match (runs_upto(parts, n - 1), run_of(parts[n - 1])) {
            (Some(rs), Some(r)) => Some(rs.push(r)),
            _ => None,
        }
    }
}

/// A line `("text" RUN...)`.
pub open spec fn line_of(l: Dm) -> Option<(Seq<char>, Seq<StyleRun>)> {
    match l {
        Dm::List(p) => if p.len() >= 1 && text_of(p[0]) is Some && runs_upto(p, p.len() as int) is Some {
            Some((text_of(p[0])->0, runs_upto(p, p.len() as int)->0))
        } else {
            None
        },
        _ => None,
    }
}

/// The lines of `section[1..n]`, or `None` if one is malformed.
pub open spec fn lines_upto(section: Seq<Dm>, n: int) -> Option<(Seq<Seq<char>>, Seq<Seq<StyleRun>>)>
    decreases n,
{
    if n <= 1 {
        Some((Seq::empty(), Seq::empty()))
    } else {
        match (lines_upto(section, n - 1), line_of(section[n - 1])) {
            (Some((ls, ss)), Some((l, s))) => Some((ls.push(l), ss.push(s))),
            _ => None,
        }
    }
}

/// A `(lines LINE...)` section.
pub open spec fn lines_of(d: Dm) -> Option<(Seq<Seq<char>>, Seq<Seq<StyleRun>>)> {
    match d {
        Dm::List(section) => if section.len() >= 1 && section[0] == Dm::Sym("lines"@) {
            lines_upto(section, section.len() as int)
        } else {
            None
        },
        _ => None,
    }
}

/// The runs of each line, by their views.
pub open spec fn style_views(styles: Seq<Vec<StyleRun>>) -> Seq<Seq<StyleRun>> {
    Seq::new(styles.len(), |i: int| styles[i]@)
}

fn run_int(p: &[Datum], i: usize) -> (r: Option<i64>)
    ensures
        r == int_at(dms(p@), i as int),
{
    if i < p.len() {
        match &p[i] {
            Datum::Int(n) => Some(*n),
            _ => None,
        }
    } else {
        None
    }
}

fn run_from(d: &Datum) -> (r: Option<StyleRun>)
    ensures
        r == run_of(dm(*d)),
{
    let p = match d.as_list() {
        Some(p) => p,
        None => {
            return None;
        }
    };
    let bg = if p.len() >= 7 {
        match (run_int(p, 4), run_int(p, 5), run_int(p, 6)) {
            (Some(a), Some(b), Some(c)) => Some((a as u8, b as u8, c as u8)),
            _ => {
                match (run_int(p, 0), run_int(p, 1), run_int(p, 2), run_int(p, 3)) {
                    _ => {
                        return None;
                    }
                }
            }
        }
    } else {
        None
    };
    match (run_int(p, 0), run_int(p, 1), run_int(p, 2), run_int(p, 3)) {
        (Some(l), Some(r), Some(g), Some(b)) => Some(StyleRun { len: l as usize, fg: (r as u8, g as u8, b as u8), bg }),
        _ => None,
    }
}

/// Decode a `(lines LINE...)` datum into `PanelContent::Lines`.
fn panel_lines_from_datum(d: &Datum) -> (r: Option<PanelContent>)
    ensures
        match r {
            Some(c) => lines_of(dm(*d)) matches Some((ls, ss))
                && (c matches PanelContent::Lines { lines, styles }
                    && crate::state::views(lines@) == ls && style_views(styles@) == ss),
            None => lines_of(dm(*d)) is None,
        },
{
    let section = match d.as_list() {
        Some(s) => s,
        None => {
            return None;
        }
    };
    let ghost sm = dms(section@);
    if section.len() == 0 {
        return None;
    }
    let is_lines = match section[0].as_sym() {
        Some(h) => str_eq(h, "lines"),
        None => false,
    };
    proof {
        reveal_strlit("lines");
        if sm[0] == Dm::Sym("lines"@) {
            assert(dm(section@[0]) == Dm::Sym("lines"@));
        }
    }
    if !is_lines {
        return None;
    }
    let mut lines: Vec<String> = Vec::new();
    let mut styles: Vec<Vec<StyleRun>> = Vec::new();
    let mut k: usize = 1;
    assert(crate::state::views(lines@) =~= Seq::<Seq<char>>::empty());
    assert(style_views(styles@) =~= Seq::<Seq<StyleRun>>::empty());
    while k < section.len()
        invariant
            1 <= k <= section@.len(),
            sm == dms(section@),
            dm(*d) == Dm::List(sm),
            sm[0] == Dm::Sym("lines"@),
            lines_upto(sm, k as int) == Some((crate::state::views(lines@), style_views(styles@))),
        decreases section@.len() - k,
    {
        assert(sm[k as int] == dm(section@[k as int]));
        let parts = match section[k].as_list() {
            Some(p) => p,
            None => {
                proof { lemma_lines_upto_none(sm, k as int + 1, section@.len() as int); }
                return None;
            }
        };
        let ghost pm = dms(parts@);
        assert(sm[k as int] == dm(section@[k as int]));
        assert(sm[k as int] == Dm::List(pm));
        if parts.len() == 0 {
            proof { lemma_lines_upto_none(sm, k as int + 1, section@.len() as int); }
            return None;
        }
        let text = match parts[0].text() {
            Some(t) => owned(t),
            None => {
                proof { lemma_lines_upto_none(sm, k as int + 1, section@.len() as int); }
                return None;
            }
        };
        assert(text_of(pm[0]) == Some(text@));
        let mut runs: Vec<StyleRun> = Vec::new();
        let mut j: usize = 1;
        while j < parts.len()
            invariant
                1 <= j <= parts@.len(),
                pm == dms(parts@),
                runs_upto(pm, j as int) == Some(runs@),
                1 <= k < section@.len(),
                sm == dms(section@),
                sm[k as int] == Dm::List(pm),
                parts@.len() >= 1,
                dm(*d) == Dm::List(sm),
                sm[0] == Dm::Sym("lines"@),
            decreases parts@.len() - j,
        {
            match run_from(&parts[j]) {
                Some(r) => runs.push(r),
                None => {
                    proof {
                        lemma_runs_upto_none(pm, j as int + 1, parts@.len() as int);
                        lemma_lines_upto_none(sm, k as int + 1, section@.len() as int);
                    }
                    return None;
                }
            }
            j = j + 1;
        }
        let ghost before_l = crate::state::views(lines@);
        let ghost before_s = style_views(styles@);
        lines.push(text);
        styles.push(runs);
        assert(crate::state::views(lines@) =~= before_l.push(text@));
        assert(style_views(styles@) =~= before_s.push(runs@));
        k = k + 1;
    }
    Some(PanelContent::Lines { lines, styles })
}

proof fn lemma_runs_upto_none(parts: Seq<Dm>, k: int, n: int)
    requires
        1 <= k <= n,
        runs_upto(parts, k) is None,
    ensures
        runs_upto(parts, n) is None,
    decreases n - k,
{
    if k < n {
        lemma_runs_upto_none(parts, k, n - 1);
    }
}

proof fn lemma_lines_upto_none(section: Seq<Dm>, k: int, n: int)
    requires
        1 <= k <= n,
        lines_upto(section, k) is None || (k >= 2 && line_of(section[k - 1]) is None),
    ensures
        lines_upto(section, n) is None,
    decreases n - k,
{
    if k < n {
        lemma_lines_upto_none(section, k, n - 1);
    }
}

/// The path-input command Select pushed by `(push-path-input op)`.
pub open spec fn is_path_input(m: Mode, op: Seq<char>) -> bool {
    &&& m matches Mode::Select(spec)
    &&& spec.id@ == "command"@
    &&& spec.source matches SelectSource::Static(c) && c@.len() == 0
    &&& spec.input == SelectInput::Path
    &&& spec.initial_query is None
    &&& spec.function_hint == Some(FunctionHint::CommandSummary)
    &&& spec.command_line@.len() == 0
    &&& spec.on_confirm matches OnConfirm::Resolve { template, fill }
        && fill == ResolveFill::Path
        && template.op@ == op && template.label@ == op
        && template.src is None && template.dst is None && template.path is None
        && template.paths@.len() == 0 && template.opts@.len() == 0
}

/// What an intent datum decodes to: a bare name, or one of the list forms
/// `(push-path-input op)`, `(ext "id" "intent" [data])`,
/// `(show-function-content "owner" (lines ...))`, `(update-function-view v)`.
pub open spec fn decodes(d: Dm, r: Option<Intent>) -> bool {
    match d {
        Dm::Sym(s) => name_decodes(s, r),
        Dm::List(items) => if items.len() == 0 || !(items[0] is Sym) {
            r is None
        } else {
            let h = items[0]->Sym_0;
            if h == "push-path-input"@ {
                if items.len() > 1 && items[1] is Sym && (items[1]->Sym_0 == "mkdir"@ || items[1]->Sym_0 == "touch"@) {
                    r matches Some(Intent::PushMode(m)) && is_path_input(*m, items[1]->Sym_0)
                } else {
                    r is None
                }
            } else if h == "ext"@ {
                if items.len() > 2 && text_of(items[1]) is Some && text_of(items[2]) is Some {
                    r matches Some(Intent::Extension(e))
                        && e.extension@ == text_of(items[1])->0
                        && e.intent@ == text_of(items[2])->0
                        && ev(e.data) == (if items.len() > 3 { ev_of(items[3]) } else { Ev::Nil })
                } else {
                    r is None
                }
            } else if h == "show-function-content"@ {
                if items.len() > 2 && text_of(items[1]) is Some && lines_of(items[2]) is Some {
                    r matches Some(Intent::ShowFunctionContent { owner, content })
                        && owner@ == text_of(items[1])->0
                        && (content matches PanelContent::Lines { lines, styles }
                            && crate::state::views(lines@) == (lines_of(items[2])->0).0
                            && style_views(styles@) == (lines_of(items[2])->0).1)
                } else {
                    r is None
                }
            } else if h == "update-function-view"@ {
                r matches Some(Intent::UpdateFunctionView(v)) && ev(v) == (if items.len() > 1 { ev_of(items[1]) } else { Ev::Nil })
            } else {
                r is None
            }
        },
        _ => r is None,
    }
}

/// Decode an intent datum (a symbol, or a small list form) into a core Intent.
pub fn intent_from_datum(d: &Datum) -> (r: Option<Intent>)
    ensures
        decodes(dm(*d), r),
{
    proof {
        reveal_strlit("push-path-input");
        reveal_strlit("mkdir");
        reveal_strlit("touch");
        reveal_strlit("ext");
        reveal_strlit("show-function-content");
        reveal_strlit("update-function-view");
    }
    match d {
        Datum::Sym(s) => intent_from_name(s.as_str()),
        Datum::List(items) => {
            let ghost im = dms(items@);
            assert(dm(*d) == Dm::List(im)) by {
                assert(dm(*d)->List_0 =~= im);
            }
            if items.len() == 0 {
                return None;
            }
            assert(im[0] == dm(items@[0]));
            let head = match items[0].as_sym() {
                Some(h) => h,
                None => {
                    return None;
                }
            };
            if str_eq(head, "push-path-input") {
                if items.len() < 2 {
                    return None;
                }
                assert(im[1] == dm(items@[1]));
                let op = match items[1].as_sym() {
                    Some(o) => o,
                    None => {
                        return None;
                    }
                };
                if !str_eq(op, "mkdir") && !str_eq(op, "touch") {
                    return None;
                }
                let template = crate::select::op_request(op, Vec::new(), None);
                let spec = SelectSpec::command(template, ResolveFill::Path, Vec::new(), None);
                Some(Intent::PushMode(Box::new(Mode::Select(spec))))
            } else if str_eq(head, "ext") {
                if items.len() < 3 {
                    return None;
                }
                assert(im[1] == dm(items@[1]));
                assert(im[2] == dm(items@[2]));
                let extension = match items[1].text() {
                    Some(t) => owned(t),
                    None => {
                        return None;
                    }
                };
                let intent = match items[2].text() {
                    Some(t) => owned(t),
                    None => {
                        return None;
                    }
                };
                let data = if items.len() > 3 {
                    assert(im[3] == dm(items@[3]));
                    ext_value_from_datum(&items[3])
                } else {
                    ExtensionValue::Nil
                };
                Some(Intent::Extension(ExtensionIntent { extension, intent, data }))
            } else if str_eq(head, "show-function-content") {
                if items.len() < 3 {
                    return None;
                }
                assert(im[1] == dm(items@[1]));
                assert(im[2] == dm(items@[2]));
                let owner = match items[1].text() {
                    Some(t) => owned(t),
                    None => {
                        return None;
                    }
                };
                match panel_lines_from_datum(&items[2]) {
                    Some(content) => Some(Intent::ShowFunctionContent { owner, content }),
                    None => None,
                }
            } else if str_eq(head, "update-function-view") {
                let v = if items.len() > 1 {
                    assert(im[1] == dm(items@[1]));
                    ext_value_from_datum(&items[1])
                } else {
                    ExtensionValue::Nil
                };
                Some(Intent::UpdateFunctionView(v))
            } else {
                None
            }
        }
        _ => None,
    }
}

/// The condition that holds in no state: an empty disjunction.
pub open spec fn never() -> CondM {
    CondM::Or(Seq::empty())
}

/// The condition a `:when` datum decodes to: `#t` and `always` hold
/// everywhere, a symbol names a predicate, `not`/`and`/`or` lists combine;
/// anything unrecognized (`#f`, numbers, strings, other lists) holds nowhere.
pub open spec fn cond_of(d: Dm) -> CondM
    decreases d,
{
    match d {
        Dm::Bool(b) => if b { CondM::Always } else { never() },
        Dm::Sym(s) => if s == "always"@ { CondM::Always } else { CondM::Pred(s) },
        Dm::List(items) => if items.len() > 0 && items[0] is Sym {
            let h = items[0]->Sym_0;
            if h == "not"@ {
                if items.len() > 1 { CondM::Not(Box::new(cond_of(items[1]))) } else { never() }
            } else if h == "and"@ {
                CondM::And(Seq::new((items.len() - 1) as nat, |i: int| if 0 <= i + 1 < items.len() { cond_of(items[i + 1]) } else { CondM::Always }))
            } else if h == "or"@ {
                CondM::Or(Seq::new((items.len() - 1) as nat, |i: int| if 0 <= i + 1 < items.len() { cond_of(items[i + 1]) } else { CondM::Always }))
            } else {
                never()
            }
        } else {
            never()
        },
        _ => never(),
    }
}

/// An unrecognized `:when` datum makes an inert binding: the condition it
/// decodes to is false in every state, whatever predicates are registered.
pub proof fn law_never_false(preds: Seq<(Seq<char>, Predicate)>, s: AppState)
    ensures
        !eval_spec(preds, never(), s),
{
    assert(crate::condition::eval_any(preds, never(), 0, s) == false);
    assert(eval_spec(preds, never(), s) == crate::condition::eval_any(preds, never(), 0, s));
}

/// The condition that holds in no state.
fn never_cond() -> (c: Cond)
    ensures
        cm(c) == never(),
{
    let c = Cond::Or(Vec::new());
    assert(cm(c)->Or_0 =~= Seq::<CondM>::empty());
    c
}

/// Decode a `:when` condition datum.
#[verifier::loop_isolation(false)]
pub fn cond_from_datum(d: &Datum) -> (c: Cond)
    ensures
        cm(c) == cond_of(dm(*d)),
    decreases d,
{
    proof {
        reveal_strlit("always");
        reveal_strlit("not");
        reveal_strlit("and");
        reveal_strlit("or");
    }
    match d {
        Datum::Bool(b) => if *b { Cond::Always } else { never_cond() },
        Datum::Sym(s) => {
            if str_eq(s.as_str(), "always") { Cond::Always } else { Cond::Pred(s.clone()) }
        }
        Datum::List(items) => {
            let ghost im = dms(items@);
            assert(dm(*d)->List_0 =~= im);
            if items.len() == 0 {
                return never_cond();
            }
            assert(im[0] == dm(items@[0]));
            let head = match items[0].as_sym() {
                Some(h) => h,
                None => {
                    return never_cond();
                }
            };
            if str_eq(head, "not") {
                if items.len() > 1 {
                    proof {
                        broadcast use vstd::std_specs::vec::axiom_vec_index_decreases;
                        assert(decreases_to!(*d => items@[1]));
                    }
                    assert(im[1] == dm(items@[1]));
                    Cond::Not(Box::new(cond_from_datum(&items[1])))
                } else {
                    never_cond()
                }
            } else if str_eq(head, "and") || str_eq(head, "or") {
                let is_and = str_eq(head, "and");
                let mut out: Vec<Cond> = Vec::new();
                let mut k: usize = 1;
                while k < items.len()
                    invariant
                        1 <= k <= items@.len(),
                        out@.len() == k - 1,
                        forall|j: int| 0 <= j < k - 1 ==> cm(#[trigger] out@[j]) == cond_of(dm(items@[j + 1])),
                    decreases items@.len() - k,
                {
                    proof {
                        broadcast use vstd::std_specs::vec::axiom_vec_index_decreases;
                        assert(decreases_to!(*d => items@[k as int]));
                    }
                    out.push(cond_from_datum(&items[k]));
                    k = k + 1;
                }
                let c = if is_and { Cond::And(out) } else { Cond::Or(out) };
                proof {
                    if is_and {
                        assert(cm(c)->And_0 =~= cond_of(dm(*d))->And_0);
                    } else {
                        assert(cm(c)->Or_0 =~= cond_of(dm(*d))->Or_0);
                    }
                }
                c
            } else {
                never_cond()
            }
        }
        _ => never_cond(),
    }
}

/// The intents decoded from a list's elements, skipping those that decode
/// to nothing.
pub open spec fn list_decodes(items: Seq<Dm>, out: Seq<Intent>) -> bool
    decreases items.len(),
{
    if items.len() == 0 {
        out.len() == 0
    } else if decodes(items.last(), None) {
        list_decodes(items.drop_last(), out)
    } else {
        out.len() > 0 && decodes(items.last(), Some(out.last())) && list_decodes(items.drop_last(), out.drop_last())
    }
}

/// Decode a list datum into core intents (each element via `intent_from_datum`);
/// a non-list gives none.
pub fn intents_from_datum_list(d: &Datum) -> (r: Vec<Intent>)
    ensures
        match dm(*d) {
            Dm::List(items) => list_decodes(items, r@),
            _ => r@.len() == 0,
        },
{
    let mut out: Vec<Intent> = Vec::new();
    match d.as_list() {
        Some(items) => {
            let ghost im = dms(items@);
            let mut k: usize = 0;
            assert(im.take(0) =~= Seq::<Dm>::empty());
            while k < items.len()
                invariant
                    k <= items@.len(),
                    im == dms(items@),
                    list_decodes(im.take(k as int), out@),
                decreases items@.len() - k,
            {
                assert(im.take(k + 1).drop_last() =~= im.take(k as int));
                assert(im.take(k + 1).last() == dm(items@[k as int]));
                match intent_from_datum(&items[k]) {
                    Some(i) => {
                        let ghost before = out@;
                        out.push(i);
                        assert(out@.drop_last() =~= before);
                    }
                    None => {}
                }
                k = k + 1;
            }
            assert(im.take(k as int) =~= im);
            out
        }
        None => out,
    }
}


// --- values read back through their Scheme text --------------------------------

/// A value made only of booleans, integers, strings and lists of them.
pub open spec fn plain_value(v: Ev) -> bool
    decreases v,
{
    match v {
        Ev::Bool(_) => true,
        Ev::Int(_) => true,
        Ev::Str(_) => true,
        Ev::List(items) => forall|k: int| 0 <= k < items.len() ==> plain_value(#[trigger] items[k]),
        _ => false,
    }
}

/// The datum a plain value's text writes.
pub open spec fn plain_datum(v: Ev) -> Dm
    decreases v,
{
    match v {
        Ev::Bool(b) => Dm::Bool(b),
        Ev::Int(i) => Dm::Int(i),
        Ev::Str(s) => Dm::Str(s),
        Ev::List(items) => Dm::List(Seq::new(items.len(), |k: int| if 0 <= k < items.len() { plain_datum(items[k]) } else { Dm::Bool(false) })),
        _ => Dm::Bool(false),
    }
}

proof fn lemma_plain_text(v: Ev)
    requires
        plain_value(v),
    ensures
        scheme_spec(v) == render_spec(plain_datum(v)),
        syms_ok(plain_datum(v)),
        ev_of(plain_datum(v)) == v,
    decreases v, value_rank(v),
{
    match v {
        Ev::List(items) => {
            let d = plain_datum(v);
            let ds = d->List_0;
            assert forall|k: int| 0 <= k < items.len() implies ds[k] == plain_datum(items[k]) && syms_ok(#[trigger] ds[k]) && ev_of(ds[k]) == items[k] by {
                lemma_plain_text(items[k]);
            }
            lemma_plain_items(v, items.len() as int);
            assert(ev_of(d)->List_0 =~= items);
        }
        _ => {}
    }
}

proof fn lemma_plain_items(v: Ev, n: int)
    requires
        plain_value(v),
        v is List,
        0 <= n <= v->List_0.len(),
    ensures
        scheme_items(v, n) == render_items(plain_datum(v), n),
    decreases v, n,
{
    let items = v->List_0;
    let d = plain_datum(v);
    if n > 0 {
        lemma_plain_items(v, n - 1);
        lemma_plain_text(items[n - 1]);
        assert(d->List_0[n - 1] == plain_datum(items[n - 1]));
        if n == 1 {
            assert(d->List_0[0] == plain_datum(items[0]));
        }
    }
}

/// A value of booleans, integers, strings and lists written as Scheme text
/// reads back as the same value.
pub proof fn law_plain_value_round_trip(v: Ev)
    requires
        plain_value(v),
    ensures
        parse_spec(scheme_spec(v)) matches Ok(d) && ev_of(d) == v,
{
    lemma_plain_text(v);
    crate::sexpr::law_parse_reads_back_render(plain_datum(v));
}

} // verus!
