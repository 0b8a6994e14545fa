//! The keymap registry: the only key-to-intent path. Layered (Core <
//! Extension < User) with scope specificity (longest mode-id prefix, then
//! panel scope) applied before layer priority; `:when` conditions are
//! evaluated natively.

use vstd::prelude::*;
use crate::condition::{Cond, CondM, Conditions, cm, eval_spec};
use crate::intent::{Intent, Key, KeyCode, Mods};
use crate::mode::{mode_id_spec, Mode, SelectSpec, SubLayout};
use crate::path::opt_view;
use crate::state::AppState;
use crate::text::{chars_of, is_prefix, owned, push_char, push_str, starts_with, str_eq};

verus! {

#[derive(Debug, Clone, Copy, PartialEq, Eq, Structural, PartialOrd, Ord)]
pub enum Layer {
    Core,
    Extension,
    User,
}

/// A layer's priority: User over Extension over Core.
pub open spec fn layer_rank(l: Layer) -> int {
    match l {
        Layer::Core => 0,
        Layer::Extension => 1,
        Layer::User => 2,
    }
}

#[derive(Clone, Debug, PartialEq)]
pub struct Binding {
    /// Mode-id scope (prefix-matched on segment boundaries).
    pub mode: String,
    /// Optional panel scope; None matches any focused panel.
    pub panel: Option<String>,
    pub key: Key,
    pub intent: Intent,
    pub when: Cond,
    pub layer: Layer,
}

pub struct KeymapRegistry {
    bindings: Vec<Binding>,
    warnings: Vec<String>,
}

/// A mode scope matches a mode id it equals or is a segment-boundary
/// prefix of.
pub open spec fn scope_matches(scope: Seq<char>, mode_id: Seq<char>) -> bool {
    mode_id == scope || is_prefix(scope + seq![':'], mode_id)
}

pub fn mode_scope_matches(scope: &str, mode_id: &str) -> (r: bool)
    ensures
        r == scope_matches(scope@, mode_id@),
{
    if str_eq(mode_id, scope) {
        return true;
    }
    let mut p = owned(scope);
    push_char(&mut p, ':');
    assert(p@ =~= scope@ + seq![':']);
    starts_with(mode_id, p.as_str())
}

/// A binding applies: same key, its mode scope matches, its panel scope is
/// absent or the focused panel, and its condition holds.
pub open spec fn applies(b: Binding, mode_id: Seq<char>, panel: Seq<char>, key: Key, preds: Seq<(Seq<char>, crate::condition::Predicate)>, s: AppState) -> bool {
    &&& b.key == key
    &&& scope_matches(b.mode@, mode_id)
    &&& (b.panel matches Some(p) ==> p@ == panel)
    &&& eval_spec(preds, cm(b.when), s)
}

/// How specific a binding is: (mode scope length, panel-scoped, layer rank).
pub open spec fn score(b: Binding) -> (int, int, int) {
    (b.mode@.len() as int, if b.panel is Some { 1int } else { 0int }, layer_rank(b.layer))
}

/// Lexicographically greater.
pub open spec fn beats(x: (int, int, int), y: (int, int, int)) -> bool {
    x.0 > y.0 || (x.0 == y.0 && (x.1 > y.1 || (x.1 == y.1 && x.2 > y.2)))
}

/// The index of the winning binding among the first `n`: the highest score,
/// the last defined on a tie.
pub open spec fn best_upto(bs: Seq<Binding>, n: int, mode_id: Seq<char>, panel: Seq<char>, key: Key, preds: Seq<(Seq<char>, crate::condition::Predicate)>, s: AppState) -> Option<int>
    decreases n,
{
    if n <= 0 {
        None
    } else {
        let prev = best_upto(bs, n - 1, mode_id, panel, key, preds, s);
        if applies(bs[n - 1], mode_id, panel, key, preds, s) && (prev is None || !beats(score(bs[prev->0]), score(bs[n - 1]))) {
            Some(n - 1)
        } else {
            prev
        }
    }
}

/// The collision warning for adding `b` over an existing binding of layer `l`.
pub open spec fn collision_message(b: Binding, existing: Layer) -> Seq<char> {
    "keymap collision on "@ + key_debug_spec(b.key) + " in mode '"@ + b.mode@ + "': "@ + layer_debug(existing) + " vs "@ + layer_debug(b.layer)
}

pub open spec fn layer_debug(l: Layer) -> Seq<char> {
    match l {
        Layer::Core => "Core"@,
        Layer::Extension => "Extension"@,
        Layer::User => "User"@,
    }
}

/// A character as its debug form shows it (quoted, the common escapes).
pub open spec fn char_debug(c: char) -> Seq<char> {
    seq!['\''] + (if c == '\'' { seq!['\\', '\''] } else if c == '\\' { seq!['\\', '\\'] } else if c == '\n' { seq!['\\', 'n'] }
        else if c == '\r' { seq!['\\', 'r'] } else if c == '\t' { seq!['\\', 't'] } else if c == '\0' { seq!['\\', '0'] } else { seq![c] }) + seq!['\'']
}

pub open spec fn code_debug(c: KeyCode) -> Seq<char> {
    match c {
        KeyCode::Char(ch) => "Char("@ + char_debug(ch) + ")"@,
        KeyCode::Enter => "Enter"@,
        KeyCode::Esc => "Esc"@,
        KeyCode::Tab => "Tab"@,
        KeyCode::BackTab => "BackTab"@,
        KeyCode::Backspace => "Backspace"@,
        KeyCode::Delete => "Delete"@,
        KeyCode::Left => "Left"@,
        KeyCode::Right => "Right"@,
        KeyCode::Up => "Up"@,
        KeyCode::Down => "Down"@,
        KeyCode::Home => "Home"@,
        KeyCode::End => "End"@,
        KeyCode::PageUp => "PageUp"@,
        KeyCode::PageDown => "PageDown"@,
    }
}

pub open spec fn bool_text(b: bool) -> Seq<char> {
    if b { "true"@ } else { "false"@ }
}

/// A key as its debug form shows it.
pub open spec fn key_debug_spec(k: Key) -> Seq<char> {
    "Key { code: "@ + code_debug(k.code) + ", mods: Mods { ctrl: "@ + bool_text(k.mods.ctrl) + ", shift: "@
        + bool_text(k.mods.shift) + ", alt: "@ + bool_text(k.mods.alt) + " } }"@
}

fn push_bool(s: &mut String, b: bool)
    ensures
        final(s)@ == old(s)@ + bool_text(b),
{
    if b { push_str(s, "true") } else { push_str(s, "false") }
}

fn push_char_debug(s: &mut String, c: char)
    ensures
        final(s)@ == old(s)@ + char_debug(c),
{
    push_char(s, '\'');
    if c == '\'' {
        push_char(s, '\\');
        push_char(s, '\'');
    } else if c == '\\' {
        push_char(s, '\\');
        push_char(s, '\\');
    } else if c == '\n' {
        push_char(s, '\\');
        push_char(s, 'n');
    } else if c == '\r' {
        push_char(s, '\\');
        push_char(s, 'r');
    } else if c == '\t' {
        push_char(s, '\\');
        push_char(s, 't');
    } else if c == '\0' {
        push_char(s, '\\');
        push_char(s, '0');
    } else {
        push_char(s, c);
    }
    push_char(s, '\'');
    assert(final(s)@ =~= old(s)@ + char_debug(c));
}

/// A key's debug form.
pub fn key_debug(k: Key) -> (r: String)
    ensures
        r@ == key_debug_spec(k),
{
    let mut s = "Key { code: ".to_owned();
    let ghost s0 = s@;
    match k.code {
        KeyCode::Char(c) => {
            push_str(&mut s, "Char(");
            push_char_debug(&mut s, c);
            push_str(&mut s, ")");
        }
        KeyCode::Enter => push_str(&mut s, "Enter"),
        KeyCode::Esc => push_str(&mut s, "Esc"),
        KeyCode::Tab => push_str(&mut s, "Tab"),
        KeyCode::BackTab => push_str(&mut s, "BackTab"),
        KeyCode::Backspace => push_str(&mut s, "Backspace"),
        KeyCode::Delete => push_str(&mut s, "Delete"),
        KeyCode::Left => push_str(&mut s, "Left"),
        KeyCode::Right => push_str(&mut s, "Right"),
        KeyCode::Up => push_str(&mut s, "Up"),
        KeyCode::Down => push_str(&mut s, "Down"),
        KeyCode::Home => push_str(&mut s, "Home"),
        KeyCode::End => push_str(&mut s, "End"),
        KeyCode::PageUp => push_str(&mut s, "PageUp"),
        KeyCode::PageDown => push_str(&mut s, "PageDown"),
    }
    assert(s@ =~= s0 + code_debug(k.code));
    push_str(&mut s, ", mods: Mods { ctrl: ");
    push_bool(&mut s, k.mods.ctrl);
    push_str(&mut s, ", shift: ");
    push_bool(&mut s, k.mods.shift);
    push_str(&mut s, ", alt: ");
    push_bool(&mut s, k.mods.alt);
    push_str(&mut s, " } }");
    assert(s@ =~= key_debug_spec(k));
    s
}

fn layer_name(l: Layer) -> (r: &'static str)
    ensures
        r@ == layer_debug(l),
{
    match l {
        Layer::Core => "Core",
        Layer::Extension => "Extension",
        Layer::User => "User",
    }
}

/// Two conditions with the same model.
#[verifier::loop_isolation(false)]
pub fn cond_eq(a: &Cond, b: &Cond) -> (r: bool)
    ensures
        r == (cm(*a) == cm(*b)),
    decreases a,
{
    match (a, b) {
        (Cond::Always, Cond::Always) => true,
        (Cond::Pred(x), Cond::Pred(y)) => str_eq(x.as_str(), y.as_str()),
        (Cond::Not(x), Cond::Not(y)) => cond_eq(x, y),
        (Cond::And(xs), Cond::And(ys)) | (Cond::Or(xs), Cond::Or(ys)) => {
            if xs.len() != ys.len() {
                proof {
                    if a is And {
                        assert(cm(*a)->And_0.len() != cm(*b)->And_0.len());
                    } else {
                        assert(cm(*a)->Or_0.len() != cm(*b)->Or_0.len());
                    }
                }
                return false;
            }
            let mut k: usize = 0;
            while k < xs.len()
                invariant
                    k <= xs@.len(),
                    xs@.len() == ys@.len(),
                    forall|j: int| 0 <= j < k ==> cm(#[trigger] xs@[j]) == cm(ys@[j]),
                decreases xs@.len() - k,
            {
                proof {
                    broadcast use vstd::std_specs::vec::axiom_vec_index_decreases;
                    assert(decreases_to!(*a => xs@[k as int]));
                }
                if !cond_eq(&xs[k], &ys[k]) {
                    proof {
                        if a is And {
                            assert(cm(*a)->And_0[k as int] != cm(*b)->And_0[k as int]);
                        } else {
                            assert(cm(*a)->Or_0[k as int] != cm(*b)->Or_0[k as int]);
                        }
                    }
                    return false;
                }
                k = k + 1;
            }
            proof {
                if a is And {
                    assert(cm(*a)->And_0 =~= cm(*b)->And_0);
                } else {
                    assert(cm(*a)->Or_0 =~= cm(*b)->Or_0);
                }
            }
            true
        }
        _ => false,
    }
}

fn opt_str_eq(a: &Option<String>, b: &Option<String>) -> (r: bool)
    ensures
        r == (opt_view(*a) == opt_view(*b)),
{
    match (a, b) {
        (Some(x), Some(y)) => str_eq(x.as_str(), y.as_str()),
        (None, None) => true,
        _ => false,
    }
}

fn same_scope_of(a: &Binding, b: &Binding) -> (r: bool)
    ensures
        r == same_scope(*a, *b),
{
    str_eq(a.mode.as_str(), b.mode.as_str()) && opt_str_eq(&a.panel, &b.panel) && a.key == b.key && cond_eq(&a.when, &b.when)
}

/// The same scope: mode, panel, key and condition.
pub open spec fn same_scope(a: Binding, b: Binding) -> bool {
    a.mode@ == b.mode@ && opt_view(a.panel) == opt_view(b.panel) && a.key == b.key && cm(a.when) == cm(b.when)
}

/// The first binding from `k` on with the same scope as `b` on another layer.
pub open spec fn first_clash(bs: Seq<Binding>, b: Binding, k: int) -> Option<int>
    decreases bs.len() - k,
{
    if k < 0 || k >= bs.len() { None } else if same_scope(bs[k], b) && bs[k].layer != b.layer { Some(k) } else { first_clash(bs, b, k + 1) }
}

impl KeymapRegistry {
    pub closed spec fn bindings(&self) -> Seq<Binding> {
        self.bindings@
    }

    pub closed spec fn warning_texts(&self) -> Seq<Seq<char>> {
        crate::state::views(self.warnings@)
    }

    pub fn new() -> (r: KeymapRegistry)
        ensures
            r.bindings().len() == 0,
            r.warning_texts().len() == 0,
    {
        let r = KeymapRegistry { bindings: Vec::new(), warnings: Vec::new() };
        assert(r.warning_texts() =~= Seq::<Seq<char>>::empty());
        r
    }

    pub fn warnings(&self) -> (r: &[String])
        ensures
            crate::state::views(r@) == self.warning_texts(),
    {
        self.warnings.as_slice()
    }

    /// Add a binding, warning once when it collides with an existing binding
    /// of the same scope on another layer; the warning names the first such
    /// binding's layer and the new one's.
    pub fn add(&mut self, b: Binding)
        ensures
            final(self).bindings() == old(self).bindings().push(b),
            final(self).warning_texts() == (match first_clash(old(self).bindings(), b, 0) {
                Some(i) => old(self).warning_texts().push(collision_message(b, old(self).bindings()[i].layer)),
                None => old(self).warning_texts(),
            }),
    {
        let mut i: usize = 0;
        while i < self.bindings.len() && !(same_scope_of(&self.bindings[i], &b) && self.bindings[i].layer != b.layer)
            invariant
                i <= self.bindings@.len(),
                first_clash(self.bindings@, b, 0) == first_clash(self.bindings@, b, i as int),
            decreases self.bindings@.len() - i,
        {
            i = i + 1;
        }
        if i < self.bindings.len() {
            let mut m = "keymap collision on ".to_owned();
            let kd = key_debug(b.key);
            push_str(&mut m, kd.as_str());
            push_str(&mut m, " in mode '");
            push_str(&mut m, b.mode.as_str());
            push_str(&mut m, "': ");
            push_str(&mut m, layer_name(self.bindings[i].layer));
            push_str(&mut m, " vs ");
            push_str(&mut m, layer_name(b.layer));
            let ghost w0 = crate::state::views(self.warnings@);
            self.warnings.push(m);
            assert(crate::state::views(self.warnings@) =~= w0.push(collision_message(b, old(self).bindings()[i as int].layer)));
        }
        self.bindings.push(b);
    }

    pub fn extend(&mut self, bindings: Vec<Binding>)
        ensures
            final(self).bindings() == old(self).bindings() + bindings@,
    {
        let ghost bs = bindings@;
        let mut rest = bindings;
        let mut k: usize = 0;
        let n = rest.len();
        while rest.len() > 0
            invariant
                k + rest@.len() == n,
                n == bs.len(),
                rest@ == bs.skip(k as int),
                self.bindings() == old(self).bindings() + bs.take(k as int),
            decreases rest@.len(),
        {
            assert(rest@[0] == bs[k as int]);
            let b = rest.remove(0);
            self.add(b);
            k = k + 1;
            assert(self.bindings() =~= old(self).bindings() + bs.take(k as int));
            assert(rest@ =~= bs.skip(k as int));
        }
        assert(bs.take(k as int) =~= bs);
    }

    /// Resolve (mode, focused panel, key) to an intent: scope specificity
    /// first (longest mode prefix, then panel-specific), then layer priority;
    /// the last defined binding wins a tie.
    pub fn resolve<'a>(&'a self, conds: &Conditions, state: &AppState, panel: &str, key: Key) -> (r: Option<&'a Intent>)
        requires
            state.modes@.len() >= 1,
        ensures
            match best_upto(self.bindings(), self.bindings().len() as int, mode_id_spec(state.modes@.last().mode), panel@, key, conds.table(), *state) {
                Some(i) => r == Some(&self.bindings()[i].intent),
                None => r is None,
            },
    {
        let mode_id = state.mode_id();
        let ghost mid = mode_id@;
        let mut best: Option<usize> = None;
        let mut i: usize = 0;
        while i < self.bindings.len()
            invariant
                i <= self.bindings@.len(),
                mid == mode_id_spec(state.modes@.last().mode),
                mode_id@ == mid,
                match best {
                    Some(b) => b < i && best_upto(self.bindings@, i as int, mid, panel@, key, conds.table(), *state) == Some(b as int),
                    None => best_upto(self.bindings@, i as int, mid, panel@, key, conds.table(), *state) is None,
                },
            decreases self.bindings@.len() - i,
        {
            let b = &self.bindings[i];
            let ok_panel = match &b.panel {
                Some(p) => str_eq(p.as_str(), panel),
                None => true,
            };
            let ghost bs = self.bindings@;
            let applicable = b.key == key && mode_scope_matches(b.mode.as_str(), mode_id.as_str()) && ok_panel && conds.eval(&b.when, state);
            assert(applicable == applies(bs[i as int], mid, panel@, key, conds.table(), *state));
            if applicable {
                let better = match best {
                    None => true,
                    Some(j) => {
                        let bj = &self.bindings[j];
                        let lm = chars_of(b.mode.as_str()).len();
                        let lj = chars_of(bj.mode.as_str()).len();
                        let pm: u8 = if b.panel.is_some() { 1 } else { 0 };
                        let pj: u8 = if bj.panel.is_some() { 1 } else { 0 };
                        let rm = layer_rank_of(b.layer);
                        let rj = layer_rank_of(bj.layer);
                        !(lj > lm || (lj == lm && (pj > pm || (pj == pm && rj > rm))))
                    }
                };
                if better {
                    best = Some(i);
                }
            }
            i = i + 1;
        }
        match best {
            Some(j) => Some(&self.bindings[j].intent),
            None => None,
        }
    }
}

fn layer_rank_of(l: Layer) -> (r: u8)
    ensures
        r as int == layer_rank(l),
{
    match l {
        Layer::Core => 0,
        Layer::Extension => 1,
        Layer::User => 2,
    }
}

/// The winning binding applies, and no applying binding is more specific;
/// a later one is strictly less specific (the last definition wins a tie).
pub proof fn law_resolve_most_specific(bs: Seq<Binding>, n: int, mode_id: Seq<char>, panel: Seq<char>, key: Key, preds: Seq<(Seq<char>, crate::condition::Predicate)>, s: AppState)
    requires
        0 <= n <= bs.len(),
    ensures
        match best_upto(bs, n, mode_id, panel, key, preds, s) {
            Some(i) => {
                &&& 0 <= i < n
                &&& applies(bs[i], mode_id, panel, key, preds, s)
                &&& forall|j: int| 0 <= j < n && applies(#[trigger] bs[j], mode_id, panel, key, preds, s) ==> !beats(score(bs[j]), score(bs[i]))
                &&& forall|j: int| i < j < n && applies(#[trigger] bs[j], mode_id, panel, key, preds, s) ==> beats(score(bs[i]), score(bs[j]))
            },
            None => forall|j: int| 0 <= j < n ==> !applies(#[trigger] bs[j], mode_id, panel, key, preds, s),
        },
    decreases n,
{
    if n > 0 {
        law_resolve_most_specific(bs, n - 1, mode_id, panel, key, preds, s);
    }
}

/// Layer priority at equal scope: among applying bindings whose mode scopes
/// are equally long and that are equally panel-scoped, the resolved binding
/// is never on a lower layer than another applying one: a User binding beats
/// an Extension or Core one, and an Extension binding beats a Core one.
pub proof fn law_later_layers_win(bs: Seq<Binding>, n: int, mode_id: Seq<char>, panel: Seq<char>, key: Key, preds: Seq<(Seq<char>, crate::condition::Predicate)>, s: AppState, i: int, j: int)
    requires
        0 <= j < n <= bs.len(),
        applies(bs[j], mode_id, panel, key, preds, s),
        best_upto(bs, n, mode_id, panel, key, preds, s) == Some(i),
        bs[i].mode@.len() == bs[j].mode@.len(),
        (bs[i].panel is Some) == (bs[j].panel is Some),
    ensures
        bs[j].layer == Layer::User ==> bs[i].layer == Layer::User,
        bs[j].layer == Layer::Extension ==> bs[i].layer != Layer::Core,
{
    law_resolve_most_specific(bs, n, mode_id, panel, key, preds, s);
}

/// What a default binding's intent is.
pub enum IntentKind {
    Is(Intent),
    FileSearch,
    Palette,
    OpenCursor,
}

pub open spec fn intent_is(kind: IntentKind, i: Intent) -> bool {
    match kind {
        IntentKind::Is(x) => i == x,
        IntentKind::FileSearch => i matches Intent::PushMode(m) && crate::codec::is_file_search(*m),
        IntentKind::Palette => i matches Intent::PushMode(m) && crate::codec::is_empty_palette(*m),
        IntentKind::OpenCursor => i matches Intent::Open { path } && path@.len() == 0,
    }
}

/// The embedded default keymap: (mode, panel, key, condition, intent).
pub open spec fn default_table() -> Seq<(Seq<char>, Option<Seq<char>>, Key, CondM, IntentKind)> {
    seq![
        ("file"@, Some("file"@), Key { code: KeyCode::Char('w'), mods: Mods { ctrl: false, shift: false, alt: false } }, CondM::Always, IntentKind::Is(Intent::CursorUp)),
        ("file"@, Some("file"@), Key { code: KeyCode::Char('s'), mods: Mods { ctrl: false, shift: false, alt: false } }, CondM::Always, IntentKind::Is(Intent::CursorDown)),
        ("file"@, Some("file"@), Key { code: KeyCode::Char('a'), mods: Mods { ctrl: false, shift: false, alt: false } }, CondM::Always, IntentKind::Is(Intent::CursorLeft)),
        ("file"@, Some("file"@), Key { code: KeyCode::Char('d'), mods: Mods { ctrl: false, shift: false, alt: false } }, CondM::Always, IntentKind::Is(Intent::CursorRight)),
        ("file"@, Some("file"@), Key { code: KeyCode::Enter, mods: Mods { ctrl: false, shift: false, alt: false } }, CondM::Always, IntentKind::Is(Intent::Activate)),
        ("file"@, Some("file"@), Key { code: KeyCode::Char('k'), mods: Mods { ctrl: false, shift: false, alt: false } }, CondM::Always, IntentKind::Is(Intent::FuncUp)),
        ("file"@, Some("file"@), Key { code: KeyCode::Up, mods: Mods { ctrl: false, shift: false, alt: false } }, CondM::Always, IntentKind::Is(Intent::FuncUp)),
        ("file"@, Some("file"@), Key { code: KeyCode::Char('j'), mods: Mods { ctrl: false, shift: false, alt: false } }, CondM::Always, IntentKind::Is(Intent::FuncDown)),
        ("file"@, Some("file"@), Key { code: KeyCode::Down, mods: Mods { ctrl: false, shift: false, alt: false } }, CondM::Always, IntentKind::Is(Intent::FuncDown)),
        ("file"@, Some("file"@), Key { code: KeyCode::Char('h'), mods: Mods { ctrl: false, shift: false, alt: false } }, CondM::Always, IntentKind::Is(Intent::FuncLeft)),
        ("file"@, Some("file"@), Key { code: KeyCode::Left, mods: Mods { ctrl: false, shift: false, alt: false } }, CondM::Always, IntentKind::Is(Intent::FuncLeft)),
        ("file"@, Some("file"@), Key { code: KeyCode::Char('l'), mods: Mods { ctrl: false, shift: false, alt: false } }, CondM::Always, IntentKind::Is(Intent::FuncRight)),
        ("file"@, Some("file"@), Key { code: KeyCode::Right, mods: Mods { ctrl: false, shift: false, alt: false } }, CondM::Always, IntentKind::Is(Intent::FuncRight)),
        ("file"@, Some("file"@), Key { code: KeyCode::Char(' '), mods: Mods { ctrl: false, shift: false, alt: false } }, CondM::Always, IntentKind::Is(Intent::ToggleSelect)),
        ("file"@, Some("file"@), Key { code: KeyCode::Char('f'), mods: Mods { ctrl: false, shift: false, alt: false } }, CondM::Always, IntentKind::FileSearch),
        ("file"@, Some("file"@), Key { code: KeyCode::Char('x'), mods: Mods { ctrl: false, shift: false, alt: false } }, CondM::Always, IntentKind::Palette),
        ("file"@, Some("file"@), Key { code: KeyCode::Char('W'), mods: Mods { ctrl: false, shift: false, alt: false } }, CondM::Always, IntentKind::Is(Intent::CursorTop)),
        ("file"@, Some("file"@), Key { code: KeyCode::Char('S'), mods: Mods { ctrl: false, shift: false, alt: false } }, CondM::Always, IntentKind::Is(Intent::CursorBottom)),
        ("file"@, Some("file"@), Key { code: KeyCode::Char('a'), mods: Mods { ctrl: true, shift: false, alt: false } }, CondM::Always, IntentKind::Is(Intent::SelectAll)),
        ("file"@, Some("file"@), Key { code: KeyCode::Char('c'), mods: Mods { ctrl: false, shift: false, alt: false } }, CondM::Always, IntentKind::Is(Intent::StartCopy)),
        ("file"@, Some("file"@), Key { code: KeyCode::Char('m'), mods: Mods { ctrl: false, shift: false, alt: false } }, CondM::Always, IntentKind::Is(Intent::StartMove)),
        ("file"@, Some("file"@), Key { code: KeyCode::Char('R'), mods: Mods { ctrl: false, shift: false, alt: false } }, CondM::Always, IntentKind::Is(Intent::StartRename)),
        ("file"@, Some("file"@), Key { code: KeyCode::Char('e'), mods: Mods { ctrl: false, shift: false, alt: false } }, CondM::Always, IntentKind::Is(Intent::StartEdit)),
        ("file"@, Some("file"@), Key { code: KeyCode::Char(','), mods: Mods { ctrl: false, shift: false, alt: false } }, CondM::Always, IntentKind::Is(Intent::CycleFunctionPanel)),
        ("file"@, Some("file"@), Key { code: KeyCode::Char('.'), mods: Mods { ctrl: false, shift: false, alt: false } }, CondM::Always, IntentKind::Is(Intent::ToggleDotFiles)),
        ("file"@, Some("file"@), Key { code: KeyCode::Char('v'), mods: Mods { ctrl: false, shift: false, alt: false } }, CondM::Always, IntentKind::Is(Intent::CycleListLayout)),
        ("file"@, Some("file"@), Key { code: KeyCode::Esc, mods: Mods { ctrl: false, shift: false, alt: false } }, CondM::Always, IntentKind::Is(Intent::ClearSelection)),
        ("file"@, Some("file"@), Key { code: KeyCode::Backspace, mods: Mods { ctrl: false, shift: false, alt: false } }, CondM::Always, IntentKind::Is(Intent::DeleteSelected)),
        ("file"@, Some("file"@), Key { code: KeyCode::Delete, mods: Mods { ctrl: false, shift: false, alt: false } }, CondM::Always, IntentKind::Is(Intent::DeleteSelected)),
        ("file"@, Some("file"@), Key { code: KeyCode::Char('r'), mods: Mods { ctrl: false, shift: false, alt: false } }, CondM::Always, IntentKind::Is(Intent::Refresh)),
        ("file"@, Some("file"@), Key { code: KeyCode::Tab, mods: Mods { ctrl: false, shift: false, alt: false } }, CondM::Always, IntentKind::Is(Intent::FocusNextPanel)),
        ("file"@, Some("file"@), Key { code: KeyCode::BackTab, mods: Mods { ctrl: false, shift: false, alt: false } }, CondM::Always, IntentKind::Is(Intent::FocusPrevPanel)),
        ("file"@, Some("file"@), Key { code: KeyCode::Char('q'), mods: Mods { ctrl: false, shift: false, alt: false } }, CondM::Always, IntentKind::Is(Intent::Quit)),
        ("file"@, Some("file"@), Key { code: KeyCode::Char('c'), mods: Mods { ctrl: true, shift: false, alt: false } }, CondM::Always, IntentKind::Is(Intent::Quit)),
        ("file"@, Some("function"@), Key { code: KeyCode::Char('j'), mods: Mods { ctrl: false, shift: false, alt: false } }, CondM::Always, IntentKind::Is(Intent::ScrollDown)),
        ("file"@, Some("function"@), Key { code: KeyCode::Down, mods: Mods { ctrl: false, shift: false, alt: false } }, CondM::Always, IntentKind::Is(Intent::ScrollDown)),
        ("file"@, Some("function"@), Key { code: KeyCode::Char('k'), mods: Mods { ctrl: false, shift: false, alt: false } }, CondM::Always, IntentKind::Is(Intent::ScrollUp)),
        ("file"@, Some("function"@), Key { code: KeyCode::Up, mods: Mods { ctrl: false, shift: false, alt: false } }, CondM::Always, IntentKind::Is(Intent::ScrollUp)),
        ("file"@, Some("function"@), Key { code: KeyCode::Char('g'), mods: Mods { ctrl: false, shift: false, alt: false } }, CondM::Always, IntentKind::Is(Intent::ScrollTop)),
        ("file"@, Some("function"@), Key { code: KeyCode::Char('G'), mods: Mods { ctrl: false, shift: false, alt: false } }, CondM::Always, IntentKind::Is(Intent::ScrollBottom)),
        ("file"@, Some("function"@), Key { code: KeyCode::Char('n'), mods: Mods { ctrl: false, shift: false, alt: false } }, CondM::Pred("sublayout-content"@), IntentKind::Is(Intent::ToggleLineNumbers)),
        ("file"@, Some("function"@), Key { code: KeyCode::Enter, mods: Mods { ctrl: false, shift: false, alt: false } }, CondM::Pred("sublayout-content"@), IntentKind::OpenCursor),
        ("file"@, Some("function"@), Key { code: KeyCode::Enter, mods: Mods { ctrl: false, shift: false, alt: false } }, CondM::Pred("sublayout-exec"@), IntentKind::Is(Intent::SetSubLayout(SubLayout::Content))),
        ("file"@, Some("function"@), Key { code: KeyCode::Char('c'), mods: Mods { ctrl: true, shift: false, alt: false } }, CondM::Pred("sublayout-exec"@), IntentKind::Is(Intent::KillProcess)),
        ("file"@, Some("function"@), Key { code: KeyCode::Char(','), mods: Mods { ctrl: false, shift: false, alt: false } }, CondM::Always, IntentKind::Is(Intent::CycleFunctionPanel)),
        ("file"@, Some("function"@), Key { code: KeyCode::Esc, mods: Mods { ctrl: false, shift: false, alt: false } }, CondM::Always, IntentKind::Is(Intent::HideFunctionPanel)),
        ("file"@, Some("function"@), Key { code: KeyCode::Char('q'), mods: Mods { ctrl: false, shift: false, alt: false } }, CondM::Always, IntentKind::Is(Intent::HideFunctionPanel)),
        ("select"@, None, Key { code: KeyCode::Enter, mods: Mods { ctrl: false, shift: false, alt: false } }, CondM::Always, IntentKind::Is(Intent::Confirm)),
        ("select"@, None, Key { code: KeyCode::Esc, mods: Mods { ctrl: false, shift: false, alt: false } }, CondM::Always, IntentKind::Is(Intent::Cancel)),
        ("select"@, None, Key { code: KeyCode::Char('n'), mods: Mods { ctrl: true, shift: false, alt: false } }, CondM::Always, IntentKind::Is(Intent::CursorDown)),
        ("select"@, None, Key { code: KeyCode::Down, mods: Mods { ctrl: false, shift: false, alt: false } }, CondM::Always, IntentKind::Is(Intent::CursorDown)),
        ("select"@, None, Key { code: KeyCode::Char('p'), mods: Mods { ctrl: true, shift: false, alt: false } }, CondM::Always, IntentKind::Is(Intent::CursorUp)),
        ("select"@, None, Key { code: KeyCode::Up, mods: Mods { ctrl: false, shift: false, alt: false } }, CondM::Always, IntentKind::Is(Intent::CursorUp)),
        ("select"@, None, Key { code: KeyCode::Char('w'), mods: Mods { ctrl: false, shift: false, alt: false } }, CondM::Pred("select-phase-navigate"@), IntentKind::Is(Intent::CursorUp)),
        ("select"@, None, Key { code: KeyCode::Char('s'), mods: Mods { ctrl: false, shift: false, alt: false } }, CondM::Pred("select-phase-navigate"@), IntentKind::Is(Intent::CursorDown)),
        ("select"@, None, Key { code: KeyCode::Char('a'), mods: Mods { ctrl: false, shift: false, alt: false } }, CondM::Pred("select-phase-navigate"@), IntentKind::Is(Intent::CursorLeft)),
        ("select"@, None, Key { code: KeyCode::Char('d'), mods: Mods { ctrl: false, shift: false, alt: false } }, CondM::Pred("select-phase-navigate"@), IntentKind::Is(Intent::CursorRight)),
        ("select"@, None, Key { code: KeyCode::Char('W'), mods: Mods { ctrl: false, shift: false, alt: false } }, CondM::Pred("select-phase-navigate"@), IntentKind::Is(Intent::CursorTop)),
        ("select"@, None, Key { code: KeyCode::Char('S'), mods: Mods { ctrl: false, shift: false, alt: false } }, CondM::Pred("select-phase-navigate"@), IntentKind::Is(Intent::CursorBottom)),
        ("select"@, None, Key { code: KeyCode::Char('v'), mods: Mods { ctrl: false, shift: false, alt: false } }, CondM::Pred("select-phase-navigate"@), IntentKind::Is(Intent::CycleListLayout)),
        ("select"@, None, Key { code: KeyCode::Char(' '), mods: Mods { ctrl: false, shift: false, alt: false } }, CondM::Pred("select-phase-navigate"@), IntentKind::Is(Intent::ToggleSelect)),
        ("select"@, None, Key { code: KeyCode::Char('q'), mods: Mods { ctrl: false, shift: false, alt: false } }, CondM::Pred("select-phase-navigate"@), IntentKind::Is(Intent::Cancel)),
        ("policy"@, None, Key { code: KeyCode::Char('y'), mods: Mods { ctrl: false, shift: false, alt: false } }, CondM::Always, IntentKind::Is(Intent::Confirm)),
        ("policy"@, None, Key { code: KeyCode::Enter, mods: Mods { ctrl: false, shift: false, alt: false } }, CondM::Always, IntentKind::Is(Intent::Confirm)),
        ("policy"@, None, Key { code: KeyCode::Char('n'), mods: Mods { ctrl: false, shift: false, alt: false } }, CondM::Always, IntentKind::Is(Intent::Cancel)),
        ("policy"@, None, Key { code: KeyCode::Esc, mods: Mods { ctrl: false, shift: false, alt: false } }, CondM::Always, IntentKind::Is(Intent::Cancel)),
    ]
}

/// A binding as a default-table row describes it, on the Core layer.
pub open spec fn matches_row(b: Binding, row: (Seq<char>, Option<Seq<char>>, Key, CondM, IntentKind)) -> bool {
    &&& b.mode@ == row.0
    &&& opt_view(b.panel) == row.1
    &&& b.key == row.2
    &&& cm(b.when) == row.3
    &&& intent_is(row.4, b.intent)
    &&& b.layer == Layer::Core
}

fn ch(c: char) -> (k: Key)
    ensures
        k == (Key { code: KeyCode::Char(c), mods: Mods { ctrl: false, shift: false, alt: false } }),
{
    Key { code: KeyCode::Char(c), mods: Mods { ctrl: false, shift: false, alt: false } }
}

fn ctrl(c: char) -> (k: Key)
    ensures
        k == (Key { code: KeyCode::Char(c), mods: Mods { ctrl: true, shift: false, alt: false } }),
{
    Key { code: KeyCode::Char(c), mods: Mods { ctrl: true, shift: false, alt: false } }
}

fn sp(code: KeyCode) -> (k: Key)
    ensures
        k == (Key { code, mods: Mods { ctrl: false, shift: false, alt: false } }),
{
    Key { code, mods: Mods { ctrl: false, shift: false, alt: false } }
}

fn core_binding(mode: &str, panel: Option<&str>, key: Key, intent: Intent, when: Cond) -> (b: Binding)
    ensures
        b.mode@ == mode@,
        opt_view(b.panel) == (match panel { Some(p) => Some(p@), None => None }),
        b.key == key,
        b.intent == intent,
        cm(b.when) == cm(when),
        b.layer == Layer::Core,
{
    Binding {
        mode: owned(mode),
        panel: match panel {
            Some(p) => Some(owned(p)),
            None => None,
        },
        key,
        intent,
        when,
        layer: Layer::Core,
    }
}

/// The embedded default keymap, all on the Core layer.
#[verifier::rlimit(100)]
pub fn defaults() -> (r: Vec<Binding>)
    ensures
        r@.len() == default_table().len(),
        forall|i: int| 0 <= i < r@.len() ==> matches_row(#[trigger] r@[i], default_table()[i]),
{
    let mut v: Vec<Binding> = Vec::new();
    v.push(core_binding("file", Some("file"), ch('w'), Intent::CursorUp, Cond::Always));
    v.push(core_binding("file", Some("file"), ch('s'), Intent::CursorDown, Cond::Always));
    v.push(core_binding("file", Some("file"), ch('a'), Intent::CursorLeft, Cond::Always));
    v.push(core_binding("file", Some("file"), ch('d'), Intent::CursorRight, Cond::Always));
    v.push(core_binding("file", Some("file"), sp(KeyCode::Enter), Intent::Activate, Cond::Always));
    v.push(core_binding("file", Some("file"), ch('k'), Intent::FuncUp, Cond::Always));
    v.push(core_binding("file", Some("file"), sp(KeyCode::Up), Intent::FuncUp, Cond::Always));
    v.push(core_binding("file", Some("file"), ch('j'), Intent::FuncDown, Cond::Always));
    v.push(core_binding("file", Some("file"), sp(KeyCode::Down), Intent::FuncDown, Cond::Always));
    v.push(core_binding("file", Some("file"), ch('h'), Intent::FuncLeft, Cond::Always));
    v.push(core_binding("file", Some("file"), sp(KeyCode::Left), Intent::FuncLeft, Cond::Always));
    v.push(core_binding("file", Some("file"), ch('l'), Intent::FuncRight, Cond::Always));
    v.push(core_binding("file", Some("file"), sp(KeyCode::Right), Intent::FuncRight, Cond::Always));
    v.push(core_binding("file", Some("file"), ch(' '), Intent::ToggleSelect, Cond::Always));
    v.push(core_binding("file", Some("file"), ch('f'), Intent::PushMode(Box::new(Mode::Select(SelectSpec::file_search()))), Cond::Always));
    v.push(core_binding("file", Some("file"), ch('x'), Intent::PushMode(Box::new(Mode::Select(SelectSpec::command_palette(Vec::new())))), Cond::Always));
    v.push(core_binding("file", Some("file"), ch('W'), Intent::CursorTop, Cond::Always));
    v.push(core_binding("file", Some("file"), ch('S'), Intent::CursorBottom, Cond::Always));
    v.push(core_binding("file", Some("file"), ctrl('a'), Intent::SelectAll, Cond::Always));
    v.push(core_binding("file", Some("file"), ch('c'), Intent::StartCopy, Cond::Always));
    v.push(core_binding("file", Some("file"), ch('m'), Intent::StartMove, Cond::Always));
    v.push(core_binding("file", Some("file"), ch('R'), Intent::StartRename, Cond::Always));
    v.push(core_binding("file", Some("file"), ch('e'), Intent::StartEdit, Cond::Always));
    v.push(core_binding("file", Some("file"), ch(','), Intent::CycleFunctionPanel, Cond::Always));
    v.push(core_binding("file", Some("file"), ch('.'), Intent::ToggleDotFiles, Cond::Always));
    v.push(core_binding("file", Some("file"), ch('v'), Intent::CycleListLayout, Cond::Always));
    v.push(core_binding("file", Some("file"), sp(KeyCode::Esc), Intent::ClearSelection, Cond::Always));
    v.push(core_binding("file", Some("file"), sp(KeyCode::Backspace), Intent::DeleteSelected, Cond::Always));
    v.push(core_binding("file", Some("file"), sp(KeyCode::Delete), Intent::DeleteSelected, Cond::Always));
    v.push(core_binding("file", Some("file"), ch('r'), Intent::Refresh, Cond::Always));
    v.push(core_binding("file", Some("file"), sp(KeyCode::Tab), Intent::FocusNextPanel, Cond::Always));
    v.push(core_binding("file", Some("file"), sp(KeyCode::BackTab), Intent::FocusPrevPanel, Cond::Always));
    v.push(core_binding("file", Some("file"), ch('q'), Intent::Quit, Cond::Always));
    v.push(core_binding("file", Some("file"), ctrl('c'), Intent::Quit, Cond::Always));
    v.push(core_binding("file", Some("function"), ch('j'), Intent::ScrollDown, Cond::Always));
    v.push(core_binding("file", Some("function"), sp(KeyCode::Down), Intent::ScrollDown, Cond::Always));
    v.push(core_binding("file", Some("function"), ch('k'), Intent::ScrollUp, Cond::Always));
    v.push(core_binding("file", Some("function"), sp(KeyCode::Up), Intent::ScrollUp, Cond::Always));
    v.push(core_binding("file", Some("function"), ch('g'), Intent::ScrollTop, Cond::Always));
    v.push(core_binding("file", Some("function"), ch('G'), Intent::ScrollBottom, Cond::Always));
    v.push(core_binding("file", Some("function"), ch('n'), Intent::ToggleLineNumbers, Cond::pred("sublayout-content")));
    v.push(core_binding("file", Some("function"), sp(KeyCode::Enter), Intent::Open { path: String::new() }, Cond::pred("sublayout-content")));
    v.push(core_binding("file", Some("function"), sp(KeyCode::Enter), Intent::SetSubLayout(SubLayout::Content), Cond::pred("sublayout-exec")));
    v.push(core_binding("file", Some("function"), ctrl('c'), Intent::KillProcess, Cond::pred("sublayout-exec")));
    v.push(core_binding("file", Some("function"), ch(','), Intent::CycleFunctionPanel, Cond::Always));
    v.push(core_binding("file", Some("function"), sp(KeyCode::Esc), Intent::HideFunctionPanel, Cond::Always));
    v.push(core_binding("file", Some("function"), ch('q'), Intent::HideFunctionPanel, Cond::Always));
    v.push(core_binding("select", None, sp(KeyCode::Enter), Intent::Confirm, Cond::Always));
    v.push(core_binding("select", None, sp(KeyCode::Esc), Intent::Cancel, Cond::Always));
    v.push(core_binding("select", None, ctrl('n'), Intent::CursorDown, Cond::Always));
    v.push(core_binding("select", None, sp(KeyCode::Down), Intent::CursorDown, Cond::Always));
    v.push(core_binding("select", None, ctrl('p'), Intent::CursorUp, Cond::Always));
    v.push(core_binding("select", None, sp(KeyCode::Up), Intent::CursorUp, Cond::Always));
    v.push(core_binding("select", None, ch('w'), Intent::CursorUp, Cond::pred("select-phase-navigate")));
    v.push(core_binding("select", None, ch('s'), Intent::CursorDown, Cond::pred("select-phase-navigate")));
    v.push(core_binding("select", None, ch('a'), Intent::CursorLeft, Cond::pred("select-phase-navigate")));
    v.push(core_binding("select", None, ch('d'), Intent::CursorRight, Cond::pred("select-phase-navigate")));
    v.push(core_binding("select", None, ch('W'), Intent::CursorTop, Cond::pred("select-phase-navigate")));
    v.push(core_binding("select", None, ch('S'), Intent::CursorBottom, Cond::pred("select-phase-navigate")));
    v.push(core_binding("select", None, ch('v'), Intent::CycleListLayout, Cond::pred("select-phase-navigate")));
    v.push(core_binding("select", None, ch(' '), Intent::ToggleSelect, Cond::pred("select-phase-navigate")));
    v.push(core_binding("select", None, ch('q'), Intent::Cancel, Cond::pred("select-phase-navigate")));
    v.push(core_binding("policy", None, ch('y'), Intent::Confirm, Cond::Always));
    v.push(core_binding("policy", None, sp(KeyCode::Enter), Intent::Confirm, Cond::Always));
    v.push(core_binding("policy", None, ch('n'), Intent::Cancel, Cond::Always));
    v.push(core_binding("policy", None, sp(KeyCode::Esc), Intent::Cancel, Cond::Always));
    assert(v@.len() == default_table().len());
    assert forall|i: int| 0 <= i < v@.len() implies matches_row(#[trigger] v@[i], default_table()[i]) by {}
    v
}

} // verus!
