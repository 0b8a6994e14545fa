//! The kernel's decisions: one dispatch step of an intent through the two
//! structural gates (an extension's reserved resolver key, a destructive
//! resolver op awaiting confirmation), the modal confirmation prompt, and the
//! hand-off to the reducer. The event loop performs what a step asks for.

use vstd::prelude::*;
use crate::apply::{apply_intent, apply_intent_post, commands_post, ready, law_reducer_keeps_the_stack};
use crate::event::{Plan, ResolverRequest};
use crate::intent::{ExtensionIntent, Intent, Key, KeyCode};
use crate::keymap::{best_upto, KeymapRegistry};
use crate::condition::Conditions;
use crate::mode::mode_id_spec;
use crate::mode::{Mode, SelectSource};
use crate::path::opt_view;
use crate::reducer::{CommandLookup, Effects};
use crate::resolver::{last_entry, ResolverChain};
use crate::state::{views, AppState, ModeFrame, stack_ok, law_stack_preserved_by_pop, law_stack_preserved_by_push};
use crate::value::{ev, ev_get, evs, Ev, ExtensionValue, KEY_RESOLVER};
use crate::sexpr::{dm, dms, parse, parse_spec, render, render_spec, Datum, Dm};
use crate::text::push_str;

verus! {

/// How many nested re-dispatches one input may cause before the rest is dropped.
pub const REDISPATCH_CAP: u32 = 32;

// --- the reserved resolver key ------------------------------------------------

/// The string stored under `k` of a table.
pub open spec fn str_field(r: Ev, k: Seq<char>) -> Option<Seq<char>> {
    match ev_get(r, k) {
        Some(Ev::Str(s)) => Some(s),
        _ => None,
    }
}

/// The path stored under `k` of a table.
pub open spec fn path_field(r: Ev, k: Seq<char>) -> Option<Seq<char>> {
    match ev_get(r, k) {
        Some(Ev::Path(p)) => Some(p),
        _ => None,
    }
}

/// The path, or the string, stored under `k` of a table.
pub open spec fn path_or_str_field(r: Ev, k: Seq<char>) -> Option<Seq<char>> {
    match ev_get(r, k) {
        Some(Ev::Path(p)) => Some(p),
        Some(Ev::Str(s)) => Some(s),
        _ => None,
    }
}

/// The items of the list stored under `k` (none when it is absent or no list).
pub open spec fn list_field(r: Ev, k: Seq<char>) -> Seq<Ev> {
    match ev_get(r, k) {
        Some(Ev::List(l)) => l,
        _ => Seq::empty(),
    }
}

/// The paths among `l`, in order; other items are skipped.
pub open spec fn paths_of(l: Seq<Ev>) -> Seq<Seq<char>>
    decreases l.len(),
{
    if l.len() == 0 {
        Seq::empty()
    } else {
        let prev = paths_of(l.drop_last());
        match l.last() {
            Ev::Path(p) => prev.push(p),
            _ => prev,
        }
    }
}

/// The strings among `l`, in order; other items are skipped.
pub open spec fn strs_of(l: Seq<Ev>) -> Seq<Seq<char>>
    decreases l.len(),
{
    if l.len() == 0 {
        Seq::empty()
    } else {
        let prev = strs_of(l.drop_last());
        match l.last() {
            Ev::Str(s) => prev.push(s),
            _ => prev,
        }
    }
}

/// The table under the reserved resolver key, when it names an op.
pub open spec fn resolver_table(data: Ev) -> Option<Ev> {
    match ev_get(data, KEY_RESOLVER@) {
        Some(r) => if str_field(r, "op"@) is Some { Some(r) } else { None },
        None => None,
    }
}

/// `q` is the request that the resolver table `r` describes: its op, the
/// `src` path, the `dst` string, the `path` (a path or a string), the paths
/// and option strings of its lists, and its label (the op when absent).
pub open spec fn request_fits(q: ResolverRequest, r: Ev) -> bool {
    &&& str_field(r, "op"@) == Some(q.op@)
    &&& opt_view(q.src) == path_field(r, "src"@)
    &&& opt_view(q.dst) == str_field(r, "dst"@)
    &&& opt_view(q.path) == path_or_str_field(r, "path"@)
    &&& views(q.paths@) == paths_of(list_field(r, "paths"@))
    &&& views(q.opts@) == strs_of(list_field(r, "opts"@))
    &&& q.label@ == (match str_field(r, "label"@) {
        Some(l) => l,
        None => q.op@,
    })
}

fn opt_string(v: Option<&ExtensionValue>) -> (r: Option<String>)
    ensures
        opt_view(r) == (match v {
            Some(x) => match ev(*x) {
                Ev::Str(s) => Some(s),
                _ => None,
            },
            None => None,
        }),
{
    match v {
        Some(x) => match x.as_str() {
            Some(s) => Some(s.to_owned()),
            None => None,
        },
        None => None,
    }
}

fn opt_path(v: Option<&ExtensionValue>) -> (r: Option<String>)
    ensures
        opt_view(r) == (match v {
            Some(x) => match ev(*x) {
                Ev::Path(p) => Some(p),
                _ => None,
            },
            None => None,
        }),
{
    match v {
        Some(x) => match x.as_path() {
            Some(p) => Some(p.clone()),
            None => None,
        },
        None => None,
    }
}

/// The paths (`want_paths`) or the strings of a list value, in order.
fn collect_items(v: Option<&ExtensionValue>, want_paths: bool) -> (r: Vec<String>)
    ensures
        views(r@) == (match v {
            Some(x) => match ev(*x) {
                Ev::List(l) => if want_paths { paths_of(l) } else { strs_of(l) },
                _ => Seq::empty(),
            },
            None => Seq::empty(),
        }),
{
    let mut out: Vec<String> = Vec::new();
    match v {
        Some(x) => match x.as_list() {
            Some(items) => {
                let ghost l = evs(items@);
                let mut i: usize = 0;
                assert(l.take(0) =~= Seq::<Ev>::empty());
                assert(views(out@) =~= Seq::<Seq<char>>::empty());
                while i < items.len()
                    invariant
                        i <= items@.len(),
                        l == evs(items@),
                        views(out@) == (if want_paths { paths_of(l.take(i as int)) } else { strs_of(l.take(i as int)) }),
                    decreases items@.len() - i,
                {
                    assert(l.take(i + 1).drop_last() =~= l.take(i as int));
                    assert(l.take(i + 1).last() == ev(items@[i as int]));
                    let ghost before = views(out@);
                    if want_paths {
                        match items[i].as_path() {
                            Some(p) => {
                                out.push(p.clone());
                                assert(views(out@) =~= before.push(p@));
                            }
                            None => {}
                        }
                    } else {
                        match items[i].as_str() {
                            Some(s) => {
                                out.push(s.to_owned());
                                assert(views(out@) =~= before.push(s@));
                            }
                            None => {}
                        }
                    }
                    i = i + 1;
                }
                assert(l.take(i as int) =~= l);
            }
            None => {}
        },
        None => {}
    }
    out
}

/// Build a resolver request from an extension intent's data: the table under
/// the reserved resolver key, which must name an op.
pub fn resolver_request(data: &ExtensionValue) -> (r: Option<ResolverRequest>)
    ensures
        r is Some == resolver_table(ev(*data)) is Some,
        r matches Some(q) ==> request_fits(q, resolver_table(ev(*data))->0),
{
    let t = match data.get(KEY_RESOLVER) {
        Some(t) => t,
        None => return None,
    };
    let op = match opt_string(t.get("op")) {
        Some(o) => o,
        None => return None,
    };
    let src = opt_path(t.get("src"));
    let dst = opt_string(t.get("dst"));
    let path = match t.get("path") {
        Some(v) => match v.as_path() {
            Some(p) => Some(p.clone()),
            None => match v.as_str() {
                Some(s) => Some(s.to_owned()),
                None => None,
            },
        },
        None => None,
    };
    let paths = collect_items(t.get("paths"), true);
    let opts = collect_items(t.get("opts"), false);
    let label = match opt_string(t.get("label")) {
        Some(l) => l,
        None => op.clone(),
    };
    Some(ResolverRequest { op, src, dst, path, paths, opts, label })
}

// --- one dispatch step --------------------------------------------------------

/// What one dispatch step asks the event loop to do next.
pub enum Step {
    /// Nested too deep: the intent is dropped.
    Dropped,
    /// The held intent was allowed: dispatch it again, as confirmed.
    Allow(Intent),
    /// The held intent was denied and dropped.
    Deny,
    /// Another intent while the confirmation prompt waits: nothing happens.
    Held,
    /// A destructive op now waits for confirmation.
    AskPolicy,
    /// Run this plan.
    Run(Plan),
    /// The reserved resolver key named no op.
    Malformed,
    /// Hand the intent to the extension that owns it.
    ToExtension(ExtensionIntent),
    /// The reducer ran; `kill` asks to stop the streaming process.
    Reduced { effects: Effects, kill: bool },
}

/// Whether the chain marks `op` destructive (its last entry for `op` decides).
pub open spec fn destructive(c: ResolverChain, op: Seq<char>) -> bool {
    match last_entry(c.entries(), op) {
        Some(i) => c.entries()[i].destructive,
        None => false,
    }
}

/// The intent held by a confirmation prompt on top of the mode stack.
pub open spec fn held_intent(s: AppState) -> Option<Intent> {
    if s.modes@.len() == 0 {
        None
    } else {
        match s.modes@.last().mode {
            Mode::Policy(i) => Some(*i),
            _ => None,
        }
    }
}

/// `new` is `old` with its top mode popped.
pub open spec fn popped(old: AppState, new: AppState) -> bool {
    &&& new.modes@ == old.modes@.drop_last()
    &&& new == (AppState { modes: new.modes, ..old })
}

/// `new` is `old` with a confirmation prompt for `i` pushed.
pub open spec fn asked(old: AppState, new: AppState, i: Intent) -> bool {
    &&& new.modes@ == old.modes@.push(ModeFrame { mode: Mode::Policy(Box::new(i)), generation: old.next_generation })
    &&& new.next_generation == old.next_generation + 1
    &&& new == (AppState { modes: new.modes, next_generation: new.next_generation, ..old })
}

/// The reducer ran on `i`.
pub open spec fn reduced(old: AppState, new: AppState, i: Intent, r: Step) -> bool {
    r matches Step::Reduced { effects, kill } && kill == (i is KillProcess) && apply_intent_post(old, new, effects, i)
}

/// What one dispatch step of `i` does, at nesting `depth`, `confirmed` or not.
pub open spec fn step_post(old: AppState, new: AppState, chain: ResolverChain, i: Intent, confirmed: bool, depth: u32, r: Step) -> bool {
    if depth > REDISPATCH_CAP {
        r is Dropped && new == old
    } else if held_intent(old) is Some {
        match i {
            Intent::Confirm => r == Step::Allow(held_intent(old)->0) && popped(old, new),
            Intent::Cancel => r is Deny && popped(old, new),
            _ => r is Held && new == old,
        }
    } else {
        match i {
            Intent::Extension(e) => if ev_get(ev(e.data), KEY_RESOLVER@) is Some {
                match resolver_table(ev(e.data)) {
                    Some(t) => if destructive(chain, str_field(t, "op"@)->0) && !confirmed {
                        r is AskPolicy && asked(old, new, i)
                    } else {
                        r matches Step::Run(Plan::ResolveAndRun { request }) && request_fits(request, t) && new == old
                    },
                    None => r is Malformed && new == old,
                }
            } else {
                r == Step::ToExtension(e) && new == old
            },
            Intent::RunResolver(q) => if destructive(chain, q.op@) && !confirmed {
                r is AskPolicy && asked(old, new, i)
            } else {
                reduced(old, new, i, r)
            },
            _ => reduced(old, new, i, r),
        }
    }
}

/// Pop the top mode and hand back the intent it held, when it was a prompt.
fn take_held(state: &mut AppState) -> (r: Option<Intent>)
    requires
        old(state).modes@.len() > 1,
    ensures
        r == held_intent(*old(state)),
        popped(*old(state), *final(state)),
{
    match state.modes.pop() {
        Some(f) => match f.mode {
            Mode::Policy(i) => Some(*i),
            _ => None,
        },
        None => None,
    }
}

/// One dispatch step of `intent`: the depth cap, the modal confirmation
/// prompt (only Confirm and Cancel act on it), an extension intent's reserved
/// resolver key, the destructive-op gate, and otherwise the reducer.
pub fn dispatch_step<C: CommandLookup>(
    state: &mut AppState,
    chain: &ResolverChain,
    intent: Intent,
    confirmed: bool,
    depth: u32,
    ctx: &C,
) -> (r: Step)
    requires
        ready(*old(state)),
    ensures
        step_post(*old(state), *final(state), *chain, intent, confirmed, depth, r),
        r matches Step::Reduced { effects, .. } ==> commands_post(ctx, *old(state), *final(state), effects, intent),
{
    if depth > REDISPATCH_CAP {
        return Step::Dropped;
    }
    let holding = match state.mode() {
        Mode::Policy(_) => true,
        _ => false,
    };
    if holding {
        return match intent {
            Intent::Confirm => match take_held(state) {
                Some(i) => Step::Allow(i),
                None => Step::Deny,
            },
            Intent::Cancel => {
                state.pop_mode();
                Step::Deny
            }
            _ => Step::Held,
        };
    }
    let routed = match &intent {
        Intent::Extension(e) => {
            if e.data.get(KEY_RESOLVER).is_some() {
                Some(resolver_request(&e.data))
            } else {
                None
            }
        }
        _ => None,
    };
    match routed {
        Some(Some(req)) => {
            if chain.is_destructive(req.op.as_str()) && !confirmed {
                state.push_mode(Mode::Policy(Box::new(intent)));
                return Step::AskPolicy;
            }
            return Step::Run(Plan::ResolveAndRun { request: req });
        }
        Some(None) => {
            return Step::Malformed;
        }
        None => {}
    }
    let gated = match &intent {
        Intent::RunResolver(q) => chain.is_destructive(q.op.as_str()) && !confirmed,
        _ => false,
    };
    if gated {
        state.push_mode(Mode::Policy(Box::new(intent)));
        return Step::AskPolicy;
    }
    match intent {
        Intent::Extension(e) => Step::ToExtension(e),
        other => {
            let kill = match &other {
                Intent::KillProcess => true,
                _ => false,
            };
            let effects = apply_intent(state, other, ctx);
            Step::Reduced { effects, kill }
        }
    }
}

// --- laws of the dispatch step -------------------------------------------------

/// A step that was not confirmed never runs a destructive resolver op: an
/// extension's resolver key for one, or a `RunResolver` for one, waits for
/// confirmation instead.
pub proof fn law_destructive_waits_for_confirmation(
    old: AppState,
    new: AppState,
    chain: ResolverChain,
    i: Intent,
    depth: u32,
    r: Step,
)
    requires
        step_post(old, new, chain, i, false, depth, r),
    ensures
        r matches Step::Run(Plan::ResolveAndRun { request }) ==> !destructive(chain, request.op@),
        (i matches Intent::RunResolver(q) && destructive(chain, q.op@)) ==> !(r is Reduced),
        depth <= REDISPATCH_CAP && held_intent(old) is None ==> (
            (i matches Intent::RunResolver(q) && destructive(chain, q.op@)) ==> r is AskPolicy && held_intent(new) == Some(i)),
{
}

/// While a confirmation prompt waits, every intent but Confirm and Cancel
/// leaves the state as it was and asks for nothing.
pub proof fn law_prompt_is_modal(old: AppState, new: AppState, chain: ResolverChain, i: Intent, confirmed: bool, depth: u32, r: Step)
    requires
        step_post(old, new, chain, i, confirmed, depth, r),
        held_intent(old) is Some,
        !(i is Confirm),
        !(i is Cancel),
    ensures
        new == old,
        r is Held || r is Dropped,
{
}

/// Asking for confirmation and then confirming hands back exactly the intent
/// that was held; asking and then cancelling drops it. Either way the mode
/// stack is as it was before the question.
pub proof fn law_ask_then_answer(
    s0: AppState,
    s1: AppState,
    s2: AppState,
    chain: ResolverChain,
    i: Intent,
    answer: Intent,
    d1: u32,
    d2: u32,
    c2: bool,
    r2: Step,
)
    requires
        step_post(s0, s1, chain, i, false, d1, Step::AskPolicy),
        step_post(s1, s2, chain, answer, c2, d2, r2),
        d2 <= REDISPATCH_CAP,
        answer is Confirm || answer is Cancel,
    ensures
        answer is Confirm ==> r2 == Step::Allow(i),
        answer is Cancel ==> r2 is Deny,
        s2.modes@ == s0.modes@,
        s2 == (AppState { modes: s2.modes, next_generation: (s0.next_generation + 1) as u64, ..s0 }),
{
    assert(s2.modes@ =~= s0.modes@);
}

// --- the embedded keymap and the user template -----------------------------------

/// The embedded default keymap, in Scheme: `(quote (group...))`, each group
/// `(mode panel-or-#f (binding...))`, each binding `(key intent)` or
/// `(key intent when)`. This is the core layer only.
pub const KEYMAP_SCHEME: &'static str = "(quote (\n\
  (file file\n\
   ((\"w\" cursor-up)\n\
    (\"s\" cursor-down)\n\
    (\"a\" cursor-left)\n\
    (\"d\" cursor-right)\n\
    (\"Enter\" activate)\n\
    (\"k\" func-up)\n\
    (\"Up\" func-up)\n\
    (\"j\" func-down)\n\
    (\"Down\" func-down)\n\
    (\"h\" func-left)\n\
    (\"Left\" func-left)\n\
    (\"l\" func-right)\n\
    (\"Right\" func-right)\n\
    (\"Space\" toggle-select)\n\
    (\"f\" file-search)\n\
    (\"x\" command-palette)\n\
    (\"W\" cursor-top)\n\
    (\"S\" cursor-bottom)\n\
    (\"Ctrl-a\" select-all)\n\
    (\"c\" start-copy)\n\
    (\"m\" start-move)\n\
    (\"R\" start-rename)\n\
    (\"e\" start-edit)\n\
    (\",\" cycle-function-panel)\n\
    (\".\" toggle-dotfiles)\n\
    (\"v\" cycle-list-layout)\n\
    (\"Esc\" clear-selection)\n\
    (\"Backspace\" delete-selected)\n\
    (\"Delete\" delete-selected)\n\
    (\"r\" refresh)\n\
    (\"Tab\" focus-next-panel)\n\
    (\"BackTab\" focus-prev-panel)\n\
    (\"q\" quit)\n\
    (\"Ctrl-c\" quit)))\n\
  (file function\n\
   ((\"j\" scroll-down)\n\
    (\"Down\" scroll-down)\n\
    (\"k\" scroll-up)\n\
    (\"Up\" scroll-up)\n\
    (\"g\" scroll-top)\n\
    (\"G\" scroll-bottom)\n\
    (\"n\" toggle-line-numbers sublayout-content)\n\
    (\"Enter\" open sublayout-content)\n\
    (\"Enter\" set-sublayout-content sublayout-exec)\n\
    (\"Ctrl-c\" kill-process sublayout-exec)\n\
    (\",\" cycle-function-panel)\n\
    (\"Esc\" hide-function-panel)\n\
    (\"q\" hide-function-panel)))\n\
  (select #f\n\
   ((\"Enter\" confirm)\n\
    (\"Esc\" cancel)\n\
    (\"Ctrl-n\" cursor-down)\n\
    (\"Down\" cursor-down)\n\
    (\"Ctrl-p\" cursor-up)\n\
    (\"Up\" cursor-up)\n\
    (\"w\" cursor-up select-phase-navigate)\n\
    (\"s\" cursor-down select-phase-navigate)\n\
    (\"a\" cursor-left select-phase-navigate)\n\
    (\"d\" cursor-right select-phase-navigate)\n\
    (\"W\" cursor-top select-phase-navigate)\n\
    (\"S\" cursor-bottom select-phase-navigate)\n\
    (\"v\" cycle-list-layout select-phase-navigate)\n\
    (\"Space\" toggle-select select-phase-navigate)\n\
    (\"q\" cancel select-phase-navigate)))\n\
  (policy #f\n\
   ((\"y\" confirm)\n\
    (\"Enter\" confirm)\n\
    (\"n\" cancel)\n\
    (\"Esc\" cancel)))))\n\
";

/// The head of the user keybindings template.
pub open spec fn template_head() -> Seq<char> {
    ";; wasdf keybindings \u{2014} uncomment and edit a line to override a default.\n;; Deleting this file restores the built-in defaults exactly.\n;; Form: (bind <mode> <panel|#f> \"<key>\" <intent> [<when>])\n\n"@
}

/// The rendered items of a binding, each after a space.
pub open spec fn rendered_items(b: Seq<Dm>, n: int) -> Seq<char>
    decreases n,
{
    if n <= 0 {
        Seq::empty()
    } else {
        rendered_items(b, n - 1) + " "@ + render_spec(b[n - 1])
    }
}

/// One commented `(bind mode panel key intent [when])` line.
pub open spec fn bind_line(mode: Dm, panel: Dm, b: Seq<Dm>) -> Seq<char> {
    "; (bind "@ + render_spec(mode) + " "@ + render_spec(panel) + rendered_items(b, b.len() as int) + ")\n"@
}

/// The lines of the bindings `binds[0..n]` of a group (non-list items skipped).
pub open spec fn bind_lines(mode: Dm, panel: Dm, binds: Seq<Dm>, n: int) -> Seq<char>
    decreases n,
{
    if n <= 0 {
        Seq::empty()
    } else {
        bind_lines(mode, panel, binds, n - 1) + match binds[n - 1] {
            Dm::List(bp) => bind_line(mode, panel, bp),
            _ => Seq::empty(),
        }
    }
}

/// The lines of the groups `gs[0..n]` (malformed groups skipped).
pub open spec fn group_lines(gs: Seq<Dm>, n: int) -> Seq<char>
    decreases n,
{
    if n <= 0 {
        Seq::empty()
    } else {
        group_lines(gs, n - 1) + match gs[n - 1] {
            Dm::List(g) => if g.len() >= 3 && g[2] is List {
                bind_lines(g[0], g[1], g[2]->List_0, g[2]->List_0.len() as int)
            } else {
                Seq::empty()
            },
            _ => Seq::empty(),
        }
    }
}

/// The template for a keymap source: the head, then every binding of every
/// group as a commented `(bind ...)` line (nothing more when the source does
/// not parse as `(quote (group...))`).
pub open spec fn template_spec(src: Seq<char>) -> Seq<char> {
    template_head() + match parse_spec(src) {
        Ok(Dm::List(l)) => if l.len() > 1 && l[1] is List {
            group_lines(l[1]->List_0, l[1]->List_0.len() as int)
        } else {
            Seq::empty()
        },
        _ => Seq::empty(),
    }
}

fn push_bind_lines(out: &mut String, mode: &Datum, panel: &Datum, binds: &[Datum])
    ensures
        final(out)@ == old(out)@ + bind_lines(dm(*mode), dm(*panel), dms(binds@), binds@.len() as int),
{
    let ghost bm = dms(binds@);
    let mut i: usize = 0;
    assert(out@ == old(out)@ + bind_lines(dm(*mode), dm(*panel), bm, 0));
    while i < binds.len()
        invariant
            i <= binds@.len(),
            bm == dms(binds@),
            out@ == old(out)@ + bind_lines(dm(*mode), dm(*panel), bm, i as int),
        decreases binds@.len() - i,
    {
        assert(bm[i as int] == dm(binds@[i as int]));
        let ghost before = out@;
        match binds[i].as_list() {
            Some(bp) => {
                let ghost pm = dms(bp@);
                push_str(out, "; (bind ");
                let m = render(mode);
                push_str(out, m.as_str());
                push_str(out, " ");
                let p = render(panel);
                push_str(out, p.as_str());
                let mut k: usize = 0;
                assert(out@ == before + "; (bind "@ + render_spec(dm(*mode)) + " "@ + render_spec(dm(*panel)) + rendered_items(pm, 0));
                while k < bp.len()
                    invariant
                        k <= bp@.len(),
                        pm == dms(bp@),
                        out@ == before + "; (bind "@ + render_spec(dm(*mode)) + " "@ + render_spec(dm(*panel)) + rendered_items(pm, k as int),
                    decreases bp@.len() - k,
                {
                    assert(pm[k as int] == dm(bp@[k as int]));
                    push_str(out, " ");
                    let e = render(&bp[k]);
                    push_str(out, e.as_str());
                    k = k + 1;
                }
                push_str(out, ")\n");
            }
            None => {}
        }
        assert(out@ =~= old(out)@ + bind_lines(dm(*mode), dm(*panel), bm, i + 1));
        i = i + 1;
    }
}

/// The fully commented-out keybindings template for a keymap source, so every
/// binding appears as an editable `(bind ...)` line.
pub fn keybindings_template_from(src: &str) -> (r: String)
    ensures
        r@ == template_spec(src@),
{
    let mut s = ";; wasdf keybindings \u{2014} uncomment and edit a line to override a default.\n;; Deleting this file restores the built-in defaults exactly.\n;; Form: (bind <mode> <panel|#f> \"<key>\" <intent> [<when>])\n\n".to_owned();
    let ghost head = s@;
    let quoted = match parse(src) {
        Ok(d) => d,
        Err(_) => {
            assert(s@ =~= template_spec(src@));
            return s;
        }
    };
    let groups = match quoted.as_list() {
        Some(l) => if l.len() > 1 {
            assert(dms(l@)[1] == dm(l@[1]));
            l[1].as_list()
        } else {
            None
        },
        None => None,
    };
    let groups = match groups {
        Some(g) => g,
        None => {
            assert(s@ =~= template_spec(src@));
            return s;
        }
    };
    let ghost gm = dms(groups@);
    let mut i: usize = 0;
    assert(s@ =~= head + group_lines(gm, 0));
    while i < groups.len()
        invariant
            i <= groups@.len(),
            gm == dms(groups@),
            s@ == head + group_lines(gm, i as int),
        decreases groups@.len() - i,
    {
        assert(gm[i as int] == dm(groups@[i as int]));
        let ghost before = s@;
        match groups[i].as_list() {
            Some(g) => {
                if g.len() >= 3 {
                    assert(dms(g@)[2] == dm(g@[2]));
                    assert(dms(g@)[0] == dm(g@[0]));
                    assert(dms(g@)[1] == dm(g@[1]));
                    match g[2].as_list() {
                        Some(binds) => push_bind_lines(&mut s, &g[0], &g[1], binds),
                        None => {}
                    }
                }
            }
            None => {}
        }
        assert(s@ =~= head + group_lines(gm, i + 1));
        i = i + 1;
    }
    s
}

/// The template for the embedded default keymap.
pub fn keybindings_template() -> (r: String)
    ensures
        r@ == template_spec(KEYMAP_SCHEME@),
{
    keybindings_template_from(KEYMAP_SCHEME)
}

/// Every dispatch step keeps the mode stack's shape: a prompt is pushed with
/// a fresh generation and popped down to the mode below it, and the reducer
/// keeps the shape too.
pub proof fn law_dispatch_keeps_the_stack(
    old: AppState,
    new: AppState,
    chain: ResolverChain,
    i: Intent,
    confirmed: bool,
    depth: u32,
    r: Step,
)
    requires
        stack_ok(old),
        step_post(old, new, chain, i, confirmed, depth, r),
    ensures
        stack_ok(new),
{
    if depth > REDISPATCH_CAP {
    } else if held_intent(old) is Some {
        if old.modes@.len() == 1 {
            assert(old.modes@[0] == old.modes@.last());
        }
        if i is Confirm || i is Cancel {
            law_stack_preserved_by_pop(old, new);
        }
    } else if r is AskPolicy {
        law_stack_preserved_by_push(old, new, Mode::Policy(Box::new(i)));
    } else if r is Reduced {
        law_reducer_keeps_the_stack(old, new, r->effects, i);
    }
}

// --- keys ------------------------------------------------------------------------------

/// What a key press does.
pub enum KeyAction<'a> {
    /// Dispatch the intent the keymap binds to the key.
    Bound(&'a Intent),
    /// Deliver the key raw to the text input being typed into.
    Raw,
    /// Nothing.
    Nothing,
}

/// Whether the panel search reads the key as typing: its input is open and
/// the key is neither Enter nor Esc (which still go through the keymap).
pub open spec fn search_typing(s: AppState, key: Key) -> bool {
    s.function.search.input_active && !(key.code is Enter) && !(key.code is Esc)
}

/// What a key press does: typed into an open panel search; else the
/// binding the keymap resolves for the mode and focused panel; else, in a
/// Select, typed into its query; else nothing.
pub fn key_action<'a>(keymap: &'a KeymapRegistry, conds: &Conditions, state: &AppState, key: Key) -> (r: KeyAction<'a>)
    requires
        state.modes@.len() >= 1,
    ensures
        search_typing(*state, key) ==> r is Raw,
        !search_typing(*state, key) ==> match best_upto(keymap.bindings(), keymap.bindings().len() as int,
            mode_id_spec(state.modes@.last().mode), state.focused_panel@, key, conds.table(), *state) {
            Some(i) => r == KeyAction::Bound(&keymap.bindings()[i].intent),
            None => if state.modes@.last().mode is Select { r is Raw } else { r is Nothing },
        },
{
    let typing = state.function.search.input_active && match key.code {
        KeyCode::Enter | KeyCode::Esc => false,
        _ => true,
    };
    if typing {
        return KeyAction::Raw;
    }
    match keymap.resolve(conds, state, state.focused_panel.as_str(), key) {
        Some(i) => KeyAction::Bound(i),
        None => match state.mode() {
            Mode::Select(_) => KeyAction::Raw,
            _ => KeyAction::Nothing,
        },
    }
}

// --- the cursor identity, options, and the command-option choice ------------------

/// What is under the cursor: the File-mode entry, or the file-search
/// picker's current candidate; nothing in other modes.
pub open spec fn signature_path(s: AppState) -> Option<Seq<char>> {
    match s.modes@.last().mode {
        Mode::File => if s.cursor < s.entries@.len() { Some(s.entries@[s.cursor as int].path@) } else { None },
        Mode::Select(spec) => if spec.id@ == "file-search"@ {
            match s.select {
                Some(sel) => match sel.view {
                    Some(v) => if v.cursor < v.entries@.len() { Some(v.entries@[v.cursor as int].path@) } else { None },
                    None => None,
                },
                None => None,
            }
        } else {
            None
        },
        _ => None,
    }
}

/// The cursor identity that gates the cursor-changed broadcast: the path
/// under the cursor, whether the function panel is open, and its scroll.
pub fn cursor_signature(state: &AppState) -> (r: (Option<String>, bool, usize))
    requires
        state.modes@.len() >= 1,
    ensures
        opt_view(r.0) == signature_path(*state),
        r.1 == state.function.visible,
        r.2 == state.function.scroll,
{
    let path = match state.mode() {
        Mode::File => match state.current_entry() {
            Some(e) => Some(e.path.clone()),
            None => None,
        },
        Mode::Select(spec) => {
            if crate::text::str_eq(spec.id.as_str(), "file-search") {
                match &state.select {
                    Some(sel) => match &sel.view {
                        Some(v) => match v.current() {
                            Some(e) => Some(e.path.clone()),
                            None => None,
                        },
                        None => None,
                    },
                    None => None,
                }
            } else {
                None
            }
        }
        _ => None,
    };
    (path, state.function.visible, state.function.scroll)
}

/// A character's code with ASCII capitals folded to lower case.
pub open spec fn ascii_fold(c: char) -> u32 {
    if 'A' <= c && c <= 'Z' { (c as u32 + 32) as u32 } else { c as u32 }
}

/// Equal up to ASCII case.
pub open spec fn eq_ignore_ascii_case_spec(a: Seq<char>, b: Seq<char>) -> bool {
    a.len() == b.len() && forall|i: int| 0 <= i < a.len() ==> ascii_fold(#[trigger] a[i]) == ascii_fold(b[i])
}

fn fold(c: char) -> (r: u32)
    ensures
        r == ascii_fold(c),
{
    if 'A' <= c && c <= 'Z' { (c as u32) + 32 } else { c as u32 }
}

/// Whether two strings are equal up to ASCII case.
pub fn eq_ignore_ascii_case(a: &str, b: &str) -> (r: bool)
    ensures
        r == eq_ignore_ascii_case_spec(a@, b@),
{
    let ca = crate::text::chars_of(a);
    let cb = crate::text::chars_of(b);
    if ca.len() != cb.len() {
        return false;
    }
    let mut i: usize = 0;
    while i < ca.len()
        invariant
            i <= ca@.len(),
            ca@ == a@,
            cb@ == b@,
            ca@.len() == cb@.len(),
            forall|j: int| 0 <= j < i ==> ascii_fold(#[trigger] a@[j]) == ascii_fold(b@[j]),
        decreases ca@.len() - i,
    {
        if fold(ca[i]) != fold(cb[i]) {
            return false;
        }
        i = i + 1;
    }
    true
}

/// The flat option store: behavior-affecting flags read by the kernel.
pub struct Options {
    /// Refresh the function-panel content as the file cursor moves.
    pub content_auto_update: bool,
}

impl Options {
    /// The options from the setting's text, when it is set: `1` or `true` (in
    /// any ASCII case) turns the content auto-update on; it is off otherwise.
    pub fn from_setting(v: Option<&str>) -> (r: Options)
        ensures
            r.content_auto_update == (v matches Some(x) && (x@ == "1"@ || eq_ignore_ascii_case_spec(x@, "true"@))),
    {
        let on = match v {
            Some(x) => crate::text::str_eq(x, "1") || eq_ignore_ascii_case(x, "true"),
            None => false,
        };
        Options { content_auto_update: on }
    }
}

/// The options a command Select offers for an op: those parsed from the
/// command's own help when there are any, else the declared ones.
pub fn pick_options(declared: &Vec<crate::resolver::OptDef>, extracted: Vec<(String, String)>) -> (r: Vec<(String, String)>)
    ensures
        r@.len() == (if extracted@.len() == 0 { declared@.len() } else { extracted@.len() }),
        forall|i: int| 0 <= i < r@.len() ==> (#[trigger] r@[i]).0@ == (if extracted@.len() == 0 { declared@[i].token@ } else { extracted@[i].0@ })
            && r@[i].1@ == (if extracted@.len() == 0 { declared@[i].label@ } else { extracted@[i].1@ }),
{
    if extracted.len() > 0 {
        return extracted;
    }
    let mut out: Vec<(String, String)> = Vec::new();
    let mut i: usize = 0;
    while i < declared.len()
        invariant
            i <= declared@.len(),
            extracted@.len() == 0,
            out@.len() == i,
            forall|j: int| 0 <= j < i ==> (#[trigger] out@[j]).0@ == declared@[j].token@ && out@[j].1@ == declared@[j].label@,
        decreases declared@.len() - i,
    {
        out.push((declared[i].token.clone(), declared[i].label.clone()));
        i = i + 1;
    }
    out
}

} // verus!
