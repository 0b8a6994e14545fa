//! The Select flow: pushing a mode, re-ranking candidates as the query
//! changes, raw key editing, and turning a confirmation into follow-ups.

use vstd::prelude::*;
use crate::event::{Plan, ResolverRequest};
use crate::intent::{ExtensionIntent, Intent, Key, printable_of, same_intent};
use crate::mode::{Candidate, ConfirmShape, Mode, OnConfirm, ResolveFill, SelectInput, SelectSource, SelectSpec, path_label};
use crate::path::{is_absolute, is_absolute_spec, join, parent, path_join, path_parent, file_name, path_file_name};
use crate::rank::{fuzzy_rank, fuzzy_rank_spec};
use crate::readline::{is_boundary, readline_bytes, readline_query, utf8_len};
use crate::reducer::{CommandLookup, Effects, Notice, fx_none, fx_notice};
use crate::state::{AppState, ModeFrame, SelectPhase, SelectState, views, contains_str};
use crate::text::{ends_with, is_suffix, owned, push_str, seq_less};
use crate::value::{Ev, ExtensionValue, ev, ev_with};

verus! {

/// A candidate by its label and value model.
pub open spec fn cand_model(c: Candidate) -> (Seq<char>, Ev) {
    (c.label@, ev(c.value))
}

pub open spec fn cand_models(s: Seq<Candidate>) -> Seq<(Seq<char>, Ev)> {
    Seq::new(s.len(), |i: int| cand_model(s[i]))
}

/// A copy of a candidate list with the same models.
pub fn dup_candidates(v: &Vec<Candidate>) -> (r: Vec<Candidate>)
    ensures
        cand_models(r@) == cand_models(v@),
        r@.len() == v@.len(),
        forall|i: int| 0 <= i < v@.len() ==> (#[trigger] r@[i]).label == v@[i].label,
{
    let mut r: Vec<Candidate> = Vec::new();
    let mut i: usize = 0;
    while i < v.len()
        invariant
            i <= v@.len(),
            r@.len() == i,
            forall|j: int| 0 <= j < i ==> (#[trigger] r@[j]).label == v@[j].label && ev(r@[j].value) == ev(v@[j].value),
        decreases v@.len() - i,
    {
        r.push(v[i].dup());
        i = i + 1;
    }
    assert(cand_models(r@) =~= cand_models(v@));
    r
}

/// The query a Select re-ranks against (empty without Select state).
pub open spec fn query_of(s: AppState) -> Seq<char> {
    match s.select {
        Some(sel) => sel.query@,
        None => Seq::empty(),
    }
}

/// Install `rs` as the Select's results, keeping the selection in range.
pub open spec fn results_applied(s: AppState, new: AppState, rs: Seq<(Seq<char>, Ev)>) -> bool {
    match s.select {
        Some(sel) => {
            &&& new.select is Some
            &&& cand_models(new.select->0.results@) == rs
            &&& new.select->0 == (SelectState {
                results: new.select->0.results,
                selected: (if sel.selected >= rs.len() { if rs.len() > 0 { rs.len() - 1 } else { 0 } } else { sel.selected as int }) as usize,
                ..sel
            })
            &&& new == (AppState { select: new.select, ..s })
        },
        None => new == s,
    }
}

pub fn apply_results(state: &mut AppState, results: Vec<Candidate>)
    ensures
        results_applied(*old(state), *final(state), cand_models(results@)),
        final(state).select matches Some(sel) ==> sel.results == results,
{
    match &mut state.select {
        Some(sel) => {
            sel.results = results;
            let n = sel.results.len();
            if sel.selected >= n {
                sel.selected = if n > 0 { n - 1 } else { 0 };
            }
        }
        None => {}
    }
}

/// The directory whose entries complete a typed path: the working directory
/// for an empty query, the typed directory for one ending in `/`, else the
/// parent of the typed path (relative paths taken from `cwd`).
pub open spec fn completion_base(cwd: Seq<char>, query: Seq<char>) -> Seq<char> {
    if query.len() == 0 {
        cwd
    } else {
        let abs = if is_absolute_spec(query) { query } else { path_join(cwd, query) };
        if is_suffix("/"@, query) {
            abs
        } else {
            match path_parent(abs) {
                Some(p) => p,
                None => abs,
            }
        }
    }
}

pub fn completion_dir(cwd: &str, query: &str) -> (r: String)
    ensures
        r@ == completion_base(cwd@, query@),
{
    if query.is_empty() {
        return owned(cwd);
    }
    let abs = if is_absolute(query) { owned(query) } else { join(cwd, query) };
    if ends_with(query, "/") {
        abs
    } else {
        match parent(abs.as_str()) {
            Some(p) => p,
            None => abs,
        }
    }
}

/// Stable insertion of a (label, value) model by label.
pub open spec fn ins_label(s: Seq<(Seq<char>, Ev)>, x: (Seq<char>, Ev)) -> Seq<(Seq<char>, Ev)>
    decreases s.len(),
{
    if s.len() == 0 {
        seq![x]
    } else if seq_less(x.0, s[0].0) {
        seq![x] + s
    } else {
        seq![s[0]] + ins_label(s.drop_first(), x)
    }
}

/// The path candidates for `children`, sorted by label (stably).
pub open spec fn completions_spec(children: Seq<Seq<char>>) -> Seq<(Seq<char>, Ev)>
    decreases children.len(),
{
    if children.len() == 0 {
        Seq::empty()
    } else {
        ins_label(completions_spec(children.drop_last()), (path_label(children.last()), Ev::Path(children.last())))
    }
}

proof fn lemma_ins_label_at(s: Seq<(Seq<char>, Ev)>, x: (Seq<char>, Ev), j: int)
    requires
        0 <= j <= s.len(),
        forall|k: int| 0 <= k < j ==> !seq_less(x.0, #[trigger] s[k].0),
        j == s.len() || seq_less(x.0, s[j].0),
    ensures
        ins_label(s, x) == s.take(j) + seq![x] + s.skip(j),
    decreases j,
{
    if j == 0 {
        if s.len() == 0 {
            assert(s.take(0) + seq![x] + s.skip(0) =~= seq![x]);
        } else {
            assert(s.take(0) + seq![x] + s.skip(0) =~= seq![x] + s);
        }
    } else {
        let t = s.drop_first();
        assert forall|k: int| 0 <= k < j - 1 implies !seq_less(x.0, #[trigger] t[k].0) by {
            assert(t[k] == s[k + 1]);
        }
        if j < s.len() {
            assert(t[j - 1] == s[j]);
        }
        lemma_ins_label_at(t, x, j - 1);
        assert(seq![s[0]] + (t.take(j - 1) + seq![x] + t.skip(j - 1)) =~= s.take(j) + seq![x] + s.skip(j));
    }
}

/// The path candidates for `children`, sorted by label.
pub fn completion_candidates(children: Vec<String>) -> (r: Vec<Candidate>)
    ensures
        cand_models(r@) == completions_spec(views(children@)),
{
    let ghost cs = views(children@);
    let mut out: Vec<Candidate> = Vec::new();
    let mut i: usize = 0;
    assert(cs.take(0) =~= Seq::<Seq<char>>::empty());
    assert(cand_models(out@) =~= Seq::<(Seq<char>, Ev)>::empty());
    while i < children.len()
        invariant
            i <= children@.len(),
            cs == views(children@),
            cand_models(out@) == completions_spec(cs.take(i as int)),
        decreases children@.len() - i,
    {
        let c = Candidate::path(children[i].clone());
        assert(cs.take(i + 1).drop_last() =~= cs.take(i as int));
        assert(cs.take(i + 1).last() == children@[i as int]@);
        let ghost m = cand_models(out@);
        let mut j: usize = 0;
        while j < out.len() && !crate::text::str_less(c.label.as_str(), out[j].label.as_str())
            invariant
                j <= out@.len(),
                m == cand_models(out@),
                forall|k: int| 0 <= k < j ==> !seq_less(c.label@, #[trigger] m[k].0),
            decreases out@.len() - j,
        {
            assert(m[j as int].0 == out@[j as int].label@);
            j = j + 1;
        }
        proof {
            if j < out@.len() {
                assert(m[j as int].0 == out@[j as int].label@);
            }
            lemma_ins_label_at(m, cand_model(c), j as int);
        }
        let ghost before_out = out@;
        out.insert(j, c);
        assert(cand_models(out@) =~= m.take(j as int) + seq![cand_model(c)] + m.skip(j as int));
        i = i + 1;
    }
    assert(cs.take(i as int) =~= cs);
    out
}

/// The candidates of a path-completing Select: the entries of the completion
/// directory as the lookup lists them, sorted by label.
pub fn path_completions<C: CommandLookup>(cwd: &str, query: &str, ctx: &C) -> (r: Vec<Candidate>)
    ensures
        exists|children: Seq<String>| cand_models(r@) == completions_spec(#[trigger] views(children)),
{
    let base = completion_dir(cwd, query);
    let children = ctx.dir_children(base.as_str());
    let ghost cv = children@;
    let r = completion_candidates(children);
    assert(cand_models(r@) == completions_spec(views(cv)));
    r
}

/// The Select's results are the candidates `p` as its input ranks them.
pub open spec fn commands_ranked(s: AppState, new: AppState, p: Seq<Candidate>, spec: SelectSpec) -> bool {
    results_applied(s, new, cand_models(if spec.input == SelectInput::Fuzzy { fuzzy_rank_spec(p, query_of(s)) } else { p }))
}

/// For a lookup that follows its command models: a Select drawing on the
/// command registry lists the registry's candidates, ranked by its query.
pub open spec fn palette_listed<C: CommandLookup>(ctx: &C, s: AppState, new: AppState) -> bool {
    ctx.obeys_commands() ==> (s.modes@.last().mode matches Mode::Select(spec) ==> (spec.source is Commands ==>
        exists|p: Seq<Candidate>| cand_models(p) == ctx.command_models() && #[trigger] commands_ranked(s, new, p, spec)))
}

/// Re-rank after the query changed: a file walk goes out as a Search plan;
/// path completion, the command registry and static pools rank here.
pub open spec fn refilter_post(s: AppState, new: AppState, fx: Effects) -> bool {
    match s.modes@.last().mode {
        Mode::Select(spec) => match spec.source {
            SelectSource::FileWalk => {
                &&& new == s
                &&& fx.notices@.len() == 0 && fx.intents@.len() == 0 && fx.plans@.len() == 1
                &&& fx.plans@[0] matches Plan::Search { root, query, show_hidden }
                    && root == s.cwd && query@ == query_of(s) && show_hidden == s.show_hidden
            },
            SelectSource::PathCompletion => {
                &&& fx_none(fx)
                &&& exists|children: Seq<String>|
                    results_applied(s, new, completions_spec(#[trigger] views(children)))
            },
            SelectSource::Static(pool) => {
                &&& fx_none(fx)
                &&& exists|p: Seq<Candidate>| #[trigger] cand_models(p) == cand_models(pool@)
                    && results_applied(s, new, cand_models(
                        if spec.input == SelectInput::Fuzzy { fuzzy_rank_spec(p, query_of(s)) } else { p }))
            },
            SelectSource::Commands => {
                &&& fx_none(fx)
                &&& exists|p: Seq<Candidate>| #[trigger] commands_ranked(s, new, p, spec)
            },
        },
        _ => new == s && fx_none(fx),
    }
}

pub fn refilter<C: CommandLookup>(state: &mut AppState, ctx: &C) -> (fx: Effects)
    requires
        old(state).modes@.len() >= 1,
    ensures
        refilter_post(*old(state), *final(state), fx),
        palette_listed(ctx, *old(state), *final(state)),
{
    let n = state.modes.len();
    let query: String = match &state.select {
        Some(sel) => sel.query.clone(),
        None => String::new(),
    };
    match &state.modes[n - 1].mode {
        Mode::Select(spec) => {
            match &spec.source {
                SelectSource::FileWalk => {
                    Effects::plan(Plan::Search { root: state.cwd.clone(), query, show_hidden: state.show_hidden })
                }
                SelectSource::PathCompletion => {
                    let cands = path_completions(state.cwd.as_str(), query.as_str(), ctx);
                    let ghost s0 = *state;
                    apply_results(state, cands);
                    Effects::none()
                }
                SelectSource::Static(pool) => {
                    let copy = dup_candidates(pool);
                    let ghost p = copy@;
                    let fuzzy = spec.input == SelectInput::Fuzzy;
                    let results = if fuzzy { fuzzy_rank(copy, query.as_str()) } else { copy };
                    apply_results(state, results);
                    assert(cand_models(p) == cand_models(pool@));
                    Effects::none()
                }
                SelectSource::Commands => {
                    let pool = ctx.command_candidates();
                    let ghost p = pool@;
                    let fuzzy = spec.input == SelectInput::Fuzzy;
                    let results = if fuzzy { fuzzy_rank(pool, query.as_str()) } else { pool };
                    apply_results(state, results);
                    assert(commands_ranked(*old(state), *state, p, *spec));
                    Effects::none()
                }
            }
        }
        _ => Effects::none(),
    }
}

/// The stack after pushing `pm` (a Select replaces a topmost Select).
pub open spec fn stacked(old: AppState, pm: Mode) -> Seq<ModeFrame> {
    let base = if pm is Select && old.modes@.last().mode is Select && old.modes@.len() > 1 {
        old.modes@.drop_last()
    } else {
        old.modes@
    };
    base.push(ModeFrame { mode: pm, generation: old.next_generation })
}

/// The mode as pushed: as given, except that a command Select's empty
/// command-line skeleton is filled from the resolver chain.
pub open spec fn filled(m: Mode, pm: Mode) -> bool {
    match m {
        Mode::Select(spec) => pm is Select && {
            let ps = pm->Select_0;
            if spec.id@ == "command"@ && spec.command_line@.len() == 0 && spec.on_confirm is Resolve {
                ps == SelectSpec { command_line: ps.command_line, ..spec }
            } else {
                ps == spec
            }
        },
        _ => pm == m,
    }
}

/// The text a Select starts with.
pub open spec fn initial_text(spec: SelectSpec) -> Seq<char> {
    match spec.initial_query {
        Some(q) => q@,
        None => Seq::empty(),
    }
}

/// Fresh runtime state for a Select.
pub open spec fn fresh(sel: SelectState, spec: SelectSpec) -> bool {
    &&& sel.query@ == initial_text(spec)
    &&& sel.caret == utf8_len(initial_text(spec))
    &&& sel.phase == (if spec.input != SelectInput::NoInput { SelectPhase::Input } else { SelectPhase::Navigate })
    &&& sel.results@.len() == 0
    &&& sel.selected == 0
    &&& sel.marks@.len() == 0
    &&& sel.view is None
}

/// The state right after pushing `m`, before any re-ranking.
pub open spec fn pushed_fresh(old: AppState, m: Mode, mid: AppState) -> bool {
    let pm = mid.modes@.last().mode;
    &&& filled(m, pm)
    &&& mid.modes@ == stacked(old, pm)
    &&& mid.next_generation == old.next_generation + 1
    &&& if pm is Select {
        &&& mid.select is Some
        &&& fresh(mid.select->0, pm->Select_0)
        &&& mid == (AppState { modes: mid.modes, next_generation: mid.next_generation, select: mid.select, ..old })
    } else {
        mid == (AppState { modes: mid.modes, next_generation: mid.next_generation, ..old })
    }
}

/// Pushing a Select that draws on the command registry lists the registry's
/// candidates (for a lookup that follows its command models).
pub open spec fn pushed_listed<C: CommandLookup>(ctx: &C, old: AppState, new: AppState, m: Mode) -> bool {
    exists|mid: AppState| #[trigger] pushed_fresh(old, m, mid) && (mid.modes@.last().mode is Select ==> palette_listed(ctx, mid, new))
}

/// Typing into a Select that draws on the command registry re-lists the
/// registry's candidates against the edited query.
pub open spec fn typed_listed<C: CommandLookup>(ctx: &C, old: AppState, new: AppState, key: Key) -> bool {
    !old.function.search.input_active ==> match old.select {
        Some(sel) => !(sel.phase == SelectPhase::Navigate && printable_of(key) is None) ==>
            exists|mid: AppState| #[trigger] mid.select == Some(mid.select->0)
                && edited(sel, mid.select->0, key)
                && mid == (AppState { select: mid.select, ..old })
                && palette_listed(ctx, mid, new),
        None => true,
    }
}

/// Pushing a mode: a Select gets fresh state and is ranked at once.
pub open spec fn push_mode_post(old: AppState, new: AppState, fx: Effects, m: Mode) -> bool {
    exists|mid: AppState| #[trigger] pushed_fresh(old, m, mid) && (if mid.modes@.last().mode is Select {
        refilter_post(mid, new, fx)
    } else {
        new == mid && fx_none(fx)
    })
}

pub fn push_mode<C: CommandLookup>(state: &mut AppState, mode: Mode, ctx: &C) -> (fx: Effects)
    requires
        old(state).modes@.len() >= 1,
        old(state).next_generation < u64::MAX,
    ensures
        push_mode_post(*old(state), *final(state), fx, mode),
        pushed_listed(ctx, *old(state), *final(state), mode),
        final(state).modes@.len() >= 1,
        final(state).next_generation == old(state).next_generation + 1,
{
    let ghost m0 = mode;
    let mut mode = mode;
    proof {
        reveal_strlit("command");
    }
    match &mut mode {
        Mode::Select(spec) => {
            if crate::text::str_eq(spec.id.as_str(), "command") && spec.command_line.len() == 0 {
                let op: Option<String> = match &spec.on_confirm {
                    OnConfirm::Resolve { template, .. } => Some(template.op.clone()),
                    _ => None,
                };
                match op {
                    Some(o) => {
                        spec.command_line = ctx.resolver_command(o.as_str());
                    }
                    None => {}
                }
            }
        }
        _ => {}
    }
    assert(filled(m0, mode));
    let n = state.modes.len();
    let top_is_select = match &state.modes[n - 1].mode {
        Mode::Select(_) => true,
        _ => false,
    };
    let (is_select, has_input, initial) = match &mode {
        Mode::Select(spec) => (
            true,
            spec.input != SelectInput::NoInput,
            match &spec.initial_query {
                Some(q) => q.clone(),
                None => String::new(),
            },
        ),
        _ => (false, false, String::new()),
    };
    let ghost pm = mode;
    if is_select && top_is_select {
        state.replace_mode(mode);
    } else {
        state.push_mode(mode);
    }
    if is_select {
        state.select = Some(SelectState::new(initial, has_input));
        let ghost mid = *state;
        assert(pushed_fresh(*old(state), m0, mid));
        let fx = refilter(state, ctx);
        fx
    } else {
        assert(pushed_fresh(*old(state), m0, *state));
        Effects::none()
    }
}

/// Editing the Select query (or the panel search input) with a raw key.
pub open spec fn edited(sel: SelectState, s2: SelectState, key: Key) -> bool {
    let r = readline_bytes(sel.query@, sel.caret as int, key);
    &&& s2.query@ == r.0
    &&& s2 == (SelectState { query: s2.query, caret: r.1 as usize, phase: SelectPhase::Input, ..sel })
}

pub open spec fn raw_key_post(old: AppState, new: AppState, fx: Effects, key: Key) -> bool {
    if old.function.search.input_active {
        let r = readline_bytes(old.function.search.query@, old.function.search.caret as int, key);
        &&& new.function.search.query@ == r.0
        &&& new == (AppState {
            function: crate::state::FunctionPanelState {
                search: crate::state::PanelSearch { query: new.function.search.query, caret: r.1 as usize, ..old.function.search },
                ..old.function
            },
            ..old
        })
        &&& fx_none(fx)
    } else {
        match old.select {
            None => new == old && fx_none(fx),
            Some(sel) => if sel.phase == SelectPhase::Navigate && printable_of(key) is None {
                new == old && fx_none(fx)
            } else {
                exists|mid: AppState| #[trigger] mid.select == Some(mid.select->0)
                    && edited(sel, mid.select->0, key)
                    && mid == (AppState { select: mid.select, ..old })
                    && refilter_post(mid, new, fx)
            },
        }
    }
}

/// Carets on character boundaries of their queries.
pub open spec fn carets_ok(s: AppState) -> bool {
    &&& is_boundary(s.function.search.query@, s.function.search.caret as int)
    &&& s.select matches Some(sel) ==> is_boundary(sel.query@, sel.caret as int)
}

/// Apply a raw key to the active text input.
pub fn raw_key<C: CommandLookup>(state: &mut AppState, key: Key, ctx: &C) -> (fx: Effects)
    requires
        old(state).modes@.len() >= 1,
        carets_ok(*old(state)),
    ensures
        raw_key_post(*old(state), *final(state), fx, key),
        typed_listed(ctx, *old(state), *final(state), key),
{
    if state.function.search.input_active {
        readline_query(&mut state.function.search.query, &mut state.function.search.caret, key);
        return Effects::none();
    }
    match &mut state.select {
        Some(sel) => {
            if sel.phase == SelectPhase::Navigate {
                if key.printable_char().is_some() {
                    sel.phase = SelectPhase::Input;
                } else {
                    return Effects::none();
                }
            }
            readline_query(&mut sel.query, &mut sel.caret, key);
        }
        None => {
            return Effects::none();
        }
    }
    let ghost mid = *state;
    let fx = refilter(state, ctx);
    assert(mid.select == Some(mid.select->0));
    fx
}

/// A resolver request for `op` over `paths` (and an optional single `src`);
/// dst, path and opts are filled later by the Select flow.
pub fn op_request(op: &str, paths: Vec<String>, src: Option<String>) -> (r: ResolverRequest)
    ensures
        r.op@ == op@,
        r.src == src,
        r.dst is None,
        r.path is None,
        r.paths == paths,
        r.opts@.len() == 0,
        r.label@ == op@,
{
    ResolverRequest { op: owned(op), src, dst: None, path: None, paths, opts: Vec::new(), label: owned(op) }
}

/// The option checkbox for a (token, description) pair.
pub open spec fn option_model(o: (String, String)) -> (Seq<char>, Ev) {
    (o.0@ + "  "@ + o.1@, Ev::Str(o.0@))
}

pub open spec fn option_models(opts: Seq<(String, String)>) -> Seq<(Seq<char>, Ev)> {
    Seq::new(opts.len(), |i: int| option_model(opts[i]))
}

/// The option checkboxes an op declares: label `token  description`, value
/// the token.
pub fn options_to_candidates(opts: Vec<(String, String)>) -> (r: Vec<Candidate>)
    ensures
        cand_models(r@) == option_models(opts@),
{
    let mut r: Vec<Candidate> = Vec::new();
    let mut i: usize = 0;
    while i < opts.len()
        invariant
            i <= opts@.len(),
            cand_models(r@) =~= Seq::new(i as nat, |k: int| option_model(opts@[k])),
        decreases opts@.len() - i,
    {
        let mut label = opts[i].0.clone();
        push_str(&mut label, "  ");
        push_str(&mut label, opts[i].1.as_str());
        let c = Candidate { label, value: ExtensionValue::String(opts[i].0.clone()) };
        let ghost before = cand_models(r@);
        r.push(c);
        assert(cand_models(r@) =~= before.push(option_model(opts@[i as int])));
        i = i + 1;
    }
    r
}

pub fn option_candidates<C: CommandLookup>(ctx: &C, op: &str) -> (r: Vec<Candidate>)
    ensures
        exists|opts: Seq<(String, String)>| cand_models(r@) == #[trigger] option_models(opts),
{
    let opts = ctx.resolver_options(op);
    let ghost ov = opts@;
    let r = options_to_candidates(opts);
    assert(cand_models(r@) == option_models(ov));
    r
}

/// The command Select pushed for an op over the given targets.
pub open spec fn command_select(m: Mode, op: Seq<char>, paths: Seq<Seq<char>>, src: Option<Seq<char>>, initial: Option<Seq<char>>) -> bool {
    &&& m matches Mode::Select(spec)
    &&& spec.id@ == "command"@
    &&& spec.source matches SelectSource::Static(pool)
        && exists|opts: Seq<(String, String)>| cand_models(pool@) == #[trigger] option_models(opts)
    &&& spec.input == SelectInput::Path
    &&& spec.initial_query matches Some(q) ==> initial == Some(q@)
    &&& spec.initial_query is None ==> initial is None
    &&& spec.function_hint == Some(crate::mode::FunctionHint::CommandSummary)
    &&& spec.command_line@.len() == 0
    &&& spec.on_confirm matches OnConfirm::Resolve { template, fill }
        && fill == ResolveFill::Dst
        && template.op@ == op && template.label@ == op
        && views(template.paths@) == paths
        && crate::path::opt_view(template.src) == src
        && template.dst is None && template.path is None && template.opts@.len() == 0
}

/// Start a copy or a move: the command Select whose input is the
/// destination and whose candidates are the option checkboxes.
pub open spec fn start_transfer_post(old: AppState, new: AppState, fx: Effects, is_move: bool) -> bool {
    let targets = crate::state::targets_spec(old);
    if targets.len() == 0 {
        new == old && fx_notice(fx, "nothing selected"@, true)
    } else {
        exists|m: Mode| command_select(m, if is_move { "move"@ } else { "copy"@ }, targets, None, None)
            && #[trigger] push_mode_post(old, new, fx, m)
    }
}

pub fn start_transfer<C: CommandLookup>(state: &mut AppState, ctx: &C, is_move: bool) -> (fx: Effects)
    requires
        old(state).modes@.len() >= 1,
        old(state).next_generation < u64::MAX,
    ensures
        start_transfer_post(*old(state), *final(state), fx, is_move),
{
    let targets = state.targets();
    if targets.len() == 0 {
        assert(views(targets@).len() == 0);
        return Effects::notice(Notice::error("nothing selected"));
    }
    let op = if is_move { "move" } else { "copy" };
    let opts = option_candidates(ctx, op);
    let spec = SelectSpec::command(op_request(op, targets, None), ResolveFill::Dst, opts, None);
    let m = Mode::Select(spec);
    proof {
        reveal_strlit("move");
        reveal_strlit("copy");
    }
    assert(command_select(m, if is_move { "move"@ } else { "copy"@ }, crate::state::targets_spec(*old(state)), None, None));
    push_mode(state, m, ctx)
}

/// Start a rename: exactly one target, whose file name pre-fills the input.
pub open spec fn start_rename_post(old: AppState, new: AppState, fx: Effects) -> bool {
    let targets = crate::state::targets_spec(old);
    if targets.len() != 1 {
        new == old && fx_notice(fx, "rename needs exactly one target"@, true)
    } else {
        exists|m: Mode| command_select(m, "rename"@, Seq::empty(), Some(targets[0]),
            Some(match path_file_name(targets[0]) { Some(n) => n, None => Seq::empty() }))
            && #[trigger] push_mode_post(old, new, fx, m)
    }
}

pub fn start_rename<C: CommandLookup>(state: &mut AppState, ctx: &C) -> (fx: Effects)
    requires
        old(state).modes@.len() >= 1,
        old(state).next_generation < u64::MAX,
    ensures
        start_rename_post(*old(state), *final(state), fx),
{
    let mut targets = state.targets();
    if targets.len() != 1 {
        return Effects::notice(Notice::error("rename needs exactly one target"));
    }
    let src = targets.remove(0);
    let name = match file_name(src.as_str()) {
        Some(n) => n,
        None => String::new(),
    };
    let no_paths: Vec<String> = Vec::new();
    assert(views(no_paths@) =~= Seq::<Seq<char>>::empty());
    let template = op_request("rename", no_paths, Some(src));
    let opts = option_candidates(ctx, "rename");
    let m = Mode::Select(SelectSpec::command(template, ResolveFill::Dst, opts, Some(name)));
    proof {
        reveal_strlit("rename");
    }
    push_mode(state, m, ctx)
}

/// The candidates whose labels are marked, in result order.
pub open spec fn marked(rs: Seq<Candidate>, marks: Seq<Seq<char>>) -> Seq<Candidate>
    decreases rs.len(),
{
    if rs.len() == 0 {
        Seq::empty()
    } else {
        let r = marked(rs.drop_last(), marks);
        if marks.contains(rs.last().label@) { r.push(rs.last()) } else { r }
    }
}

/// The string values of the marked candidates (the chosen option tokens).
pub open spec fn marked_strs(rs: Seq<Candidate>, marks: Seq<Seq<char>>) -> Seq<Seq<char>>
    decreases rs.len(),
{
    if rs.len() == 0 {
        Seq::empty()
    } else {
        let r = marked_strs(rs.drop_last(), marks);
        if marks.contains(rs.last().label@) && ev(rs.last().value) is Str {
            r.push(ev(rs.last().value)->Str_0)
        } else {
            r
        }
    }
}

pub fn marked_values(rs: &Vec<Candidate>, marks: &Vec<String>) -> (r: Vec<String>)
    ensures
        views(r@) == marked_strs(rs@, views(marks@)),
{
    let mut out: Vec<String> = Vec::new();
    let mut i: usize = 0;
    assert(rs@.take(0) =~= Seq::<Candidate>::empty());
    assert(views(out@) =~= Seq::<Seq<char>>::empty());
    while i < rs.len()
        invariant
            i <= rs@.len(),
            views(out@) == marked_strs(rs@.take(i as int), views(marks@)),
        decreases rs@.len() - i,
    {
        assert(rs@.take(i + 1).drop_last() =~= rs@.take(i as int));
        assert(rs@.take(i + 1).last() == rs@[i as int]);
        if contains_str(marks, rs[i].label.as_str()) {
            match rs[i].value.as_str() {
                Some(t) => {
                    let ghost before = views(out@);
                    out.push(owned(t));
                    assert(views(out@) =~= before.push(ev(rs@[i as int].value)->Str_0));
                }
                None => {}
            }
        }
        i = i + 1;
    }
    assert(rs@.take(i as int) =~= rs@);
    out
}

fn take_marked(rs: Vec<Candidate>, marks: &Vec<String>) -> (r: Vec<Candidate>)
    ensures
        r@ == marked(rs@, views(marks@)),
{
    let ghost p = rs@;
    let n = rs.len();
    let mut rest = rs;
    let mut out: Vec<Candidate> = Vec::new();
    let mut i: usize = 0;
    assert(p.take(0) =~= Seq::<Candidate>::empty());
    while rest.len() > 0
        invariant
            n == p.len(),
            i + rest@.len() == n,
            rest@ == p.skip(i as int),
            out@ == marked(p.take(i as int), views(marks@)),
        decreases rest@.len(),
    {
        assert(rest@[0] == p[i as int]);
        let c = rest.remove(0);
        assert(p.take(i + 1).drop_last() =~= p.take(i as int));
        assert(p.take(i + 1).last() == c);
        if contains_str(marks, c.label.as_str()) {
            out.push(c);
        }
        i = i + 1;
        assert(rest@ =~= p.skip(i as int));
    }
    assert(p.take(i as int) =~= p);
    out
}

/// Whether there is anything to confirm once past the input phase.
pub open spec fn confirmable(spec: SelectSpec, sel: SelectState) -> bool {
    if spec.input == SelectInput::Path {
        true
    } else if sel.view is Some {
        sel.view->0.cursor < sel.view->0.entries@.len()
    } else {
        (spec.on_confirm is Emit && sel.marks@.len() > 0) || sel.selected < sel.results@.len()
    }
}

/// The model of the confirmed value: the typed text, the current path
/// result, the marked candidates (Emit only), or the selected candidate.
pub open spec fn shape_model(spec: SelectSpec, sel: SelectState) -> Ev {
    if spec.input == SelectInput::Path {
        Ev::Str(sel.query@)
    } else if sel.view is Some {
        Ev::Path(sel.view->0.entries@[sel.view->0.cursor as int].path@)
    } else if spec.on_confirm is Emit && sel.marks@.len() > 0 {
        Ev::List(crate::mode::candidate_values(marked(sel.results@, views(sel.marks@))))
    } else {
        ev(sel.results@[sel.selected as int].value)
    }
}

/// The follow-up intents of a confirmation.
pub open spec fn follow_ok(spec: SelectSpec, sel: SelectState, out: Seq<Intent>) -> bool {
    let v = shape_model(spec, sel);
    match spec.on_confirm {
        OnConfirm::Navigate => if spec.input != SelectInput::Path && v is Path {
            out.len() == 1 && (out[0] matches Intent::NavigateTo(p) && p@ == v->Path_0)
        } else {
            out.len() == 0
        },
        OnConfirm::RunCommand => if spec.input != SelectInput::Path && v is Str { out.len() <= 1 } else { out.len() == 0 },
        OnConfirm::Resolve { template, fill } => if spec.input == SelectInput::Path {
            &&& out.len() == 1
            &&& out[0] matches Intent::RunResolver(r)
                && views(r.opts@) == marked_strs(sel.results@, views(sel.marks@))
                && match fill {
                    ResolveFill::Dst => r.dst matches Some(d) && d@ == sel.query@
                        && r == (ResolverRequest { dst: r.dst, opts: r.opts, ..template }),
                    ResolveFill::Path => r.path matches Some(d) && d@ == sel.query@
                        && r == (ResolverRequest { path: r.path, opts: r.opts, ..template }),
                }
        } else {
            out.len() == 0
        },
        OnConfirm::Emit(t) => {
            &&& out.len() == 1
            &&& out[0] matches Intent::Extension(e)
                && e.extension == t.extension && e.intent == t.intent
                && ev(e.data) == ev_with(ev(t.data), "item"@, v)
        },
    }
}

/// The follow-up of confirming a command palette: the intent registered for
/// the chosen command name (an intent with the same data), or nothing when no
/// command of that name is registered.
pub open spec fn run_command_ok<C: CommandLookup>(ctx: &C, spec: SelectSpec, sel: SelectState, out: Seq<Intent>) -> bool {
    let v = shape_model(spec, sel);
    if spec.input != SelectInput::Path && v is Str {
        match ctx.command_intent(v->Str_0) {
            Some(i) => out.len() == 1 && same_intent(out[0], i),
            None => out.len() == 0,
        }
    } else {
        out.len() == 0
    }
}

/// Confirming a Select: leave the input phase first; then build the confirm
/// shape, pop the Select and produce the follow-up.
pub open spec fn select_confirm_post(old: AppState, new: AppState, fx: Effects) -> bool {
    let top = old.modes@.last().mode;
    if !(top is Select) || old.select is None {
        new == old && fx_none(fx)
    } else {
        let spec = top->Select_0;
        let sel = old.select->0;
        if spec.input != SelectInput::NoInput && sel.phase == SelectPhase::Input {
            new == (AppState { select: Some(SelectState { phase: SelectPhase::Navigate, ..sel }), ..old }) && fx_none(fx)
        } else if !confirmable(spec, sel) {
            new == old && fx_none(fx)
        } else {
            &&& new.modes@ == old.modes@.drop_last()
            &&& new == (AppState { modes: new.modes, select: None, ..old })
            &&& fx.plans@.len() == 0 && fx.notices@.len() == 0
            &&& follow_ok(spec, sel, fx.intents@)
        }
    }
}

pub fn select_confirm<C: CommandLookup>(state: &mut AppState, ctx: &C) -> (fx: Effects)
    requires
        old(state).modes@.len() >= 1,
        old(state).modes@[0].mode is File,
    ensures
        select_confirm_post(*old(state), *final(state), fx),
        ctx.obeys_commands() ==> (old(state).modes@.last().mode matches Mode::Select(spec) ==> (spec.on_confirm is RunCommand && old(state).select is Some
            && final(state).modes@.len() < old(state).modes@.len() ==> run_command_ok(ctx, spec, old(state).select->0, fx.intents@))),
{
    let n = state.modes.len();
    let (input, emit) = match &state.modes[n - 1].mode {
        Mode::Select(spec) => (spec.input, match &spec.on_confirm { OnConfirm::Emit(_) => true, _ => false }),
        _ => {
            return Effects::none();
        }
    };
    assert(n > 1);
    let ok = match &mut state.select {
        Some(sel) => {
            if input != SelectInput::NoInput && sel.phase == SelectPhase::Input {
                sel.phase = SelectPhase::Navigate;
                return Effects::none();
            }
            if input == SelectInput::Path {
                true
            } else {
                match &sel.view {
                    Some(v) => v.cursor < v.entries.len(),
                    None => (emit && sel.marks.len() > 0) || sel.selected < sel.results.len(),
                }
            }
        }
        None => {
            return Effects::none();
        }
    };
    if !ok {
        return Effects::none();
    }
    let ghost old_sel = old(state).select->0;
    let ghost old_spec = old(state).modes@.last().mode->Select_0;
    let frame = state.modes.pop().unwrap();
    let mut taken: Option<SelectState> = None;
    std::mem::swap(&mut state.select, &mut taken);
    let mut sel = taken.unwrap();
    assert(sel == old_sel);
    let spec = match frame.mode {
        Mode::Select(spec) => spec,
        _ => {
            assert(false);
            return Effects::none();
        }
    };
    assert(spec == old_spec);
    let opts = marked_values(&sel.results, &sel.marks);
    let query_is_path = spec.input == SelectInput::Path;
    let has_view = sel.view.is_some();
    // The confirmed value.
    let value: ExtensionValue = if query_is_path {
        ExtensionValue::String(sel.query.clone())
    } else if has_view {
        match &sel.view {
            Some(v) => Candidate::path(v.entries[v.cursor].path.clone()).value,
            None => ExtensionValue::Nil,
        }
    } else if emit && sel.marks.len() > 0 {
        let mut rs: Vec<Candidate> = Vec::new();
        std::mem::swap(&mut sel.results, &mut rs);
        let items = take_marked(rs, &sel.marks);
        ConfirmShape::Many(items).to_value()
    } else {
        sel.results[sel.selected].value.dup()
    };
    assert(ev(value) == shape_model(spec, old_sel));
    let follow: Vec<Intent> = match spec.on_confirm {
        OnConfirm::Navigate => {
            let mut out: Vec<Intent> = Vec::new();
            if !query_is_path {
                match value.as_path() {
                    Some(p) => out.push(Intent::NavigateTo(p.clone())),
                    None => {}
                }
            }
            out
        }
        OnConfirm::RunCommand => {
            let mut out: Vec<Intent> = Vec::new();
            if !query_is_path {
                match value.as_str() {
                    Some(name) => {
                        match ctx.intent_of(name) {
                            Some(i) => out.push(i),
                            None => {}
                        }
                    }
                    None => {}
                }
            }
            out
        }
        OnConfirm::Resolve { template, fill } => {
            let mut out: Vec<Intent> = Vec::new();
            if query_is_path {
                let mut t = template;
                match fill {
                    ResolveFill::Dst => t.dst = Some(owned(sel.query.as_str())),
                    ResolveFill::Path => t.path = Some(owned(sel.query.as_str())),
                }
                t.opts = opts;
                out.push(Intent::RunResolver(t));
            }
            out
        }
        OnConfirm::Emit(template) => {
            let data = template.data.with("item", value);
            let mut out: Vec<Intent> = Vec::new();
            out.push(Intent::Extension(ExtensionIntent { extension: template.extension, intent: template.intent, data }));
            proof {
                reveal_strlit("item");
            }
            out
        }
    };
    Effects::emit(follow)
}

} // verus!
