//! Consuming async completions by (purpose, payload), and installing a fresh
//! directory listing.

use vstd::prelude::*;
use crate::event::{AsyncResult, AsyncStatus, Payload, Plan, Purpose};
use crate::mode::SubLayout;
use crate::nav::read_dir_effect;
use crate::reducer::{Effects, Notice, fx_none, fx_notice};
use crate::state::{AppState, Entry, EntryList, FunctionPanelState, SelectState, clamped, entry_paths, views};
use crate::text::{i64_to_string, int_decimal, nat_decimal, owned, push_str, str_eq, u64_to_string};
use crate::value::{Ev, ExtensionValue, ev};

verus! {

/// The first index at or after `k` where `s` holds `p`.
pub open spec fn first_from(s: Seq<Seq<char>>, p: Seq<char>, k: int) -> Option<int>
    decreases s.len() - k,
{
    if k < 0 || k >= s.len() { None } else if s[k] == p { Some(k) } else { first_from(s, p, k + 1) }
}

/// `sel` keeping only the paths still listed.
pub open spec fn kept(sel: Seq<Seq<char>>, listed: Seq<Seq<char>>) -> Seq<Seq<char>>
    decreases sel.len(),
{
    if sel.len() == 0 {
        sel
    } else {
        let r = kept(sel.drop_last(), listed);
        if listed.contains(sel.last()) { r.push(sel.last()) } else { r }
    }
}

/// What a refresh keeps of the selection was selected before.
pub proof fn lemma_kept_within(sel: Seq<Seq<char>>, listed: Seq<Seq<char>>, y: Seq<char>)
    ensures
        kept(sel, listed).contains(y) ==> sel.contains(y) && listed.contains(y),
    decreases sel.len(),
{
    if sel.len() > 0 {
        let d = sel.drop_last();
        lemma_kept_within(d, listed, y);
        let r = kept(d, listed);
        if kept(sel, listed).contains(y) {
            if r.contains(y) {
                let k = choose|k: int| 0 <= k < d.len() && d[k] == y;
                assert(sel[k] == y);
            } else {
                let k = choose|k: int| 0 <= k < r.len() + 1 && r.push(sel.last())[k] == y;
                if k < r.len() {
                    assert(r[k] == y);
                }
                assert(sel[sel.len() - 1] == y);
            }
        }
    }
}

/// A refresh keeps the selection a set: it keeps, in order, the selected
/// paths still listed.
pub proof fn law_refresh_keeps_a_set(sel: Seq<Seq<char>>, listed: Seq<Seq<char>>)
    requires
        sel.no_duplicates(),
    ensures
        kept(sel, listed).no_duplicates(),
    decreases sel.len(),
{
    if sel.len() > 0 {
        let d = sel.drop_last();
        assert forall|i: int, j: int| 0 <= i < d.len() && 0 <= j < d.len() && i != j implies d[i] != d[j] by {
            assert(d[i] == sel[i] && d[j] == sel[j]);
        }
        law_refresh_keeps_a_set(d, listed);
        if listed.contains(sel.last()) {
            lemma_kept_within(d, listed, sel.last());
            if d.contains(sel.last()) {
                let k = choose|k: int| 0 <= k < d.len() && d[k] == sel.last();
                assert(sel[k] == sel[sel.len() - 1]);
            }
            crate::state::lemma_push_distinct(kept(d, listed), sel.last());
        }
    }
}

/// The path to put the cursor on: a pending focus wins, else the entry the
/// cursor was on.
pub open spec fn focus_path(s: AppState) -> Option<Seq<char>> {
    match s.pending_focus {
        Some(p) => Some(p@),
        None => if s.cursor < s.entries@.len() { Some(s.entries@[s.cursor as int].path@) } else { None },
    }
}

/// Installing a fresh listing: vanished selection paths are dropped; the
/// cursor goes to the focus path if listed, else stays, and is clamped.
pub open spec fn loaded(old: AppState, new: AppState, entries: Vec<Entry>) -> bool {
    let paths = entry_paths(entries@);
    let c1 = match focus_path(old) {
        Some(p) => match first_from(paths, p, 0) {
            Some(i) => i,
            None => old.cursor as int,
        },
        None => old.cursor as int,
    };
    &&& new.entries == entries
    &&& views(new.selection@) == kept(views(old.selection@), paths)
    &&& new.cursor == clamped(c1, entries@.len() as int)
    &&& new == (AppState { entries: new.entries, selection: new.selection, cursor: new.cursor, pending_focus: None, ..old })
}

fn listed(entries: &Vec<Entry>, p: &str) -> (r: bool)
    ensures
        r == entry_paths(entries@).contains(p@),
{
    let mut i: usize = 0;
    while i < entries.len()
        invariant
            i <= entries@.len(),
            forall|j: int| 0 <= j < i ==> entries@[j].path@ != p@,
        decreases entries@.len() - i,
    {
        if str_eq(entries[i].path.as_str(), p) {
            assert(entry_paths(entries@)[i as int] == p@);
            return true;
        }
        i = i + 1;
    }
    assert forall|j: int| 0 <= j < entry_paths(entries@).len() implies entry_paths(entries@)[j] != p@ by {
        assert(entries@[j].path@ != p@);
    }
    false
}

fn position(entries: &Vec<Entry>, p: &str) -> (r: Option<usize>)
    ensures
        match r {
            Some(i) => first_from(entry_paths(entries@), p@, 0) == Some(i as int),
            None => first_from(entry_paths(entries@), p@, 0) is None,
        },
{
    let ghost ps = entry_paths(entries@);
    let mut i: usize = 0;
    while i < entries.len()
        invariant
            i <= entries@.len(),
            ps == entry_paths(entries@),
            first_from(ps, p@, 0) == first_from(ps, p@, i as int),
        decreases entries@.len() - i,
    {
        if str_eq(entries[i].path.as_str(), p) {
            return Some(i);
        }
        i = i + 1;
    }
    None
}

pub fn load_entries(state: &mut AppState, entries: Vec<Entry>)
    ensures
        loaded(*old(state), *final(state), entries),
{
    let focus: Option<String> = match &state.pending_focus {
        Some(p) => Some(p.clone()),
        None => if state.cursor < state.entries.len() { Some(state.entries[state.cursor].path.clone()) } else { None },
    };
    state.pending_focus = None;
    state.entries = entries;
    let mut old_sel: Vec<String> = Vec::new();
    std::mem::swap(&mut state.selection, &mut old_sel);
    let ghost sv = views(old_sel@);
    let ghost paths = entry_paths(state.entries@);
    let mut i: usize = 0;
    assert(sv.take(0) =~= Seq::<Seq<char>>::empty());
    assert(views(state.selection@) =~= Seq::<Seq<char>>::empty());
    assert(crate::path::opt_view(focus) == focus_path(*old(state)));
    let ghost mid = *state;
    while i < old_sel.len()
        invariant
            i <= old_sel@.len(),
            *state == (AppState { selection: state.selection, ..mid }),
            sv == views(old_sel@),
            paths == entry_paths(state.entries@),
            views(state.selection@) == kept(sv.take(i as int), paths),
        decreases old_sel@.len() - i,
    {
        assert(sv.take(i + 1).drop_last() =~= sv.take(i as int));
        assert(sv.take(i + 1).last() == old_sel@[i as int]@);
        if listed(&state.entries, old_sel[i].as_str()) {
            let ghost before = views(state.selection@);
            state.selection.push(old_sel[i].clone());
            assert(views(state.selection@) =~= before.push(old_sel@[i as int]@));
        }
        i = i + 1;
    }
    assert(sv.take(i as int) =~= sv);
    match focus {
        Some(p) => match position(&state.entries, p.as_str()) {
            Some(k) => state.cursor = k,
            None => {}
        },
        None => {}
    }
    state.clamp_cursor();
}

/// How a Scheme result value reads in a notice.
pub open spec fn render_value_spec(v: Ev) -> Seq<char> {
    match v {
        Ev::Nil => "()"@,
        Ev::Bool(b) => if b { "#t"@ } else { "#f"@ },
        Ev::Int(i) => int_decimal(i as int),
        Ev::Str(s) => s,
        Ev::Path(p) => p,
        Ev::List(items) => "("@ + nat_decimal(items.len()) + " items)"@,
        Ev::Table(m) => "{"@ + nat_decimal(m.len()) + " keys}"@,
    }
}

pub fn render_value(v: &ExtensionValue) -> (r: String)
    ensures
        r@ == render_value_spec(ev(*v)),
{
    match v {
        ExtensionValue::Nil => "()".to_owned(),
        ExtensionValue::Bool(b) => if *b { "#t".to_owned() } else { "#f".to_owned() },
        ExtensionValue::Int(i) => i64_to_string(*i),
        ExtensionValue::String(s) => s.clone(),
        ExtensionValue::Path(p) => p.clone(),
        ExtensionValue::List(items) => {
            let mut s = "(".to_owned();
            let n = u64_to_string(items.len() as u64);
            push_str(&mut s, n.as_str());
            push_str(&mut s, " items)");
            assert(ev(*v)->List_0.len() == items@.len());
            s
        }
        ExtensionValue::Table(m) => {
            let mut s = "{".to_owned();
            let n = u64_to_string(m.len() as u64);
            push_str(&mut s, n.as_str());
            push_str(&mut s, " keys}");
            assert(ev(*v)->Table_0.len() == m@.len());
            s
        }
    }
}

/// The message of a finished operation: its own message, else the label and
/// "done" or "failed".
pub open spec fn op_message(label: Seq<char>, success: bool, message: Option<Seq<char>>) -> Seq<char> {
    match message {
        Some(m) => m,
        None => label + " "@ + (if success { "done"@ } else { "failed"@ }),
    }
}

/// Consuming an async result by (purpose, payload).
pub open spec fn apply_result_post(old: AppState, new: AppState, fx: Effects, r: AsyncResult) -> bool {
    match r.status {
        AsyncStatus::Failed(msg) => new == old && fx_notice(fx, msg@, true),
        AsyncStatus::Done => match (r.purpose, r.payload) {
            (Purpose::Refresh, Payload::Entries { path, entries }) => fx_none(fx) && if path@ == old.cwd@ {
                loaded(old, new, entries)
            } else {
                new == old
            },
            (Purpose::Search, Payload::Entries { entries, .. }) => fx_none(fx) && match old.select {
                Some(sel) => {
                    let c = match sel.view { Some(v) => v.cursor as int, None => 0int };
                    new == (AppState {
                        select: Some(SelectState {
                            view: Some(EntryList { entries, cursor: clamped(c, entries@.len() as int) as usize }),
                            ..sel
                        }),
                        ..old
                    })
                },
                None => new == old,
            },
            (Purpose::Resolver, Payload::OpDone(done)) => {
                &&& new == old
                &&& fx.plans@ == (if done.success {
                    seq![Plan::ReadDir { path: old.cwd, show_hidden: old.show_hidden }]
                } else {
                    Seq::empty()
                })
                &&& fx.intents@.len() == 0
                &&& fx.notices@.len() == 1
                &&& fx.notices@[0].error == !done.success
                &&& fx.notices@[0].text@ == op_message(done.label@, done.success, crate::path::opt_view(done.message))
            },
            (Purpose::Execute, Payload::Exec(out)) => {
                &&& fx_none(fx)
                &&& new == (AppState {
                    function: FunctionPanelState {
                        exec_out: out,
                        visible: true,
                        sublayout: SubLayout::Exec,
                        ..old.function
                    },
                    ..old
                })
            },
            (Purpose::Scheme, Payload::Scheme(v)) => new == old && fx_notice(fx, "scheme: "@ + render_value_spec(ev(v)), false),
            _ => new == old && fx_none(fx),
        },
        _ => new == old && fx_none(fx),
    }
}

/// Consume an async result by (purpose, payload).
pub fn apply_result(state: &mut AppState, result: AsyncResult) -> (fx: Effects)
    ensures
        apply_result_post(*old(state), *final(state), fx, result),
{
    let ghost r0 = result;
    match result.status {
        AsyncStatus::Failed(msg) => {
            return Effects::notice(Notice { text: msg, error: true });
        }
        AsyncStatus::Done => {}
        _ => {
            return Effects::none();
        }
    }
    match (result.purpose, result.payload) {
        (Purpose::Refresh, Payload::Entries { path, entries }) => {
            if str_eq(path.as_str(), state.cwd.as_str()) {
                load_entries(state, entries);
            }
            Effects::none()
        }
        (Purpose::Search, Payload::Entries { entries, .. }) => {
            match &mut state.select {
                Some(sel) => {
                    let cursor = match &sel.view {
                        Some(v) => v.cursor,
                        None => 0,
                    };
                    let mut view = EntryList { entries, cursor };
                    view.clamp();
                    sel.view = Some(view);
                }
                None => {}
            }
            Effects::none()
        }
        (Purpose::Resolver, Payload::OpDone(done)) => {
            let mut fx = if done.success { read_dir_effect(state) } else { Effects::none() };
            let text = match done.message {
                Some(m) => m,
                None => {
                    let mut t = done.label.clone();
                    push_str(&mut t, " ");
                    push_str(&mut t, if done.success { "done" } else { "failed" });
                    t
                }
            };
            proof {
                reveal_strlit("done");
                reveal_strlit("failed");
            }
            fx.notices.push(Notice { text, error: !done.success });
            assert(fx.plans@ =~= (if done.success {
                seq![Plan::ReadDir { path: state.cwd, show_hidden: state.show_hidden }]
            } else {
                Seq::<Plan>::empty()
            }));
            fx
        }
        (Purpose::Execute, Payload::Exec(out)) => {
            state.function.exec_out = out;
            state.function.visible = true;
            state.function.sublayout = SubLayout::Exec;
            Effects::none()
        }
        (Purpose::Scheme, Payload::Scheme(value)) => {
            let mut t = "scheme: ".to_owned();
            let body = render_value(&value);
            push_str(&mut t, body.as_str());
            Effects::notice(Notice { text: t, error: false })
        }
        _ => Effects::none(),
    }
}

/// A fresh listing never leaves the cursor outside it.
pub proof fn law_loaded_cursor_in_range(old: AppState, new: AppState, entries: Vec<Entry>)
    requires
        loaded(old, new, entries),
    ensures
        new.cursor == 0 || new.cursor < new.entries@.len(),
{
}


/// Completion handling is quiet unless something failed: a cancelled or
/// stale result changes nothing and says nothing, and an error notice comes
/// only from a failed task or a failed operation.
pub proof fn law_only_failures_raise_errors(old: AppState, new: AppState, fx: Effects, r: AsyncResult)
    requires
        apply_result_post(old, new, fx, r),
    ensures
        (r.status is Cancelled || r.status is StaleDiscarded) ==> new == old && fx_none(fx),
        forall|i: int| 0 <= i < fx.notices@.len() && (#[trigger] fx.notices@[i]).error ==>
            (r.status is Failed || (r.status is Done && (r.payload matches Payload::OpDone(done) && !done.success))),
{
}

} // verus!
