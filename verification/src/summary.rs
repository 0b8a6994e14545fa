//! The Command panel: the live command line a command Select will run, with
//! the typed target and the chosen options filled in.

use vstd::prelude::*;
use crate::event::ResolverRequest;
use crate::mode::{CmdToken, Mode, OnConfirm, ResolveFill};
use crate::resolver::{absolute_spec, make_absolute};
use crate::select::{marked_strs, marked_values};
use crate::state::{AppState, views};
use crate::text::{owned, push_str};

verus! {

/// The target shown for an empty input: a placeholder naming the field.
pub open spec fn placeholder(fill: ResolveFill) -> Seq<char> {
    match fill {
        ResolveFill::Dst => "<dest>"@,
        ResolveFill::Path => "<name>"@,
    }
}

/// The target the typed input names: absolute against the directory.
pub open spec fn target_spec(input: Seq<char>, fill: ResolveFill, cwd: Seq<char>) -> Seq<char> {
    if input.len() == 0 { placeholder(fill) } else { absolute_spec(input, cwd) }
}

/// The words a request's optional source gives.
pub open spec fn src_words(t: ResolverRequest) -> Seq<Seq<char>> {
    match t.src {
        Some(s) => seq![s@],
        None => Seq::empty(),
    }
}

/// The words one token of the command skeleton stands for.
pub open spec fn token_words(tok: CmdToken, t: ResolverRequest, opts: Seq<Seq<char>>, target: Seq<char>) -> Seq<Seq<char>> {
    match tok {
        CmdToken::Lit(s) => seq![s@],
        CmdToken::Opts => opts,
        CmdToken::Src => src_words(t),
        CmdToken::Paths => views(t.paths@),
        CmdToken::Dst => seq![target],
        CmdToken::Path => seq![target],
    }
}

/// The words of the first `n` skeleton tokens.
pub open spec fn skeleton_words(toks: Seq<CmdToken>, n: int, t: ResolverRequest, opts: Seq<Seq<char>>, target: Seq<char>) -> Seq<Seq<char>>
    decreases n,
{
    if n <= 0 {
        Seq::empty()
    } else {
        skeleton_words(toks, n - 1, t, opts, target) + token_words(toks[n - 1], t, opts, target)
    }
}

/// The words of the command line: the skeleton filled in, or, with no
/// skeleton, the op followed by the options, the source, the paths and the
/// target.
pub open spec fn command_words(toks: Seq<CmdToken>, t: ResolverRequest, opts: Seq<Seq<char>>, target: Seq<char>) -> Seq<Seq<char>> {
    if toks.len() == 0 {
        seq![t.op@] + opts + src_words(t) + views(t.paths@) + seq![target]
    } else {
        skeleton_words(toks, toks.len() as int, t, opts, target)
    }
}

/// Words joined by single spaces.
pub open spec fn spaced(ws: Seq<Seq<char>>) -> Seq<char>
    decreases ws.len(),
{
    if ws.len() == 0 {
        Seq::empty()
    } else if ws.len() == 1 {
        ws[0]
    } else {
        spaced(ws.drop_last()) + " "@ + ws.last()
    }
}

/// The footer line: how to use the panel.
pub open spec fn footer(has_options: bool) -> Seq<char> {
    if has_options { "Space toggles an option · Enter runs"@ } else { "Enter runs"@ }
}

/// The Command panel's lines for a state: in a Select that resolves a
/// request, the command line (after `$ `), a blank line and the footer;
/// otherwise nothing.
pub open spec fn summary_spec(s: AppState) -> Seq<Seq<char>> {
    match s.modes@.last().mode {
        Mode::Select(spec) => match spec.on_confirm {
            OnConfirm::Resolve { template, fill } => {
                let input = match s.select { Some(sel) => sel.query@, None => Seq::empty() };
                let opts = match s.select {
                    Some(sel) => marked_strs(sel.results@, views(sel.marks@)),
                    None => Seq::empty(),
                };
                let has_options = match s.select { Some(sel) => sel.results@.len() > 0, None => false };
                let target = target_spec(input, fill, s.cwd@);
                seq!["$ "@ + spaced(command_words(spec.command_line@, template, opts, target)), Seq::empty(), footer(has_options)]
            }
            _ => Seq::empty(),
        },
        _ => Seq::empty(),
    }
}

/// `ws` with the views of `more` appended.
fn append_words(ws: &mut Vec<String>, more: &Vec<String>)
    ensures
        views(final(ws)@) == views(old(ws)@) + views(more@),
{
    let mut i: usize = 0;
    let ghost start = views(ws@);
    while i < more.len()
        invariant
            i <= more@.len(),
            views(ws@) == start + views(more@).take(i as int),
        decreases more@.len() - i,
    {
        let ghost before = views(ws@);
        ws.push(more[i].clone());
        assert(views(ws@) =~= before.push(more@[i as int]@));
        assert(views(more@).take(i + 1) =~= views(more@).take(i as int).push(more@[i as int]@));
        i = i + 1;
    }
    assert(views(more@).take(more@.len() as int) =~= views(more@));
}

/// One word appended.
fn push_word(ws: &mut Vec<String>, w: String)
    ensures
        views(final(ws)@) == views(old(ws)@).push(w@),
{
    let ghost before = views(ws@);
    ws.push(w);
    assert(views(ws@) =~= before.push(w@));
}

/// The source word, if the request has one.
fn push_src(ws: &mut Vec<String>, t: &ResolverRequest)
    ensures
        views(final(ws)@) == views(old(ws)@) + src_words(*t),
{
    match &t.src {
        Some(s) => {
            let ghost before = views(ws@);
            ws.push(s.clone());
            assert(views(ws@) =~= before + seq![s@]);
        }
        None => {
            assert(views(ws@) =~= views(ws@) + Seq::<Seq<char>>::empty());
        }
    }
}

/// The words joined by single spaces.
fn join_spaced(ws: &Vec<String>) -> (r: String)
    ensures
        r@ == spaced(views(ws@)),
{
    let ghost vw = views(ws@);
    let mut out = String::new();
    let mut i: usize = 0;
    assert(vw.take(0) =~= Seq::<Seq<char>>::empty());
    while i < ws.len()
        invariant
            i <= ws@.len(),
            vw == views(ws@),
            out@ == spaced(vw.take(i as int)),
        decreases ws@.len() - i,
    {
        assert(vw.take(i + 1).drop_last() =~= vw.take(i as int));
        assert(vw.take(i + 1).last() == vw[i as int]);
        if i > 0 {
            push_str(&mut out, " ");
        }
        push_str(&mut out, ws[i].as_str());
        proof {
            if i == 0 {
                assert(out@ =~= vw[0]);
            }
        }
        i = i + 1;
    }
    assert(vw.take(ws@.len() as int) =~= vw);
    out
}

/// The Command panel's lines: in a Select that resolves a request, the live
/// command line (`$ ` and its words), a blank line, and a footer that names
/// the option toggle when there are options; otherwise no lines.
pub fn command_summary(state: &AppState) -> (r: Vec<String>)
    requires
        state.modes@.len() >= 1,
    ensures
        views(r@) == summary_spec(*state),
{
    let (template, fill, toks) = match state.mode() {
        Mode::Select(spec) => match &spec.on_confirm {
            OnConfirm::Resolve { template, fill } => (template, *fill, &spec.command_line),
            _ => {
                let r: Vec<String> = Vec::new();
                assert(views(r@) =~= Seq::<Seq<char>>::empty());
                return r;
            }
        },
        _ => {
            let r: Vec<String> = Vec::new();
            assert(views(r@) =~= Seq::<Seq<char>>::empty());
            return r;
        }
    };
    let (input, opts, has_options) = match &state.select {
        Some(sel) => (sel.query.as_str(), marked_values(&sel.results, &sel.marks), sel.results.len() > 0),
        None => {
            let v: Vec<String> = Vec::new();
            assert(views(v@) =~= Seq::<Seq<char>>::empty());
            ("", v, false)
        }
    };
    proof { reveal_strlit(""); }
    let target = if input.is_empty() {
        match fill {
            ResolveFill::Dst => owned("<dest>"),
            ResolveFill::Path => owned("<name>"),
        }
    } else {
        make_absolute(input, state.cwd.as_str())
    };
    let ghost tg = target@;
    let ghost ov = views(opts@);
    let mut words: Vec<String> = Vec::new();
    if toks.len() == 0 {
        push_word(&mut words, template.op.clone());
        append_words(&mut words, &opts);
        push_src(&mut words, template);
        append_words(&mut words, &template.paths);
        push_word(&mut words, target);
        assert(views(words@) =~= seq![template.op@] + ov + src_words(*template) + views(template.paths@) + seq![tg]);
    } else {
        let mut k: usize = 0;
        assert(views(words@) =~= skeleton_words(toks@, 0, *template, ov, tg));
        while k < toks.len()
            invariant
                k <= toks@.len(),
                ov == views(opts@),
                tg == target@,
                views(words@) == skeleton_words(toks@, k as int, *template, ov, tg),
            decreases toks@.len() - k,
        {
            match &toks[k] {
                CmdToken::Lit(s) => push_word(&mut words, s.clone()),
                CmdToken::Opts => append_words(&mut words, &opts),
                CmdToken::Src => push_src(&mut words, template),
                CmdToken::Paths => append_words(&mut words, &template.paths),
                CmdToken::Dst => push_word(&mut words, target.clone()),
                CmdToken::Path => push_word(&mut words, target.clone()),
            }
            k = k + 1;
        }
    }
    let mut line = owned("$ ");
    let joined = join_spaced(&words);
    push_str(&mut line, joined.as_str());
    let foot = if has_options { owned("Space toggles an option · Enter runs") } else { owned("Enter runs") };
    let mut r: Vec<String> = Vec::new();
    r.push(line);
    r.push(String::new());
    r.push(foot);
    proof {
        reveal_strlit("");
    }
    assert(views(r@) =~= summary_spec(*state));
    r
}

} // verus!
