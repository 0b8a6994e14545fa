//! The resolver chain: turns a ResolverRequest (operation key + arguments)
//! into a concrete argv with placeholders expanded, plus the destructive flag
//! of the matched entry. Candidates fall back by OS match and by whether
//! their executable is runnable.

use vstd::prelude::*;
use crate::event::ResolverRequest;
use crate::mode::CmdToken;
use crate::path::{is_absolute, is_absolute_spec, join, path_join};
use crate::reducer::CommandLookup;
use crate::state::views;
use crate::text::{owned, str_eq};

verus! {

/// A placeholder slot in a candidate's argv.
#[derive(Debug, Clone, Copy, PartialEq, Eq, Structural)]
pub enum Slot {
    Src,
    Dst,
    Path,
    Paths,
    /// The request's chosen option tokens, in order.
    Opts,
}

/// A selectable command-line option declared on a resolver entry.
#[derive(Debug, Clone, PartialEq)]
pub struct OptDef {
    pub token: String,
    pub label: String,
}

#[derive(Debug, Clone, PartialEq)]
pub enum ArgEl {
    Lit(String),
    Ph(Slot),
}

/// The OS or tooling a candidate targets.
#[derive(Debug, Clone, Copy, PartialEq, Eq, Structural)]
pub enum Kind {
    Uutils,
    Native,
    NativeMacos,
    NativeLinux,
}

/// The operating system the chain resolves for.
#[derive(Debug, Clone, Copy, PartialEq, Eq, Structural)]
pub enum HostOs {
    Linux,
    Macos,
    Other,
}

pub open spec fn os_matches_spec(k: Kind, os: HostOs) -> bool {
    match k {
        Kind::Uutils | Kind::Native => true,
        Kind::NativeMacos => os == HostOs::Macos,
        Kind::NativeLinux => os == HostOs::Linux,
    }
}

impl Kind {
    pub fn os_matches(self, os: HostOs) -> (r: bool)
        ensures
            r == os_matches_spec(self, os),
    {
        match self {
            Kind::Uutils | Kind::Native => true,
            Kind::NativeMacos => os == HostOs::Macos,
            Kind::NativeLinux => os == HostOs::Linux,
        }
    }
}

#[derive(Debug, Clone, PartialEq)]
pub struct Candidate {
    pub kind: Kind,
    pub argv: Vec<ArgEl>,
}

#[derive(Debug, Clone, PartialEq)]
pub struct ResolverEntry {
    pub key: String,
    pub destructive: bool,
    /// Selectable options offered by the command Select for this operation.
    pub options: Vec<OptDef>,
    pub candidates: Vec<Candidate>,
}

/// The resolved, runnable command.
#[derive(Debug, Clone, PartialEq)]
pub struct ResolvedCommand {
    pub argv: Vec<String>,
    pub destructive: bool,
    pub label: String,
}

/// An argv element by its model.
pub enum ArgM {
    Lit(Seq<char>),
    Ph(Slot),
}

pub open spec fn arg_model(a: ArgEl) -> ArgM {
    match a {
        ArgEl::Lit(s) => ArgM::Lit(s@),
        ArgEl::Ph(p) => ArgM::Ph(p),
    }
}

pub open spec fn arg_models(s: Seq<ArgEl>) -> Seq<ArgM> {
    Seq::new(s.len(), |i: int| arg_model(s[i]))
}

/// The ordered chain of entries; later entries win on lookup.
pub struct ResolverChain {
    entries: Vec<ResolverEntry>,
    os: HostOs,
}

/// The index of the last entry keyed `op`.
pub open spec fn last_entry(es: Seq<ResolverEntry>, op: Seq<char>) -> Option<int>
    decreases es.len(),
{
    if es.len() == 0 {
        None
    } else if es.last().key@ == op {
        Some(es.len() - 1)
    } else {
        last_entry(es.drop_last(), op)
    }
}

/// The first candidate at or after `k` that targets `os`.
pub open spec fn first_os_match(cs: Seq<Candidate>, os: HostOs, k: int) -> Option<int>
    decreases cs.len() - k,
{
    if k < 0 || k >= cs.len() { None } else if os_matches_spec(cs[k].kind, os) { Some(k) } else { first_os_match(cs, os, k + 1) }
}

/// The first literal executable among the OS-matching candidates from `k`.
pub open spec fn first_literal(cs: Seq<Candidate>, os: HostOs, k: int) -> Option<Seq<char>>
    decreases cs.len() - k,
{
    if k < 0 || k >= cs.len() {
        None
    } else if os_matches_spec(cs[k].kind, os) && cs[k].argv@.len() > 0 && cs[k].argv@[0] is Lit {
        Some(cs[k].argv@[0]->Lit_0@)
    } else {
        first_literal(cs, os, k + 1)
    }
}

/// A relative path made absolute against `cwd`.
pub open spec fn absolute_spec(s: Seq<char>, cwd: Seq<char>) -> Seq<char> {
    if is_absolute_spec(s) { s } else { path_join(cwd, s) }
}

/// Expanding a template's first `n` elements for a request.
pub open spec fn expand_spec(t: Seq<ArgEl>, n: int, req: ResolverRequest, cwd: Seq<char>) -> Result<Seq<Seq<char>>, Seq<char>>
    decreases n,
{
    if n <= 0 || n > t.len() {
        Ok(Seq::empty())
    } else {
        match expand_spec(t, n - 1, req, cwd) {
            Err(e) => Err(e),
            Ok(out) => match t[n - 1] {
                ArgEl::Lit(s) => Ok(out.push(s@)),
                ArgEl::Ph(Slot::Src) => match req.src {
                    Some(s) => Ok(out.push(s@)),
                    None => Err("missing src"@),
                },
                ArgEl::Ph(Slot::Dst) => match req.dst {
                    Some(d) => Ok(out.push(absolute_spec(d@, cwd))),
                    None => Err("missing dst"@),
                },
                ArgEl::Ph(Slot::Path) => match req.path {
                    Some(p) => Ok(out.push(absolute_spec(p@, cwd))),
                    None => Err("missing path"@),
                },
                ArgEl::Ph(Slot::Paths) => if req.paths@.len() == 0 {
                    Err("no targets"@)
                } else {
                    Ok(out + views(req.paths@))
                },
                ArgEl::Ph(Slot::Opts) => Ok(out + views(req.opts@)),
            },
        }
    }
}

/// Expanding more of a template only appends to what the shorter part
/// expanded to.
proof fn lemma_expand_extends(t: Seq<ArgEl>, m: int, n: int, req: ResolverRequest, cwd: Seq<char>)
    requires
        0 <= m <= n <= t.len(),
        expand_spec(t, n, req, cwd) is Ok,
    ensures
        expand_spec(t, m, req, cwd) is Ok,
        expand_spec(t, m, req, cwd)->Ok_0.len() <= expand_spec(t, n, req, cwd)->Ok_0.len(),
        expand_spec(t, n, req, cwd)->Ok_0.take(expand_spec(t, m, req, cwd)->Ok_0.len() as int) == expand_spec(t, m, req, cwd)->Ok_0,
    decreases n - m,
{
    if m < n {
        let prev = expand_spec(t, n - 1, req, cwd);
        assert(prev is Ok);
        let o = prev->Ok_0;
        let on = expand_spec(t, n, req, cwd)->Ok_0;
        assert(o.len() <= on.len() && on.take(o.len() as int) =~= o);
        lemma_expand_extends(t, m, n - 1, req, cwd);
        let om = expand_spec(t, m, req, cwd)->Ok_0;
        assert(on.take(om.len() as int) =~= o.take(om.len() as int));
    } else {
        let on = expand_spec(t, n, req, cwd)->Ok_0;
        assert(on.take(on.len() as int) =~= on);
    }
}

/// Expanding a template that holds the paths placeholder puts every target
/// path of the request into the command line, in order and next to each
/// other.
pub proof fn law_paths_all_expanded(t: Seq<ArgEl>, req: ResolverRequest, cwd: Seq<char>, k: int, argv: Seq<Seq<char>>)
    requires
        0 <= k < t.len(),
        t[k] == ArgEl::Ph(Slot::Paths),
        expand_spec(t, t.len() as int, req, cwd) == Ok::<Seq<Seq<char>>, Seq<char>>(argv),
    ensures
        exists|off: int| 0 <= off && off + req.paths@.len() <= argv.len()
            && #[trigger] argv.subrange(off, off + req.paths@.len()) == views(req.paths@),
{
    lemma_expand_extends(t, k + 1, t.len() as int, req, cwd);
    lemma_expand_extends(t, k, k + 1, req, cwd);
    let ok = expand_spec(t, k, req, cwd)->Ok_0;
    let ok1 = expand_spec(t, k + 1, req, cwd)->Ok_0;
    assert(ok1 == ok + views(req.paths@));
    let off = ok.len() as int;
    let len = req.paths@.len() as int;
    assert(argv.take(ok1.len() as int) == ok1);
    assert(argv.subrange(off, off + len) =~= views(req.paths@)) by {
        assert forall|x: int| 0 <= x < len implies argv.subrange(off, off + len)[x] == views(req.paths@)[x] by {
            assert(argv[off + x] == argv.take(ok1.len() as int)[off + x]);
            assert(ok1[off + x] == views(req.paths@)[x]);
        }
    }
}

/// Picking the command among candidates `k..`: skip those for another OS
/// and those expanding to nothing; an expansion error is final; each other
/// candidate is asked whether its executable is runnable, consuming the next
/// of `answers`.
pub open spec fn pick_spec(cs: Seq<Candidate>, k: int, os: HostOs, req: ResolverRequest, cwd: Seq<char>, answers: Seq<bool>) -> Result<Seq<Seq<char>>, Seq<char>>
    decreases cs.len() - k,
{
    if k < 0 || k >= cs.len() {
        Err("no runnable candidate for "@ + req.op@)
    } else if !os_matches_spec(cs[k].kind, os) {
        pick_spec(cs, k + 1, os, req, cwd, answers)
    } else {
        match expand_spec(cs[k].argv@, cs[k].argv@.len() as int, req, cwd) {
            Err(e) => Err(e),
            Ok(argv) => if argv.len() == 0 {
                pick_spec(cs, k + 1, os, req, cwd, answers)
            } else if answers.len() > 0 && answers[0] {
                Ok(argv)
            } else {
                pick_spec(cs, k + 1, os, req, cwd, answers.drop_first())
            },
        }
    }
}

/// The executables that picking among candidates `k..` asks about, in
/// order, as it consumes `answers` (the walk of `pick_spec`).
pub open spec fn pick_asks(cs: Seq<Candidate>, k: int, os: HostOs, req: ResolverRequest, cwd: Seq<char>, answers: Seq<bool>) -> Seq<Seq<char>>
    decreases cs.len() - k,
{
    if k < 0 || k >= cs.len() {
        Seq::empty()
    } else if !os_matches_spec(cs[k].kind, os) {
        pick_asks(cs, k + 1, os, req, cwd, answers)
    } else {
        match expand_spec(cs[k].argv@, cs[k].argv@.len() as int, req, cwd) {
            Err(e) => Seq::empty(),
            Ok(argv) => if argv.len() == 0 {
                pick_asks(cs, k + 1, os, req, cwd, answers)
            } else if answers.len() > 0 && answers[0] {
                seq![argv[0]]
            } else {
                seq![argv[0]] + pick_asks(cs, k + 1, os, req, cwd, answers.drop_first())
            },
        }
    }
}

/// Each answer is one that `runnable` gave for the executable it was asked
/// about.
pub open spec fn answered_by<F: Fn(&str) -> bool>(runnable: F, asks: Seq<Seq<char>>, answers: Seq<bool>) -> bool {
    &&& asks.len() == answers.len()
    &&& forall|j: int| #![trigger asks[j]] 0 <= j < asks.len() ==> exists|x: &str| #![auto] x@ == asks[j] && call_ensures(runnable, (x,), answers[j])
}

proof fn lemma_answered_push<F: Fn(&str) -> bool>(runnable: F, asks: Seq<Seq<char>>, answers: Seq<bool>, x: &str, a: bool)
    requires
        answered_by(runnable, asks, answers),
        call_ensures(runnable, (x,), a),
    ensures
        answered_by(runnable, asks.push(x@), answers.push(a)),
{
    let qs = asks.push(x@);
    let ax = answers.push(a);
    assert forall|j: int| #![trigger qs[j]] 0 <= j < qs.len() implies exists|y: &str| #![auto] y@ == qs[j] && call_ensures(runnable, (y,), ax[j]) by {
        if j < asks.len() {
            assert(qs[j] == asks[j] && ax[j] == answers[j]);
        } else {
            assert(x@ == qs[j] && call_ensures(runnable, (x,), ax[j]));
        }
    }
}

impl ResolverChain {
    pub closed spec fn entries(&self) -> Seq<ResolverEntry> {
        self.entries@
    }

    pub closed spec fn host(&self) -> HostOs {
        self.os
    }

    /// An empty chain for the given OS.
    pub fn for_os(os: HostOs) -> (c: ResolverChain)
        ensures
            c.entries().len() == 0,
            c.host() == os,
    {
        ResolverChain { entries: Vec::new(), os }
    }

    /// An empty chain for an OS that is neither Linux nor macOS.
    pub fn new() -> (c: ResolverChain)
        ensures
            c.entries().len() == 0,
            c.host() == HostOs::Other,
    {
        ResolverChain { entries: Vec::new(), os: HostOs::Other }
    }

    /// Append entries (later wins on lookup).
    pub fn extend(&mut self, entries: Vec<ResolverEntry>)
        ensures
            final(self).entries() == old(self).entries() + entries@,
            final(self).host() == old(self).host(),
    {
        let mut es = entries;
        self.entries.append(&mut es);
    }

    fn lookup(&self, op: &str) -> (r: Option<&ResolverEntry>)
        ensures
            match last_entry(self.entries(), op@) {
                Some(i) => r == Some(&self.entries()[i]),
                None => r is None,
            },
    {
        let mut i = self.entries.len();
        assert(self.entries@.take(i as int) =~= self.entries@);
        while i > 0
            invariant
                i <= self.entries@.len(),
                last_entry(self.entries@, op@) == last_entry(self.entries@.take(i as int), op@),
            decreases i,
        {
            let ghost t = self.entries@.take(i as int);
            assert(t.drop_last() =~= self.entries@.take(i - 1));
            assert(t.last() == self.entries@[i - 1]);
            if str_eq(self.entries[i - 1].key.as_str(), op) {
                return Some(&self.entries[i - 1]);
            }
            i = i - 1;
        }
        None
    }

    /// Whether the operation's entry is marked destructive.
    pub fn is_destructive(&self, op: &str) -> (r: bool)
        ensures
            r == (match last_entry(self.entries(), op@) {
                Some(i) => self.entries()[i].destructive,
                None => false,
            }),
    {
        match self.lookup(op) {
            Some(e) => e.destructive,
            None => false,
        }
    }

    /// The selectable options declared for an operation.
    pub fn options(&self, op: &str) -> (r: Vec<OptDef>)
        ensures
            match last_entry(self.entries(), op@) {
                Some(i) => r@.len() == self.entries()[i].options@.len()
                    && forall|k: int| 0 <= k < r@.len() ==> (#[trigger] r@[k]).token@ == self.entries()[i].options@[k].token@
                        && r@[k].label@ == self.entries()[i].options@[k].label@,
                None => r@.len() == 0,
            },
    {
        let mut out: Vec<OptDef> = Vec::new();
        match self.lookup(op) {
            Some(e) => {
                let mut k: usize = 0;
                while k < e.options.len()
                    invariant
                        k <= e.options@.len(),
                        out@.len() == k,
                        forall|j: int| 0 <= j < k ==> (#[trigger] out@[j]).token@ == e.options@[j].token@ && out@[j].label@ == e.options@[j].label@,
                    decreases e.options@.len() - k,
                {
                    out.push(OptDef { token: e.options[k].token.clone(), label: e.options[k].label.clone() });
                    k = k + 1;
                }
                out
            }
            None => out,
        }
    }

    /// The executable an op resolves to: the first literal argv[0] among its
    /// OS-matching candidates.
    #[verifier::loop_isolation(false)]
    pub fn command_of(&self, op: &str) -> (r: Option<String>)
        ensures
            match last_entry(self.entries(), op@) {
                Some(i) => crate::path::opt_view(r) == first_literal(self.entries()[i].candidates@, self.host(), 0),
                None => r is None,
            },
    {
        let e = match self.lookup(op) {
            Some(e) => e,
            None => {
                return None;
            }
        };
        let mut k: usize = 0;
        while k < e.candidates.len()
            invariant
                k <= e.candidates@.len(),
                first_literal(e.candidates@, self.os, 0) == first_literal(e.candidates@, self.os, k as int),
            decreases e.candidates@.len() - k,
        {
            let c = &e.candidates[k];
            if c.kind.os_matches(self.os) && c.argv.len() > 0 {
                match &c.argv[0] {
                    ArgEl::Lit(s) => {
                        return Some(s.clone());
                    }
                    _ => {}
                }
            }
            k = k + 1;
        }
        None
    }

    /// The argv skeleton of the op's first OS-matching candidate.
    #[verifier::loop_isolation(false)]
    pub fn command_template(&self, op: &str) -> (r: Vec<ArgEl>)
        ensures
            match last_entry(self.entries(), op@) {
                Some(i) => match first_os_match(self.entries()[i].candidates@, self.host(), 0) {
                    Some(k) => arg_models(r@) == arg_models(self.entries()[i].candidates@[k].argv@),
                    None => r@.len() == 0,
                },
                None => r@.len() == 0,
            },
    {
        let e = match self.lookup(op) {
            Some(e) => e,
            None => {
                return Vec::new();
            }
        };
        let mut k: usize = 0;
        while k < e.candidates.len()
            invariant
                k <= e.candidates@.len(),
                first_os_match(e.candidates@, self.os, 0) == first_os_match(e.candidates@, self.os, k as int),
            decreases e.candidates@.len() - k,
        {
            if e.candidates[k].kind.os_matches(self.os) {
                return copy_args(&e.candidates[k].argv);
            }
            k = k + 1;
        }
        Vec::new()
    }

    /// Resolve a request into a runnable command; `cwd` makes a relative
    /// dst or path absolute, and `runnable` says whether an executable can be
    /// run (an absolute file, or one found on PATH).
    #[verifier::loop_isolation(false)]
    pub fn resolve<F: Fn(&str) -> bool>(&self, req: &ResolverRequest, cwd: &str, runnable: &F) -> (r: Result<ResolvedCommand, String>)
        requires
            forall|s: &str| runnable.requires((s,)),
        ensures
            match last_entry(self.entries(), req.op@) {
                None => r matches Err(e) && e@ == "unresolved operation: "@ + req.op@,
                Some(i) => exists|answers: Seq<bool>| {
                    &&& #[trigger] resolved_as(r, pick_spec(self.entries()[i].candidates@, 0, self.host(), *req, cwd@, answers), self.entries()[i].destructive, req.label@)
                    &&& answered_by(*runnable, pick_asks(self.entries()[i].candidates@, 0, self.host(), *req, cwd@, answers), answers)
                },
            },
    {
        let e = match self.lookup(req.op.as_str()) {
            Some(e) => e,
            None => {
                let mut m = "unresolved operation: ".to_owned();
                crate::text::push_str(&mut m, req.op.as_str());
                return Err(m);
            }
        };
        let ghost mut answers: Seq<bool> = Seq::empty();
        let ghost mut consumed: Seq<bool> = Seq::empty();
        let ghost mut asks: Seq<Seq<char>> = Seq::empty();
        let mut k: usize = 0;
        while k < e.candidates.len()
            invariant
                k <= e.candidates@.len(),
                forall|s: &str| runnable.requires((s,)),
                forall|tail: Seq<bool>| pick_spec(e.candidates@, 0, self.os, *req, cwd@, #[trigger] (consumed + tail))
                    == pick_spec(e.candidates@, k as int, self.os, *req, cwd@, tail),
                forall|tail: Seq<bool>| pick_asks(e.candidates@, 0, self.os, *req, cwd@, #[trigger] (consumed + tail))
                    == asks + pick_asks(e.candidates@, k as int, self.os, *req, cwd@, tail),
                answered_by(*runnable, asks, consumed),
            decreases e.candidates@.len() - k,
        {
            let c = &e.candidates[k];
            if c.kind.os_matches(self.os) {
                match expand(&c.argv, req, cwd) {
                    Err(err) => {
                        proof {
                            assert(pick_spec(e.candidates@, 0, self.os, *req, cwd@, consumed + Seq::<bool>::empty())
                                == pick_spec(e.candidates@, k as int, self.os, *req, cwd@, Seq::<bool>::empty()));
                            assert(resolved_as(Err(err), pick_spec(e.candidates@, 0, self.os, *req, cwd@, consumed + Seq::<bool>::empty()), e.destructive, req.label@));
                            assert(consumed + Seq::<bool>::empty() =~= consumed);
                            assert(pick_asks(e.candidates@, 0, self.os, *req, cwd@, consumed + Seq::<bool>::empty()) =~= asks);
                        }
                        return Err(err);
                    }
                    Ok(argv) => {
                        if argv.len() > 0 {
                            let exe: &str = argv[0].as_str();
                            let ok = runnable(exe);
                            assert(exe@ == argv@[0]@);
                            if ok {
                                proof {
                                    let w = consumed + seq![true];
                                    assert(pick_spec(e.candidates@, 0, self.os, *req, cwd@, consumed + seq![true])
                                        == pick_spec(e.candidates@, k as int, self.os, *req, cwd@, seq![true]));
                                }
                                let cmd = ResolvedCommand { argv, destructive: e.destructive, label: req.label.clone() };
                                proof {
                                    assert(resolved_as(Ok(cmd), pick_spec(e.candidates@, 0, self.os, *req, cwd@, consumed + seq![true]), e.destructive, req.label@));
                                    let ax = consumed + seq![true];
                                    let qs = asks.push(argv@[0]@);
                                    assert(pick_asks(e.candidates@, k as int, self.os, *req, cwd@, seq![true]) =~= seq![argv@[0]@]);
                                    assert(pick_asks(e.candidates@, 0, self.os, *req, cwd@, ax) =~= qs);
                                    lemma_answered_push(*runnable, asks, consumed, exe, true);
                                    assert(ax =~= consumed.push(true));
                                }
                                return Ok(cmd);
                            }
                            proof {
                                assert forall|tail: Seq<bool>| pick_spec(e.candidates@, 0, self.os, *req, cwd@, #[trigger] ((consumed + seq![false]) + tail))
                                    == pick_spec(e.candidates@, k + 1, self.os, *req, cwd@, tail) by {
                                    assert((consumed + seq![false]) + tail =~= consumed + (seq![false] + tail));
                                    assert((seq![false] + tail).drop_first() =~= tail);
                                }
                                assert forall|tail: Seq<bool>| pick_asks(e.candidates@, 0, self.os, *req, cwd@, #[trigger] ((consumed + seq![false]) + tail))
                                    == asks.push(argv@[0]@) + pick_asks(e.candidates@, k + 1, self.os, *req, cwd@, tail) by {
                                    assert((consumed + seq![false]) + tail =~= consumed + (seq![false] + tail));
                                    assert((seq![false] + tail).drop_first() =~= tail);
                                    assert(asks + pick_asks(e.candidates@, k as int, self.os, *req, cwd@, seq![false] + tail)
                                        =~= asks.push(argv@[0]@) + pick_asks(e.candidates@, k + 1, self.os, *req, cwd@, tail));
                                }
                                let ax = consumed + seq![false];
                                let qs = asks.push(argv@[0]@);
                                lemma_answered_push(*runnable, asks, consumed, exe, false);
                                assert(ax =~= consumed.push(false));
                                consumed = ax;
                                asks = qs;
                            }
                        }
                    }
                }
            }
            k = k + 1;
        }
        let mut m = "no runnable candidate for ".to_owned();
        crate::text::push_str(&mut m, req.op.as_str());
        proof {
            assert(pick_spec(e.candidates@, 0, self.os, *req, cwd@, consumed + Seq::<bool>::empty())
                == pick_spec(e.candidates@, k as int, self.os, *req, cwd@, Seq::<bool>::empty()));
            assert(resolved_as(Err(m), pick_spec(e.candidates@, 0, self.os, *req, cwd@, consumed + Seq::<bool>::empty()), e.destructive, req.label@));
            assert(consumed + Seq::<bool>::empty() =~= consumed);
            assert(pick_asks(e.candidates@, 0, self.os, *req, cwd@, consumed + Seq::<bool>::empty()) =~= asks);
        }
        Err(m)
    }
}

/// The resolution result matches a picked argv (or error) with the entry's
/// destructive flag and the request's label.
pub open spec fn resolved_as(r: Result<ResolvedCommand, String>, picked: Result<Seq<Seq<char>>, Seq<char>>, destructive: bool, label: Seq<char>) -> bool {
    match (r, picked) {
        (Ok(c), Ok(argv)) => views(c.argv@) == argv && c.destructive == destructive && c.label@ == label,
        (Err(e), Err(m)) => e@ == m,
        _ => false,
    }
}

fn copy_args(a: &Vec<ArgEl>) -> (r: Vec<ArgEl>)
    ensures
        arg_models(r@) == arg_models(a@),
{
    let mut out: Vec<ArgEl> = Vec::new();
    let mut i: usize = 0;
    while i < a.len()
        invariant
            i <= a@.len(),
            arg_models(out@) =~= arg_models(a@).take(i as int),
        decreases a@.len() - i,
    {
        let e = match &a[i] {
            ArgEl::Lit(s) => ArgEl::Lit(s.clone()),
            ArgEl::Ph(p) => ArgEl::Ph(*p),
        };
        let ghost before = arg_models(out@);
        out.push(e);
        assert(arg_models(out@) =~= before.push(arg_model(a@[i as int])));
        i = i + 1;
    }
    assert(arg_models(a@).take(i as int) =~= arg_models(a@));
    out
}

/// A relative path made absolute against `cwd`.
pub fn make_absolute(s: &str, cwd: &str) -> (r: String)
    ensures
        r@ == absolute_spec(s@, cwd@),
{
    if is_absolute(s) { owned(s) } else { join(cwd, s) }
}

/// Expand a template's placeholders from a request.
#[verifier::loop_isolation(false)]
pub fn expand(template: &Vec<ArgEl>, req: &ResolverRequest, cwd: &str) -> (r: Result<Vec<String>, String>)
    ensures
        match r {
            Ok(v) => expand_spec(template@, template@.len() as int, *req, cwd@) == Ok::<Seq<Seq<char>>, Seq<char>>(views(v@)),
            Err(e) => expand_spec(template@, template@.len() as int, *req, cwd@) == Err::<Seq<Seq<char>>, Seq<char>>(e@),
        },
{
    let mut out: Vec<String> = Vec::new();
    let mut k: usize = 0;
    assert(views(out@) =~= Seq::<Seq<char>>::empty());
    while k < template.len()
        invariant
            k <= template@.len(),
            expand_spec(template@, k as int, *req, cwd@) == Ok::<Seq<Seq<char>>, Seq<char>>(views(out@)),
        decreases template@.len() - k,
    {
        let ghost before = views(out@);
        match &template[k] {
            ArgEl::Lit(s) => {
                out.push(s.clone());
                assert(views(out@) =~= before.push(s@));
            }
            ArgEl::Ph(Slot::Src) => match &req.src {
                Some(s) => {
                    out.push(s.clone());
                    assert(views(out@) =~= before.push(s@));
                }
                None => {
                    proof { lemma_expand_err_stays(template@, k as int + 1, *req, cwd@); }
                    return Err("missing src".to_owned());
                }
            },
            ArgEl::Ph(Slot::Dst) => match &req.dst {
                Some(d) => {
                    let a = make_absolute(d.as_str(), cwd);
                    out.push(a);
                    assert(views(out@) =~= before.push(absolute_spec(d@, cwd@)));
                }
                None => {
                    proof { lemma_expand_err_stays(template@, k as int + 1, *req, cwd@); }
                    return Err("missing dst".to_owned());
                }
            },
            ArgEl::Ph(Slot::Path) => match &req.path {
                Some(p) => {
                    let a = make_absolute(p.as_str(), cwd);
                    out.push(a);
                    assert(views(out@) =~= before.push(absolute_spec(p@, cwd@)));
                }
                None => {
                    proof { lemma_expand_err_stays(template@, k as int + 1, *req, cwd@); }
                    return Err("missing path".to_owned());
                }
            },
            ArgEl::Ph(Slot::Paths) => {
                if req.paths.len() == 0 {
                    proof { lemma_expand_err_stays(template@, k as int + 1, *req, cwd@); }
                    return Err("no targets".to_owned());
                }
                let mut j: usize = 0;
                while j < req.paths.len()
                    invariant
                        j <= req.paths@.len(),
                        views(out@) =~= before + views(req.paths@).take(j as int),
                    decreases req.paths@.len() - j,
                {
                    let ghost o = out@;
                    out.push(req.paths[j].clone());
                    assert(views(out@) =~= views(o).push(req.paths@[j as int]@));
                    assert(views(req.paths@).take(j + 1) =~= views(req.paths@).take(j as int).push(req.paths@[j as int]@));
                    j = j + 1;
                }
                assert(views(req.paths@).take(j as int) =~= views(req.paths@));
            }
            ArgEl::Ph(Slot::Opts) => {
                let mut j: usize = 0;
                while j < req.opts.len()
                    invariant
                        j <= req.opts@.len(),
                        views(out@) =~= before + views(req.opts@).take(j as int),
                    decreases req.opts@.len() - j,
                {
                    let ghost o = out@;
                    out.push(req.opts[j].clone());
                    assert(views(out@) =~= views(o).push(req.opts@[j as int]@));
                    assert(views(req.opts@).take(j + 1) =~= views(req.opts@).take(j as int).push(req.opts@[j as int]@));
                    j = j + 1;
                }
                assert(views(req.opts@).take(j as int) =~= views(req.opts@));
            }
        }
        k = k + 1;
    }
    Ok(out)
}

proof fn lemma_expand_err_stays(t: Seq<ArgEl>, k: int, req: ResolverRequest, cwd: Seq<char>)
    requires
        1 <= k <= t.len(),
        expand_spec(t, k, req, cwd) is Err,
    ensures
        expand_spec(t, t.len() as int, req, cwd) == expand_spec(t, k, req, cwd),
    decreases t.len() - k,
{
    if k < t.len() {
        lemma_expand_err_stays(t, k + 1, req, cwd);
    }
}

/// An option by its texts.
pub open spec fn opt_model(o: OptDef) -> (Seq<char>, Seq<char>) {
    (o.token@, o.label@)
}

/// An entry by its models: key, destructive flag, options, candidates.
pub open spec fn entry_model(e: ResolverEntry) -> (Seq<char>, bool, Seq<(Seq<char>, Seq<char>)>, Seq<(Kind, Seq<ArgM>)>) {
    (
        e.key@,
        e.destructive,
        Seq::new(e.options@.len(), |i: int| opt_model(e.options@[i])),
        Seq::new(e.candidates@.len(), |i: int| (e.candidates@[i].kind, arg_models(e.candidates@[i].argv@))),
    )
}

/// The default resolver entries.
pub open spec fn default_entries() -> Seq<(Seq<char>, bool, Seq<(Seq<char>, Seq<char>)>, Seq<(Kind, Seq<ArgM>)>)> {
    let verbose = seq![("-v"@, "verbose"@), ("-n"@, "no-clobber"@)];
    seq![
        ("copy"@, false, verbose, seq![(Kind::Native, seq![ArgM::Lit("cp"@), ArgM::Lit("-R"@), ArgM::Ph(Slot::Opts), ArgM::Ph(Slot::Paths), ArgM::Ph(Slot::Dst)])]),
        ("move"@, false, verbose, seq![(Kind::Native, seq![ArgM::Lit("mv"@), ArgM::Ph(Slot::Opts), ArgM::Ph(Slot::Paths), ArgM::Ph(Slot::Dst)])]),
        ("delete"@, true, Seq::empty(), seq![(Kind::Native, seq![ArgM::Lit("rm"@), ArgM::Lit("-rf"@), ArgM::Ph(Slot::Paths)])]),
        ("rename"@, false, Seq::empty(), seq![(Kind::Native, seq![ArgM::Lit("mv"@), ArgM::Ph(Slot::Src), ArgM::Ph(Slot::Dst)])]),
        ("mkdir"@, false, Seq::empty(), seq![(Kind::Native, seq![ArgM::Lit("mkdir"@), ArgM::Lit("-p"@), ArgM::Ph(Slot::Path)])]),
        ("touch"@, false, Seq::empty(), seq![(Kind::Native, seq![ArgM::Lit("touch"@), ArgM::Ph(Slot::Path)])]),
        ("open"@, false, Seq::empty(), seq![
            (Kind::NativeMacos, seq![ArgM::Lit("open"@), ArgM::Ph(Slot::Path)]),
            (Kind::NativeLinux, seq![ArgM::Lit("xdg-open"@), ArgM::Ph(Slot::Path)]),
        ]),
    ]
}

fn lit(s: &str) -> (a: ArgEl)
    ensures
        arg_model(a) == ArgM::Lit(s@),
{
    ArgEl::Lit(owned(s))
}

fn opt(token: &str, label: &str) -> (o: OptDef)
    ensures
        opt_model(o) == (token@, label@),
{
    OptDef { token: owned(token), label: owned(label) }
}

fn cand(kind: Kind, argv: Vec<ArgEl>) -> (c: Candidate)
    ensures
        c.kind == kind,
        c.argv == argv,
{
    Candidate { kind, argv }
}

fn entry(key: &str, destructive: bool, options: Vec<OptDef>, candidates: Vec<Candidate>) -> (e: ResolverEntry)
    ensures
        e.key@ == key@,
        e.destructive == destructive,
        e.options == options,
        e.candidates == candidates,
{
    ResolverEntry { key: owned(key), destructive, options, candidates }
}

/// The embedded default resolver entries.
pub fn defaults() -> (r: Vec<ResolverEntry>)
    ensures
        r@.len() == default_entries().len(),
        forall|i: int| 0 <= i < r@.len() ==> entry_model(#[trigger] r@[i]) == default_entries()[i],
{
    let copy_argv = vec![lit("cp"), lit("-R"), ArgEl::Ph(Slot::Opts), ArgEl::Ph(Slot::Paths), ArgEl::Ph(Slot::Dst)];
    let move_argv = vec![lit("mv"), ArgEl::Ph(Slot::Opts), ArgEl::Ph(Slot::Paths), ArgEl::Ph(Slot::Dst)];
    let delete_argv = vec![lit("rm"), lit("-rf"), ArgEl::Ph(Slot::Paths)];
    let rename_argv = vec![lit("mv"), ArgEl::Ph(Slot::Src), ArgEl::Ph(Slot::Dst)];
    let mkdir_argv = vec![lit("mkdir"), lit("-p"), ArgEl::Ph(Slot::Path)];
    let touch_argv = vec![lit("touch"), ArgEl::Ph(Slot::Path)];
    let open_mac = vec![lit("open"), ArgEl::Ph(Slot::Path)];
    let open_linux = vec![lit("xdg-open"), ArgEl::Ph(Slot::Path)];
    proof {
        assert(arg_models(copy_argv@) =~= default_entries()[0].3[0].1);
        assert(arg_models(move_argv@) =~= default_entries()[1].3[0].1);
        assert(arg_models(delete_argv@) =~= default_entries()[2].3[0].1);
        assert(arg_models(rename_argv@) =~= default_entries()[3].3[0].1);
        assert(arg_models(mkdir_argv@) =~= default_entries()[4].3[0].1);
        assert(arg_models(touch_argv@) =~= default_entries()[5].3[0].1);
        assert(arg_models(open_mac@) =~= default_entries()[6].3[0].1);
        assert(arg_models(open_linux@) =~= default_entries()[6].3[1].1);
    }
    let copy_opts = vec![opt("-v", "verbose"), opt("-n", "no-clobber")];
    let move_opts = vec![opt("-v", "verbose"), opt("-n", "no-clobber")];
    let e0 = entry("copy", false, copy_opts, vec![cand(Kind::Native, copy_argv)]);
    let e1 = entry("move", false, move_opts, vec![cand(Kind::Native, move_argv)]);
    let e2 = entry("delete", true, Vec::new(), vec![cand(Kind::Native, delete_argv)]);
    let e3 = entry("rename", false, Vec::new(), vec![cand(Kind::Native, rename_argv)]);
    let e4 = entry("mkdir", false, Vec::new(), vec![cand(Kind::Native, mkdir_argv)]);
    let e5 = entry("touch", false, Vec::new(), vec![cand(Kind::Native, touch_argv)]);
    let e6 = entry("open", false, Vec::new(), vec![cand(Kind::NativeMacos, open_mac), cand(Kind::NativeLinux, open_linux)]);
    proof {
        assert(entry_model(e0).2 =~= default_entries()[0].2);
        assert(entry_model(e0).3 =~= default_entries()[0].3);
        assert(entry_model(e1).2 =~= default_entries()[1].2);
        assert(entry_model(e1).3 =~= default_entries()[1].3);
        assert(entry_model(e2).2 =~= default_entries()[2].2);
        assert(entry_model(e2).3 =~= default_entries()[2].3);
        assert(entry_model(e3).2 =~= default_entries()[3].2);
        assert(entry_model(e3).3 =~= default_entries()[3].3);
        assert(entry_model(e4).2 =~= default_entries()[4].2);
        assert(entry_model(e4).3 =~= default_entries()[4].3);
        assert(entry_model(e5).2 =~= default_entries()[5].2);
        assert(entry_model(e5).3 =~= default_entries()[5].3);
        assert(entry_model(e6).2 =~= default_entries()[6].2);
        assert(entry_model(e6).3 =~= default_entries()[6].3);
    }
    vec![e0, e1, e2, e3, e4, e5, e6]
}

/// A command-line skeleton token for an argv element.
pub open spec fn token_of(a: ArgM, t: CmdToken) -> bool {
    match a {
        ArgM::Lit(s) => t matches CmdToken::Lit(x) && x@ == s,
        ArgM::Ph(Slot::Opts) => t == CmdToken::Opts,
        ArgM::Ph(Slot::Src) => t == CmdToken::Src,
        ArgM::Ph(Slot::Paths) => t == CmdToken::Paths,
        ArgM::Ph(Slot::Dst) => t == CmdToken::Dst,
        ArgM::Ph(Slot::Path) => t == CmdToken::Path,
    }
}

/// The command-line skeleton for an argv template.
pub fn tokens_of(argv: &Vec<ArgEl>) -> (r: Vec<CmdToken>)
    ensures
        r@.len() == argv@.len(),
        forall|i: int| 0 <= i < r@.len() ==> token_of(arg_model(argv@[i]), #[trigger] r@[i]),
{
    let mut out: Vec<CmdToken> = Vec::new();
    let mut i: usize = 0;
    while i < argv.len()
        invariant
            i <= argv@.len(),
            out@.len() == i,
            forall|k: int| 0 <= k < i ==> token_of(arg_model(argv@[k]), #[trigger] out@[k]),
        decreases argv@.len() - i,
    {
        let t = match &argv[i] {
            ArgEl::Lit(s) => CmdToken::Lit(s.clone()),
            ArgEl::Ph(Slot::Opts) => CmdToken::Opts,
            ArgEl::Ph(Slot::Src) => CmdToken::Src,
            ArgEl::Ph(Slot::Paths) => CmdToken::Paths,
            ArgEl::Ph(Slot::Dst) => CmdToken::Dst,
            ArgEl::Ph(Slot::Path) => CmdToken::Path,
        };
        out.push(t);
        i = i + 1;
    }
    out
}

} // verus!
