//! The `:when` condition evaluator: a closed grammar of registered
//! predicates combined with and/or/not, parsed once into an AST and evaluated
//! per keypress. Unknown predicates are false.

use vstd::prelude::*;
use crate::mode::{Mode, SubLayout};
use crate::state::{AppState, SelectPhase};
use crate::text::{ends_with, is_suffix, lowercase, owned, str_eq, to_lowercase};

verus! {

/// A condition AST.
#[derive(Debug, PartialEq)]
pub enum Cond {
    Always,
    Pred(String),
    Not(Box<Cond>),
    And(Vec<Cond>),
    Or(Vec<Cond>),
}

impl Cond {
    pub fn pred(name: &str) -> (c: Cond)
        ensures
            c matches Cond::Pred(n) && n@ == name@,
    {
        Cond::Pred(owned(name))
    }

    pub fn not(c: Cond) -> (r: Cond)
        ensures
            r == Cond::Not(Box::new(c)),
    {
        Cond::Not(Box::new(c))
    }
}

/// The mathematical value of a condition.
pub enum CondM {
    Always,
    Pred(Seq<char>),
    Not(Box<CondM>),
    And(Seq<CondM>),
    Or(Seq<CondM>),
}

pub open spec fn cm(c: Cond) -> CondM
    decreases c,
{
    match c {
        Cond::Always => CondM::Always,
        Cond::Pred(n) => CondM::Pred(n@),
        Cond::Not(b) => CondM::Not(Box::new(cm(*b))),
        Cond::And(cs) => CondM::And(Seq::new(cs@.len(), |i: int| if 0 <= i < cs@.len() { cm(cs@[i]) } else { CondM::Always })),
        Cond::Or(cs) => CondM::Or(Seq::new(cs@.len(), |i: int| if 0 <= i < cs@.len() { cm(cs@[i]) } else { CondM::Always })),
    }
}

impl Cond {
    /// A copy with the same model.
    #[verifier::loop_isolation(false)]
    pub fn dup(&self) -> (r: Cond)
        ensures
            cm(r) == cm(*self),
        decreases self,
    {
        match self {
            Cond::Always => Cond::Always,
            Cond::Pred(n) => Cond::Pred(n.clone()),
            Cond::Not(b) => Cond::Not(Box::new((**b).dup())),
            Cond::And(cs) | Cond::Or(cs) => {
                let mut out: Vec<Cond> = Vec::new();
                let mut k: usize = 0;
                while k < cs.len()
                    invariant
                        k <= cs@.len(),
                        out@.len() == k,
                        forall|j: int| 0 <= j < k ==> cm(#[trigger] out@[j]) == cm(cs@[j]),
                    decreases cs@.len() - k,
                {
                    proof {
                        broadcast use vstd::std_specs::vec::axiom_vec_index_decreases;
                        assert(decreases_to!(*self => cs@[k as int]));
                    }
                    out.push(cs[k].dup());
                    k = k + 1;
                }
                let r = match self {
                    Cond::And(_) => Cond::And(out),
                    _ => Cond::Or(out),
                };
                proof {
                    if r is And {
                        assert(cm(r)->And_0 =~= cm(*self)->And_0);
                    } else {
                        assert(cm(r)->Or_0 =~= cm(*self)->Or_0);
                    }
                }
                r
            }
        }
    }
}

impl Clone for Cond {
    fn clone(&self) -> (r: Cond)
        ensures
            cm(r) == cm(*self),
    {
        self.dup()
    }
}

/// The predicates a name can be registered for.
#[derive(Debug, Clone, Copy, PartialEq, Eq, Structural)]
pub enum Predicate {
    HasSelection,
    CursorIsDir,
    CursorIsFile,
    SelectPhaseNavigate,
    SelectPhaseInput,
    SublayoutContent,
    SublayoutExec,
    FunctionVisible,
    ModeFile,
    /// The cursor entry's name has an archive extension.
    CursorIsArchive,
    /// The content search input is open.
    FunctionSearching,
    /// The content search holds matches.
    FunctionHasMatches,
}

/// The archive name suffixes, lowercase.
pub open spec fn archive_suffixes() -> Seq<Seq<char>> {
    seq![".tar"@, ".tar.gz"@, ".tgz"@, ".tar.bz2"@, ".tbz"@, ".tar.xz"@, ".txz"@, ".gz"@, ".bz2"@, ".xz"@]
}

/// A file name with an archive extension (case-insensitively).
pub open spec fn is_archive_name_spec(name: Seq<char>) -> bool {
    exists|i: int| 0 <= i < archive_suffixes().len() && is_suffix(#[trigger] archive_suffixes()[i], lowercase(name))
}

pub fn is_archive_name(name: &str) -> (r: bool)
    ensures
        r == is_archive_name_spec(name@),
{
    let n = to_lowercase(name);
    let suffixes = [".tar", ".tar.gz", ".tgz", ".tar.bz2", ".tbz", ".tar.xz", ".txz", ".gz", ".bz2", ".xz"];
    proof {
        reveal_strlit(".tar");
        reveal_strlit(".tar.gz");
        reveal_strlit(".tgz");
        reveal_strlit(".tar.bz2");
        reveal_strlit(".tbz");
        reveal_strlit(".tar.xz");
        reveal_strlit(".txz");
        reveal_strlit(".gz");
        reveal_strlit(".bz2");
        reveal_strlit(".xz");
    }
    let ghost sv = archive_suffixes();
    assert(suffixes@.len() == 10);
    assert(forall|i: int| 0 <= i < 10 ==> (#[trigger] suffixes@[i])@ == sv[i]);
    let mut i: usize = 0;
    while i < 10
        invariant
            i <= 10,
            n@ == lowercase(name@),
            sv == archive_suffixes(),
            forall|k: int| 0 <= k < 10 ==> (#[trigger] suffixes@[k])@ == sv[k],
            forall|k: int| 0 <= k < i ==> !is_suffix(#[trigger] sv[k], n@),
        decreases 10 - i,
    {
        if ends_with(n.as_str(), suffixes[i]) {
            return true;
        }
        i = i + 1;
    }
    false
}

/// What a predicate says of a state.
pub open spec fn holds(p: Predicate, s: AppState) -> bool {
    match p {
        Predicate::HasSelection => s.selection@.len() > 0,
        Predicate::CursorIsDir => s.cursor < s.entries@.len() && s.entries@[s.cursor as int].is_dir,
        Predicate::CursorIsFile => s.cursor < s.entries@.len() && !s.entries@[s.cursor as int].is_dir,
        Predicate::SelectPhaseNavigate => s.select matches Some(x) && x.phase == SelectPhase::Navigate,
        Predicate::SelectPhaseInput => s.select matches Some(x) && x.phase == SelectPhase::Input,
        Predicate::SublayoutContent => s.function.sublayout == SubLayout::Content,
        Predicate::SublayoutExec => s.function.sublayout == SubLayout::Exec,
        Predicate::FunctionVisible => s.function.visible,
        Predicate::ModeFile => s.modes@.len() >= 1 && s.modes@.last().mode is File,
        Predicate::CursorIsArchive => s.cursor < s.entries@.len() && is_archive_name_spec(s.entries@[s.cursor as int].name@),
        Predicate::FunctionSearching => s.function.search.input_active,
        Predicate::FunctionHasMatches => s.function.search.matches@.len() > 0,
    }
}

pub fn eval_predicate(p: Predicate, s: &AppState) -> (r: bool)
    ensures
        r == holds(p, *s),
{
    match p {
        Predicate::HasSelection => s.selection.len() > 0,
        Predicate::CursorIsDir => s.cursor < s.entries.len() && s.entries[s.cursor].is_dir,
        Predicate::CursorIsFile => s.cursor < s.entries.len() && !s.entries[s.cursor].is_dir,
        Predicate::SelectPhaseNavigate => match &s.select {
            Some(x) => x.phase == SelectPhase::Navigate,
            None => false,
        },
        Predicate::SelectPhaseInput => match &s.select {
            Some(x) => x.phase == SelectPhase::Input,
            None => false,
        },
        Predicate::SublayoutContent => s.function.sublayout == SubLayout::Content,
        Predicate::SublayoutExec => s.function.sublayout == SubLayout::Exec,
        Predicate::FunctionVisible => s.function.visible,
        Predicate::ModeFile => {
            if s.modes.len() >= 1 {
                match &s.modes[s.modes.len() - 1].mode {
                    Mode::File => true,
                    _ => false,
                }
            } else {
                false
            }
        }
        Predicate::CursorIsArchive => s.cursor < s.entries.len() && is_archive_name(s.entries[s.cursor].name.as_str()),
        Predicate::FunctionSearching => s.function.search.input_active,
        Predicate::FunctionHasMatches => s.function.search.matches.len() > 0,
    }
}

/// The predicate registered under `name` (the earliest entry with that name).
pub open spec fn lookup(preds: Seq<(Seq<char>, Predicate)>, name: Seq<char>) -> Option<Predicate>
    decreases preds.len(),
{
    if preds.len() == 0 {
        None
    } else if preds[0].0 == name {
        Some(preds[0].1)
    } else {
        lookup(preds.drop_first(), name)
    }
}

/// A condition's truth; an unknown predicate is false.
pub open spec fn eval_spec(preds: Seq<(Seq<char>, Predicate)>, c: CondM, s: AppState) -> bool
    decreases c, cond_rank(c),
{
    match c {
        CondM::Always => true,
        CondM::Pred(n) => match lookup(preds, n) {
            Some(p) => holds(p, s),
            None => false,
        },
        CondM::Not(b) => !eval_spec(preds, *b, s),
        CondM::And(cs) => eval_all(preds, c, cs.len() as int, s),
        CondM::Or(cs) => eval_any(preds, c, cs.len() as int, s),
    }
}

pub open spec fn cond_rank(c: CondM) -> int {
    match c {
        CondM::And(cs) => cs.len() as int + 1,
        CondM::Or(cs) => cs.len() as int + 1,
        _ => 0,
    }
}

/// All of the first `n` operands of an And hold.
pub open spec fn eval_all(preds: Seq<(Seq<char>, Predicate)>, c: CondM, n: int, s: AppState) -> bool
    decreases c, if n > 0 { n } else { 0 },
{
    match c {
        CondM::And(cs) => if n <= 0 || n > cs.len() {
            true
        } else {
            eval_all(preds, c, n - 1, s) && eval_spec(preds, cs[n - 1], s)
        },
        _ => true,
    }
}

/// Some of the first `n` operands of an Or holds.
pub open spec fn eval_any(preds: Seq<(Seq<char>, Predicate)>, c: CondM, n: int, s: AppState) -> bool
    decreases c, if n > 0 { n } else { 0 },
{
    match c {
        CondM::Or(cs) => if n <= 0 || n > cs.len() {
            false
        } else {
            eval_any(preds, c, n - 1, s) || eval_spec(preds, cs[n - 1], s)
        },
        _ => false,
    }
}

/// No name is registered twice.
pub open spec fn names_distinct(t: Seq<(Seq<char>, Predicate)>) -> bool {
    forall|i: int, j: int| 0 <= i < j < t.len() ==> #[trigger] t[i].0 != #[trigger] t[j].0
}

/// The predicate registry.
pub struct Conditions {
    preds: Vec<(String, Predicate)>,
}

impl Conditions {
    /// The registered (name, predicate) pairs.
    pub closed spec fn table(&self) -> Seq<(Seq<char>, Predicate)> {
        Seq::new(self.preds@.len(), |i: int| (self.preds@[i].0@, self.preds@[i].1))
    }

    /// An empty registry.
    pub fn empty() -> (c: Conditions)
        ensures
            c.table().len() == 0,
            names_distinct(c.table()),
    {
        let c = Conditions { preds: Vec::new() };
        assert(c.table() =~= Seq::<(Seq<char>, Predicate)>::empty());
        c
    }

    /// Register a named predicate; a name registered again is replaced, so
    /// no name is ever held twice.
    pub fn register(&mut self, name: &str, p: Predicate)
        ensures
            forall|n: Seq<char>| lookup(final(self).table(), n) == (if n == name@ { Some(p) } else { lookup(old(self).table(), n) }),
            names_distinct(old(self).table()) ==> names_distinct(final(self).table()),
    {
        let ghost t0 = self.table();
        let mut i: usize = 0;
        while i < self.preds.len()
            invariant
                i <= self.preds@.len(),
                t0 == self.table(),
                t0 == old(self).table(),
                forall|k: int| 0 <= k < i ==> (#[trigger] self.preds@[k]).0@ != name@,
            decreases self.preds@.len() - i,
        {
            if str_eq(self.preds[i].0.as_str(), name) {
                assert forall|k: int| 0 <= k < i implies (#[trigger] t0[k]).0 != name@ by {
                    assert(t0[k].0 == self.preds@[k].0@);
                }
                self.preds.set(i, (owned(name), p));
                proof {
                    assert(self.table() =~= t0.update(i as int, (name@, p)));
                    assert(t0[i as int].0 == name@);
                    assert forall|a: int, b: int| 0 <= a < b < self.table().len() && names_distinct(t0) implies #[trigger] self.table()[a].0 != #[trigger] self.table()[b].0 by {
                        assert(self.table()[a].0 == t0[a].0 && self.table()[b].0 == t0[b].0);
                    }
                    assert forall|n: Seq<char>| lookup(self.table(), n) == (if n == name@ { Some(p) } else { lookup(t0, n) }) by {
                        lemma_lookup_update(t0, i as int, name@, p, n);
                    }
                }
                return;
            }
            i = i + 1;
        }
        self.preds.push((owned(name), p));
        proof {
            assert(self.table() =~= t0.push((name@, p)));
            assert forall|k: int| 0 <= k < t0.len() implies (#[trigger] t0[k]).0 != name@ by {
                assert(t0[k] == self.table()[k]);
            }
            assert forall|a: int, b: int| 0 <= a < b < self.table().len() && names_distinct(t0) implies #[trigger] self.table()[a].0 != #[trigger] self.table()[b].0 by {
                if b < t0.len() {
                    assert(self.table()[a].0 == t0[a].0 && self.table()[b].0 == t0[b].0);
                } else {
                    assert(self.table()[a].0 == t0[a].0);
                }
            }
            assert forall|n: Seq<char>| lookup(self.table(), n) == (if n == name@ { Some(p) } else { lookup(t0, n) }) by {
                lemma_lookup_push(t0, name@, p, n);
            }
        }
    }

    /// Evaluate a condition against the state.
    pub fn eval(&self, cond: &Cond, state: &AppState) -> (r: bool)
        ensures
            r == eval_spec(self.table(), cm(*cond), *state),
    {
        eval_cond(&self.preds, cond, state)
    }
}

proof fn lemma_lookup_update(t: Seq<(Seq<char>, Predicate)>, i: int, name: Seq<char>, p: Predicate, n: Seq<char>)
    requires
        0 <= i < t.len(),
        t[i].0 == name,
        forall|k: int| 0 <= k < i ==> (#[trigger] t[k]).0 != name,
    ensures
        lookup(t.update(i, (name, p)), n) == (if n == name { Some(p) } else { lookup(t, n) }),
    decreases i,
{
    let u = t.update(i, (name, p));
    if i > 0 {
        assert forall|k: int| 0 <= k < i - 1 implies (#[trigger] t.drop_first()[k]).0 != name by {
            assert(t.drop_first()[k] == t[k + 1]);
        }
        lemma_lookup_update(t.drop_first(), i - 1, name, p, n);
        assert(u.drop_first() =~= t.drop_first().update(i - 1, (name, p)));
        assert(u[0] == t[0]);
    } else {
        assert(u.drop_first() =~= t.drop_first());
        assert(u[0] == (name, p));
    }
}

proof fn lemma_lookup_push(t: Seq<(Seq<char>, Predicate)>, name: Seq<char>, p: Predicate, n: Seq<char>)
    requires
        forall|k: int| 0 <= k < t.len() ==> (#[trigger] t[k]).0 != name,
    ensures
        lookup(t.push((name, p)), n) == (if n == name { Some(p) } else { lookup(t, n) }),
    decreases t.len(),
{
    let u = t.push((name, p));
    if t.len() > 0 {
        assert forall|k: int| 0 <= k < t.len() - 1 implies (#[trigger] t.drop_first()[k]).0 != name by {
            assert(t.drop_first()[k] == t[k + 1]);
        }
        lemma_lookup_push(t.drop_first(), name, p, n);
        assert(u.drop_first() =~= t.drop_first().push((name, p)));
        assert(u[0] == t[0]);
    } else {
        assert(u.drop_first() =~= t);
        assert(u[0] == (name, p));
    }
}

fn find_predicate(preds: &Vec<(String, Predicate)>, name: &str) -> (r: Option<Predicate>)
    ensures
        r == lookup(Seq::new(preds@.len(), |i: int| (preds@[i].0@, preds@[i].1)), name@),
{
    let ghost t = Seq::new(preds@.len(), |i: int| (preds@[i].0@, preds@[i].1));
    let mut i: usize = 0;
    assert(t.skip(0) =~= t);
    while i < preds.len()
        invariant
            i <= preds@.len(),
            t == Seq::new(preds@.len(), |i: int| (preds@[i].0@, preds@[i].1)),
            lookup(t, name@) == lookup(t.skip(i as int), name@),
        decreases preds@.len() - i,
    {
        assert(t.skip(i as int).drop_first() =~= t.skip(i + 1));
        assert(t.skip(i as int)[0] == t[i as int]);
        if str_eq(preds[i].0.as_str(), name) {
            return Some(preds[i].1);
        }
        i = i + 1;
    }
    None
}

#[verifier::loop_isolation(false)]
fn eval_cond(preds: &Vec<(String, Predicate)>, cond: &Cond, state: &AppState) -> (r: bool)
    ensures
        r == eval_spec(Seq::new(preds@.len(), |i: int| (preds@[i].0@, preds@[i].1)), cm(*cond), *state),
    decreases cond,
{
    let ghost t = Seq::new(preds@.len(), |i: int| (preds@[i].0@, preds@[i].1));
    match cond {
        Cond::Always => true,
        Cond::Pred(name) => match find_predicate(preds, name.as_str()) {
            Some(p) => eval_predicate(p, state),
            None => false,
        },
        Cond::Not(b) => !eval_cond(preds, b, state),
        Cond::And(cs) => {
            let ghost m = cm(*cond);
            let mut k: usize = 0;
            while k < cs.len()
                invariant
                    k <= cs@.len(),
                    m == cm(*cond),
                    m->And_0.len() == cs@.len(),
                    eval_all(t, m, k as int, *state),
                decreases cs@.len() - k,
            {
                proof {
                    broadcast use vstd::std_specs::vec::axiom_vec_index_decreases;
                    assert(decreases_to!(*cond => cs@[k as int]));
                }
                let v = eval_cond(preds, &cs[k], state);
                assert(m->And_0[k as int] == cm(cs@[k as int]));
                if !v {
                    assert(!eval_all(t, m, k + 1, *state));
                    proof {
                        lemma_all_stays_false(t, m, k + 1, cs@.len() as int, *state);
                    }
                    return false;
                }
                k = k + 1;
            }
            true
        }
        Cond::Or(cs) => {
            let ghost m = cm(*cond);
            let mut k: usize = 0;
            while k < cs.len()
                invariant
                    k <= cs@.len(),
                    m == cm(*cond),
                    m->Or_0.len() == cs@.len(),
                    !eval_any(t, m, k as int, *state),
                decreases cs@.len() - k,
            {
                proof {
                    broadcast use vstd::std_specs::vec::axiom_vec_index_decreases;
                    assert(decreases_to!(*cond => cs@[k as int]));
                }
                let v = eval_cond(preds, &cs[k], state);
                assert(m->Or_0[k as int] == cm(cs@[k as int]));
                if v {
                    assert(eval_any(t, m, k + 1, *state));
                    proof {
                        lemma_any_stays_true(t, m, k + 1, cs@.len() as int, *state);
                    }
                    return true;
                }
                k = k + 1;
            }
            false
        }
    }
}

proof fn lemma_all_stays_false(t: Seq<(Seq<char>, Predicate)>, c: CondM, k: int, n: int, s: AppState)
    requires
        c is And,
        0 <= k <= n <= c->And_0.len(),
        !eval_all(t, c, k, s),
    ensures
        !eval_all(t, c, n, s),
    decreases n - k,
{
    if k < n {
        lemma_all_stays_false(t, c, k + 1, n, s);
    }
}

proof fn lemma_any_stays_true(t: Seq<(Seq<char>, Predicate)>, c: CondM, k: int, n: int, s: AppState)
    requires
        c is Or,
        0 <= k <= n <= c->Or_0.len(),
        eval_any(t, c, k, s),
    ensures
        eval_any(t, c, n, s),
    decreases n - k,
{
    if k < n {
        lemma_any_stays_true(t, c, k + 1, n, s);
    }
}

/// The core predicates and their names.
pub open spec fn core_table() -> Seq<(Seq<char>, Predicate)> {
    seq![
        ("has-selection"@, Predicate::HasSelection),
        ("cursor-is-dir"@, Predicate::CursorIsDir),
        ("cursor-is-file"@, Predicate::CursorIsFile),
        ("select-phase-navigate"@, Predicate::SelectPhaseNavigate),
        ("select-phase-input"@, Predicate::SelectPhaseInput),
        ("sublayout-content"@, Predicate::SublayoutContent),
        ("sublayout-exec"@, Predicate::SublayoutExec),
        ("function-visible"@, Predicate::FunctionVisible),
        ("mode-file"@, Predicate::ModeFile),
    ]
}

impl Default for Conditions {
    /// The core predicates, pre-registered.
    fn default() -> (c: Conditions)
        ensures
            c.table() == core_table(),
    {
        let preds = vec![
            ("has-selection".to_owned(), Predicate::HasSelection),
            ("cursor-is-dir".to_owned(), Predicate::CursorIsDir),
            ("cursor-is-file".to_owned(), Predicate::CursorIsFile),
            ("select-phase-navigate".to_owned(), Predicate::SelectPhaseNavigate),
            ("select-phase-input".to_owned(), Predicate::SelectPhaseInput),
            ("sublayout-content".to_owned(), Predicate::SublayoutContent),
            ("sublayout-exec".to_owned(), Predicate::SublayoutExec),
            ("function-visible".to_owned(), Predicate::FunctionVisible),
            ("mode-file".to_owned(), Predicate::ModeFile),
        ];
        let c = Conditions { preds };
        assert(c.table() =~= core_table());
        c
    }
}

} // verus!
