//! The async round-trip types: Plan (a closed set), AsyncResult (one schema)
//! and the AppEvent feeding the event loop.

use vstd::prelude::*;
use crate::intent::Key;
use crate::path::opt_view;
use crate::state::{Entry, views};
use crate::value::ExtensionValue;

verus! {

/// A resolver request: an operation key plus the argument slots the resolver
/// expands into argv.
#[derive(Debug, Clone, PartialEq)]
pub struct ResolverRequest {
    pub op: String,
    pub src: Option<String>,
    pub dst: Option<String>,
    pub path: Option<String>,
    pub paths: Vec<String>,
    /// Chosen command-line options, spliced at the `opts` placeholder.
    pub opts: Vec<String>,
    /// A human label for completion notification.
    pub label: String,
}

/// The raw result of a generic content read.
#[derive(Debug, Clone, PartialEq)]
pub enum ReadResult {
    Bytes { offset: u64, bytes: Vec<u8>, eof: bool },
    Dir { entries: Vec<Entry> },
}

/// The closed set of plans: the only way side effects leave the pipeline.
#[derive(Debug, Clone, PartialEq)]
pub enum Plan {
    ReadDir { path: String, show_hidden: bool },
    Search { root: String, query: String, show_hidden: bool },
    Read { owner: String, path: String, offset: u64 },
    ResolveAndRun { request: ResolverRequest },
    Execute { argv: Vec<String> },
    Suspend { argv: Vec<String> },
    EvalScheme { expr: String },
}

/// The fixed purpose namespace.
#[derive(Debug, Clone, Copy, PartialEq, Eq, Structural, Hash)]
pub enum Purpose {
    Content,
    Search,
    Resolver,
    Execute,
    Scheme,
    Refresh,
}

#[derive(Debug, Clone, PartialEq)]
pub enum AsyncStatus {
    /// Completed normally.
    Done,
    Cancelled,
    Failed(String),
    StaleDiscarded,
}

/// A styled run within a content line: a length and its 24-bit colors.
#[derive(Debug, Clone, Copy, PartialEq, Eq)]
pub struct StyleRun {
    pub len: usize,
    pub fg: (u8, u8, u8),
    pub bg: Option<(u8, u8, u8)>,
}

/// Extension-agnostic content rendered into the function panel.
#[derive(Debug, Clone, PartialEq)]
pub enum PanelContent {
    /// Styled text; `styles[i]` are the runs of `lines[i]` (empty = plain).
    Lines { lines: Vec<String>, styles: Vec<Vec<StyleRun>> },
    /// A decoded image as packed RGB8 (width * height * 3).
    Image { width: u32, height: u32, rgb: Vec<u8> },
}

/// Completion of a background resolver/open operation.
#[derive(Debug, Clone, PartialEq)]
pub struct OpDone {
    pub label: String,
    pub success: bool,
    pub message: Option<String>,
}

/// Captured output of an Execute plan.
#[derive(Debug, Clone, PartialEq)]
pub struct ExecOutput {
    pub lines: Vec<String>,
    pub finished: bool,
    pub exit: Option<i32>,
}

/// The single AsyncResult payload union.
#[derive(Debug, Clone, PartialEq)]
pub enum Payload {
    Entries { path: String, entries: Vec<Entry> },
    Read { owner: String, path: String, result: ReadResult },
    OpDone(OpDone),
    Exec(ExecOutput),
    Scheme(ExtensionValue),
    /// Nothing carried.
    Empty,
}

/// One schema for every async completion.
#[derive(Debug, Clone, PartialEq)]
pub struct AsyncResult {
    pub request_id: u64,
    pub purpose: Purpose,
    pub mode_generation: u64,
    pub status: AsyncStatus,
    pub payload: Payload,
}

/// Events driving the event loop.
#[derive(Debug, Clone, PartialEq)]
pub enum AppEvent {
    Key(Key),
    Resize(u16, u16),
    Async(AsyncResult),
    Tick,
}


// --- copies with the same model ---------------------------------------------------

/// A copy of a list of strings.
pub fn dup_strings(v: &Vec<String>) -> (r: Vec<String>)
    ensures
        views(r@) == views(v@),
{
    let mut r: Vec<String> = Vec::new();
    let mut i: usize = 0;
    while i < v.len()
        invariant
            i <= v@.len(),
            views(r@) == views(v@.take(i as int)),
        decreases v@.len() - i,
    {
        let ghost before = views(r@);
        r.push(v[i].clone());
        assert(views(r@) =~= before.push(v@[i as int]@));
        i = i + 1;
        assert(views(v@.take(i as int)) =~= views(v@.take(i - 1)).push(v@[i - 1]@));
    }
    assert(v@.take(i as int) =~= v@);
    r
}

/// A copy of an optional string.
pub fn dup_opt(o: &Option<String>) -> (r: Option<String>)
    ensures
        opt_view(r) == opt_view(*o),
{
    match o {
        Some(s) => Some(s.clone()),
        None => None,
    }
}

/// Two requests with the same fields, strings compared by their text.
pub open spec fn same_request(a: ResolverRequest, b: ResolverRequest) -> bool {
    &&& a.op@ == b.op@
    &&& opt_view(a.src) == opt_view(b.src)
    &&& opt_view(a.dst) == opt_view(b.dst)
    &&& opt_view(a.path) == opt_view(b.path)
    &&& views(a.paths@) == views(b.paths@)
    &&& views(a.opts@) == views(b.opts@)
    &&& a.label@ == b.label@
}

impl ResolverRequest {
    /// A copy of the request.
    pub fn dup(&self) -> (r: ResolverRequest)
        ensures
            same_request(r, *self),
    {
        ResolverRequest {
            op: self.op.clone(),
            src: dup_opt(&self.src),
            dst: dup_opt(&self.dst),
            path: dup_opt(&self.path),
            paths: dup_strings(&self.paths),
            opts: dup_strings(&self.opts),
            label: self.label.clone(),
        }
    }
}

/// The runs of each line of styled content.
pub open spec fn run_views(s: Seq<Vec<StyleRun>>) -> Seq<Seq<StyleRun>> {
    Seq::new(s.len(), |i: int| s[i]@)
}

/// Two panel contents with the same lines and runs, or the same pixels.
pub open spec fn same_content(a: PanelContent, b: PanelContent) -> bool {
    match (a, b) {
        (PanelContent::Lines { lines: l1, styles: s1 }, PanelContent::Lines { lines: l2, styles: s2 }) =>
            views(l1@) == views(l2@) && run_views(s1@) == run_views(s2@),
        (PanelContent::Image { width: w1, height: h1, rgb: p1 }, PanelContent::Image { width: w2, height: h2, rgb: p2 }) =>
            w1 == w2 && h1 == h2 && p1@ == p2@,
        _ => false,
    }
}

fn dup_runs(v: &Vec<StyleRun>) -> (r: Vec<StyleRun>)
    ensures
        r@ == v@,
{
    let mut r: Vec<StyleRun> = Vec::new();
    let mut i: usize = 0;
    while i < v.len()
        invariant
            i <= v@.len(),
            r@ == v@.take(i as int),
        decreases v@.len() - i,
    {
        r.push(v[i]);
        i = i + 1;
        assert(r@ =~= v@.take(i as int));
    }
    assert(v@.take(i as int) =~= v@);
    r
}

fn dup_bytes(v: &Vec<u8>) -> (r: Vec<u8>)
    ensures
        r@ == v@,
{
    let mut r: Vec<u8> = Vec::new();
    let mut i: usize = 0;
    while i < v.len()
        invariant
            i <= v@.len(),
            r@ == v@.take(i as int),
        decreases v@.len() - i,
    {
        r.push(v[i]);
        i = i + 1;
        assert(r@ =~= v@.take(i as int));
    }
    assert(v@.take(i as int) =~= v@);
    r
}

impl PanelContent {
    /// A copy of the content.
    pub fn dup(&self) -> (r: PanelContent)
        ensures
            same_content(r, *self),
    {
        match self {
            PanelContent::Lines { lines, styles } => {
                let mut out: Vec<Vec<StyleRun>> = Vec::new();
                let mut i: usize = 0;
                while i < styles.len()
                    invariant
                        i <= styles@.len(),
                        run_views(out@) == run_views(styles@.take(i as int)),
                    decreases styles@.len() - i,
                {
                    let ghost before = run_views(out@);
                    out.push(dup_runs(&styles[i]));
                    assert(run_views(out@) =~= before.push(styles@[i as int]@));
                    i = i + 1;
                    assert(run_views(styles@.take(i as int)) =~= run_views(styles@.take(i - 1)).push(styles@[i - 1]@));
                }
                assert(styles@.take(i as int) =~= styles@);
                PanelContent::Lines { lines: dup_strings(lines), styles: out }
            }
            PanelContent::Image { width, height, rgb } => PanelContent::Image { width: *width, height: *height, rgb: dup_bytes(rgb) },
        }
    }
}

} // verus!
