//! The mode stack entries and the Select specification. Spec data is
//! immutable per mode instance; runtime Select state lives in AppState.

use vstd::prelude::*;
use crate::event::{ResolverRequest, dup_opt, same_request};
use crate::intent::{ExtensionIntent, Intent, same_ext_intent, same_intent};
use crate::path::{file_name, opt_view, path_file_name};
use crate::text::{owned, push_str};
use crate::value::{ExtensionValue, Ev, ev, evs};

verus! {

/// The active display frame of the function panel.
#[derive(Debug, Clone, Copy, PartialEq, Eq, Structural)]
pub enum SubLayout {
    Content,
    Exec,
}

/// A mode on the stack. Each carries its defining spec.
#[derive(Debug, PartialEq)]
pub enum Mode {
    File,
    Select(SelectSpec),
    Policy(Box<Intent>),
    Extension { extension: String, mode: String, state: ExtensionValue },
}

/// The colon-separated mode id used for keymap and handler prefix matching.
pub open spec fn mode_id_spec(m: Mode) -> Seq<char> {
    match m {
        Mode::File => "file"@,
        Mode::Select(spec) => "select:"@ + spec.id@,
        Mode::Policy(_) => "policy"@,
        Mode::Extension { extension, mode, .. } => extension@ + ":"@ + mode@,
    }
}

/// Two modes that carry the same data, strings and values by their models.
pub open spec fn same_mode(a: Mode, b: Mode) -> bool
    decreases a,
{
    match (a, b) {
        (Mode::Select(x), Mode::Select(y)) => same_spec(x, y),
        (Mode::Policy(x), Mode::Policy(y)) => same_intent(*x, *y),
        (Mode::Extension { extension: e1, mode: m1, state: s1 }, Mode::Extension { extension: e2, mode: m2, state: s2 }) =>
            e1@ == e2@ && m1@ == m2@ && ev(s1) == ev(s2),
        _ => a == b,
    }
}

impl Clone for Mode {
    fn clone(&self) -> (r: Mode)
        ensures
            same_mode(r, *self),
        decreases self,
    {
        match self {
            Mode::File => Mode::File,
            Mode::Select(spec) => Mode::Select(spec.dup()),
            Mode::Policy(i) => Mode::Policy(Box::new((**i).clone())),
            Mode::Extension { extension, mode, state } => Mode::Extension {
                extension: extension.clone(),
                mode: mode.clone(),
                state: state.clone(),
            },
        }
    }
}

impl Mode {
    pub fn id(&self) -> (r: String)
        ensures
            r@ == mode_id_spec(*self),
    {
        match self {
            Mode::File => "file".to_owned(),
            Mode::Select(spec) => {
                let mut s = "select:".to_owned();
                push_str(&mut s, spec.id.as_str());
                s
            }
            Mode::Policy(_) => "policy".to_owned(),
            Mode::Extension { extension, mode, .. } => {
                let mut s = owned(extension.as_str());
                push_str(&mut s, ":");
                push_str(&mut s, mode.as_str());
                s
            }
        }
    }
}

/// Where a Select instance draws its candidates from.
#[derive(Debug, Clone, PartialEq)]
pub enum SelectSource {
    FileWalk,
    Commands,
    PathCompletion,
    Static(Vec<Candidate>),
}

/// The input field behavior of a Select instance.
#[derive(Debug, Clone, Copy, PartialEq, Eq, Structural)]
pub enum SelectInput {
    Fuzzy,
    Path,
    /// No input field.
    NoInput,
}

/// Which field of a resolver request the confirmed Select input fills.
#[derive(Debug, Clone, Copy, PartialEq, Eq, Structural)]
pub enum ResolveFill {
    Dst,
    Path,
}

/// What confirming a Select instance does.
#[derive(Debug, Clone, PartialEq)]
pub enum OnConfirm {
    Navigate,
    RunCommand,
    /// Fill `fill` of `template` from the typed input and `opts` from the
    /// marked option candidates, then run the request.
    Resolve { template: ResolverRequest, fill: ResolveFill },
    /// Re-inject this extension intent with the confirm shape under `item`.
    Emit(ExtensionIntent),
}

/// A renderer hint for the function panel during Select.
#[derive(Debug, Clone, PartialEq)]
pub enum FunctionHint {
    DirListing,
    CommandSummary,
    Extension(String),
}

/// One token of the resolved command line shown in the Command panel.
#[derive(Debug, Clone, PartialEq)]
pub enum CmdToken {
    Lit(String),
    Opts,
    Src,
    Paths,
    Dst,
    Path,
}

/// Two sources that give the same candidates.
pub open spec fn same_source(a: SelectSource, b: SelectSource) -> bool {
    match (a, b) {
        (SelectSource::Static(p), SelectSource::Static(q)) => crate::select::cand_models(p@) == crate::select::cand_models(q@),
        _ => a == b,
    }
}

/// Two confirm actions with the same data.
pub open spec fn same_confirm(a: OnConfirm, b: OnConfirm) -> bool {
    match (a, b) {
        (OnConfirm::Resolve { template: t1, fill: f1 }, OnConfirm::Resolve { template: t2, fill: f2 }) => same_request(t1, t2) && f1 == f2,
        (OnConfirm::Emit(x), OnConfirm::Emit(y)) => same_ext_intent(x, y),
        _ => a == b,
    }
}

/// Two renderer hints naming the same renderer.
pub open spec fn same_hint(a: FunctionHint, b: FunctionHint) -> bool {
    match (a, b) {
        (FunctionHint::Extension(x), FunctionHint::Extension(y)) => x@ == y@,
        _ => a == b,
    }
}

pub open spec fn same_opt_hint(a: Option<FunctionHint>, b: Option<FunctionHint>) -> bool {
    match (a, b) {
        (Some(x), Some(y)) => same_hint(x, y),
        (None, None) => true,
        _ => false,
    }
}

/// Two command-line tokens with the same text.
pub open spec fn same_token(a: CmdToken, b: CmdToken) -> bool {
    match (a, b) {
        (CmdToken::Lit(x), CmdToken::Lit(y)) => x@ == y@,
        _ => a == b,
    }
}

/// Two Select specifications with the same data.
pub open spec fn same_spec(a: SelectSpec, b: SelectSpec) -> bool {
    &&& a.id@ == b.id@
    &&& same_source(a.source, b.source)
    &&& a.input == b.input
    &&& same_confirm(a.on_confirm, b.on_confirm)
    &&& opt_view(a.initial_query) == opt_view(b.initial_query)
    &&& same_opt_hint(a.function_hint, b.function_hint)
    &&& a.command_line@.len() == b.command_line@.len()
    &&& forall|i: int| 0 <= i < a.command_line@.len() ==> same_token(#[trigger] a.command_line@[i], b.command_line@[i])
}

impl SelectSource {
    pub fn dup(&self) -> (r: SelectSource)
        ensures
            same_source(r, *self),
    {
        match self {
            SelectSource::FileWalk => SelectSource::FileWalk,
            SelectSource::Commands => SelectSource::Commands,
            SelectSource::PathCompletion => SelectSource::PathCompletion,
            SelectSource::Static(p) => SelectSource::Static(crate::select::dup_candidates(p)),
        }
    }
}

impl OnConfirm {
    pub fn dup(&self) -> (r: OnConfirm)
        ensures
            same_confirm(r, *self),
    {
        match self {
            OnConfirm::Navigate => OnConfirm::Navigate,
            OnConfirm::RunCommand => OnConfirm::RunCommand,
            OnConfirm::Resolve { template, fill } => OnConfirm::Resolve { template: template.dup(), fill: *fill },
            OnConfirm::Emit(e) => OnConfirm::Emit(e.dup()),
        }
    }
}

impl FunctionHint {
    pub fn dup(&self) -> (r: FunctionHint)
        ensures
            same_hint(r, *self),
    {
        match self {
            FunctionHint::DirListing => FunctionHint::DirListing,
            FunctionHint::CommandSummary => FunctionHint::CommandSummary,
            FunctionHint::Extension(x) => FunctionHint::Extension(x.clone()),
        }
    }
}

impl CmdToken {
    pub fn dup(&self) -> (r: CmdToken)
        ensures
            same_token(r, *self),
    {
        match self {
            CmdToken::Lit(x) => CmdToken::Lit(x.clone()),
            CmdToken::Opts => CmdToken::Opts,
            CmdToken::Src => CmdToken::Src,
            CmdToken::Paths => CmdToken::Paths,
            CmdToken::Dst => CmdToken::Dst,
            CmdToken::Path => CmdToken::Path,
        }
    }
}

impl SelectSpec {
    /// A copy of the specification.
    pub fn dup(&self) -> (r: SelectSpec)
        ensures
            same_spec(r, *self),
    {
        let hint = match &self.function_hint {
            Some(h) => Some(h.dup()),
            None => None,
        };
        let mut line: Vec<CmdToken> = Vec::new();
        let mut i: usize = 0;
        while i < self.command_line.len()
            invariant
                i <= self.command_line@.len(),
                line@.len() == i,
                forall|k: int| 0 <= k < i ==> same_token(#[trigger] line@[k], self.command_line@[k]),
            decreases self.command_line@.len() - i,
        {
            line.push(self.command_line[i].dup());
            i = i + 1;
        }
        SelectSpec {
            id: self.id.clone(),
            source: self.source.dup(),
            input: self.input,
            on_confirm: self.on_confirm.dup(),
            initial_query: dup_opt(&self.initial_query),
            function_hint: hint,
            command_line: line,
        }
    }
}

/// A single pickable candidate.
#[derive(Debug, Clone, PartialEq)]
pub struct Candidate {
    pub label: String,
    pub value: ExtensionValue,
}

/// The label a path candidate shows: the file name, else the whole path.
pub open spec fn path_label(p: Seq<char>) -> Seq<char> {
    match path_file_name(p) {
        Some(n) => n,
        None => p,
    }
}

impl Candidate {
    pub fn new(label: &str, value: ExtensionValue) -> (c: Candidate)
        ensures
            c.label@ == label@,
            c.value == value,
    {
        Candidate { label: owned(label), value }
    }

    /// A candidate whose value is a filesystem path; its label is the file name.
    pub fn path(p: String) -> (c: Candidate)
        ensures
            c.label@ == path_label(p@),
            ev(c.value) == Ev::Path(p@),
    {
        let label = match file_name(p.as_str()) {
            Some(n) => n,
            None => p.clone(),
        };
        Candidate { label, value: ExtensionValue::Path(p) }
    }

    /// A copy with the same label and value model.
    pub fn dup(&self) -> (c: Candidate)
        ensures
            c.label == self.label,
            ev(c.value) == ev(self.value),
    {
        Candidate { label: self.label.clone(), value: self.value.dup() }
    }
}

/// The full specification of a Select instance.
#[derive(Debug, Clone, PartialEq)]
pub struct SelectSpec {
    pub id: String,
    pub source: SelectSource,
    pub input: SelectInput,
    pub on_confirm: OnConfirm,
    pub initial_query: Option<String>,
    pub function_hint: Option<FunctionHint>,
    /// The resolved command-line skeleton for the Command panel.
    pub command_line: Vec<CmdToken>,
}

impl SelectSpec {
    /// The file-search picker: recursive walk, fuzzy, navigate on confirm.
    pub fn file_search() -> (s: SelectSpec)
        ensures
            s.id@ == "file-search"@,
            s.source == SelectSource::FileWalk,
            s.input == SelectInput::Fuzzy,
            s.on_confirm == OnConfirm::Navigate,
            s.initial_query is None,
            s.function_hint == Some(FunctionHint::DirListing),
            s.command_line@.len() == 0,
    {
        SelectSpec {
            id: "file-search".to_owned(),
            source: SelectSource::FileWalk,
            input: SelectInput::Fuzzy,
            on_confirm: OnConfirm::Navigate,
            initial_query: None,
            function_hint: Some(FunctionHint::DirListing),
            command_line: Vec::new(),
        }
    }

    /// The command palette: fuzzy, run the command; its candidates are the
    /// command registry's (the `Commands` source), so the list it is given
    /// is not kept.
    pub fn command_palette(candidates: Vec<Candidate>) -> (s: SelectSpec)
        ensures
            s.id@ == "command-palette"@,
            s.source == SelectSource::Commands,
            s.input == SelectInput::Fuzzy,
            s.on_confirm == OnConfirm::RunCommand,
            s.initial_query is None,
            s.function_hint is None,
            s.command_line@.len() == 0,
    {
        SelectSpec {
            id: "command-palette".to_owned(),
            source: SelectSource::Commands,
            input: SelectInput::Fuzzy,
            on_confirm: OnConfirm::RunCommand,
            initial_query: None,
            function_hint: None,
            command_line: Vec::new(),
        }
    }

    /// The single-screen command picker: the input fills `fill`, the static
    /// `options` are the option checkboxes.
    pub fn command(template: ResolverRequest, fill: ResolveFill, options: Vec<Candidate>, initial: Option<String>) -> (s: SelectSpec)
        ensures
            s.id@ == "command"@,
            s.source == SelectSource::Static(options),
            s.input == SelectInput::Path,
            s.on_confirm == (OnConfirm::Resolve { template, fill }),
            s.initial_query == initial,
            s.function_hint == Some(FunctionHint::CommandSummary),
            s.command_line@.len() == 0,
    {
        SelectSpec {
            id: "command".to_owned(),
            source: SelectSource::Static(options),
            input: SelectInput::Path,
            on_confirm: OnConfirm::Resolve { template, fill },
            initial_query: initial,
            function_hint: Some(FunctionHint::CommandSummary),
            command_line: Vec::new(),
        }
    }

    /// An extension path/text picker confirmed through Emit.
    pub fn emit_path_input(id: &str, template: ExtensionIntent, initial: Option<String>, hint: Option<FunctionHint>) -> (s: SelectSpec)
        ensures
            s.id@ == id@,
            s.source == SelectSource::PathCompletion,
            s.input == SelectInput::Path,
            s.on_confirm == OnConfirm::Emit(template),
            s.initial_query == initial,
            s.function_hint == hint,
            s.command_line@.len() == 0,
    {
        SelectSpec {
            id: owned(id),
            source: SelectSource::PathCompletion,
            input: SelectInput::Path,
            on_confirm: OnConfirm::Emit(template),
            initial_query: initial,
            function_hint: hint,
            command_line: Vec::new(),
        }
    }

    /// An extension static picker confirmed through Emit.
    pub fn emit_static(id: &str, candidates: Vec<Candidate>, template: ExtensionIntent, hint: Option<FunctionHint>) -> (s: SelectSpec)
        ensures
            s.id@ == id@,
            s.source == SelectSource::Static(candidates),
            s.input == SelectInput::Fuzzy,
            s.on_confirm == OnConfirm::Emit(template),
            s.initial_query is None,
            s.function_hint == hint,
            s.command_line@.len() == 0,
    {
        SelectSpec {
            id: owned(id),
            source: SelectSource::Static(candidates),
            input: SelectInput::Fuzzy,
            on_confirm: OnConfirm::Emit(template),
            initial_query: None,
            function_hint: hint,
            command_line: Vec::new(),
        }
    }
}

/// The result of confirming a Select.
#[derive(Debug, Clone, PartialEq)]
pub enum ConfirmShape {
    Single(Candidate),
    Many(Vec<Candidate>),
    InputOnly(String),
}

/// The models of the values of candidates.
pub open spec fn candidate_values(cs: Seq<Candidate>) -> Seq<Ev> {
    Seq::new(cs.len(), |i: int| ev(cs[i].value))
}

/// The value stored under the reserved `item` key for a confirm shape.
pub open spec fn shape_value(s: ConfirmShape) -> Ev {
    match s {
        ConfirmShape::Single(c) => ev(c.value),
        ConfirmShape::Many(items) => Ev::List(candidate_values(items@)),
        ConfirmShape::InputOnly(t) => Ev::Str(t@),
    }
}

impl ConfirmShape {
    /// Lower the shape into the value stored under the reserved item key.
    pub fn to_value(&self) -> (r: ExtensionValue)
        ensures
            ev(r) == shape_value(*self),
    {
        match self {
            ConfirmShape::Single(c) => c.value.dup(),
            ConfirmShape::Many(items) => {
                let mut out: Vec<ExtensionValue> = Vec::new();
                let mut i: usize = 0;
                while i < items.len()
                    invariant
                        i <= items@.len(),
                        evs(out@) =~= candidate_values(items@).take(i as int),
                    decreases items@.len() - i,
                {
                    let ghost before = evs(out@);
                    let v = items[i].value.dup();
                    out.push(v);
                    assert(evs(out@) =~= before.push(ev(items@[i as int].value)));
                    assert(candidate_values(items@).take(i + 1) =~= candidate_values(items@).take(i as int).push(ev(items@[i as int].value)));
                    i = i + 1;
                }
                assert(candidate_values(items@).take(i as int) =~= candidate_values(items@));
                let r = ExtensionValue::List(out);
                assert(ev(r)->List_0 =~= evs(out@));
                r
            }
            ConfirmShape::InputOnly(s) => ExtensionValue::String(s.clone()),
        }
    }
}

} // verus!
