//! The closed core intent set. Extension features never add a core variant;
//! they travel as [`Intent::Extension`] carrying an [`ExtensionIntent`].

use vstd::prelude::*;
use crate::event::{PanelContent, ResolverRequest, dup_strings, same_content, same_request};
use crate::mode::same_mode;
use crate::state::views;
use crate::value::{ev, Ev};
use crate::mode::{Mode, SubLayout};
use crate::value::ExtensionValue;

verus! {

/// A device-independent key.
#[derive(Debug, Clone, Copy, PartialEq, Eq, Structural, Hash)]
pub struct Key {
    pub code: KeyCode,
    pub mods: Mods,
}

#[derive(Debug, Clone, Copy, PartialEq, Eq, Structural, Hash)]
pub enum KeyCode {
    Char(char),
    Enter,
    Esc,
    Tab,
    BackTab,
    Backspace,
    Delete,
    Left,
    Right,
    Up,
    Down,
    Home,
    End,
    PageUp,
    PageDown,
}

#[derive(Debug, Default, Clone, Copy, PartialEq, Eq, Structural, Hash)]
pub struct Mods {
    pub ctrl: bool,
    pub shift: bool,
    pub alt: bool,
}

impl Mods {
    /// No modifier.
    pub fn none() -> (m: Mods)
        ensures
            m == (Mods { ctrl: false, shift: false, alt: false }),
    {
        Mods { ctrl: false, shift: false, alt: false }
    }

    /// Control alone.
    pub fn ctrl_only() -> (m: Mods)
        ensures
            m == (Mods { ctrl: true, shift: false, alt: false }),
    {
        Mods { ctrl: true, shift: false, alt: false }
    }

    /// No modifier held.
    pub fn is_none(self) -> (r: bool)
        ensures
            r == (!self.ctrl && !self.shift && !self.alt),
    {
        !self.ctrl && !self.shift && !self.alt
    }
}

/// A bare printable character: a `Char` key without ctrl or alt (shift is
/// already folded into the character).
pub open spec fn printable_of(k: Key) -> Option<char> {
    match k.code {
        KeyCode::Char(c) => if !k.mods.ctrl && !k.mods.alt { Some(c) } else { None },
        _ => None,
    }
}

impl Key {
    pub fn new(code: KeyCode, mods: Mods) -> (k: Key)
        ensures
            k.code == code,
            k.mods == mods,
    {
        Key { code, mods }
    }

    pub fn plain(code: KeyCode) -> (k: Key)
        ensures
            k.code == code,
            k.mods == (Mods { ctrl: false, shift: false, alt: false }),
    {
        Key { code, mods: Mods { ctrl: false, shift: false, alt: false } }
    }

    pub fn printable_char(self) -> (r: Option<char>)
        ensures
            r == printable_of(self),
    {
        match self.code {
            KeyCode::Char(c) => if !self.mods.ctrl && !self.mods.alt { Some(c) } else { None },
            _ => None,
        }
    }
}

/// An extension intent: addressed to an extension by id, carrying a
/// structured payload.
#[derive(Debug, Clone, PartialEq)]
pub struct ExtensionIntent {
    pub extension: String,
    pub intent: String,
    pub data: ExtensionValue,
}

/// The closed core intent set.
#[derive(Debug, PartialEq)]
pub enum Intent {
    CursorUp,
    CursorDown,
    CursorTop,
    CursorBottom,
    CursorLeft,
    CursorRight,
    /// Activate the cursor entry: enter a directory, open a file.
    Activate,
    NavigateTo(String),
    FuncUp,
    FuncDown,
    FuncLeft,
    FuncRight,
    ToggleSelect,
    SelectAll,
    ClearSelection,
    RunResolver(ResolverRequest),
    Open { path: String },
    Edit { path: String },
    Execute { argv: Vec<String> },
    StartCopy,
    StartMove,
    StartRename,
    DeleteSelected,
    StartEdit,
    PushMode(Box<Mode>),
    PopMode,
    SetSubLayout(SubLayout),
    CycleFunctionPanel,
    HideFunctionPanel,
    ShowFunctionContent { owner: String, content: PanelContent },
    UpdateFunctionView(ExtensionValue),
    LoadContent { owner: String, path: String, offset: u64 },
    ScrollUp,
    ScrollDown,
    ScrollTop,
    ScrollBottom,
    PageUp,
    PageDown,
    SetScroll(usize),
    FunctionSearchStart,
    FunctionSearchSubmit,
    FunctionSearchNext,
    FunctionSearchPrev,
    FunctionSearchCancel,
    /// Store the match set an extension computed (line, start, end).
    SetSearchMatches(Vec<(usize, usize, usize)>),
    ResetContentView,
    Confirm,
    Cancel,
    RawKeyEvent(Key),
    FocusNextPanel,
    FocusPrevPanel,
    FocusPanel(String),
    ToggleDotFiles,
    ToggleLineNumbers,
    /// Cycle the file-list layout: Rows, Columns, Grid, Rows.
    CycleListLayout,
    KillProcess,
    Refresh,
    Quit,
    Noop,
    Extension(ExtensionIntent),
    UpdateExtensionState(ExtensionValue),
}

/// Two extension intents with the same address and payload model.
pub open spec fn same_ext_intent(a: ExtensionIntent, b: ExtensionIntent) -> bool {
    a.extension@ == b.extension@ && a.intent@ == b.intent@ && ev(a.data) == ev(b.data)
}

impl ExtensionIntent {
    /// A copy of the extension intent.
    pub fn dup(&self) -> (r: ExtensionIntent)
        ensures
            same_ext_intent(r, *self),
    {
        ExtensionIntent { extension: self.extension.clone(), intent: self.intent.clone(), data: self.data.dup() }
    }
}

/// Two intents with the same data: the same variant, strings and lists of
/// strings by their text, values by their models, modes and contents by
/// theirs.
pub open spec fn same_intent(a: Intent, b: Intent) -> bool
    decreases a,
{
    match (a, b) {
        (Intent::NavigateTo(x), Intent::NavigateTo(y)) => x@ == y@,
        (Intent::RunResolver(x), Intent::RunResolver(y)) => same_request(x, y),
        (Intent::Open { path: x }, Intent::Open { path: y }) => x@ == y@,
        (Intent::Edit { path: x }, Intent::Edit { path: y }) => x@ == y@,
        (Intent::Execute { argv: x }, Intent::Execute { argv: y }) => views(x@) == views(y@),
        (Intent::PushMode(x), Intent::PushMode(y)) => same_mode(*x, *y),
        (Intent::ShowFunctionContent { owner: o1, content: c1 }, Intent::ShowFunctionContent { owner: o2, content: c2 }) =>
            o1@ == o2@ && same_content(c1, c2),
        (Intent::UpdateFunctionView(x), Intent::UpdateFunctionView(y)) => ev(x) == ev(y),
        (Intent::LoadContent { owner: o1, path: p1, offset: f1 }, Intent::LoadContent { owner: o2, path: p2, offset: f2 }) =>
            o1@ == o2@ && p1@ == p2@ && f1 == f2,
        (Intent::SetSearchMatches(x), Intent::SetSearchMatches(y)) => x@ == y@,
        (Intent::FocusPanel(x), Intent::FocusPanel(y)) => x@ == y@,
        (Intent::Extension(x), Intent::Extension(y)) => same_ext_intent(x, y),
        (Intent::UpdateExtensionState(x), Intent::UpdateExtensionState(y)) => ev(x) == ev(y),
        _ => a == b,
    }
}

fn dup_matches(v: &Vec<(usize, usize, usize)>) -> (r: Vec<(usize, usize, usize)>)
    ensures
        r@ == v@,
{
    let mut r: Vec<(usize, usize, usize)> = Vec::new();
    let mut i: usize = 0;
    while i < v.len()
        invariant
            i <= v@.len(),
            r@ == v@.take(i as int),
        decreases v@.len() - i,
    {
        r.push(v[i]);
        i = i + 1;
        assert(r@ =~= v@.take(i as int));
    }
    assert(v@.take(i as int) =~= v@);
    r
}

impl Clone for Intent {
    fn clone(&self) -> (r: Intent)
        ensures
            same_intent(r, *self),
        decreases self,
    {
        match self {
            Intent::CursorUp => Intent::CursorUp,
            Intent::CursorDown => Intent::CursorDown,
            Intent::CursorTop => Intent::CursorTop,
            Intent::CursorBottom => Intent::CursorBottom,
            Intent::CursorLeft => Intent::CursorLeft,
            Intent::CursorRight => Intent::CursorRight,
            Intent::Activate => Intent::Activate,
            Intent::NavigateTo(a) => Intent::NavigateTo(a.clone()),
            Intent::FuncUp => Intent::FuncUp,
            Intent::FuncDown => Intent::FuncDown,
            Intent::FuncLeft => Intent::FuncLeft,
            Intent::FuncRight => Intent::FuncRight,
            Intent::ToggleSelect => Intent::ToggleSelect,
            Intent::SelectAll => Intent::SelectAll,
            Intent::ClearSelection => Intent::ClearSelection,
            Intent::RunResolver(a) => Intent::RunResolver(a.dup()),
            Intent::Open { path } => Intent::Open { path: path.clone() },
            Intent::Edit { path } => Intent::Edit { path: path.clone() },
            Intent::Execute { argv } => Intent::Execute { argv: dup_strings(argv) },
            Intent::StartCopy => Intent::StartCopy,
            Intent::StartMove => Intent::StartMove,
            Intent::StartRename => Intent::StartRename,
            Intent::DeleteSelected => Intent::DeleteSelected,
            Intent::StartEdit => Intent::StartEdit,
            Intent::PushMode(m) => Intent::PushMode(Box::new((**m).clone())),
            Intent::PopMode => Intent::PopMode,
            Intent::SetSubLayout(a) => Intent::SetSubLayout(a.clone()),
            Intent::CycleFunctionPanel => Intent::CycleFunctionPanel,
            Intent::HideFunctionPanel => Intent::HideFunctionPanel,
            Intent::ShowFunctionContent { owner, content } => Intent::ShowFunctionContent { owner: owner.clone(), content: content.dup() },
            Intent::UpdateFunctionView(a) => Intent::UpdateFunctionView(a.clone()),
            Intent::LoadContent { owner, path, offset } => Intent::LoadContent { owner: owner.clone(), path: path.clone(), offset: offset.clone() },
            Intent::ScrollUp => Intent::ScrollUp,
            Intent::ScrollDown => Intent::ScrollDown,
            Intent::ScrollTop => Intent::ScrollTop,
            Intent::ScrollBottom => Intent::ScrollBottom,
            Intent::PageUp => Intent::PageUp,
            Intent::PageDown => Intent::PageDown,
            Intent::SetScroll(a) => Intent::SetScroll(a.clone()),
            Intent::FunctionSearchStart => Intent::FunctionSearchStart,
            Intent::FunctionSearchSubmit => Intent::FunctionSearchSubmit,
            Intent::FunctionSearchNext => Intent::FunctionSearchNext,
            Intent::FunctionSearchPrev => Intent::FunctionSearchPrev,
            Intent::FunctionSearchCancel => Intent::FunctionSearchCancel,
            Intent::SetSearchMatches(a) => Intent::SetSearchMatches(dup_matches(a)),
            Intent::ResetContentView => Intent::ResetContentView,
            Intent::Confirm => Intent::Confirm,
            Intent::Cancel => Intent::Cancel,
            Intent::RawKeyEvent(a) => Intent::RawKeyEvent(a.clone()),
            Intent::FocusNextPanel => Intent::FocusNextPanel,
            Intent::FocusPrevPanel => Intent::FocusPrevPanel,
            Intent::FocusPanel(a) => Intent::FocusPanel(a.clone()),
            Intent::ToggleDotFiles => Intent::ToggleDotFiles,
            Intent::ToggleLineNumbers => Intent::ToggleLineNumbers,
            Intent::CycleListLayout => Intent::CycleListLayout,
            Intent::KillProcess => Intent::KillProcess,
            Intent::Refresh => Intent::Refresh,
            Intent::Quit => Intent::Quit,
            Intent::Noop => Intent::Noop,
            Intent::Extension(a) => Intent::Extension(a.dup()),
            Intent::UpdateExtensionState(a) => Intent::UpdateExtensionState(a.clone()),
        }
    }
}

} // verus!
