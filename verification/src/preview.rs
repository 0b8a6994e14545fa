//! File preview: the function-panel content extension's state. It decodes read
//! chunks into its own content, follows the cursor (asking for the first chunk
//! of a new target, and for the next chunk once the view scrolls near the end
//! of what is decoded), and answers the content search. Drawing is the
//! renderer's part.

use vstd::prelude::*;
use crate::condition::{lookup, Conditions, Predicate};
use crate::decode::{append, append_post, classify_first, streamed_lines, Decoded, Kind};
use crate::event::ReadResult;
use crate::intent::{ExtensionIntent, Intent};
use crate::magic::{mime_spec, MimeClass};
use crate::mode::Mode;
use crate::path::opt_view;
use crate::search::{find_matches, find_spec, triple_views};
use crate::state::AppState;
use crate::text::str_eq;
use crate::value::{ev, Ev};

verus! {

/// Lines below the viewport to keep decoded: once the scroll comes within this
/// many lines of the decoded end, the next chunk is asked for.
pub const LOOKAHEAD: usize = 256;

/// The extension's id.
pub const PREVIEW_ID: &'static str = "preview";

/// The extension's function-panel and file-panel bindings, as Scheme data:
/// horizontal scroll, and the less-style search (`/` opens it, Enter and Esc
/// submit and cancel while it is open, `n`/`p` step through its matches).
pub const PREVIEW_KEYMAP_SCHEME: &'static str = "(quote (\n  (file function\n   ((\"h\" func-left)\n    (\"Left\" func-left)\n    (\"l\" func-right)\n    (\"Right\" func-right)\n    (\"/\" function-search-start sublayout-content)\n    (\"Enter\" function-search-submit function-searching)\n    (\"Esc\" function-search-cancel function-searching)\n    (\"n\" function-search-next function-has-matches)\n    (\"p\" function-search-prev function-has-matches)))\n  (file file\n   ((\"/\" function-search-start (and function-visible sublayout-content))\n    (\"n\" function-search-next function-has-matches)\n    (\"p\" function-search-prev function-has-matches)))))\n";

/// The current window's chunk-load state: the file it covers, how it streams
/// (`None` once whole-decoded), the next byte offset to ask for, whether the
/// file is fully loaded, and the undecoded bytes carried between chunks.
pub struct Load {
    pub path: Option<String>,
    pub kind: Option<Kind>,
    pub next_offset: u64,
    pub eof: bool,
    pub tail: Vec<u8>,
}

/// The preview's state: its decoded content, the path it shows, and the load.
pub struct PreviewExtension {
    pub content: Option<Decoded>,
    pub target: Option<String>,
    pub load: Load,
}

/// The path the preview should follow: the File-mode cursor entry while the
/// function panel is open, or the file-search picker's current candidate.
pub open spec fn preview_target(s: AppState) -> Option<Seq<char>> {
    match s.modes@.last().mode {
        Mode::File => if s.function.visible && s.cursor < s.entries@.len() { Some(s.entries@[s.cursor as int].path@) } else { None },
        Mode::Select(spec) => if spec.id@ == "file-search"@ {
            match s.select {
                Some(sel) => match sel.view {
                    Some(v) => if v.cursor < v.entries@.len() { Some(v.entries@[v.cursor as int].path@) } else { None },
                    None => None,
                },
                None => None,
            }
        } else {
            None
        },
        _ => None,
    }
}

/// The lines decoded so far.
pub open spec fn decoded_lines(c: Option<Decoded>) -> int {
    match c {
        Some(d) => streamed_lines(d),
        None => 0,
    }
}

/// The load the preview asks for when the cursor changes: the first chunk of
/// a new target; for the same target, nothing once it is fully loaded or while
/// the scroll is more than the look-ahead above the decoded end, else the
/// chunk where the last one ended.
pub open spec fn follow_spec(p: PreviewExtension, s: AppState) -> Option<(Seq<char>, u64)> {
    match preview_target(s) {
        None => None,
        Some(t) => if opt_view(p.load.path) != Some(t) {
            Some((t, 0u64))
        } else if p.load.eof {
            None
        } else if s.function.scroll + LOOKAHEAD < decoded_lines(p.content) {
            None
        } else {
            Some((t, p.load.next_offset))
        },
    }
}

/// Room to append `n` more bytes: the hexdump addresses stay in range.
pub open spec fn has_room(p: PreviewExtension, n: int) -> bool {
    decoded_lines(p.content) + p.load.tail@.len() + n <= usize::MAX / 32
}

/// A fresh window for `path`.
pub open spec fn fresh_load(l: Load, path: Seq<char>, kind: Option<Kind>) -> bool {
    &&& opt_view(l.path) == Some(path)
    &&& l.kind == kind
    &&& l.next_offset == 0
    &&& l.eof
    &&& l.tail@.len() == 0
}

/// What accepting a byte chunk does. Offset 0 starts a fresh window whose
/// kind the chunk's MIME class fixes (an image is left for the caller to
/// decode whole, which the result asks for); a later chunk for another path is
/// stale and ignored; otherwise `tail ++ bytes` is appended and the window
/// moves past the chunk.
pub open spec fn chunk_post(old: PreviewExtension, new: PreviewExtension, path: Seq<char>, offset: u64, bytes: Seq<u8>, eof: bool, image: bool) -> bool {
    if offset == 0 && mime_spec(bytes) == MimeClass::Image {
        &&& image
        &&& new.content is None
        &&& fresh_load(new.load, path, None)
    } else if offset != 0 && (opt_view(old.load.path) != Some(path) || old.load.kind is None || old.content is None) {
        !image && new.content == old.content && new.load == old.load
    } else {
        let kind = if offset == 0 { if mime_spec(bytes) == MimeClass::Text { Kind::Text } else { Kind::Hex } } else { old.load.kind->0 };
        let buf = if offset == 0 { bytes } else { old.load.tail@ + bytes };
        &&& !image
        &&& new.content is Some
        &&& (if offset == 0 {
            exists|start: Decoded| {
                &&& #[trigger] streamed_lines(start) == 0
                &&& (kind == Kind::Text ==> start is Text)
                &&& (kind == Kind::Hex ==> start is Binary)
                &&& append_post(path, kind, start, new.content->0, buf, eof, new.load.tail@)
            }
        } else {
            append_post(path, kind, old.content->0, new.content->0, buf, eof, new.load.tail@)
        })
        &&& opt_view(new.load.path) == Some(path)
        &&& new.load.kind == Some(kind)
        &&& new.load.next_offset == offset + bytes.len()
        &&& new.load.eof == eof
    }
}

impl PreviewExtension {
    /// An empty preview.
    pub fn new() -> (p: PreviewExtension)
        ensures
            p.content is None,
            p.target is None,
            p.load.path is None,
            p.load.kind is None,
            p.load.next_offset == 0,
            !p.load.eof,
            p.load.tail@.len() == 0,
    {
        PreviewExtension {
            content: None,
            target: None,
            load: Load { path: None, kind: None, next_offset: 0, eof: false, tail: Vec::new() },
        }
    }

    /// The extension's id.
    pub fn id(&self) -> (r: &'static str)
        ensures
            r@ == PREVIEW_ID@,
    {
        PREVIEW_ID
    }

    /// Whether the preview produces function-panel content: it does.
    pub fn provides_function_content(&self) -> (r: bool)
        ensures
            r,
    {
        true
    }

    /// The declarative keymap source.
    pub fn scheme_source(&self) -> (r: String)
        ensures
            r@ == PREVIEW_KEYMAP_SCHEME@,
    {
        PREVIEW_KEYMAP_SCHEME.to_owned()
    }

    /// Register the search predicates the keymap's conditions name.
    pub fn register_conditions(&self, c: &mut Conditions)
        ensures
            forall|n: Seq<char>| lookup(final(c).table(), n) == (
                if n == "function-searching"@ { Some(Predicate::FunctionSearching) }
                else if n == "function-has-matches"@ { Some(Predicate::FunctionHasMatches) }
                else { lookup(old(c).table(), n) }),
    {
        proof { reveal_strlit("function-searching"); reveal_strlit("function-has-matches"); }
        let ghost t0 = c.table();
        c.register("function-searching", Predicate::FunctionSearching);
        let ghost t1 = c.table();
        c.register("function-has-matches", Predicate::FunctionHasMatches);
        assert("function-searching"@.len() != "function-has-matches"@.len());
        assert forall|n: Seq<char>| lookup(c.table(), n) == (
            if n == "function-searching"@ { Some(Predicate::FunctionSearching) }
            else if n == "function-has-matches"@ { Some(Predicate::FunctionHasMatches) }
            else { lookup(t0, n) }) by {
            assert(lookup(c.table(), n) == (if n == "function-has-matches"@ { Some(Predicate::FunctionHasMatches) } else { lookup(t1, n) }));
            assert(lookup(t1, n) == (if n == "function-searching"@ { Some(Predicate::FunctionSearching) } else { lookup(t0, n) }));
        }
    }

    /// Fold one byte chunk into the window; `true` asks the caller to decode
    /// the file whole as an image.
    pub fn accept_chunk(&mut self, path: &str, offset: u64, bytes: &[u8], eof: bool) -> (image: bool)
        requires
            bytes@.len() * 100 <= usize::MAX,
            offset + bytes@.len() <= u64::MAX,
            has_room(*old(self), bytes@.len() as int),
        ensures
            chunk_post(*old(self), *final(self), path@, offset, bytes@, eof, image),
            final(self).target == old(self).target,
    {
        let mut buf: Vec<u8> = Vec::new();
        let kind: Kind;
        if offset == 0 {
            match classify_first(bytes) {
                None => {
                    self.content = None;
                    self.load = Load { path: Some(path.to_owned()), kind: None, next_offset: 0, eof: true, tail: Vec::new() };
                    return true;
                }
                Some((decoded, k)) => {
                    self.content = Some(decoded);
                    self.load = Load { path: Some(path.to_owned()), kind: Some(k), next_offset: 0, eof: true, tail: Vec::new() };
                    kind = k;
                }
            }
        } else {
            let same = match &self.load.path {
                Some(p) => str_eq(p.as_str(), path),
                None => false,
            };
            if !same || self.content.is_none() {
                return false;
            }
            match self.load.kind {
                Some(k) => kind = k,
                None => return false,
            }
            std::mem::swap(&mut buf, &mut self.load.tail);
        }
        let ghost buf0 = buf@;
        let mut i: usize = 0;
        while i < bytes.len()
            invariant
                i <= bytes@.len(),
                buf@ == buf0 + bytes@.take(i as int),
            decreases bytes@.len() - i,
        {
            buf.push(bytes[i]);
            i = i + 1;
            assert(buf@ =~= buf0 + bytes@.take(i as int));
        }
        assert(bytes@.take(i as int) =~= bytes@);
        let ghost before = self.content;
        match &mut self.content {
            Some(dec) => {
                let t = append(path, kind, dec, buf.as_slice(), eof);
                self.load.tail = t;
            }
            None => {}
        }
        if offset == 0 {
            assert(streamed_lines(before->0) == 0);
        }
        self.load.next_offset = offset + bytes.len() as u64;
        self.load.eof = eof;
        false
    }

    /// Take a read result for `path`: a directory listing replaces the content
    /// whole; a byte chunk is folded in. The preview then shows `path`. `true`
    /// asks the caller to decode the file whole as an image.
    pub fn accept_content(&mut self, path: &str, result: ReadResult) -> (image: bool)
        requires
            result matches ReadResult::Bytes { offset, bytes, eof } ==> {
                &&& bytes@.len() * 100 <= usize::MAX
                &&& offset + bytes@.len() <= u64::MAX
                &&& has_room(*old(self), bytes@.len() as int)
            },
        ensures
            opt_view(final(self).target) == Some(path@),
            match result {
                ReadResult::Dir { entries } => {
                    &&& !image
                    &&& final(self).content matches Some(Decoded::Dir { entries: e }) && e@ == entries@
                    &&& fresh_load(final(self).load, path@, None)
                },
                ReadResult::Bytes { offset, bytes, eof } => chunk_post(*old(self), PreviewExtension { target: old(self).target, ..*final(self) }, path@, offset, bytes@, eof, image),
            },
    {
        let image = match result {
            ReadResult::Dir { entries } => {
                self.content = Some(Decoded::Dir { entries });
                self.load = Load { path: Some(path.to_owned()), kind: None, next_offset: 0, eof: true, tail: Vec::new() };
                false
            }
            ReadResult::Bytes { offset, bytes, eof } => self.accept_chunk(path, offset, bytes.as_slice(), eof),
        };
        self.target = Some(path.to_owned());
        image
    }

    /// Install content the caller decoded whole (an image).
    pub fn set_content(&mut self, d: Decoded)
        ensures
            final(self).content == Some(d),
            final(self).target == old(self).target,
            final(self).load == old(self).load,
    {
        self.content = Some(d);
    }

    /// Follow the cursor: ask for the load `follow_spec` names, as a
    /// `LoadContent` owned by this extension.
    pub fn on_cursor_changed(&self, state: &AppState) -> (r: Vec<Intent>)
        requires
            state.modes@.len() >= 1,
        ensures
            match follow_spec(*self, *state) {
                None => r@.len() == 0,
                Some((p, off)) => r@.len() == 1 && (r@[0] matches Intent::LoadContent { owner, path, offset }
                    && owner@ == PREVIEW_ID@ && path@ == p && offset == off),
            },
    {
        let target: Option<String> = match state.mode() {
            Mode::File => {
                if state.function.visible {
                    match state.current_entry() {
                        Some(e) => Some(e.path.clone()),
                        None => None,
                    }
                } else {
                    None
                }
            }
            Mode::Select(spec) => {
                if str_eq(spec.id.as_str(), "file-search") {
                    match &state.select {
                        Some(sel) => match &sel.view {
                            Some(v) => match v.current() {
                                Some(e) => Some(e.path.clone()),
                                None => None,
                            },
                            None => None,
                        },
                        None => None,
                    }
                } else {
                    None
                }
            }
            _ => None,
        };
        let path = match target {
            Some(p) => p,
            None => return Vec::new(),
        };
        let same = match &self.load.path {
            Some(q) => str_eq(q.as_str(), path.as_str()),
            None => false,
        };
        let offset: u64 = if !same {
            0
        } else if self.load.eof {
            return Vec::new();
        } else {
            let loaded: usize = match &self.content {
                Some(Decoded::Text { lines, .. }) => lines.len(),
                Some(Decoded::Binary { lines }) => lines.len(),
                _ => 0,
            };
            if loaded > LOOKAHEAD && state.function.scroll < loaded - LOOKAHEAD {
                return Vec::new();
            }
            self.load.next_offset
        };
        let mut out: Vec<Intent> = Vec::new();
        out.push(Intent::LoadContent { owner: PREVIEW_ID.to_owned(), path, offset });
        out
    }

    /// The lines the search runs over: those of text or hex content.
    fn searchable(&self) -> (r: Option<&Vec<String>>)
        ensures
            match self.content {
                Some(Decoded::Text { lines, .. }) => r == Some(&lines),
                Some(Decoded::Binary { lines }) => r == Some(&lines),
                _ => r is None,
            },
    {
        match &self.content {
            Some(Decoded::Text { lines, .. }) => Some(lines),
            Some(Decoded::Binary { lines }) => Some(lines),
            _ => None,
        }
    }

    /// Answer an extension intent: `search` runs the matcher over the decoded
    /// lines and returns the match set, then a jump to the first match's line.
    /// Other intents, and content that is not text or hex, give nothing.
    pub fn handle_intent(&self, intent: &ExtensionIntent, state: &AppState) -> (r: Vec<Intent>)
        ensures
            !(intent.intent@ == "search"@) ==> r@.len() == 0,
            intent.intent@ == "search"@ ==> match self.content {
                Some(Decoded::Text { lines, .. }) => search_answer(r@, find_spec(lines@, query_of(ev(intent.data)))),
                Some(Decoded::Binary { lines }) => search_answer(r@, find_spec(lines@, query_of(ev(intent.data)))),
                _ => r@.len() == 0,
            },
    {
        if !str_eq(intent.intent.as_str(), "search") {
            return Vec::new();
        }
        let query: &str = match intent.data.as_str() {
            Some(q) => q,
            None => "",
        };
        proof { reveal_strlit(""); }
        let lines = match self.searchable() {
            Some(l) => l,
            None => return Vec::new(),
        };
        let matches = find_matches(lines.as_slice(), query);
        let first: Option<usize> = if matches.len() > 0 { Some(matches[0].0) } else { None };
        let mut out: Vec<Intent> = Vec::new();
        out.push(Intent::SetSearchMatches(matches));
        match first {
            Some(line) => out.push(Intent::SetScroll(line)),
            None => {}
        }
        out
    }
}

/// The search query an intent's data carries: its string, or empty.
pub open spec fn query_of(d: Ev) -> Seq<char> {
    match d {
        Ev::Str(s) => s,
        _ => Seq::empty(),
    }
}

/// The answer to a search: the match set, then (when there is a first match)
/// a jump to its line.
pub open spec fn search_answer(r: Seq<Intent>, m: Seq<(int, int, int)>) -> bool {
    &&& r.len() == (if m.len() > 0 { 2int } else { 1int })
    &&& r[0] matches Intent::SetSearchMatches(v) && triple_views(v@) == m
    &&& m.len() > 0 ==> r[1] == Intent::SetScroll(m[0].0 as usize)
}

/// Paging asks for more only near the decoded end: while the same target is
/// not fully loaded and the view is more than the look-ahead above the
/// decoded lines, no load is asked for; once the view comes within it, the
/// load continues exactly where the last chunk ended; once the file is fully
/// loaded nothing is asked for.
pub proof fn law_paging_follows_the_view(p: PreviewExtension, s: AppState)
    requires
        preview_target(s) is Some,
        opt_view(p.load.path) == preview_target(s),
    ensures
        p.load.eof ==> follow_spec(p, s) is None,
        !p.load.eof && s.function.scroll + LOOKAHEAD < decoded_lines(p.content) ==> follow_spec(p, s) is None,
        !p.load.eof && s.function.scroll + LOOKAHEAD >= decoded_lines(p.content)
            ==> follow_spec(p, s) == Some((preview_target(s)->0, p.load.next_offset)),
{
}

/// A new target is always loaded from its first byte.
pub proof fn law_new_target_loads_from_the_start(p: PreviewExtension, s: AppState)
    requires
        preview_target(s) is Some,
        opt_view(p.load.path) != preview_target(s),
    ensures
        follow_spec(p, s) == Some((preview_target(s)->0, 0u64)),
{
}

} // verus!
