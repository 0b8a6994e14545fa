//! The bundled archive extension: pack the selection into an archive, unpack
//! the cursor archive. Its bindings and commands enter File mode; pack asks
//! for the archive's name through a Select confirmed by Emit; both end in an
//! intent that carries the reserved resolver key, run as a plan through the
//! resolver chain.

use vstd::prelude::*;
use crate::command::CommandDef;
use crate::condition::{cm, lookup, Cond, CondM, Conditions, Predicate};
use crate::intent::{ExtensionIntent, Intent, Key, KeyCode, Mods};
use crate::keymap::{Binding, Layer};
use crate::mode::{FunctionHint, Mode, OnConfirm, SelectInput, SelectSource, SelectSpec};
use crate::path::opt_view;
use crate::resolver::{entry_model, ArgEl, ArgM, Candidate, Kind, ResolverEntry, Slot};
use crate::state::{targets_spec, views, AppState};
use crate::text::{owned, push_str, str_eq};
use crate::value::{build_map, ev, ev_get, ev_with, pair_models, Ev, ExtensionValue, KEY_ITEM, KEY_RESOLVER};

verus! {

/// The extension's id.
pub const ARCHIVE_ID: &'static str = "archive";

/// The archive name offered when none is typed.
pub const DEFAULT_ARCHIVE: &'static str = "archive.tar.gz";

/// The bundled archive extension.
pub struct ArchiveExtension;

/// Whether a file name ends in an archive suffix (in any case).
pub fn is_archive_name(name: &str) -> (r: bool)
    ensures
        r == crate::condition::is_archive_name_spec(name@),
{
    crate::condition::is_archive_name(name)
}

fn ext_intent(name: &str, data: ExtensionValue) -> (i: Intent)
    ensures
        i matches Intent::Extension(e) && e.extension@ == ARCHIVE_ID@ && e.intent@ == name@ && e.data == data,
{
    Intent::Extension(ExtensionIntent { extension: owned(ARCHIVE_ID), intent: owned(name), data })
}

/// The resolver table of a pack: the op, the destination, the paths to pack,
/// and the label.
pub open spec fn pack_table(dest: Seq<char>, paths: Seq<Seq<char>>) -> Ev {
    Ev::Table(build_map(seq![
        ("op"@, Ev::Str("archive:pack"@)),
        ("dst"@, Ev::Str(dest)),
        ("paths"@, Ev::List(Seq::new(paths.len(), |i: int| Ev::Path(paths[i])))),
        ("label"@, Ev::Str("pack \u{2192} "@ + dest)),
    ]))
}

/// The resolver table of an unpack: the op, the archive's path, the label.
pub open spec fn unpack_table(path: Seq<char>, name: Seq<char>) -> Ev {
    Ev::Table(build_map(seq![
        ("op"@, Ev::Str("archive:unpack"@)),
        ("path"@, Ev::Path(path)),
        ("label"@, Ev::Str("unpack "@ + name)),
    ]))
}

/// The destination a `pack-run` carries: the confirmed text under `item`, else
/// the default name.
pub open spec fn pack_dest(data: Ev) -> Seq<char> {
    match ev_get(data, KEY_ITEM@) {
        Some(Ev::Str(s)) => s,
        _ => DEFAULT_ARCHIVE@,
    }
}

/// An archive extension intent whose data is the table under the resolver key.
pub open spec fn runs(i: Intent, name: Seq<char>, table: Ev) -> bool {
    i matches Intent::Extension(e) && e.extension@ == ARCHIVE_ID@ && e.intent@ == name
        && ev(e.data) == ev_with(Ev::Nil, KEY_RESOLVER@, table)
}

impl ArchiveExtension {
    /// The extension's id.
    pub fn id(&self) -> (r: &'static str)
        ensures
            r@ == ARCHIVE_ID@,
    {
        ARCHIVE_ID
    }

    /// Register the `cursor-is-archive` predicate.
    pub fn register_conditions(&self, c: &mut Conditions)
        ensures
            forall|n: Seq<char>| lookup(final(c).table(), n) == (
                if n == "cursor-is-archive"@ { Some(Predicate::CursorIsArchive) } else { lookup(old(c).table(), n) }),
    {
        c.register("cursor-is-archive", Predicate::CursorIsArchive);
    }

    /// The palette commands `pack` and `unpack`.
    pub fn commands(&self) -> (r: Vec<CommandDef>)
        ensures
            r@.len() == 2,
            r@[0].name@ == "pack"@ && r@[0].description@ == "pack the selection into an archive"@,
            r@[0].intent matches Intent::Extension(e) && e.extension@ == ARCHIVE_ID@ && e.intent@ == "pack"@ && e.data == ExtensionValue::Nil,
            r@[1].name@ == "unpack"@ && r@[1].description@ == "extract the cursor archive here"@,
            r@[1].intent matches Intent::Extension(e) && e.extension@ == ARCHIVE_ID@ && e.intent@ == "unpack"@ && e.data == ExtensionValue::Nil,
    {
        let mut v: Vec<CommandDef> = Vec::new();
        v.push(CommandDef {
            name: "pack".to_owned(),
            description: "pack the selection into an archive".to_owned(),
            intent: ext_intent("pack", ExtensionValue::Nil),
        });
        v.push(CommandDef {
            name: "unpack".to_owned(),
            description: "extract the cursor archive here".to_owned(),
            intent: ext_intent("unpack", ExtensionValue::Nil),
        });
        v
    }

    /// The File-mode bindings: `p` packs while there is a selection, `P`
    /// unpacks while the cursor is on an archive; Extension layer.
    pub fn keymaps(&self) -> (r: Vec<Binding>)
        ensures
            r@.len() == 2,
            forall|i: int| 0 <= i < 2 ==> (#[trigger] r@[i]).mode@ == "file"@ && opt_view(r@[i].panel) == Some("file"@) && r@[i].layer == Layer::Extension,
            r@[0].key == (Key { code: KeyCode::Char('p'), mods: Mods { ctrl: false, shift: false, alt: false } }),
            r@[0].intent matches Intent::Extension(e) && e.extension@ == ARCHIVE_ID@ && e.intent@ == "pack"@ && e.data == ExtensionValue::Nil,
            cm(r@[0].when) == CondM::Pred("has-selection"@),
            r@[1].key == (Key { code: KeyCode::Char('P'), mods: Mods { ctrl: false, shift: false, alt: false } }),
            r@[1].intent matches Intent::Extension(e) && e.extension@ == ARCHIVE_ID@ && e.intent@ == "unpack"@ && e.data == ExtensionValue::Nil,
            cm(r@[1].when) == CondM::Pred("cursor-is-archive"@),
    {
        let mut v: Vec<Binding> = Vec::new();
        v.push(Binding {
            mode: "file".to_owned(),
            panel: Some("file".to_owned()),
            key: Key { code: KeyCode::Char('p'), mods: Mods { ctrl: false, shift: false, alt: false } },
            intent: ext_intent("pack", ExtensionValue::Nil),
            when: Cond::pred("has-selection"),
            layer: Layer::Extension,
        });
        v.push(Binding {
            mode: "file".to_owned(),
            panel: Some("file".to_owned()),
            key: Key { code: KeyCode::Char('P'), mods: Mods { ctrl: false, shift: false, alt: false } },
            intent: ext_intent("unpack", ExtensionValue::Nil),
            when: Cond::pred("cursor-is-archive"),
            layer: Layer::Extension,
        });
        v
    }

    /// The resolver entries: `archive:pack` runs `tar -czf dst paths...`,
    /// `archive:unpack` runs `tar -xf path`; neither is destructive.
    pub fn resolver_entries(&self) -> (r: Vec<ResolverEntry>)
        ensures
            r@.len() == 2,
            entry_model(r@[0]) == ("archive:pack"@, false, Seq::<(Seq<char>, Seq<char>)>::empty(),
                seq![(Kind::Native, seq![ArgM::Lit("tar"@), ArgM::Lit("-czf"@), ArgM::Ph(Slot::Dst), ArgM::Ph(Slot::Paths)])]),
            entry_model(r@[1]) == ("archive:unpack"@, false, Seq::<(Seq<char>, Seq<char>)>::empty(),
                seq![(Kind::Native, seq![ArgM::Lit("tar"@), ArgM::Lit("-xf"@), ArgM::Ph(Slot::Path)])]),
    {
        let mut pack_argv: Vec<ArgEl> = Vec::new();
        pack_argv.push(ArgEl::Lit("tar".to_owned()));
        pack_argv.push(ArgEl::Lit("-czf".to_owned()));
        pack_argv.push(ArgEl::Ph(Slot::Dst));
        pack_argv.push(ArgEl::Ph(Slot::Paths));
        let mut pack_c: Vec<Candidate> = Vec::new();
        pack_c.push(Candidate { kind: Kind::Native, argv: pack_argv });
        let mut unpack_argv: Vec<ArgEl> = Vec::new();
        unpack_argv.push(ArgEl::Lit("tar".to_owned()));
        unpack_argv.push(ArgEl::Lit("-xf".to_owned()));
        unpack_argv.push(ArgEl::Ph(Slot::Path));
        let mut unpack_c: Vec<Candidate> = Vec::new();
        unpack_c.push(Candidate { kind: Kind::Native, argv: unpack_argv });
        let mut v: Vec<ResolverEntry> = Vec::new();
        v.push(ResolverEntry { key: "archive:pack".to_owned(), destructive: false, options: Vec::new(), candidates: pack_c });
        v.push(ResolverEntry { key: "archive:unpack".to_owned(), destructive: false, options: Vec::new(), candidates: unpack_c });
        proof {
            let e0 = entry_model(v@[0]);
            let e1 = entry_model(v@[1]);
            assert(e0.2 =~= Seq::<(Seq<char>, Seq<char>)>::empty());
            assert(e1.2 =~= Seq::<(Seq<char>, Seq<char>)>::empty());
            assert(crate::resolver::arg_models(pack_c@[0].argv@) =~= seq![ArgM::Lit("tar"@), ArgM::Lit("-czf"@), ArgM::Ph(Slot::Dst), ArgM::Ph(Slot::Paths)]);
            assert(crate::resolver::arg_models(unpack_c@[0].argv@) =~= seq![ArgM::Lit("tar"@), ArgM::Lit("-xf"@), ArgM::Ph(Slot::Path)]);
            assert(e0.3 =~= seq![(Kind::Native, seq![ArgM::Lit("tar"@), ArgM::Lit("-czf"@), ArgM::Ph(Slot::Dst), ArgM::Ph(Slot::Paths)])]);
            assert(e1.3 =~= seq![(Kind::Native, seq![ArgM::Lit("tar"@), ArgM::Lit("-xf"@), ArgM::Ph(Slot::Path)])]);
        }
        v
    }

    /// Answer an archive intent. `pack` asks for the archive name (a Select
    /// with path input, confirmed through Emit as `pack-run`); `pack-run` leaves
    /// that Select and packs the operation targets into the named archive (the
    /// default name when none came); `unpack` unpacks the cursor archive (nothing
    /// without a cursor entry). Anything else gives nothing.
    pub fn handle_intent(&self, intent: &ExtensionIntent, state: &AppState) -> (r: Vec<Intent>)
        ensures
            intent.intent@ == "pack"@ ==> r@.len() == 1 && (r@[0] matches Intent::PushMode(m) && ({
                &&& *m matches Mode::Select(spec)
                &&& spec.id@ == "archive:pack"@
                &&& spec.source == SelectSource::PathCompletion
                &&& spec.input == SelectInput::Path
                &&& spec.on_confirm matches OnConfirm::Emit(t) && t.extension@ == ARCHIVE_ID@ && t.intent@ == "pack-run"@ && t.data == ExtensionValue::Nil
                &&& opt_view(spec.initial_query) == Some(DEFAULT_ARCHIVE@)
                &&& spec.function_hint == Some(FunctionHint::CommandSummary)
            })),
            intent.intent@ == "pack-run"@ ==> r@.len() == 2 && r@[0] == Intent::PopMode
                && runs(r@[1], "pack"@, pack_table(pack_dest(ev(intent.data)), targets_spec(*state))),
            intent.intent@ == "unpack"@ ==> if state.cursor < state.entries@.len() {
                r@.len() == 1 && runs(r@[0], "unpack"@, unpack_table(state.entries@[state.cursor as int].path@, state.entries@[state.cursor as int].name@))
            } else {
                r@.len() == 0
            },
            !(intent.intent@ == "pack"@ || intent.intent@ == "pack-run"@ || intent.intent@ == "unpack"@) ==> r@.len() == 0,
    {
        proof {
            reveal_strlit("pack");
            reveal_strlit("pack-run");
            reveal_strlit("unpack");
            assert("unpack"@.len() != "pack"@.len());
            assert("unpack"@.len() != "pack-run"@.len());
            assert("pack"@.len() != "pack-run"@.len());
        }
        let name = intent.intent.as_str();
        let mut out: Vec<Intent> = Vec::new();
        if str_eq(name, "pack") {
            let template = ExtensionIntent { extension: owned(ARCHIVE_ID), intent: "pack-run".to_owned(), data: ExtensionValue::Nil };
            let spec = SelectSpec::emit_path_input("archive:pack", template, Some(DEFAULT_ARCHIVE.to_owned()), Some(FunctionHint::CommandSummary));
            out.push(Intent::PushMode(Box::new(Mode::Select(spec))));
        } else if str_eq(name, "pack-run") {
            let dest: String = match intent.data.get(KEY_ITEM) {
                Some(v) => match v.as_str() {
                    Some(s) => owned(s),
                    None => DEFAULT_ARCHIVE.to_owned(),
                },
                None => DEFAULT_ARCHIVE.to_owned(),
            };
            let targets = state.targets();
            let mut paths: Vec<ExtensionValue> = Vec::new();
            let mut i: usize = 0;
            while i < targets.len()
                invariant
                    i <= targets@.len(),
                    paths@.len() == i,
                    forall|k: int| 0 <= k < i ==> ev(#[trigger] paths@[k]) == Ev::Path(targets@[k]@),
                decreases targets@.len() - i,
            {
                paths.push(ExtensionValue::Path(targets[i].clone()));
                i = i + 1;
            }
            let mut label = "pack \u{2192} ".to_owned();
            push_str(&mut label, dest.as_str());
            let mut pairs: Vec<(String, ExtensionValue)> = Vec::new();
            pairs.push(("op".to_owned(), ExtensionValue::String("archive:pack".to_owned())));
            pairs.push(("dst".to_owned(), ExtensionValue::String(dest)));
            pairs.push(("paths".to_owned(), ExtensionValue::List(paths)));
            pairs.push(("label".to_owned(), ExtensionValue::String(label)));
            let ghost pm = pair_models(pairs@);
            proof {
                let l = ev(pairs@[2].1)->List_0;
                assert(l =~= Seq::new(targets_spec(*state).len(), |k: int| Ev::Path(targets_spec(*state)[k])));
                assert(pm =~= seq![
                    ("op"@, Ev::Str("archive:pack"@)),
                    ("dst"@, Ev::Str(pack_dest(ev(intent.data)))),
                    ("paths"@, Ev::List(Seq::new(targets_spec(*state).len(), |k: int| Ev::Path(targets_spec(*state)[k])))),
                    ("label"@, Ev::Str("pack \u{2192} "@ + pack_dest(ev(intent.data)))),
                ]);
            }
            let table = ExtensionValue::map(pairs);
            assert(ev(table) == pack_table(pack_dest(ev(intent.data)), targets_spec(*state)));
            let data = ExtensionValue::Nil.with(KEY_RESOLVER, table);
            assert(ev(data) == ev_with(Ev::Nil, KEY_RESOLVER@, pack_table(pack_dest(ev(intent.data)), targets_spec(*state))));
            out.push(Intent::PopMode);
            let run = ext_intent("pack", data);
            assert(runs(run, "pack"@, pack_table(pack_dest(ev(intent.data)), targets_spec(*state))));
            out.push(run);
            assert(out@.len() == 2 && out@[0] == Intent::PopMode);
            assert(out@[1] == run);
        } else if str_eq(name, "unpack") {
            match state.current_entry() {
                Some(entry) => {
                    let mut label = "unpack ".to_owned();
                    push_str(&mut label, entry.name.as_str());
                    let mut pairs: Vec<(String, ExtensionValue)> = Vec::new();
                    pairs.push(("op".to_owned(), ExtensionValue::String("archive:unpack".to_owned())));
                    pairs.push(("path".to_owned(), ExtensionValue::Path(entry.path.clone())));
                    pairs.push(("label".to_owned(), ExtensionValue::String(label)));
                    proof {
                        assert(pair_models(pairs@) =~= seq![
                            ("op"@, Ev::Str("archive:unpack"@)),
                            ("path"@, Ev::Path(entry.path@)),
                            ("label"@, Ev::Str("unpack "@ + entry.name@)),
                        ]);
                    }
                    let table = ExtensionValue::map(pairs);
                    let data = ExtensionValue::Nil.with(KEY_RESOLVER, table);
                    let run = ext_intent("unpack", data);
                    assert(ev(table) == unpack_table(entry.path@, entry.name@));
                    assert(runs(run, "unpack"@, unpack_table(state.entries@[state.cursor as int].path@, state.entries@[state.cursor as int].name@)));
                    out.push(run);
                    assert(out@.len() == 1);
                    assert(out@[0] == run);
                }
                None => {}
            }
        }
        out
    }
}

} // verus!
