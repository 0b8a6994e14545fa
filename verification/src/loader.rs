//! An optional extension's manifest: the glue declarations (id, native
//! library, palette commands, resolver entries, Extension-layer keymaps) read
//! as data. Finding manifests and loading libraries is the caller's part.

use vstd::prelude::*;
use crate::command::CommandDef;
use crate::config::{bindings_result, command_error_upto, debug_opt_str, keymap_spec, parse_command_config,
    parse_keymap_config, parse_resolver_config, resolver_config_spec};
use crate::codec::decodes;
use crate::keymap::{Binding, Layer};
use crate::path::opt_view;
use crate::resolver::{entry_model, ResolverEntry};
use crate::sexpr::{dm, dms, parse, parse_spec, Datum, Dm};
use crate::text::{owned, push_str, str_eq};

verus! {

/// Declarations parsed from an extension's glue (a `.scm` manifest).
pub struct OptionalExtension {
    pub id: String,
    /// The native library that provides the intent handlers, named in `(lib ...)`;
    /// `None` for a purely declarative extension.
    pub lib: Option<String>,
    pub commands: Vec<CommandDef>,
    pub resolvers: Vec<ResolverEntry>,
    /// Extension-layer key bindings.
    pub keymaps: Vec<Binding>,
}

/// The head symbol of a section.
pub open spec fn head_of(p: Seq<Dm>) -> Option<Seq<char>> {
    if p.len() > 0 && p[0] is Sym { Some(p[0]->Sym_0) } else { None }
}

/// The error a command config gives, if any.
pub open spec fn commands_error(d: Dm) -> Option<Seq<char>> {
    match d {
        Dm::List(es) => command_error_upto(es, es.len() as int),
        _ => Some("command config is not a list"@),
    }
}

/// The error of one glue section, if any: it must be a list headed by `lib`
/// (with a name), `commands`, `resolvers` or `keymaps` (each with a config
/// that parses).
pub open spec fn section_error(s: Dm) -> Option<Seq<char>> {
    match s {
        Dm::List(p) => {
            let h = head_of(p);
            if h == Some("lib"@) {
                if p.len() > 1 && p[1] is Str { None } else { Some("lib missing name"@) }
            } else if h == Some("commands"@) {
                if p.len() > 1 { commands_error(p[1]) } else { Some("empty commands"@) }
            } else if h == Some("resolvers"@) {
                if p.len() > 1 {
                    match resolver_config_spec(p[1]) { Err(e) => Some(e), Ok(_) => None }
                } else {
                    Some("empty resolvers"@)
                }
            } else if h == Some("keymaps"@) {
                if p.len() > 1 {
                    match keymap_spec(p[1]) { Err(e) => Some(e), Ok(_) => None }
                } else {
                    Some("empty keymaps"@)
                }
            } else {
                Some("unknown glue section: "@ + debug_opt_str(h))
            }
        },
        _ => Some("glue section is not a list"@),
    }
}

/// The first section error among `secs[0..n]`.
pub open spec fn sections_error(secs: Seq<Dm>, n: int) -> Option<Seq<char>>
    decreases n,
{
    if n <= 0 {
        None
    } else {
        match sections_error(secs, n - 1) {
            Some(e) => Some(e),
            None => section_error(secs[n - 1]),
        }
    }
}

/// The last section among `secs[0..n]` headed by `name`.
pub open spec fn last_section(secs: Seq<Dm>, n: int, name: Seq<char>) -> Option<int>
    decreases n,
{
    if n <= 0 {
        None
    } else if secs[n - 1] is List && head_of(secs[n - 1]->List_0) == Some(name) {
        Some(n - 1)
    } else {
        last_section(secs, n - 1, name)
    }
}

/// The config datum of section `i`.
pub open spec fn config_of(secs: Seq<Dm>, i: int) -> Dm {
    secs[i]->List_0[1]
}

/// `v` is the command list a command config describes.
pub open spec fn commands_as(v: Seq<CommandDef>, d: Dm) -> bool {
    d matches Dm::List(es) && v.len() == es.len()
        && forall|i: int| 0 <= i < v.len() ==> (#[trigger] v[i]).name@ == es[i]->List_0[0]->Sym_0
            && v[i].description@ == es[i]->List_0[1]->Str_0
            && decodes(es[i]->List_0[2], Some(v[i].intent))
}

/// `v` is the entry list a resolver config describes.
pub open spec fn resolvers_as(v: Seq<ResolverEntry>, d: Dm) -> bool {
    resolver_config_spec(d) matches Ok(items) && v.len() == items.len()
        && forall|i: int| 0 <= i < v.len() ==> entry_model(#[trigger] v[i]) == items[i]
}

/// What the sections `secs[0..n]` declare, each kind by its last section:
/// the library name, and the commands, resolver entries and bindings (none
/// when no section of that kind is there).
pub open spec fn declared(secs: Seq<Dm>, n: int, lib: Option<String>, commands: Seq<CommandDef>, resolvers: Seq<ResolverEntry>, keymaps: Seq<Binding>) -> bool {
    &&& opt_view(lib) == (match last_section(secs, n, "lib"@) {
        Some(i) => Some(config_of(secs, i)->Str_0),
        None => None,
    })
    &&& match last_section(secs, n, "commands"@) {
        Some(i) => commands_as(commands, config_of(secs, i)),
        None => commands.len() == 0,
    }
    &&& match last_section(secs, n, "resolvers"@) {
        Some(i) => resolvers_as(resolvers, config_of(secs, i)),
        None => resolvers.len() == 0,
    }
    &&& match last_section(secs, n, "keymaps"@) {
        Some(i) => exists|v: Vec<Binding>| v@ == keymaps && #[trigger] bindings_result(Ok(v), keymap_spec(config_of(secs, i)), Layer::Extension),
        None => keymaps.len() == 0,
    }
}

/// The error of a glue text, if any: it must parse, be a list headed by the
/// symbol `extension` with an id string, and have only good sections.
pub open spec fn glue_error(glue: Seq<char>) -> Option<Seq<char>> {
    match parse_spec(glue) {
        Err(e) => Some(e),
        Ok(Dm::List(l)) => if !(l.len() > 0 && l[0] == Dm::Sym("extension"@)) {
            Some("glue must start with `extension`"@)
        } else if !(l.len() > 1 && l[1] is Str) {
            Some("glue missing id"@)
        } else {
            sections_error(l.skip(2), l.len() - 2)
        },
        Ok(_) => Some("glue is not a list"@),
    }
}

proof fn lemma_sections_err_stays(secs: Seq<Dm>, k: int, n: int)
    requires
        1 <= k <= n,
        sections_error(secs, k) is Some,
    ensures
        sections_error(secs, n) == sections_error(secs, k),
    decreases n - k,
{
    if k < n {
        lemma_sections_err_stays(secs, k, n - 1);
    }
}

proof fn lemma_last_other(secs: Seq<Dm>, k: int, name: Seq<char>, other: Seq<char>)
    requires
        0 <= k < secs.len(),
        secs[k] is List,
        head_of(secs[k]->List_0) == Some(other),
        other != name,
    ensures
        last_section(secs, k + 1, name) == last_section(secs, k, name),
{
}

/// Parse an extension's glue:
/// `(extension "id" (lib "name") (commands (...)) (resolvers (...)) (keymaps (...)))`.
/// Every section is optional, and a later section of a kind replaces an
/// earlier one. Keymap groups take the shape of the embedded keymap config and
/// are registered at the Extension layer.
pub fn parse_glue(glue: &str) -> (r: Result<OptionalExtension, String>)
    ensures
        match glue_error(glue@) {
            Some(e) => r matches Err(m) && m@ == e,
            None => r matches Ok(x) && ({
                let l = parse_spec(glue@)->Ok_0->List_0;
                &&& x.id@ == l[1]->Str_0
                &&& declared(l.skip(2), l.len() - 2, x.lib, x.commands@, x.resolvers@, x.keymaps@)
            }),
        },
{
    proof {
        reveal_strlit("glue is not a list");
        reveal_strlit("glue must start with `extension`");
        reveal_strlit("extension");
        reveal_strlit("glue missing id");
        reveal_strlit("glue section is not a list");
        reveal_strlit("lib");
        reveal_strlit("commands");
        reveal_strlit("resolvers");
        reveal_strlit("keymaps");
        reveal_strlit("lib missing name");
        reveal_strlit("empty commands");
        reveal_strlit("empty resolvers");
        reveal_strlit("empty keymaps");
        reveal_strlit("unknown glue section: ");
        reveal_strlit("Some(\"");
        reveal_strlit("\")");
        reveal_strlit("None");
    }
    let datum = match parse(glue) {
        Ok(d) => d,
        Err(e) => return Err(e),
    };
    let list = match datum.as_list() {
        Some(l) => l,
        None => return Err("glue is not a list".to_owned()),
    };
    let ghost lm = dms(list@);
    let is_ext = if list.len() > 0 {
        assert(lm[0] == dm(list@[0]));
        match list[0].as_sym() {
            Some(s) => str_eq(s, "extension"),
            None => false,
        }
    } else {
        false
    };
    if !is_ext {
        return Err("glue must start with `extension`".to_owned());
    }
    if list.len() < 2 {
        return Err("glue missing id".to_owned());
    }
    assert(lm[1] == dm(list@[1]));
    let id = match list[1].as_str() {
        Some(s) => owned(s),
        None => return Err("glue missing id".to_owned()),
    };
    let ghost secs = lm.skip(2);
    let mut lib: Option<String> = None;
    let mut commands: Vec<CommandDef> = Vec::new();
    let mut resolvers: Vec<ResolverEntry> = Vec::new();
    let mut keymaps: Vec<Binding> = Vec::new();
    let mut k: usize = 2;
    while k < list.len()
        invariant
            2 <= k <= list@.len(),
            lm == dms(list@),
            secs == lm.skip(2),
            parse_spec(glue@) == Ok::<Dm, Seq<char>>(Dm::List(lm)),
            lm.len() > 1 && lm[0] == Dm::Sym("extension"@) && lm[1] is Str,
            id@ == lm[1]->Str_0,
            sections_error(secs, k - 2) is None,
            declared(secs, k - 2, lib, commands@, resolvers@, keymaps@),
        decreases list@.len() - k,
    {
        let ghost j = k - 2;
        proof {
            reveal_strlit("glue section is not a list");
            reveal_strlit("lib");
            reveal_strlit("commands");
            reveal_strlit("resolvers");
            reveal_strlit("keymaps");
            reveal_strlit("lib missing name");
            reveal_strlit("empty commands");
            reveal_strlit("empty resolvers");
            reveal_strlit("empty keymaps");
            reveal_strlit("unknown glue section: ");
            reveal_strlit("Some(\"");
            reveal_strlit("\")");
            reveal_strlit("None");
        }
        assert(secs[j] == dm(list@[k as int]));
        let s = match list[k].as_list() {
            Some(s) => s,
            None => {
                assert(sections_error(secs, j + 1) is Some);
                proof { lemma_sections_err_stays(secs, j + 1, secs.len() as int); }
                return Err("glue section is not a list".to_owned());
            }
        };
        let ghost p = dms(s@);
        let head: Option<&str> = if s.len() > 0 {
            assert(p[0] == dm(s@[0]));
            s[0].as_sym()
        } else {
            None
        };
        assert(head_of(p) == (match head { Some(h) => Some(h@), None => None::<Seq<char>> }));
        let which: u8 = match head {
            Some(h) => if str_eq(h, "lib") { 1 } else if str_eq(h, "commands") { 2 } else if str_eq(h, "resolvers") { 3 } else if str_eq(h, "keymaps") { 4 } else { 0 },
            None => 0,
        };
        if which == 0 {
            let mut m = "unknown glue section: ".to_owned();
            match head {
                Some(h) => {
                    push_str(&mut m, "Some(\"");
                    crate::sexpr::push_escaped(&mut m, h);
                    push_str(&mut m, "\")");
                }
                None => push_str(&mut m, "None"),
            }
            assert(section_error(secs[j]) == Some(m@));
            proof { lemma_sections_err_stays(secs, j + 1, secs.len() as int); }
            return Err(m);
        }
        if s.len() < 2 {
            let e = if which == 1 { "lib missing name" } else if which == 2 { "empty commands" } else if which == 3 { "empty resolvers" } else { "empty keymaps" };
            assert(section_error(secs[j]) == Some(e@));
            proof { lemma_sections_err_stays(secs, j + 1, secs.len() as int); }
            return Err(e.to_owned());
        }
        assert(p[1] == dm(s@[1]));
        assert(config_of(secs, j) == dm(s@[1]));
        if which == 1 {
            match s[1].as_str() {
                Some(name) => {
                    lib = Some(owned(name));
                }
                None => {
                    assert(section_error(secs[j]) == Some("lib missing name"@));
                    proof { lemma_sections_err_stays(secs, j + 1, secs.len() as int); }
                    return Err("lib missing name".to_owned());
                }
            }
            proof {
                lemma_last_other(secs, j, "commands"@, "lib"@);
                lemma_last_other(secs, j, "resolvers"@, "lib"@);
                lemma_last_other(secs, j, "keymaps"@, "lib"@);
            }
        } else if which == 2 {
            match parse_command_config(&s[1]) {
                Ok(v) => {
                    commands = v;
                }
                Err(e) => {
                    assert(section_error(secs[j]) == Some(e@));
                    proof { lemma_sections_err_stays(secs, j + 1, secs.len() as int); }
                    return Err(e);
                }
            }
            proof {
                lemma_last_other(secs, j, "lib"@, "commands"@);
                lemma_last_other(secs, j, "resolvers"@, "commands"@);
                lemma_last_other(secs, j, "keymaps"@, "commands"@);
            }
        } else if which == 3 {
            match parse_resolver_config(&s[1]) {
                Ok(v) => {
                    resolvers = v;
                }
                Err(e) => {
                    assert(section_error(secs[j]) == Some(e@));
                    proof { lemma_sections_err_stays(secs, j + 1, secs.len() as int); }
                    return Err(e);
                }
            }
            proof {
                lemma_last_other(secs, j, "lib"@, "resolvers"@);
                lemma_last_other(secs, j, "commands"@, "resolvers"@);
                lemma_last_other(secs, j, "keymaps"@, "resolvers"@);
            }
        } else {
            let res = parse_keymap_config(&s[1], Layer::Extension);
            match res {
                Ok(v) => {
                    assert(bindings_result(Ok(v), keymap_spec(config_of(secs, j)), Layer::Extension));
                    keymaps = v;
                }
                Err(e) => {
                    assert(section_error(secs[j]) == Some(e@));
                    proof { lemma_sections_err_stays(secs, j + 1, secs.len() as int); }
                    return Err(e);
                }
            }
            proof {
                lemma_last_other(secs, j, "lib"@, "keymaps"@);
                lemma_last_other(secs, j, "commands"@, "keymaps"@);
                lemma_last_other(secs, j, "resolvers"@, "keymaps"@);
            }
        }
        k = k + 1;
    }
    Ok(OptionalExtension { id, lib, commands, resolvers, keymaps })
}

} // verus!
