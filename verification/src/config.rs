//! Decoding parsed config data (s-expression datums) into registry types:
//! resolver entries, palette commands and keymap bindings.

use vstd::prelude::*;
use crate::codec::{cond_from_datum, cond_of, decodes, intent_from_datum, parse_key, parse_key_spec, text_of};
use crate::command::CommandDef;
use crate::condition::{Cond, CondM, cm};
use crate::intent::{Intent, Key};
use crate::keymap::{Binding, Layer};
use crate::path::opt_view;
use crate::resolver::{ArgEl, ArgM, Candidate, Kind, OptDef, ResolverEntry, Slot, arg_model};
use crate::sexpr::{Datum, Dm, dm, dms};
use crate::text::{owned, push_str, str_eq};

verus! {

// --- keymaps -------------------------------------------------------------------

/// The panel scope of a group or a `bind` form: `#f` or nothing is none, a
/// symbol names a panel, anything else is none.
pub open spec fn panel_of(d: Option<Dm>) -> Option<Seq<char>> {
    match d {
        Some(Dm::Sym(s)) => Some(s),
        _ => None,
    }
}

/// The datum at `i`, if any.
pub open spec fn at(s: Seq<Dm>, i: int) -> Option<Dm> {
    if 0 <= i < s.len() { Some(s[i]) } else { None }
}

/// Checking one binding `(key intent [when])`: the key's name and text, or
/// the error.
pub open spec fn bind_error(bp: Dm) -> Option<Seq<char>> {
    match bp {
        Dm::List(p) => if p.len() == 0 || text_of(p[0]) is None {
            Some("binding missing key"@)
        } else if parse_key_spec(text_of(p[0])->0) is None {
            Some("unknown key: "@ + text_of(p[0])->0)
        } else if p.len() < 2 || decodes(p[1], None) {
            Some("binding for '"@ + text_of(p[0])->0 + "' has an unknown intent"@)
        } else {
            None
        },
        _ => Some("binding is not a list"@),
    }
}

/// A decoded binding of `(key intent [when])` in scope (mode, panel).
pub open spec fn bound_as(b: Binding, mode: Seq<char>, panel: Option<Seq<char>>, p: Seq<Dm>, layer: Layer) -> bool {
    &&& b.mode@ == mode
    &&& opt_view(b.panel) == panel
    &&& Some(b.key) == parse_key_spec(text_of(p[0])->0)
    &&& decodes(p[1], Some(b.intent))
    &&& cm(b.when) == (if p.len() > 2 { cond_of(p[2]) } else { CondM::Always })
    &&& b.layer == layer
}

/// The error of a group `(mode panel (binding ...))` itself, if any.
pub open spec fn group_error(g: Dm) -> Option<Seq<char>> {
    match g {
        Dm::List(gp) => if gp.len() == 0 || !(gp[0] is Sym) {
            Some("group missing mode"@)
        } else if gp.len() < 3 || !(gp[2] is List) {
            Some("group missing bindings"@)
        } else {
            None
        },
        _ => Some("keymap group is not a list"@),
    }
}

/// The first error among the first `n` bindings of a list.
pub open spec fn binds_error(bs: Seq<Dm>, n: int) -> Option<Seq<char>>
    decreases n,
{
    if n <= 0 {
        None
    } else {
        match binds_error(bs, n - 1) {
            Some(e) => Some(e),
            None => bind_error(bs[n - 1]),
        }
    }
}

/// The scoped bindings `(mode, panel, binding)` of the first `n` groups, or
/// the first error met.
pub open spec fn keymap_upto(gs: Seq<Dm>, n: int) -> Result<Seq<(Seq<char>, Option<Seq<char>>, Seq<Dm>)>, Seq<char>>
    decreases n,
{
    if n <= 0 {
        Ok(Seq::empty())
    } else {
        match keymap_upto(gs, n - 1) {
            Err(e) => Err(e),
            Ok(prev) => match group_error(gs[n - 1]) {
                Some(e) => Err(e),
                None => {
                    let gp = gs[n - 1]->List_0;
                    let bs = gp[2]->List_0;
                    match binds_error(bs, bs.len() as int) {
                        Some(e) => Err(e),
                        None => Ok(prev + Seq::new(bs.len(), |i: int| (gp[0]->Sym_0, panel_of(at(gp, 1)), bs[i]->List_0))),
                    }
                },
            },
        }
    }
}

pub open spec fn keymap_spec(d: Dm) -> Result<Seq<(Seq<char>, Option<Seq<char>>, Seq<Dm>)>, Seq<char>> {
    match d {
        Dm::List(gs) => keymap_upto(gs, gs.len() as int),
        _ => Err("keymap config is not a list"@),
    }
}

/// The bindings decoded from scoped binding forms.
pub open spec fn bindings_as(out: Seq<Binding>, items: Seq<(Seq<char>, Option<Seq<char>>, Seq<Dm>)>, layer: Layer) -> bool {
    &&& out.len() == items.len()
    &&& forall|i: int| 0 <= i < out.len() ==> bound_as(#[trigger] out[i], items[i].0, items[i].1, items[i].2, layer)
}

pub open spec fn bindings_result(r: Result<Vec<Binding>, String>, spec: Result<Seq<(Seq<char>, Option<Seq<char>>, Seq<Dm>)>, Seq<char>>, layer: Layer) -> bool {
    match (r, spec) {
        (Ok(v), Ok(items)) => bindings_as(v@, items, layer),
        (Err(e), Err(m)) => e@ == m,
        _ => false,
    }
}

fn panel_from(d: Option<&Datum>) -> (r: Option<String>)
    ensures
        opt_view(r) == panel_of(match d { Some(x) => Some(dm(*x)), None => None }),
{
    match d {
        Some(Datum::Sym(s)) => Some(s.clone()),
        _ => None,
    }
}

/// Decodes one binding form in scope, or gives its error.
fn decode_bind(b: &Datum, mode: &String, panel: &Option<String>, layer: Layer) -> (r: Result<Binding, String>)
    ensures
        match r {
            Ok(x) => bind_error(dm(*b)) is None && bound_as(x, mode@, opt_view(*panel), dm(*b)->List_0, layer),
            Err(e) => bind_error(dm(*b)) == Some(e@),
        },
{
    proof {
        reveal_strlit("binding is not a list");
        reveal_strlit("binding missing key");
        reveal_strlit("unknown key: ");
        reveal_strlit("binding for '");
        reveal_strlit("' has an unknown intent");
    }
    let bp = match b.as_list() {
        Some(p) => p,
        None => {
            return Err("binding is not a list".to_owned());
        }
    };
    let ghost pm = dms(bp@);
    if bp.len() == 0 {
        return Err("binding missing key".to_owned());
    }
    assert(pm[0] == dm(bp@[0]));
    let name = match bp[0].text() {
        Some(t) => t,
        None => {
            return Err("binding missing key".to_owned());
        }
    };
    let key = match parse_key(name) {
        Some(k) => k,
        None => {
            let mut m = "unknown key: ".to_owned();
            push_str(&mut m, name);
            return Err(m);
        }
    };
    let intent = if bp.len() >= 2 {
        assert(pm[1] == dm(bp@[1]));
        intent_from_datum(&bp[1])
    } else {
        None
    };
    let intent = match intent {
        Some(i) => i,
        None => {
            let mut m = "binding for '".to_owned();
            push_str(&mut m, name);
            push_str(&mut m, "' has an unknown intent");
            return Err(m);
        }
    };
    let when = if bp.len() > 2 {
        assert(pm[2] == dm(bp@[2]));
        cond_from_datum(&bp[2])
    } else {
        Cond::Always
    };
    Ok(Binding { mode: mode.clone(), panel: match panel { Some(p) => Some(p.clone()), None => None }, key, intent, when, layer })
}

/// Map a keymap-config datum (a list of groups) into bindings at `layer`.
#[verifier::loop_isolation(false)]
pub fn parse_keymap_config(datum: &Datum, layer: Layer) -> (r: Result<Vec<Binding>, String>)
    ensures
        bindings_result(r, keymap_spec(dm(*datum)), layer),
{
    proof {
        reveal_strlit("keymap config is not a list");
        reveal_strlit("keymap group is not a list");
        reveal_strlit("group missing mode");
        reveal_strlit("group missing bindings");
    }
    let groups = match datum.as_list() {
        Some(g) => g,
        None => {
            return Err("keymap config is not a list".to_owned());
        }
    };
    let ghost gs = dms(groups@);
    let mut out: Vec<Binding> = Vec::new();
    let mut gi: usize = 0;
    assert(keymap_upto(gs, 0) == Ok::<Seq<(Seq<char>, Option<Seq<char>>, Seq<Dm>)>, Seq<char>>(Seq::empty()));
    while gi < groups.len()
        invariant
            gi <= groups@.len(),
            gs == dms(groups@),
            dm(*datum) == Dm::List(gs),
            keymap_upto(gs, gi as int) matches Ok(items) && bindings_as(out@, items, layer),
        decreases groups@.len() - gi,
    {
        let ghost prev = keymap_upto(gs, gi as int)->Ok_0;
        assert(gs[gi as int] == dm(groups@[gi as int]));
        let gp = match groups[gi].as_list() {
            Some(g) => g,
            None => {
                proof { lemma_keymap_err_stays(gs, gi as int + 1, groups@.len() as int); }
                return Err("keymap group is not a list".to_owned());
            }
        };
        let ghost gpm = dms(gp@);
        if gp.len() == 0 {
            proof { lemma_keymap_err_stays(gs, gi as int + 1, groups@.len() as int); }
            return Err("group missing mode".to_owned());
        }
        assert(gpm[0] == dm(gp@[0]));
        let mode = match gp[0].as_sym() {
            Some(m) => owned(m),
            None => {
                proof { lemma_keymap_err_stays(gs, gi as int + 1, groups@.len() as int); }
                return Err("group missing mode".to_owned());
            }
        };
        let panel = if gp.len() > 1 {
            assert(gpm[1] == dm(gp@[1]));
            panel_from(Some(&gp[1]))
        } else {
            panel_from(None)
        };
        assert(opt_view(panel) == panel_of(at(gpm, 1)));
        if gp.len() < 3 {
            proof { lemma_keymap_err_stays(gs, gi as int + 1, groups@.len() as int); }
            return Err("group missing bindings".to_owned());
        }
        assert(gpm[2] == dm(gp@[2]));
        let binds = match gp[2].as_list() {
            Some(b) => b,
            None => {
                proof { lemma_keymap_err_stays(gs, gi as int + 1, groups@.len() as int); }
                return Err("group missing bindings".to_owned());
            }
        };
        let ghost bs = dms(binds@);
        let ghost base = out@;
        assert(bindings_as(base, prev, layer));
        let mut bi: usize = 0;
        while bi < binds.len()
            invariant
                bi <= binds@.len(),
                bs == dms(binds@),
                binds_error(bs, bi as int) is None,
                out@.len() == base.len() + bi,
                forall|k: int| 0 <= k < base.len() ==> out@[k] == base[k],
                forall|k: int| 0 <= k < bi ==> bound_as(#[trigger] out@[base.len() + k], mode@, opt_view(panel), bs[k]->List_0, layer),
            decreases binds@.len() - bi,
        {
            assert(bs[bi as int] == dm(binds@[bi as int]));
            match decode_bind(&binds[bi], &mode, &panel, layer) {
                Ok(b) => out.push(b),
                Err(e) => {
                    proof {
                        lemma_binds_err_stays(bs, bi as int + 1, bs.len() as int);
                        lemma_keymap_err_stays(gs, gi as int + 1, groups@.len() as int);
                    }
                    return Err(e);
                }
            }
            bi = bi + 1;
        }
        proof {
            let items = prev + Seq::new(bs.len(), |i: int| (gpm[0]->Sym_0, panel_of(at(gpm, 1)), bs[i]->List_0));
            assert(keymap_upto(gs, gi as int + 1) == Ok::<Seq<(Seq<char>, Option<Seq<char>>, Seq<Dm>)>, Seq<char>>(items));
            assert forall|i: int| 0 <= i < out@.len() implies bound_as(#[trigger] out@[i], items[i].0, items[i].1, items[i].2, layer) by {
                if i >= base.len() {
                    assert(out@[base.len() + (i - base.len())] == out@[i]);
                    assert(items[i] == (gpm[0]->Sym_0, panel_of(at(gpm, 1)), bs[i - base.len()]->List_0));
                } else {
                    assert(out@[i] == base[i]);
                    assert(items[i] == prev[i]);
                    assert(bound_as(base[i], prev[i].0, prev[i].1, prev[i].2, layer));
                }
            }
        }
        gi = gi + 1;
    }
    Ok(out)
}

proof fn lemma_binds_err_stays(bs: Seq<Dm>, k: int, n: int)
    requires
        1 <= k <= n,
        binds_error(bs, k) is Some || bind_error(bs[k - 1]) is Some,
        binds_error(bs, k - 1) is None ==> binds_error(bs, k) == bind_error(bs[k - 1]),
    ensures
        binds_error(bs, n) == binds_error(bs, k),
    decreases n - k,
{
    if k < n {
        lemma_binds_err_stays(bs, k, n - 1);
    }
}

proof fn lemma_keymap_err_stays(gs: Seq<Dm>, k: int, n: int)
    requires
        1 <= k <= n,
        keymap_upto(gs, k) is Err,
    ensures
        keymap_upto(gs, n) == keymap_upto(gs, k),
    decreases n - k,
{
    if k < n {
        lemma_keymap_err_stays(gs, k, n - 1);
    }
}

// --- user keybindings -----------------------------------------------------------

/// The error of a user form `(bind mode panel key intent [when])`, if any.
pub open spec fn user_bind_error(f: Dm) -> Option<Seq<char>> {
    match f {
        Dm::List(p) => if p.len() == 0 || p[0] != Dm::Sym("bind"@) {
            Some("expected a (bind …) form"@)
        } else if p.len() < 2 || !(p[1] is Sym) {
            Some("bind missing mode"@)
        } else if p.len() < 4 || text_of(p[3]) is None {
            Some("bind missing key"@)
        } else if parse_key_spec(text_of(p[3])->0) is None {
            Some("unknown key: "@ + text_of(p[3])->0)
        } else if p.len() < 5 || decodes(p[4], None) {
            Some("bind has an unknown intent"@)
        } else {
            None
        },
        _ => Some("binding is not a list"@),
    }
}

/// A decoded user binding of a `bind` form.
pub open spec fn user_bound_as(b: Binding, p: Seq<Dm>) -> bool {
    &&& b.mode@ == p[1]->Sym_0
    &&& opt_view(b.panel) == panel_of(at(p, 2))
    &&& Some(b.key) == parse_key_spec(text_of(p[3])->0)
    &&& decodes(p[4], Some(b.intent))
    &&& cm(b.when) == (if p.len() > 5 { cond_of(p[5]) } else { CondM::Always })
    &&& b.layer == Layer::User
}

/// The first error among the first `n` user forms.
pub open spec fn user_error_upto(fs: Seq<Dm>, n: int) -> Option<Seq<char>>
    decreases n,
{
    if n <= 0 {
        None
    } else {
        match user_error_upto(fs, n - 1) {
            Some(e) => Some(e),
            None => user_bind_error(fs[n - 1]),
        }
    }
}

proof fn lemma_user_err_stays(fs: Seq<Dm>, k: int, n: int)
    requires
        1 <= k <= n,
        user_error_upto(fs, k) is Some,
    ensures
        user_error_upto(fs, n) == user_error_upto(fs, k),
    decreases n - k,
{
    if k < n {
        lemma_user_err_stays(fs, k, n - 1);
    }
}

/// Parse the user's uncommented `(bind ...)` forms into User-layer bindings.
pub fn parse_user_binds(datum: &Datum) -> (r: Result<Vec<Binding>, String>)
    ensures
        match dm(*datum) {
            Dm::List(fs) => match user_error_upto(fs, fs.len() as int) {
                Some(e) => r matches Err(m) && m@ == e,
                None => r matches Ok(v) && v@.len() == fs.len()
                    && forall|i: int| 0 <= i < v@.len() ==> user_bound_as(#[trigger] v@[i], fs[i]->List_0),
            },
            _ => r matches Err(m) && m@ == "user keybindings is not a list"@,
        },
{
    proof {
        reveal_strlit("user keybindings is not a list");
        reveal_strlit("binding is not a list");
        reveal_strlit("bind");
        reveal_strlit("bind missing mode");
        reveal_strlit("bind missing key");
        reveal_strlit("unknown key: ");
        reveal_strlit("bind has an unknown intent");
    }
    let forms = match datum.as_list() {
        Some(f) => f,
        None => {
            return Err("user keybindings is not a list".to_owned());
        }
    };
    let ghost fs = dms(forms@);
    let mut out: Vec<Binding> = Vec::new();
    let mut i: usize = 0;
    while i < forms.len()
        invariant
            i <= forms@.len(),
            fs == dms(forms@),
            dm(*datum) == Dm::List(fs),
            user_error_upto(fs, i as int) is None,
            out@.len() == i,
            forall|k: int| 0 <= k < i ==> user_bound_as(#[trigger] out@[k], fs[k]->List_0),
        decreases forms@.len() - i,
    {
        assert(fs[i as int] == dm(forms@[i as int]));
        let p = match forms[i].as_list() {
            Some(p) => p,
            None => {
                proof { lemma_user_err_stays(fs, i as int + 1, fs.len() as int); }
                return Err("binding is not a list".to_owned());
            }
        };
        let ghost pm = dms(p@);
        let is_bind = p.len() > 0 && match p[0].as_sym() {
            Some(h) => str_eq(h, "bind"),
            None => false,
        };
        if !is_bind {
            proof {
                if pm.len() > 0 && pm[0] == Dm::Sym("bind"@) {
                    assert(pm[0] == dm(p@[0]));
                }
                lemma_user_err_stays(fs, i as int + 1, fs.len() as int);
            }
            return Err("expected a (bind …) form".to_owned());
        }
        assert(pm[0] == dm(p@[0]));
        let mode = if p.len() > 1 {
            assert(pm[1] == dm(p@[1]));
            match p[1].as_sym() {
                Some(m) => owned(m),
                None => {
                    proof { lemma_user_err_stays(fs, i as int + 1, fs.len() as int); }
                    return Err("bind missing mode".to_owned());
                }
            }
        } else {
            proof { lemma_user_err_stays(fs, i as int + 1, fs.len() as int); }
            return Err("bind missing mode".to_owned());
        };
        let panel = if p.len() > 2 {
            assert(pm[2] == dm(p@[2]));
            panel_from(Some(&p[2]))
        } else {
            panel_from(None)
        };
        if p.len() < 4 {
            proof { lemma_user_err_stays(fs, i as int + 1, fs.len() as int); }
            return Err("bind missing key".to_owned());
        }
        assert(pm[3] == dm(p@[3]));
        let name = match p[3].text() {
            Some(t) => t,
            None => {
                proof { lemma_user_err_stays(fs, i as int + 1, fs.len() as int); }
                return Err("bind missing key".to_owned());
            }
        };
        let key = match parse_key(name) {
            Some(k) => k,
            None => {
                let mut m = "unknown key: ".to_owned();
                push_str(&mut m, name);
                proof { lemma_user_err_stays(fs, i as int + 1, fs.len() as int); }
                return Err(m);
            }
        };
        let intent = if p.len() > 4 {
            assert(pm[4] == dm(p@[4]));
            intent_from_datum(&p[4])
        } else {
            None
        };
        let intent = match intent {
            Some(x) => x,
            None => {
                proof { lemma_user_err_stays(fs, i as int + 1, fs.len() as int); }
                return Err("bind has an unknown intent".to_owned());
            }
        };
        let when = if p.len() > 5 {
            assert(pm[5] == dm(p@[5]));
            cond_from_datum(&p[5])
        } else {
            Cond::Always
        };
        out.push(Binding { mode, panel, key, intent, when, layer: Layer::User });
        i = i + 1;
    }
    Ok(out)
}

// --- commands ------------------------------------------------------------------

/// The error of a command entry `(name description intent)`, if any.
pub open spec fn command_error(e: Dm) -> Option<Seq<char>> {
    match e {
        Dm::List(p) => if p.len() == 0 || !(p[0] is Sym) {
            Some("command missing name"@)
        } else if p.len() < 2 || !(p[1] is Str) {
            Some("command missing description"@)
        } else if p.len() < 3 || decodes(p[2], None) {
            Some("command '"@ + p[0]->Sym_0 + "' has an unknown intent"@)
        } else {
            None
        },
        _ => Some("command entry is not a list"@),
    }
}

pub open spec fn command_error_upto(es: Seq<Dm>, n: int) -> Option<Seq<char>>
    decreases n,
{
    if n <= 0 {
        None
    } else {
        match command_error_upto(es, n - 1) {
            Some(e) => Some(e),
            None => command_error(es[n - 1]),
        }
    }
}

proof fn lemma_command_err_stays(es: Seq<Dm>, k: int, n: int)
    requires
        1 <= k <= n,
        command_error_upto(es, k) is Some,
    ensures
        command_error_upto(es, n) == command_error_upto(es, k),
    decreases n - k,
{
    if k < n {
        lemma_command_err_stays(es, k, n - 1);
    }
}

/// Map a command-config datum (a list of `(name description intent)`) into
/// palette commands.
pub fn parse_command_config(datum: &Datum) -> (r: Result<Vec<CommandDef>, String>)
    ensures
        match dm(*datum) {
            Dm::List(es) => match command_error_upto(es, es.len() as int) {
                Some(e) => r matches Err(m) && m@ == e,
                None => r matches Ok(v) && v@.len() == es.len()
                    && forall|i: int| 0 <= i < v@.len() ==> (#[trigger] v@[i]).name@ == es[i]->List_0[0]->Sym_0
                        && v@[i].description@ == es[i]->List_0[1]->Str_0
                        && decodes(es[i]->List_0[2], Some(v@[i].intent)),
            },
            _ => r matches Err(m) && m@ == "command config is not a list"@,
        },
{
    proof {
        reveal_strlit("command config is not a list");
        reveal_strlit("command entry is not a list");
        reveal_strlit("command missing name");
        reveal_strlit("command missing description");
        reveal_strlit("command '");
        reveal_strlit("' has an unknown intent");
    }
    let list = match datum.as_list() {
        Some(l) => l,
        None => {
            return Err("command config is not a list".to_owned());
        }
    };
    let ghost es = dms(list@);
    let mut out: Vec<CommandDef> = Vec::new();
    let mut i: usize = 0;
    while i < list.len()
        invariant
            i <= list@.len(),
            es == dms(list@),
            dm(*datum) == Dm::List(es),
            command_error_upto(es, i as int) is None,
            out@.len() == i,
            forall|k: int| 0 <= k < i ==> (#[trigger] out@[k]).name@ == es[k]->List_0[0]->Sym_0
                && out@[k].description@ == es[k]->List_0[1]->Str_0
                && decodes(es[k]->List_0[2], Some(out@[k].intent)),
        decreases list@.len() - i,
    {
        assert(es[i as int] == dm(list@[i as int]));
        let p = match list[i].as_list() {
            Some(p) => p,
            None => {
                proof { lemma_command_err_stays(es, i as int + 1, es.len() as int); }
                return Err("command entry is not a list".to_owned());
            }
        };
        let ghost pm = dms(p@);
        if p.len() == 0 {
            proof { lemma_command_err_stays(es, i as int + 1, es.len() as int); }
            return Err("command missing name".to_owned());
        }
        assert(pm[0] == dm(p@[0]));
        let name = match p[0].as_sym() {
            Some(n) => n,
            None => {
                proof { lemma_command_err_stays(es, i as int + 1, es.len() as int); }
                return Err("command missing name".to_owned());
            }
        };
        if p.len() < 2 {
            proof { lemma_command_err_stays(es, i as int + 1, es.len() as int); }
            return Err("command missing description".to_owned());
        }
        assert(pm[1] == dm(p@[1]));
        let description = match p[1].as_str() {
            Some(d) => d,
            None => {
                proof { lemma_command_err_stays(es, i as int + 1, es.len() as int); }
                return Err("command missing description".to_owned());
            }
        };
        let intent = if p.len() > 2 {
            assert(pm[2] == dm(p@[2]));
            intent_from_datum(&p[2])
        } else {
            None
        };
        let intent = match intent {
            Some(x) => x,
            None => {
                let mut m = "command '".to_owned();
                push_str(&mut m, name);
                push_str(&mut m, "' has an unknown intent");
                proof { lemma_command_err_stays(es, i as int + 1, es.len() as int); }
                return Err(m);
            }
        };
        out.push(CommandDef { name: owned(name), description: owned(description), intent });
        i = i + 1;
    }
    Ok(out)
}

// --- resolver entries ---------------------------------------------------------

/// An argv element of a candidate: a string is a literal; a symbol names a
/// placeholder, else is a literal.
pub open spec fn arg_of(a: Dm) -> Option<ArgM> {
    match a {
        Dm::Str(s) => Some(ArgM::Lit(s)),
        Dm::Sym(s) => Some(
            if s == "src"@ { ArgM::Ph(Slot::Src) }
            else if s == "dst"@ { ArgM::Ph(Slot::Dst) }
            else if s == "path"@ { ArgM::Ph(Slot::Path) }
            else if s == "paths"@ { ArgM::Ph(Slot::Paths) }
            else if s == "opts"@ { ArgM::Ph(Slot::Opts) }
            else { ArgM::Lit(s) }
        ),
        _ => None,
    }
}

/// The argv of `cl[1..n]`, or the error.
pub open spec fn args_upto(cl: Seq<Dm>, n: int) -> Result<Seq<ArgM>, Seq<char>>
    decreases n,
{
    if n <= 1 {
        Ok(Seq::empty())
    } else {
        match args_upto(cl, n - 1) {
            Err(e) => Err(e),
            Ok(prev) => match arg_of(cl[n - 1]) {
                Some(a) => Ok(prev.push(a)),
                None => Err("invalid argv element"@),
            },
        }
    }
}

/// A symbol as `Some("...")` shows it in debug form, or `None`.
pub open spec fn debug_opt_str(o: Option<Seq<char>>) -> Seq<char> {
    match o {
        Some(s) => "Some(\""@ + crate::sexpr::escaped(s) + "\")"@,
        None => "None"@,
    }
}

pub open spec fn kind_of(name: Seq<char>) -> Option<Kind> {
    if name == "native"@ { Some(Kind::Native) }
    else if name == "uutils"@ { Some(Kind::Uutils) }
    else if name == "native-macos"@ { Some(Kind::NativeMacos) }
    else if name == "native-linux"@ { Some(Kind::NativeLinux) }
    else { None }
}

/// A candidate `(kind argv...)`, or the error.
pub open spec fn cand_of(c: Dm) -> Result<(Kind, Seq<ArgM>), Seq<char>> {
    match c {
        Dm::List(cl) => {
            let first = if cl.len() > 0 && cl[0] is Sym { Some(cl[0]->Sym_0) } else { None };
            match first {
                Some(n) if kind_of(n) is Some => match args_upto(cl, cl.len() as int) {
                    Ok(argv) => Ok((kind_of(n)->0, argv)),
                    Err(e) => Err(e),
                },
                _ => Err("unknown candidate kind: "@ + debug_opt_str(first)),
            }
        },
        _ => Err("candidate is not a list"@),
    }
}

pub open spec fn cands_upto(cs: Seq<Dm>, n: int) -> Result<Seq<(Kind, Seq<ArgM>)>, Seq<char>>
    decreases n,
{
    if n <= 0 {
        Ok(Seq::empty())
    } else {
        match cands_upto(cs, n - 1) {
            Err(e) => Err(e),
            Ok(prev) => match cand_of(cs[n - 1]) {
                Ok(c) => Ok(prev.push(c)),
                Err(e) => Err(e),
            },
        }
    }
}

/// The options `(token label)` among `os[0..n]`; malformed ones are skipped
/// and a missing label is empty.
pub open spec fn opts_upto(os: Seq<Dm>, n: int) -> Seq<(Seq<char>, Seq<char>)>
    decreases n,
{
    if n <= 0 {
        Seq::empty()
    } else {
        let prev = opts_upto(os, n - 1);
        match os[n - 1] {
            Dm::List(ol) => if ol.len() > 0 && ol[0] is Str {
                prev.push((ol[0]->Str_0, if ol.len() > 1 && ol[1] is Str { ol[1]->Str_0 } else { Seq::empty() }))
            } else {
                prev
            },
            _ => prev,
        }
    }
}

/// An entry `(key destructive (candidate...) [(option...)])`, or the error.
pub open spec fn entry_of(e: Dm) -> Result<(Seq<char>, bool, Seq<(Seq<char>, Seq<char>)>, Seq<(Kind, Seq<ArgM>)>), Seq<char>> {
    match e {
        Dm::List(p) => if p.len() == 0 || !(p[0] is Sym) {
            Err("resolver entry missing key"@)
        } else if p.len() < 3 || !(p[2] is List) {
            Err("missing candidates"@)
        } else {
            let destructive = p.len() > 1 && p[1] == Dm::Bool(true);
            let options = if p.len() > 3 && p[3] is List { opts_upto(p[3]->List_0, p[3]->List_0.len() as int) } else { Seq::empty() };
            match cands_upto(p[2]->List_0, p[2]->List_0.len() as int) {
                Ok(cs) => Ok((p[0]->Sym_0, destructive, options, cs)),
                Err(m) => Err(m),
            }
        },
        _ => Err("resolver entry is not a list"@),
    }
}

pub open spec fn entries_upto(es: Seq<Dm>, n: int) -> Result<Seq<(Seq<char>, bool, Seq<(Seq<char>, Seq<char>)>, Seq<(Kind, Seq<ArgM>)>)>, Seq<char>>
    decreases n,
{
    if n <= 0 {
        Ok(Seq::empty())
    } else {
        match entries_upto(es, n - 1) {
            Err(e) => Err(e),
            Ok(prev) => match entry_of(es[n - 1]) {
                Ok(x) => Ok(prev.push(x)),
                Err(e) => Err(e),
            },
        }
    }
}

pub open spec fn resolver_config_spec(d: Dm) -> Result<Seq<(Seq<char>, bool, Seq<(Seq<char>, Seq<char>)>, Seq<(Kind, Seq<ArgM>)>)>, Seq<char>> {
    match d {
        Dm::List(es) => entries_upto(es, es.len() as int),
        _ => Err("resolver config is not a list"@),
    }
}

fn arg_from(a: &Datum) -> (r: Option<ArgEl>)
    ensures
        match r {
            Some(x) => arg_of(dm(*a)) == Some(arg_model(x)),
            None => arg_of(dm(*a)) is None,
        },
{
    proof {
        reveal_strlit("src");
        reveal_strlit("dst");
        reveal_strlit("path");
        reveal_strlit("paths");
        reveal_strlit("opts");
    }
    match a {
        Datum::Str(s) => Some(ArgEl::Lit(s.clone())),
        Datum::Sym(s) => {
            let t = s.as_str();
            Some(
                if str_eq(t, "src") { ArgEl::Ph(Slot::Src) }
                else if str_eq(t, "dst") { ArgEl::Ph(Slot::Dst) }
                else if str_eq(t, "path") { ArgEl::Ph(Slot::Path) }
                else if str_eq(t, "paths") { ArgEl::Ph(Slot::Paths) }
                else if str_eq(t, "opts") { ArgEl::Ph(Slot::Opts) }
                else { ArgEl::Lit(s.clone()) }
            )
        }
        _ => None,
    }
}

fn cand_from(c: &Datum) -> (r: Result<Candidate, String>)
    ensures
        match r {
            Ok(x) => cand_of(dm(*c)) == Ok::<(Kind, Seq<ArgM>), Seq<char>>((x.kind, crate::resolver::arg_models(x.argv@))),
            Err(e) => cand_of(dm(*c)) == Err::<(Kind, Seq<ArgM>), Seq<char>>(e@),
        },
{
    proof {
        reveal_strlit("candidate is not a list");
        reveal_strlit("native");
        reveal_strlit("uutils");
        reveal_strlit("native-macos");
        reveal_strlit("native-linux");
        reveal_strlit("unknown candidate kind: ");
        reveal_strlit("invalid argv element");
        reveal_strlit("Some(\"");
        reveal_strlit("\")");
        reveal_strlit("None");
    }
    let cl = match c.as_list() {
        Some(l) => l,
        None => {
            return Err("candidate is not a list".to_owned());
        }
    };
    let ghost cm_ = dms(cl@);
    let first: Option<&str> = if cl.len() > 0 {
        assert(cm_[0] == dm(cl@[0]));
        cl[0].as_sym()
    } else {
        None
    };
    let kind = match first {
        Some(n) => {
            if str_eq(n, "native") { Some(Kind::Native) }
            else if str_eq(n, "uutils") { Some(Kind::Uutils) }
            else if str_eq(n, "native-macos") { Some(Kind::NativeMacos) }
            else if str_eq(n, "native-linux") { Some(Kind::NativeLinux) }
            else { None }
        }
        None => None,
    };
    let ghost first_m: Option<Seq<char>> = if cm_.len() > 0 && cm_[0] is Sym { Some(cm_[0]->Sym_0) } else { None };
    assert(dm(*c) == Dm::List(cm_));
    assert(first_m == (match first { Some(n) => Some(n@), None => None::<Seq<char>> }));
    assert(match kind { Some(k) => first_m matches Some(n) && kind_of(n) == Some(k), None => !(first_m matches Some(n) && kind_of(n) is Some) });
    let kind = match kind {
        Some(k) => k,
        None => {
            let mut m = "unknown candidate kind: ".to_owned();
            match first {
                Some(n) => {
                    push_str(&mut m, "Some(\"");
                    crate::sexpr::push_escaped(&mut m, n);
                    push_str(&mut m, "\")");
                }
                None => push_str(&mut m, "None"),
            }
            assert(m@ == "unknown candidate kind: "@ + debug_opt_str(first_m));
            return Err(m);
        }
    };
    assert(cand_of(dm(*c)) == (match args_upto(cm_, cm_.len() as int) {
        Ok(argv) => Ok((kind, argv)),
        Err(e) => Err::<(Kind, Seq<ArgM>), Seq<char>>(e),
    }));
    let mut argv: Vec<ArgEl> = Vec::new();
    let mut k: usize = 1;
    assert(crate::resolver::arg_models(argv@) =~= Seq::<ArgM>::empty());
    while k < cl.len()
        invariant
            1 <= k <= cl@.len(),
            cm_ == dms(cl@),
            args_upto(cm_, k as int) == Ok::<Seq<ArgM>, Seq<char>>(crate::resolver::arg_models(argv@)),
            cand_of(dm(*c)) == (match args_upto(cm_, cm_.len() as int) {
                Ok(argv) => Ok((kind, argv)),
                Err(e) => Err::<(Kind, Seq<ArgM>), Seq<char>>(e),
            }),
        decreases cl@.len() - k,
    {
        assert(cm_[k as int] == dm(cl@[k as int]));
        match arg_from(&cl[k]) {
            Some(a) => {
                let ghost before = crate::resolver::arg_models(argv@);
                argv.push(a);
                assert(crate::resolver::arg_models(argv@) =~= before.push(arg_model(a)));
            }
            None => {
                assert(args_upto(cm_, k as int + 1) == Err::<Seq<ArgM>, Seq<char>>("invalid argv element"@));
                proof { lemma_args_err_stays(cm_, k as int + 1, cm_.len() as int); }
                return Err("invalid argv element".to_owned());
            }
        }
        k = k + 1;
    }
    Ok(Candidate { kind, argv })
}

proof fn lemma_args_err_stays(cl: Seq<Dm>, k: int, n: int)
    requires
        2 <= k <= n,
        args_upto(cl, k) is Err,
    ensures
        args_upto(cl, n) == args_upto(cl, k),
    decreases n - k,
{
    if k < n {
        lemma_args_err_stays(cl, k, n - 1);
    }
}

proof fn lemma_cands_err_stays(cs: Seq<Dm>, k: int, n: int)
    requires
        1 <= k <= n,
        cands_upto(cs, k) is Err,
    ensures
        cands_upto(cs, n) == cands_upto(cs, k),
    decreases n - k,
{
    if k < n {
        lemma_cands_err_stays(cs, k, n - 1);
    }
}

proof fn lemma_entries_err_stays(es: Seq<Dm>, k: int, n: int)
    requires
        1 <= k <= n,
        entries_upto(es, k) is Err,
    ensures
        entries_upto(es, n) == entries_upto(es, k),
    decreases n - k,
{
    if k < n {
        lemma_entries_err_stays(es, k, n - 1);
    }
}

fn opts_from(os: &[Datum]) -> (r: Vec<OptDef>)
    ensures
        Seq::new(r@.len(), |i: int| crate::resolver::opt_model(r@[i])) == opts_upto(dms(os@), os@.len() as int),
{
    let ghost om = dms(os@);
    let mut out: Vec<OptDef> = Vec::new();
    let mut i: usize = 0;
    assert(Seq::new(out@.len(), |k: int| crate::resolver::opt_model(out@[k])) =~= opts_upto(om, 0));
    while i < os.len()
        invariant
            i <= os@.len(),
            om == dms(os@),
            Seq::new(out@.len(), |k: int| crate::resolver::opt_model(out@[k])) == opts_upto(om, i as int),
        decreases os@.len() - i,
    {
        assert(om[i as int] == dm(os@[i as int]));
        let ghost before = Seq::new(out@.len(), |k: int| crate::resolver::opt_model(out@[k]));
        match os[i].as_list() {
            Some(ol) => {
                let ghost olm = dms(ol@);
                if ol.len() > 0 {
                    assert(olm[0] == dm(ol@[0]));
                    match ol[0].as_str() {
                        Some(t) => {
                            let label = if ol.len() > 1 {
                                assert(olm[1] == dm(ol@[1]));
                                match ol[1].as_str() {
                                    Some(l) => owned(l),
                                    None => String::new(),
                                }
                            } else {
                                String::new()
                            };
                            let o = OptDef { token: owned(t), label };
                            out.push(o);
                            assert(Seq::new(out@.len(), |k: int| crate::resolver::opt_model(out@[k])) =~= before.push(crate::resolver::opt_model(o)));
                        }
                        None => {}
                    }
                }
            }
            None => {}
        }
        i = i + 1;
    }
    out
}

/// Map a resolver-config datum (a list of `(key destructive (candidate...)
/// [(option...)])`) into resolver entries.
pub fn parse_resolver_config(datum: &Datum) -> (r: Result<Vec<ResolverEntry>, String>)
    ensures
        match resolver_config_spec(dm(*datum)) {
            Ok(items) => r matches Ok(v) && v@.len() == items.len()
                && forall|i: int| 0 <= i < v@.len() ==> crate::resolver::entry_model(#[trigger] v@[i]) == items[i],
            Err(e) => r matches Err(m) && m@ == e,
        },
{
    proof {
        reveal_strlit("resolver config is not a list");
        reveal_strlit("resolver entry is not a list");
        reveal_strlit("resolver entry missing key");
        reveal_strlit("missing candidates");
    }
    let entries = match datum.as_list() {
        Some(e) => e,
        None => {
            return Err("resolver config is not a list".to_owned());
        }
    };
    let ghost es = dms(entries@);
    let mut out: Vec<ResolverEntry> = Vec::new();
    let mut i: usize = 0;
    while i < entries.len()
        invariant
            i <= entries@.len(),
            es == dms(entries@),
            dm(*datum) == Dm::List(es),
            entries_upto(es, i as int) matches Ok(items) && items.len() == out@.len()
                && forall|k: int| 0 <= k < out@.len() ==> crate::resolver::entry_model(#[trigger] out@[k]) == items[k],
        decreases entries@.len() - i,
    {
        let ghost prev = entries_upto(es, i as int)->Ok_0;
        assert(es[i as int] == dm(entries@[i as int]));
        let parts = match entries[i].as_list() {
            Some(p) => p,
            None => {
                proof { lemma_entries_err_stays(es, i as int + 1, es.len() as int); }
                return Err("resolver entry is not a list".to_owned());
            }
        };
        let ghost pm = dms(parts@);
        if parts.len() == 0 {
            proof { lemma_entries_err_stays(es, i as int + 1, es.len() as int); }
            return Err("resolver entry missing key".to_owned());
        }
        assert(pm[0] == dm(parts@[0]));
        let key = match parts[0].as_sym() {
            Some(k) => owned(k),
            None => {
                proof { lemma_entries_err_stays(es, i as int + 1, es.len() as int); }
                return Err("resolver entry missing key".to_owned());
            }
        };
        let destructive = if parts.len() > 1 {
            assert(pm[1] == dm(parts@[1]));
            match parts[1].as_bool() {
                Some(b) => b,
                None => false,
            }
        } else {
            false
        };
        assert(destructive == (pm.len() > 1 && pm[1] == Dm::Bool(true)));
        if parts.len() < 3 {
            proof { lemma_entries_err_stays(es, i as int + 1, es.len() as int); }
            return Err("missing candidates".to_owned());
        }
        assert(pm[2] == dm(parts@[2]));
        let cand_data = match parts[2].as_list() {
            Some(c) => c,
            None => {
                proof { lemma_entries_err_stays(es, i as int + 1, es.len() as int); }
                return Err("missing candidates".to_owned());
            }
        };
        let options = if parts.len() > 3 {
            assert(pm[3] == dm(parts@[3]));
            match parts[3].as_list() {
                Some(os) => opts_from(os),
                None => Vec::new(),
            }
        } else {
            Vec::new()
        };
        let ghost cs = dms(cand_data@);
        let mut candidates: Vec<Candidate> = Vec::new();
        let mut k: usize = 0;
        assert(Seq::new(candidates@.len(), |j: int| (candidates@[j].kind, crate::resolver::arg_models(candidates@[j].argv@))) =~= cands_upto(cs, 0)->Ok_0);
        while k < cand_data.len()
            invariant
                k <= cand_data@.len(),
                cs == dms(cand_data@),
                cands_upto(cs, k as int) == Ok::<Seq<(Kind, Seq<ArgM>)>, Seq<char>>(Seq::new(candidates@.len(), |j: int| (candidates@[j].kind, crate::resolver::arg_models(candidates@[j].argv@)))),
                entries_upto(es, i as int) matches Ok(items) && items.len() == out@.len()
                    && forall|q: int| 0 <= q < out@.len() ==> crate::resolver::entry_model(#[trigger] out@[q]) == items[q],
                es[i as int] == Dm::List(pm),
                pm.len() >= 3,
                pm[2] == Dm::List(cs),
                pm[0] is Sym,
                i < entries@.len(),
                es == dms(entries@),
                dm(*datum) == Dm::List(es),
            decreases cand_data@.len() - k,
        {
            assert(cs[k as int] == dm(cand_data@[k as int]));
            match cand_from(&cand_data[k]) {
                Ok(c) => {
                    let ghost before = Seq::new(candidates@.len(), |j: int| (candidates@[j].kind, crate::resolver::arg_models(candidates@[j].argv@)));
                    candidates.push(c);
                    assert(Seq::new(candidates@.len(), |j: int| (candidates@[j].kind, crate::resolver::arg_models(candidates@[j].argv@)))
                        =~= before.push((c.kind, crate::resolver::arg_models(c.argv@))));
                }
                Err(e) => {
                    proof {
                        assert(cands_upto(cs, k as int + 1) == Err::<Seq<(Kind, Seq<ArgM>)>, Seq<char>>(e@));
                        lemma_cands_err_stays(cs, k as int + 1, cs.len() as int);
                        assert(entry_of(es[i as int]) == Err::<(Seq<char>, bool, Seq<(Seq<char>, Seq<char>)>, Seq<(Kind, Seq<ArgM>)>), Seq<char>>(e@));
                        assert(entries_upto(es, i as int + 1) == Err::<Seq<(Seq<char>, bool, Seq<(Seq<char>, Seq<char>)>, Seq<(Kind, Seq<ArgM>)>)>, Seq<char>>(e@));
                        lemma_entries_err_stays(es, i as int + 1, es.len() as int);
                    }
                    return Err(e);
                }
            }
            k = k + 1;
        }
        let entry = ResolverEntry { key, destructive, options, candidates };
        proof {
            let m = crate::resolver::entry_model(entry);
            assert(m.2 =~= (if pm.len() > 3 && pm[3] is List { opts_upto(pm[3]->List_0, pm[3]->List_0.len() as int) } else { Seq::<(Seq<char>, Seq<char>)>::empty() }));
            assert(m.3 =~= cands_upto(cs, cs.len() as int)->Ok_0);
        }
        out.push(entry);
        i = i + 1;
    }
    Ok(out)
}


/// What a `(quote X)` source holds, read as data: its second element.
pub open spec fn quoted_spec(src: Seq<char>) -> Result<Dm, Seq<char>> {
    match crate::sexpr::parse_spec(src) {
        Ok(Dm::List(l)) => if l.len() > 1 {
            Ok(l[1])
        } else {
            Err("extension scheme source is not a (quote ...) form"@)
        },
        Ok(_) => Err("extension scheme source is not a (quote ...) form"@),
        Err(e) => Err(e),
    }
}

/// A quoted source (`(quote X)`) read as data, without evaluating it: `X`.
pub fn quoted(src: &str) -> (r: Result<Datum, String>)
    ensures
        match r {
            Ok(d) => quoted_spec(src@) == Ok::<Dm, Seq<char>>(dm(d)),
            Err(e) => quoted_spec(src@) == Err::<Dm, Seq<char>>(e@),
        },
{
    proof { reveal_strlit("extension scheme source is not a (quote ...) form"); }
    match crate::sexpr::parse(src) {
        Ok(d) => match d.as_list() {
            Some(l) => if l.len() > 1 {
                assert(dms(l@)[1] == dm(l@[1]));
                Ok(l[1].dup())
            } else {
                Err(owned("extension scheme source is not a (quote ...) form"))
            },
            None => Err(owned("extension scheme source is not a (quote ...) form")),
        },
        Err(e) => Err(e),
    }
}
} // verus!
