//! Paths are carried as strings. The lexical operations on them are those of
//! `std::path::Path`, reached through the wrappers below.

use vstd::prelude::*;
use crate::text::starts_with;

verus! {

/// An optional string by its view.
pub open spec fn opt_view(o: Option<String>) -> Option<Seq<char>> {
    match o {
        Some(s) => Some(s@),
        None => None,
    }
}

/// What `Path::parent` gives for a path.
pub uninterp spec fn path_parent(p: Seq<char>) -> Option<Seq<char>>;

/// The final component of a path when it is a name; `None` for a root, an
/// empty path, or one ending in `.` alone or `..`.
pub open spec fn path_file_name(p: Seq<char>) -> Option<Seq<char>> {
    let cs = components(p);
    if cs.len() > 0 && cs.last() is Normal { Some(cs.last()->Normal_0) } else { None }
}

/// `rel` appended to `base`: an absolute `rel` replaces `base`; otherwise a
/// separator is put between them unless `base` is empty or already ends in
/// one.
pub open spec fn path_join(base: Seq<char>, rel: Seq<char>) -> Seq<char> {
    if rel.len() > 0 && rel[0] == '/' {
        rel
    } else if base.len() > 0 && base.last() != '/' {
        base + seq!['/'] + rel
    } else {
        base + rel
    }
}

/// `std::path::Path::parent`: the path without its final component, or
/// `None` for a root or an empty path. The result is named by `path_parent`.
#[verifier::external_body]
pub(crate) fn parent(p: &str) -> (r: Option<String>)
    ensures
        opt_view(r) == path_parent(p@),
{
    std::path::Path::new(p).parent().map(|q| q.to_string_lossy().into_owned())
}

/// The file name of a path, as `Path::file_name` gives it: the final
/// component when it is a name.
pub fn file_name(p: &str) -> (r: Option<String>)
    ensures
        opt_view(r) == path_file_name(p@),
{
    let comps = path_components(p);
    let n = comps.len();
    if n == 0 {
        return None;
    }
    assert(comps_view(comps@).last() == comp_view(comps@[n - 1]));
    match &comps[n - 1] {
        Comp::Normal(cs) => Some(crate::text::string_of(cs.as_slice())),
        _ => None,
    }
}

/// `rel` joined onto `base`, as `Path::join` does it: an absolute `rel`
/// replaces `base`; otherwise a separator goes between them unless `base` is
/// empty or already ends in one.
pub fn join(base: &str, rel: &str) -> (r: String)
    ensures
        r@ == path_join(base@, rel@),
{
    let rs = crate::text::chars_of(rel);
    if rs.len() > 0 && rs[0] == '/' {
        return crate::text::owned(rel);
    }
    let bs = crate::text::chars_of(base);
    let mut out = crate::text::owned(base);
    if bs.len() > 0 && bs[bs.len() - 1] != '/' {
        crate::text::push_char(&mut out, '/');
    }
    crate::text::push_str(&mut out, rel);
    out
}

/// On Unix a path is absolute when it starts at the root.
pub open spec fn is_absolute_spec(p: Seq<char>) -> bool {
    p.len() > 0 && p[0] == '/'
}

/// Whether `p` is absolute.
pub fn is_absolute(p: &str) -> (r: bool)
    ensures
        r == is_absolute_spec(p@),
{
    let r = starts_with(p, "/");
    proof {
        reveal_strlit("/");
        assert("/"@.len() == 1 && "/"@[0] == '/');
        if is_absolute_spec(p@) {
            assert(p@.take(1) =~= "/"@);
        }
        if r {
            assert(p@.take(1)[0] == "/"@[0]);
        }
    }
    r
}


/// The last `.` of `name` before position `j`.
pub open spec fn last_dot(name: Seq<char>, j: int) -> Option<int>
    decreases j,
{
    if j <= 0 || j > name.len() {
        None
    } else if name[j - 1] == '.' {
        Some(j - 1)
    } else {
        last_dot(name, j - 1)
    }
}

/// The extension of a file name as `Path::extension` reads it: what follows
/// the last `.`, unless there is none, it is the first character, or the name
/// is `..`.
pub open spec fn name_extension(name: Seq<char>) -> Option<Seq<char>> {
    if name == ".."@ {
        None
    } else {
        match last_dot(name, name.len() as int) {
            Some(i) => if i == 0 { None } else { Some(name.skip(i + 1)) },
            None => None,
        }
    }
}

/// The extension of a path's file name.
pub open spec fn extension_spec(p: Seq<char>) -> Option<Seq<char>> {
    match path_file_name(p) {
        Some(n) => name_extension(n),
        None => None,
    }
}

/// The extension of a path's file name, if any.
pub fn extension(p: &str) -> (r: Option<String>)
    ensures
        opt_view(r) == extension_spec(p@),
{
    let name = match file_name(p) {
        Some(n) => n,
        None => return None,
    };
    if crate::text::str_eq(name.as_str(), "..") {
        return None;
    }
    let cs = crate::text::chars_of(name.as_str());
    let mut j: usize = cs.len();
    while j > 0 && cs[j - 1] != '.'
        invariant
            j <= cs@.len(),
            cs@ == name@,
            last_dot(cs@, cs@.len() as int) == last_dot(cs@, j as int),
        decreases j,
    {
        j = j - 1;
    }
    if j <= 1 {
        return None;
    }
    let mut out = String::new();
    let mut k: usize = j;
    while k < cs.len()
        invariant
            j <= k <= cs@.len(),
            out@ == cs@.subrange(j as int, k as int),
        decreases cs@.len() - k,
    {
        crate::text::push_char(&mut out, cs[k]);
        k = k + 1;
        assert(out@ =~= cs@.subrange(j as int, k as int));
    }
    assert(cs@.skip(j as int) =~= cs@.subrange(j as int, cs@.len() as int));
    Some(out)
}

/// What `Path::strip_prefix` gives for a path and a base.
pub uninterp spec fn path_strip_prefix(p: Seq<char>, base: Seq<char>) -> Option<Seq<char>>;

/// `std::path::Path::strip_prefix`: the path relative to `base` when `base`'s
/// components begin it, else `None`. The result is named by `path_strip_prefix`.
#[verifier::external_body]
pub(crate) fn strip_prefix(p: &str, base: &str) -> (r: Option<String>)
    ensures
        opt_view(r) == path_strip_prefix(p@, base@),
{
    std::path::Path::new(p).strip_prefix(base).ok().map(|q| q.to_string_lossy().into_owned())
}

/// A path component as `Path::components` yields it on Unix.
pub enum PathComp {
    Root,
    Cur,
    Parent,
    Normal(Seq<char>),
}

/// The component kinds in `Path`'s order: root, `.`, `..`, then names.
pub open spec fn comp_rank(c: PathComp) -> int {
    match c {
        PathComp::Root => 0,
        PathComp::Cur => 1,
        PathComp::Parent => 2,
        PathComp::Normal(_) => 3,
    }
}

/// Lexicographic character order (the order of the UTF-8 bytes).
pub open spec fn text_less(a: Seq<char>, b: Seq<char>) -> bool
    decreases a.len(),
{
    if a.len() == 0 {
        b.len() > 0
    } else if b.len() == 0 {
        false
    } else if a[0] != b[0] {
        (a[0] as u32) < (b[0] as u32)
    } else {
        text_less(a.drop_first(), b.drop_first())
    }
}

pub open spec fn comp_less(a: PathComp, b: PathComp) -> bool {
    comp_rank(a) < comp_rank(b) || (a matches PathComp::Normal(x) && b matches PathComp::Normal(y) && text_less(x, y))
}

/// The component that a piece between separators contributes: none for an
/// empty piece or `.`, `..` for the parent, else a name.
pub open spec fn piece_comps(piece: Seq<char>) -> Seq<PathComp> {
    if piece.len() == 0 || piece == seq!['.'] {
        Seq::empty()
    } else if piece == seq!['.', '.'] {
        seq![PathComp::Parent]
    } else {
        seq![PathComp::Normal(piece)]
    }
}

/// The components of the pieces of `p` from index `i` on, `piece` being the
/// piece read so far.
pub open spec fn comps_from(p: Seq<char>, i: int, piece: Seq<char>) -> Seq<PathComp>
    decreases p.len() - i,
{
    if i < 0 || i >= p.len() {
        piece_comps(piece)
    } else if p[i] == '/' {
        piece_comps(piece) + comps_from(p, i + 1, Seq::empty())
    } else {
        comps_from(p, i + 1, piece.push(p[i]))
    }
}

/// The components of a path: a root for a leading separator, a leading `.`
/// for a relative path that starts with `.` as its own piece, then the
/// pieces between separators.
pub open spec fn components(p: Seq<char>) -> Seq<PathComp> {
    let head = if p.len() > 0 && p[0] == '/' {
        seq![PathComp::Root]
    } else if p.len() > 0 && p[0] == '.' && (p.len() == 1 || p[1] == '/') {
        seq![PathComp::Cur]
    } else {
        Seq::empty()
    };
    head + comps_from(p, 0, Seq::empty())
}

/// Lexicographic order of component sequences.
pub open spec fn comps_less(a: Seq<PathComp>, b: Seq<PathComp>) -> bool
    decreases a.len(),
{
    if a.len() == 0 {
        b.len() > 0
    } else if b.len() == 0 {
        false
    } else if comp_less(a[0], b[0]) {
        true
    } else if comp_less(b[0], a[0]) {
        false
    } else {
        comps_less(a.drop_first(), b.drop_first())
    }
}

/// `Path`'s order: component by component.
pub open spec fn path_less(a: Seq<char>, b: Seq<char>) -> bool {
    comps_less(components(a), components(b))
}

/// A path component held as characters.
pub enum Comp {
    Root,
    Cur,
    Parent,
    Normal(Vec<char>),
}

pub open spec fn comp_view(c: Comp) -> PathComp {
    match c {
        Comp::Root => PathComp::Root,
        Comp::Cur => PathComp::Cur,
        Comp::Parent => PathComp::Parent,
        Comp::Normal(v) => PathComp::Normal(v@),
    }
}

pub open spec fn comps_view(v: Seq<Comp>) -> Seq<PathComp> {
    Seq::new(v.len(), |i: int| comp_view(v[i]))
}

fn push_piece(out: &mut Vec<Comp>, piece: Vec<char>)
    ensures
        comps_view(final(out)@) == comps_view(old(out)@) + piece_comps(piece@),
{
    let ghost o = comps_view(out@);
    let n = piece.len();
    if n == 0 || (n == 1 && piece[0] == '.') {
        assert(n == 1 ==> piece@ =~= seq!['.']);
        assert(comps_view(out@) =~= o + piece_comps(piece@));
    } else if n == 2 && piece[0] == '.' && piece[1] == '.' {
        assert(piece@ =~= seq!['.', '.']);
        out.push(Comp::Parent);
        assert(comps_view(out@) =~= o + piece_comps(piece@));
    } else {
        assert(piece@ != seq!['.']);
        assert(piece@ != seq!['.', '.']);
        out.push(Comp::Normal(piece));
        assert(comps_view(out@) =~= o + piece_comps(piece@));
    }
}

/// The components of a path.
pub fn path_components(p: &str) -> (r: Vec<Comp>)
    ensures
        comps_view(r@) == components(p@),
{
    let cs = crate::text::chars_of(p);
    let ghost q = cs@;
    let mut out: Vec<Comp> = Vec::new();
    let n = cs.len();
    if n > 0 && cs[0] == '/' {
        out.push(Comp::Root);
    } else if n > 0 && cs[0] == '.' && (n == 1 || cs[1] == '/') {
        out.push(Comp::Cur);
    }
    let ghost head = comps_view(out@);
    let mut piece: Vec<char> = Vec::new();
    let mut i: usize = 0;
    assert(head + comps_from(q, 0, Seq::empty()) == components(q)) by {
        assert(head =~= components(q).take(head.len() as int));
    }
    while i < n
        invariant
            q == cs@,
            n == q.len(),
            i <= n,
            comps_view(out@) + comps_from(q, i as int, piece@) == components(q),
        decreases n - i,
    {
        let c = cs[i];
        if c == '/' {
            let done = piece;
            piece = Vec::new();
            let ghost before = comps_view(out@);
            let ghost pc = done@;
            push_piece(&mut out, done);
            assert(comps_from(q, i as int, pc) == piece_comps(pc) + comps_from(q, i + 1, Seq::empty()));
            assert(piece@ =~= Seq::<char>::empty());
            assert(comps_view(out@) + comps_from(q, i + 1, piece@) =~= before + comps_from(q, i as int, pc));
        } else {
            let ghost pc = piece@;
            piece.push(c);
            assert(comps_from(q, i as int, pc) == comps_from(q, i + 1, pc.push(c)));
        }
        i = i + 1;
    }
    let ghost before = comps_view(out@);
    let ghost pc = piece@;
    push_piece(&mut out, piece);
    assert(comps_from(q, n as int, pc) == piece_comps(pc));
    out
}

fn text_lt(a: &Vec<char>, b: &Vec<char>) -> (r: bool)
    ensures
        r == text_less(a@, b@),
{
    let mut i: usize = 0;
    assert(a@.skip(0) =~= a@);
    assert(b@.skip(0) =~= b@);
    while i < a.len() && i < b.len() && a[i] == b[i]
        invariant
            i <= a@.len(),
            i <= b@.len(),
            text_less(a@, b@) == text_less(a@.skip(i as int), b@.skip(i as int)),
        decreases a@.len() - i,
    {
        assert(a@.skip(i as int).drop_first() =~= a@.skip(i + 1));
        assert(b@.skip(i as int).drop_first() =~= b@.skip(i + 1));
        i = i + 1;
    }
    if i == a.len() {
        i < b.len()
    } else if i == b.len() {
        false
    } else {
        (a[i] as u32) < (b[i] as u32)
    }
}

fn comp_rank_of(c: &Comp) -> (r: u8)
    ensures
        r as int == comp_rank(comp_view(*c)),
{
    match c {
        Comp::Root => 0,
        Comp::Cur => 1,
        Comp::Parent => 2,
        Comp::Normal(_) => 3,
    }
}

fn comp_lt(a: &Comp, b: &Comp) -> (r: bool)
    ensures
        r == comp_less(comp_view(*a), comp_view(*b)),
{
    let ra = comp_rank_of(a);
    let rb = comp_rank_of(b);
    if ra < rb {
        return true;
    }
    match (a, b) {
        (Comp::Normal(x), Comp::Normal(y)) => text_lt(x, y),
        _ => false,
    }
}

/// Whether path `a` sorts strictly before `b` in `Path`'s order.
pub fn path_lt(a: &str, b: &str) -> (r: bool)
    ensures
        r == path_less(a@, b@),
{
    let ca = path_components(a);
    let cb = path_components(b);
    let ghost va = comps_view(ca@);
    let ghost vb = comps_view(cb@);
    let mut i: usize = 0;
    assert(va.skip(0) =~= va);
    assert(vb.skip(0) =~= vb);
    while i < ca.len() && i < cb.len()
        invariant
            va == comps_view(ca@),
            vb == comps_view(cb@),
            va == components(a@),
            vb == components(b@),
            i <= ca@.len(),
            i <= cb@.len(),
            comps_less(va, vb) == comps_less(va.skip(i as int), vb.skip(i as int)),
        decreases ca@.len() - i,
    {
        let ghost xa = va.skip(i as int);
        let ghost xb = vb.skip(i as int);
        assert(xa.len() > 0 && xb.len() > 0);
        assert(xa[0] == comp_view(ca@[i as int]));
        assert(xb[0] == comp_view(cb@[i as int]));
        if comp_lt(&ca[i], &cb[i]) {
            assert(comps_less(xa, xb));
            return true;
        }
        if comp_lt(&cb[i], &ca[i]) {
            assert(!comps_less(xa, xb));
            return false;
        }
        assert(va.skip(i as int).drop_first() =~= va.skip(i + 1));
        assert(vb.skip(i as int).drop_first() =~= vb.skip(i + 1));
        i = i + 1;
    }
    i == ca.len() && i < cb.len()
}

} // verus!
