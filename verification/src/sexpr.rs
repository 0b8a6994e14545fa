//! A small s-expression reader and writer for canonical data: symbols,
//! strings, integers, booleans and lists. No quoting or dotted pairs.

use vstd::prelude::*;
use crate::text::{chars_of, i64_to_string, int_decimal, is_whitespace, parse_i64, parse_i64_spec, push_char, push_str, string_of, white_space};

verus! {

/// A parsed datum.
#[derive(Debug, PartialEq)]
pub enum Datum {
    Sym(String),
    Str(String),
    Int(i64),
    Bool(bool),
    List(Vec<Datum>),
}

/// The mathematical value of a datum.
pub enum Dm {
    Sym(Seq<char>),
    Str(Seq<char>),
    Int(i64),
    Bool(bool),
    List(Seq<Dm>),
}

pub open spec fn dm(d: Datum) -> Dm
    decreases d,
{
    match d {
        Datum::Sym(s) => Dm::Sym(s@),
        Datum::Str(s) => Dm::Str(s@),
        Datum::Int(i) => Dm::Int(i),
        Datum::Bool(b) => Dm::Bool(b),
        Datum::List(items) => Dm::List(
            Seq::new(items@.len(), |i: int| if 0 <= i < items@.len() { dm(items@[i]) } else { Dm::Bool(false) }),
        ),
    }
}

pub open spec fn dms(items: Seq<Datum>) -> Seq<Dm> {
    Seq::new(items.len(), |i: int| dm(items[i]))
}

impl Datum {
    /// A copy with the same model.
    #[verifier::loop_isolation(false)]
    pub fn dup(&self) -> (r: Datum)
        ensures
            dm(r) == dm(*self),
        decreases self,
    {
        match self {
            Datum::Sym(s) => Datum::Sym(s.clone()),
            Datum::Str(s) => Datum::Str(s.clone()),
            Datum::Int(i) => Datum::Int(*i),
            Datum::Bool(b) => Datum::Bool(*b),
            Datum::List(items) => {
                let mut out: Vec<Datum> = Vec::new();
                let mut k: usize = 0;
                while k < items.len()
                    invariant
                        k <= items@.len(),
                        out@.len() == k,
                        forall|j: int| 0 <= j < k ==> dm(#[trigger] out@[j]) == dm(items@[j]),
                    decreases items@.len() - k,
                {
                    proof {
                        broadcast use vstd::std_specs::vec::axiom_vec_index_decreases;
                        assert(decreases_to!(*self => items@[k as int]));
                    }
                    out.push(items[k].dup());
                    k = k + 1;
                }
                let r = Datum::List(out);
                assert(dm(r)->List_0 =~= dm(*self)->List_0);
                r
            }
        }
    }

    pub fn as_sym(&self) -> (r: Option<&str>)
        ensures
            (r is Some) == (dm(*self) is Sym),
            r matches Some(s) ==> dm(*self) == Dm::Sym(s@),
    {
        match self {
            Datum::Sym(s) => Some(s.as_str()),
            _ => None,
        }
    }

    pub fn as_str(&self) -> (r: Option<&str>)
        ensures
            (r is Some) == (dm(*self) is Str),
            r matches Some(s) ==> dm(*self) == Dm::Str(s@),
    {
        match self {
            Datum::Str(s) => Some(s.as_str()),
            _ => None,
        }
    }

    pub fn as_bool(&self) -> (r: Option<bool>)
        ensures
            r == (match dm(*self) { Dm::Bool(b) => Some(b), _ => None }),
    {
        match self {
            Datum::Bool(b) => Some(*b),
            _ => None,
        }
    }

    pub fn as_list(&self) -> (r: Option<&[Datum]>)
        ensures
            (r is Some) == (dm(*self) is List),
            r matches Some(l) ==> dm(*self) == Dm::List(dms(l@)),
    {
        match self {
            Datum::List(v) => {
                assert(dm(*self)->List_0 =~= dms(v@));
                Some(v.as_slice())
            }
            _ => None,
        }
    }

    /// A string literal or a bare symbol, as text.
    pub fn text(&self) -> (r: Option<&str>)
        ensures
            (r is Some) == (dm(*self) is Sym || dm(*self) is Str),
            r matches Some(t) ==> (dm(*self) == Dm::Sym(t@) || dm(*self) == Dm::Str(t@)),
    {
        match self {
            Datum::Str(s) => Some(s.as_str()),
            Datum::Sym(s) => Some(s.as_str()),
            _ => None,
        }
    }
}

impl Clone for Datum {
    fn clone(&self) -> (r: Datum)
        ensures
            dm(r) == dm(*self),
    {
        self.dup()
    }
}

// --- writing -----------------------------------------------------------------

/// A string's characters with `\` and `"` escaped by a backslash.
pub open spec fn escaped(s: Seq<char>) -> Seq<char>
    decreases s.len(),
{
    if s.len() == 0 {
        s
    } else {
        let c = s.last();
        escaped(s.drop_last()) + (if c == '\\' { seq!['\\', '\\'] } else if c == '"' { seq!['\\', '"'] } else { seq![c] })
    }
}

/// The measure that lets a list's rendering call back into its items.
pub open spec fn render_rank(d: Dm) -> int {
    match d {
        Dm::List(items) => items.len() as int + 1,
        _ => 0,
    }
}

/// Canonical text of a datum.
pub open spec fn render_spec(d: Dm) -> Seq<char>
    decreases d, render_rank(d),
{
    match d {
        Dm::Sym(s) => s,
        Dm::Str(s) => seq!['"'] + escaped(s) + seq!['"'],
        Dm::Int(i) => int_decimal(i as int),
        Dm::Bool(b) => if b { seq!['#', 't'] } else { seq!['#', 'f'] },
        Dm::List(items) => seq!['('] + render_items(d, items.len() as int) + seq![')'],
    }
}

/// The first `n` items of list `d`, rendered and joined by single spaces.
pub open spec fn render_items(d: Dm, n: int) -> Seq<char>
    decreases d, if n > 0 { n } else { 0 },
{
    match d {
        Dm::List(items) => if n <= 0 || n > items.len() {
            Seq::empty()
        } else if n == 1 {
            render_spec(items[0])
        } else {
            render_items(d, n - 1) + seq![' '] + render_spec(items[n - 1])
        },
        _ => Seq::empty(),
    }
}

/// Appends `s` with `\` and `"` escaped.
pub fn push_escaped(out: &mut String, s: &str)
    ensures
        final(out)@ == old(out)@ + escaped(s@),
{
    let cs = chars_of(s);
    let mut i: usize = 0;
    assert(cs@.take(0) =~= Seq::<char>::empty());
    assert(old(out)@ + escaped(Seq::<char>::empty()) =~= old(out)@);
    while i < cs.len()
        invariant
            i <= cs@.len(),
            cs@ == s@,
            out@ == old(out)@ + escaped(cs@.take(i as int)),
        decreases cs@.len() - i,
    {
        let c = cs[i];
        assert(cs@.take(i + 1).drop_last() =~= cs@.take(i as int));
        assert(cs@.take(i + 1).last() == c);
        let ghost before = out@;
        if c == '\\' {
            push_char(out, '\\');
            push_char(out, '\\');
        } else if c == '"' {
            push_char(out, '\\');
            push_char(out, '"');
        } else {
            push_char(out, c);
        }
        i = i + 1;
        assert(out@ =~= old(out)@ + escaped(cs@.take(i as int)));
    }
    assert(cs@.take(i as int) =~= cs@);
}

/// Render a datum back to canonical s-expression text.
#[verifier::loop_isolation(false)]
pub fn render(d: &Datum) -> (r: String)
    ensures
        r@ == render_spec(dm(*d)),
    decreases d,
{
    match d {
        Datum::Sym(s) => s.clone(),
        Datum::Str(s) => {
            let mut out = String::new();
            push_char(&mut out, '"');
            push_escaped(&mut out, s.as_str());
            push_char(&mut out, '"');
            assert(out@ =~= seq!['"'] + escaped(s@) + seq!['"']);
            out
        }
        Datum::Int(i) => i64_to_string(*i),
        Datum::Bool(b) => {
            let mut out = String::new();
            push_char(&mut out, '#');
            push_char(&mut out, if *b { 't' } else { 'f' });
            assert(out@ =~= (if *b { seq!['#', 't'] } else { seq!['#', 'f'] }));
            out
        }
        Datum::List(items) => {
            let ghost m = dm(*d);
            let mut out = String::new();
            push_char(&mut out, '(');
            let mut k: usize = 0;
            assert(out@ =~= seq!['('] + render_items(m, 0));
            while k < items.len()
                invariant
                    k <= items@.len(),
                    m == dm(*d),
                    m->List_0.len() == items@.len(),
                    out@ == seq!['('] + render_items(m, k as int),
                decreases items@.len() - k,
            {
                proof {
                    broadcast use vstd::std_specs::vec::axiom_vec_index_decreases;
                    assert(decreases_to!(*d => items@[k as int]));
                }
                let part = render(&items[k]);
                assert(m->List_0[k as int] == dm(items@[k as int]));
                if k > 0 {
                    push_char(&mut out, ' ');
                }
                push_str(&mut out, part.as_str());
                k = k + 1;
                assert(out@ =~= seq!['('] + render_items(m, k as int));
            }
            push_char(&mut out, ')');
            assert(out@ =~= seq!['('] + render_items(m, m->List_0.len() as int) + seq![')']);
            out
        }
    }
}

// --- reading -----------------------------------------------------------------

/// The position just past the end of the line that starts at or after `j`.
pub open spec fn line_end(s: Seq<char>, j: int) -> int
    decreases s.len() - j,
{
    if j < 0 || j >= s.len() { s.len() as int } else if s[j] == '\n' { j + 1 } else { line_end(s, j + 1) }
}

/// The position of the next datum: whitespace and `;` comments skipped.
pub open spec fn skip_ws_spec(s: Seq<char>, i: int) -> int
    decreases s.len() - i,
{
    if i < 0 || i >= s.len() {
        i
    } else if s[i] == ';' {
        let e = line_end(s, i + 1);
        if i < e <= s.len() { skip_ws_spec(s, e) } else { i }
    } else if white_space(s[i]) {
        skip_ws_spec(s, i + 1)
    } else {
        i
    }
}

/// The body of a string literal from `j` (past the opening quote): `\n` and
/// `\t` escapes, any other escaped character stands for itself.
pub open spec fn str_body(s: Seq<char>, j: int, acc: Seq<char>) -> Result<(Seq<char>, int), Seq<char>>
    decreases s.len() - j,
{
    if j < 0 || j >= s.len() {
        Err("unterminated string"@)
    } else if s[j] == '"' {
        Ok((acc, j + 1))
    } else if s[j] == '\\' {
        if j + 1 >= s.len() {
            Err("unterminated escape"@)
        } else {
            let e = s[j + 1];
            str_body(s, j + 2, acc.push(if e == 'n' { '\n' } else if e == 't' { '\t' } else { e }))
        }
    } else {
        str_body(s, j + 1, acc.push(s[j]))
    }
}

/// Where an atom starting at `j` ends: at whitespace, a parenthesis or the end.
pub open spec fn atom_end(s: Seq<char>, j: int) -> int
    decreases s.len() - j,
{
    if j < 0 || j >= s.len() || white_space(s[j]) || s[j] == '(' || s[j] == ')' { j } else { atom_end(s, j + 1) }
}

/// An atom's datum: a boolean, else an integer, else a symbol.
pub open spec fn atom_value(t: Seq<char>) -> Dm {
    if t == "#t"@ || t == "#true"@ {
        Dm::Bool(true)
    } else if t == "#f"@ || t == "#false"@ {
        Dm::Bool(false)
    } else {
        match parse_i64_spec(t) {
            Some(v) => Dm::Int(v),
            None => Dm::Sym(t),
        }
    }
}

/// The datum at `i`, if any, and where it ends.
pub open spec fn read_datum_spec(s: Seq<char>, i: int) -> Result<Option<(Dm, int)>, Seq<char>>
    decreases s.len() - i, 0int,
{
    let j = skip_ws_spec(s, i);
    if !(0 <= i <= j) || j >= s.len() {
        Ok(None)
    } else if s[j] == '(' {
        match read_list_spec(s, j + 1, Seq::empty()) {
            Ok((d, k)) => Ok(Some((d, k))),
            Err(e) => Err(e),
        }
    } else if s[j] == ')' {
        Err("unexpected )"@)
    } else if s[j] == '"' {
        match str_body(s, j + 1, Seq::empty()) {
            Ok((t, k)) => Ok(Some((Dm::Str(t), k))),
            Err(e) => Err(e),
        }
    } else {
        let e = atom_end(s, j);
        Ok(Some((atom_value(s.subrange(j, e)), e)))
    }
}

/// The rest of a list from `i` (past the opening parenthesis), with `items`
/// read so far.
pub open spec fn read_list_spec(s: Seq<char>, i: int, items: Seq<Dm>) -> Result<(Dm, int), Seq<char>>
    decreases s.len() - i, 1int,
{
    let j = skip_ws_spec(s, i);
    if !(0 <= i <= j) || j >= s.len() {
        Err("unterminated list"@)
    } else if s[j] == ')' {
        Ok((Dm::List(items), j + 1))
    } else {
        match read_datum_spec(s, j) {
            Err(e) => Err(e),
            Ok(None) => Err("unterminated list"@),
            Ok(Some((d, k))) => if j < k <= s.len() {
                read_list_spec(s, k, items.push(d))
            } else {
                Err("unterminated list"@)
            },
        }
    }
}

/// Parsing: the first datum of the input (anything after it is ignored).
pub open spec fn parse_spec(s: Seq<char>) -> Result<Dm, Seq<char>> {
    match read_datum_spec(s, 0) {
        Err(e) => Err(e),
        Ok(None) => Err("empty input"@),
        Ok(Some((d, _))) => Ok(d),
    }
}

proof fn lemma_line_end(s: Seq<char>, j: int)
    requires
        0 <= j,
    ensures
        j <= line_end(s, j) <= s.len() || (j > s.len() && line_end(s, j) == s.len()),
        j < s.len() ==> j < line_end(s, j),
    decreases s.len() - j,
{
    if j < s.len() && s[j] != '\n' {
        lemma_line_end(s, j + 1);
    }
}

fn skip_ws(cs: &Vec<char>, i: usize) -> (j: usize)
    requires
        i <= cs@.len(),
    ensures
        j == skip_ws_spec(cs@, i as int),
        i <= j <= cs@.len(),
{
    let n = cs.len();
    let mut j = i;
    while j < n
        invariant
            i <= j <= n,
            n == cs@.len(),
            skip_ws_spec(cs@, i as int) == skip_ws_spec(cs@, j as int),
        decreases n - j,
    {
        let c = cs[j];
        if c == ';' {
            let mut k = j + 1;
            while k < n && cs[k] != '\n'
                invariant
                    j < k <= n,
                    n == cs@.len(),
                    line_end(cs@, j + 1) == line_end(cs@, k as int),
                decreases n - k,
            {
                k = k + 1;
            }
            if k < n {
                k = k + 1;
            }
            proof {
                lemma_line_end(cs@, j + 1);
            }
            j = k;
        } else if is_whitespace(c) {
            j = j + 1;
        } else {
            return j;
        }
    }
    j
}

/// A string literal's body from `i` (past the opening quote) and where it ends.
fn read_string(cs: &Vec<char>, i: usize) -> (r: Result<(String, usize), String>)
    requires
        i <= cs@.len(),
    ensures
        match r {
            Ok((t, k)) => str_body(cs@, i as int, Seq::empty()) == Ok::<(Seq<char>, int), Seq<char>>((t@, k as int)),
            Err(e) => str_body(cs@, i as int, Seq::empty()) == Err::<(Seq<char>, int), Seq<char>>(e@),
        },
{
    let n = cs.len();
    let mut out = String::new();
    let mut j = i;
    while j < n
        invariant
            i <= j <= n,
            n == cs@.len(),
            str_body(cs@, i as int, Seq::empty()) == str_body(cs@, j as int, out@),
        decreases n - j,
    {
        let c = cs[j];
        if c == '"' {
            return Ok((out, j + 1));
        } else if c == '\\' {
            if j + 1 >= n {
                return Err("unterminated escape".to_owned());
            }
            let e = cs[j + 1];
            push_char(&mut out, if e == 'n' { '\n' } else if e == 't' { '\t' } else { e });
            j = j + 2;
        } else {
            push_char(&mut out, c);
            j = j + 1;
        }
    }
    Err("unterminated string".to_owned())
}

fn atom_text_value(t: &str) -> (d: Datum)
    ensures
        dm(d) == atom_value(t@),
{
    proof {
        reveal_strlit("#t");
        reveal_strlit("#true");
        reveal_strlit("#f");
        reveal_strlit("#false");
    }
    if crate::text::str_eq(t, "#t") || crate::text::str_eq(t, "#true") {
        Datum::Bool(true)
    } else if crate::text::str_eq(t, "#f") || crate::text::str_eq(t, "#false") {
        Datum::Bool(false)
    } else {
        match parse_i64(t) {
            Some(v) => Datum::Int(v),
            None => Datum::Sym(crate::text::owned(t)),
        }
    }
}

/// An atom starting at `j` and where it ends.
fn read_atom(cs: &Vec<char>, j: usize) -> (r: (Datum, usize))
    requires
        j <= cs@.len(),
    ensures
        r.1 == atom_end(cs@, j as int),
        j <= r.1 <= cs@.len(),
        (j < cs@.len() && !white_space(cs@[j as int]) && cs@[j as int] != '(' && cs@[j as int] != ')') ==> j < r.1,
        dm(r.0) == atom_value(cs@.subrange(j as int, r.1 as int)),
{
    let n = cs.len();
    let mut e = j;
    while e < n && !is_whitespace(cs[e]) && cs[e] != '(' && cs[e] != ')'
        invariant
            j <= e <= n,
            n == cs@.len(),
            atom_end(cs@, j as int) == atom_end(cs@, e as int),
        decreases n - e,
    {
        e = e + 1;
    }
    let t = string_of(&cs.as_slice()[j..e]);
    (atom_text_value(t.as_str()), e)
}

/// A parse outcome by its model.
pub open spec fn datum_res(r: Result<Option<(Datum, usize)>, String>) -> Result<Option<(Dm, int)>, Seq<char>> {
    match r {
        Ok(Some((d, k))) => Ok(Some((dm(d), k as int))),
        Ok(None) => Ok(None),
        Err(e) => Err(e@),
    }
}

pub open spec fn list_res(r: Result<(Datum, usize), String>) -> Result<(Dm, int), Seq<char>> {
    match r {
        Ok((d, k)) => Ok((dm(d), k as int)),
        Err(e) => Err(e@),
    }
}

fn read_datum(cs: &Vec<char>, i: usize) -> (r: Result<Option<(Datum, usize)>, String>)
    requires
        i <= cs@.len(),
    ensures
        datum_res(r) == read_datum_spec(cs@, i as int),
        r matches Ok(Some((_, k))) ==> skip_ws_spec(cs@, i as int) < k <= cs@.len(),
    decreases cs@.len() - i, 0int,
{
    let j = skip_ws(cs, i);
    if j >= cs.len() {
        return Ok(None);
    }
    let c = cs[j];
    if c == '(' {
        match read_list(cs, j + 1) {
            Ok((d, k)) => Ok(Some((d, k))),
            Err(e) => Err(e),
        }
    } else if c == ')' {
        Err("unexpected )".to_owned())
    } else if c == '"' {
        match read_string(cs, j + 1) {
            Ok((t, k)) => {
                proof {
                    lemma_str_body_end(cs@, j + 1, Seq::empty());
                }
                Ok(Some((Datum::Str(t), k)))
            }
            Err(e) => Err(e),
        }
    } else {
        let (d, e) = read_atom(cs, j);
        proof {
            assert(!white_space(c) && c != '(' && c != ')') by {
                lemma_skip_ws_stops(cs@, i as int);
            }
        }
        Ok(Some((d, e)))
    }
}

fn read_list(cs: &Vec<char>, i: usize) -> (r: Result<(Datum, usize), String>)
    requires
        i <= cs@.len(),
    ensures
        list_res(r) == read_list_spec(cs@, i as int, Seq::empty()),
        r matches Ok((_, k)) ==> i < k <= cs@.len(),
    decreases cs@.len() - i, 1int,
{
    let n = cs.len();
    let mut items: Vec<Datum> = Vec::new();
    let mut pos = i;
    assert(dms(items@) =~= Seq::<Dm>::empty());
    loop
        invariant
            i <= pos <= n,
            n == cs@.len(),
            read_list_spec(cs@, i as int, Seq::empty()) == read_list_spec(cs@, pos as int, dms(items@)),
        decreases n - pos,
    {
        let j = skip_ws(cs, pos);
        if j >= n {
            return Err("unterminated list".to_owned());
        }
        if cs[j] == ')' {
            let d = Datum::List(items);
            assert(dm(d)->List_0 =~= dms(items@));
            return Ok((d, j + 1));
        }
        match read_datum(cs, j) {
            Err(e) => {
                return Err(e);
            }
            Ok(None) => {
                return Err("unterminated list".to_owned());
            }
            Ok(Some((d, k))) => {
                proof {
                    lemma_skip_ws_stops(cs@, pos as int);
                    lemma_skip_ws_fixed(cs@, j as int);
                }
                let ghost before = dms(items@);
                items.push(d);
                assert(dms(items@) =~= before.push(dm(d)));
                pos = k;
            }
        }
    }
}

proof fn lemma_str_body_end(s: Seq<char>, j: int, acc: Seq<char>)
    requires
        0 <= j,
    ensures
        str_body(s, j, acc) matches Ok((_, k)) ==> j < k <= s.len(),
    decreases s.len() - j,
{
    if 0 <= j < s.len() && s[j] != '"' {
        if s[j] == '\\' {
            if j + 1 < s.len() {
                let e = s[j + 1];
                lemma_str_body_end(s, j + 2, acc.push(if e == 'n' { '\n' } else if e == 't' { '\t' } else { e }));
            }
        } else {
            lemma_str_body_end(s, j + 1, acc.push(s[j]));
        }
    }
}

/// Where skipping stops there is no whitespace and no comment.
proof fn lemma_skip_ws_stops(s: Seq<char>, i: int)
    requires
        0 <= i <= s.len(),
    ensures
        i <= skip_ws_spec(s, i) <= s.len(),
        skip_ws_spec(s, i) < s.len() ==> !white_space(s[skip_ws_spec(s, i)]) && s[skip_ws_spec(s, i)] != ';',
    decreases s.len() - i,
{
    if i < s.len() {
        if s[i] == ';' {
            lemma_line_end(s, i + 1);
            let e = line_end(s, i + 1);
            lemma_skip_ws_stops(s, e);
        } else if white_space(s[i]) {
            lemma_skip_ws_stops(s, i + 1);
        }
    }
}

/// Skipping from where skipping stopped stays put.
proof fn lemma_skip_ws_fixed(s: Seq<char>, j: int)
    requires
        0 <= j <= s.len(),
        j < s.len() ==> !white_space(s[j]) && s[j] != ';',
    ensures
        skip_ws_spec(s, j) == j,
{
}

/// Parse a single datum from the input.
pub fn parse(input: &str) -> (r: Result<Datum, String>)
    ensures
        match r {
            Ok(d) => parse_spec(input@) == Ok::<Dm, Seq<char>>(dm(d)),
            Err(e) => parse_spec(input@) == Err::<Dm, Seq<char>>(e@),
        },
{
    let cs = chars_of(input);
    match read_datum(&cs, 0) {
        Err(e) => Err(e),
        Ok(None) => Err("empty input".to_owned()),
        Ok(Some((d, _))) => Ok(d),
    }
}


// --- reading back what was written --------------------------------------------

/// A symbol that reads back as itself: non-empty, free of whitespace and
/// parentheses, not opening a string or a comment, and not the spelling of
/// a boolean or an integer.
pub open spec fn sym_ok(t: Seq<char>) -> bool {
    &&& t.len() > 0
    &&& forall|k: int| 0 <= k < t.len() ==> !delim(#[trigger] t[k])
    &&& t[0] != '"' && t[0] != ';'
    &&& t != "#t"@ && t != "#true"@ && t != "#f"@ && t != "#false"@
    &&& parse_i64_spec(t) is None
}

/// Every symbol in the datum reads back as itself.
pub open spec fn syms_ok(d: Dm) -> bool
    decreases d,
{
    match d {
        Dm::Sym(t) => sym_ok(t),
        Dm::List(items) => forall|k: int| 0 <= k < items.len() ==> syms_ok(#[trigger] items[k]),
        _ => true,
    }
}

/// A character that ends an atom.
pub open spec fn delim(c: char) -> bool {
    white_space(c) || c == '(' || c == ')'
}

/// What one character becomes in a written string literal.
pub open spec fn esc1(c: char) -> Seq<char> {
    if c == '\\' { seq!['\\', '\\'] } else if c == '"' { seq!['\\', '"'] } else { seq![c] }
}

proof fn lemma_escaped_prepend(c: char, t: Seq<char>)
    ensures
        escaped(seq![c] + t) == esc1(c) + escaped(t),
    decreases t.len(),
{
    if t.len() == 0 {
        assert(seq![c] + t =~= seq![c]);
        assert(seq![c].drop_last() =~= Seq::<char>::empty());
        assert(escaped(Seq::<char>::empty()) =~= Seq::<char>::empty());
        assert(esc1(c) + escaped(t) =~= esc1(c));
    } else {
        let u = seq![c] + t;
        assert(u.drop_last() =~= seq![c] + t.drop_last());
        assert(u.last() == t.last());
        lemma_escaped_prepend(c, t.drop_last());
        let tail = if t.last() == '\\' { seq!['\\', '\\'] } else if t.last() == '"' { seq!['\\', '"'] } else { seq![t.last()] };
        assert(escaped(u) == escaped(u.drop_last()) + tail);
        assert(escaped(t) == escaped(t.drop_last()) + tail);
        assert(escaped(u) =~= esc1(c) + escaped(t));
    }
}

proof fn lemma_str_body(s: Seq<char>, j: int, acc: Seq<char>, t: Seq<char>)
    requires
        0 <= j,
        j + escaped(t).len() < s.len(),
        s.subrange(j, j + escaped(t).len()) == escaped(t),
        s[j + escaped(t).len()] == '"',
    ensures
        str_body(s, j, acc) == Ok::<(Seq<char>, int), Seq<char>>((acc + t, j + escaped(t).len() + 1)),
    decreases t.len(),
{
    if t.len() == 0 {
        assert(escaped(t) =~= Seq::<char>::empty());
        assert(acc + t =~= acc);
    } else {
        let c = t[0];
        let u = t.drop_first();
        assert(t =~= seq![c] + u);
        lemma_escaped_prepend(c, u);
        let e = esc1(c);
        assert(escaped(t) == e + escaped(u));
        assert(s[j] == escaped(t)[0]);
        if c == '\\' || c == '"' {
            assert(s[j + 1] == escaped(t)[1]);
            assert(s.subrange(j + 2, j + 2 + escaped(u).len()) =~= escaped(u)) by {
                assert forall|k: int| 0 <= k < escaped(u).len() implies s.subrange(j + 2, j + 2 + escaped(u).len())[k] == escaped(u)[k] by {
                    assert(s[j + 2 + k] == s.subrange(j, j + escaped(t).len())[2 + k]);
                }
            }
            lemma_str_body(s, j + 2, acc.push(c), u);
        } else {
            assert(s.subrange(j + 1, j + 1 + escaped(u).len()) =~= escaped(u)) by {
                assert forall|k: int| 0 <= k < escaped(u).len() implies s.subrange(j + 1, j + 1 + escaped(u).len())[k] == escaped(u)[k] by {
                    assert(s[j + 1 + k] == s.subrange(j, j + escaped(t).len())[1 + k]);
                }
            }
            lemma_str_body(s, j + 1, acc.push(c), u);
        }
        assert(acc.push(c) + u =~= acc + t);
    }
}

proof fn lemma_atom_end(s: Seq<char>, j: int, e: int)
    requires
        0 <= j <= e <= s.len(),
        forall|k: int| j <= k < e ==> !delim(#[trigger] s[k]),
        e == s.len() || delim(s[e]),
    ensures
        atom_end(s, j) == e,
    decreases e - j,
{
    if j < e {
        lemma_atom_end(s, j + 1, e);
    }
}

/// The first character of a written datum: no whitespace, no comment, no
/// closing parenthesis.
proof fn lemma_render_head(d: Dm)
    requires
        syms_ok(d),
    ensures
        render_spec(d).len() > 0,
        !white_space(render_spec(d)[0]),
        render_spec(d)[0] != ';',
        render_spec(d)[0] != ')',
{
    match d {
        Dm::Int(v) => {
            crate::text::lemma_parse_int_decimal(v);
            assert(crate::text::is_ascii_digit_spec(render_spec(d)[0]) || render_spec(d)[0] == '-');
        }
        Dm::Sym(t) => {
            assert(!delim(t[0]));
        }
        _ => {}
    }
}

/// The written items of a list up to `k` start the written items up to `n`.
proof fn lemma_items_prefix(d: Dm, k: int, n: int)
    requires
        d is List,
        0 <= k <= n <= d->List_0.len(),
    ensures
        render_items(d, k).len() <= render_items(d, n).len(),
        render_items(d, n).take(render_items(d, k).len() as int) == render_items(d, k),
    decreases n - k,
{
    if k < n {
        lemma_items_prefix(d, k, n - 1);
        let a = render_items(d, k);
        let b = render_items(d, n - 1);
        let c = render_items(d, n);
        if n - 1 == 0 {
            assert(a =~= Seq::<char>::empty());
            assert(c.take(0) =~= a);
        } else {
            assert(c == b + seq![' '] + render_spec(d->List_0[n - 1]));
            assert(c.take(a.len() as int) =~= b.take(a.len() as int));
        }
    } else {
        assert(render_items(d, n).take(render_items(d, n).len() as int) =~= render_items(d, n));
    }
}

proof fn lemma_items_step(d: Dm, k: int)
    requires
        d is List,
        0 <= k < d->List_0.len(),
    ensures
        render_items(d, k + 1) == render_items(d, k) + (if k > 0 { seq![' '] } else { Seq::<char>::empty() }) + render_spec(d->List_0[k]),
{
    if k == 0 {
        assert(render_items(d, 0) =~= Seq::<char>::empty());
        assert(render_items(d, 1) =~= Seq::<char>::empty() + Seq::<char>::empty() + render_spec(d->List_0[0]));
    }
}

/// Reading at the start of a written datum gives the datum back and stops
/// just past it, whatever comes before and whenever what follows is the end,
/// a space or a closing parenthesis.
proof fn lemma_read_rendered(d: Dm, p: Seq<char>, r: Seq<char>)
    requires
        syms_ok(d),
        r.len() == 0 || r[0] == ' ' || r[0] == ')',
    ensures
        read_datum_spec(p + render_spec(d) + r, p.len() as int)
            == Ok::<Option<(Dm, int)>, Seq<char>>(Some((d, (p.len() + render_spec(d).len()) as int))),
    decreases d, render_rank(d),
{
    let w = render_spec(d);
    let s = p + w + r;
    let i = p.len() as int;
    lemma_render_head(d);
    assert(s[i] == w[0]);
    assert(skip_ws_spec(s, i) == i);
    assert forall|k: int| 0 <= k < w.len() implies s[i + k] == w[k] by {}
    if r.len() > 0 {
        assert(s[i + w.len()] == r[0]);
    }
    match d {
        Dm::Sym(t) => {
            lemma_atom_end(s, i, i + w.len());
            assert(s.subrange(i, i + w.len()) =~= t);
        }
        Dm::Int(v) => {
            crate::text::lemma_parse_int_decimal(v);
            assert forall|k: int| i <= k < i + w.len() implies !delim(#[trigger] s[k]) by {
                assert(s[k] == w[k - i]);
                assert(crate::text::is_ascii_digit_spec(w[k - i]) || w[k - i] == '-');
            }
            lemma_atom_end(s, i, i + w.len());
            assert(s.subrange(i, i + w.len()) =~= w);
            reveal_strlit("#t");
            reveal_strlit("#true");
            reveal_strlit("#f");
            reveal_strlit("#false");
            assert(crate::text::is_ascii_digit_spec(w[0]) || w[0] == '-');
            assert(w != "#t"@ && w != "#true"@ && w != "#f"@ && w != "#false"@) by {
                assert("#t"@[0] == '#' && "#true"@[0] == '#' && "#f"@[0] == '#' && "#false"@[0] == '#');
            }
        }
        Dm::Bool(b) => {
            assert forall|k: int| i <= k < i + w.len() implies !delim(#[trigger] s[k]) by {
                assert(s[k] == w[k - i]);
            }
            lemma_atom_end(s, i, i + w.len());
            assert(s.subrange(i, i + w.len()) =~= w);
            reveal_strlit("#t");
            reveal_strlit("#true");
            reveal_strlit("#f");
            reveal_strlit("#false");
            if b {
                assert(w =~= "#t"@);
            } else {
                assert(w != "#t"@ && w != "#true"@);
                assert(w =~= "#f"@);
            }
        }
        Dm::Str(t) => {
            let e = escaped(t);
            assert(w == seq!['"'] + e + seq!['"']);
            assert(s.subrange(i + 1, i + 1 + e.len()) =~= e) by {
                assert forall|k: int| 0 <= k < e.len() implies s.subrange(i + 1, i + 1 + e.len())[k] == e[k] by {
                    assert(s[i + 1 + k] == w[1 + k]);
                }
            }
            assert(s[i + 1 + e.len()] == w[1 + e.len() as int]);
            lemma_str_body(s, i + 1, Seq::empty(), t);
            assert(Seq::<char>::empty() + t =~= t);
        }
        Dm::List(items) => {
            lemma_read_list_rest(d, 0, p, r);
            assert(render_items(d, 0) =~= Seq::<char>::empty());
            assert(items.take(0) =~= Seq::<Dm>::empty());
        }
    }
}

/// Reading the rest of a written list, its first `k` items read, gives the
/// list back.
#[verifier::spinoff_prover]
#[verifier::rlimit(60)]
proof fn lemma_read_list_rest(d: Dm, k: int, p: Seq<char>, r: Seq<char>)
    requires
        syms_ok(d),
        d is List,
        0 <= k <= d->List_0.len(),
        r.len() == 0 || r[0] == ' ' || r[0] == ')',
    ensures
        read_list_spec(p + render_spec(d) + r, (p.len() + 1 + render_items(d, k).len()) as int, d->List_0.take(k))
            == Ok::<(Dm, int), Seq<char>>((d, (p.len() + render_spec(d).len()) as int)),
    decreases d, d->List_0.len() - k,
{
    let items = d->List_0;
    let n = items.len() as int;
    let w = render_spec(d);
    let s = p + w + r;
    let i = p.len() as int;
    let base = i + 1;
    let all = render_items(d, n);
    assert(w == seq!['('] + all + seq![')']);
    assert forall|m: int| 0 <= m < all.len() implies s[base + m] == all[m] by {
        assert(s[base + m] == w[1 + m]);
    }
    assert(s[base + all.len()] == w[1 + all.len() as int]);
    let pos = base + render_items(d, k).len();
    lemma_items_prefix(d, k, n);
    if k == n {
        assert(s[pos] == ')');
        assert(items.take(n) =~= items);
    } else {
        let item = items[k];
        assert(syms_ok(item));
        let iw = render_spec(item);
        lemma_items_step(d, k);
        lemma_items_prefix(d, k + 1, n);
        lemma_render_head(item);
        let gap: int = if k > 0 { 1 } else { 0 };
        let start = pos + gap;
        let nk = render_items(d, k + 1);
        assert(nk.len() == render_items(d, k).len() + gap + iw.len());
        assert forall|m: int| 0 <= m < iw.len() implies s[start + m] == iw[m] by {
            assert(s[base + render_items(d, k).len() + gap + m] == all[render_items(d, k).len() + gap + m]);
            assert(all[render_items(d, k).len() + gap + m] == nk[render_items(d, k).len() + gap + m]);
        }
        if k > 0 {
            assert(s[pos] == all[render_items(d, k).len() as int]);
            assert(all[render_items(d, k).len() as int] == nk[render_items(d, k).len() as int]);
            assert(s[pos] == ' ');
            assert(s[pos + 1] == iw[0]);
            assert(skip_ws_spec(s, pos + 1) == pos + 1);
        } else {
            assert(s[pos] == iw[0]);
        }
        assert(skip_ws_spec(s, pos) == start);
        let after = start + iw.len();
        assert(after == base + nk.len());
        let rest = s.skip(after);
        if k + 1 < n {
            lemma_items_step(d, k + 1);
            lemma_items_prefix(d, k + 2, n);
            assert(s[after] == all[nk.len() as int]);
            assert(all[nk.len() as int] == render_items(d, k + 2)[nk.len() as int]);
            assert(rest[0] == ' ');
        } else {
            assert(nk == all);
            assert(rest[0] == ')');
        }
        assert(s =~= s.take(start) + iw + rest);
        lemma_read_rendered(item, s.take(start), rest);
        assert(s.take(start).len() == start);
        assert(items.take(k).push(item) =~= items.take(k + 1));
        lemma_read_list_rest(d, k + 1, p, r);
    }
}

/// What is written reads back as the same datum, when its symbols read back
/// as themselves.
pub proof fn law_parse_reads_back_render(d: Dm)
    requires
        syms_ok(d),
    ensures
        parse_spec(render_spec(d)) == Ok::<Dm, Seq<char>>(d),
{
    let e = Seq::<char>::empty();
    lemma_read_rendered(d, e, e);
    assert(e + render_spec(d) + e =~= render_spec(d));
}

} // verus!
