//! A command's options as its help text advertises them, for the command
//! Select's option checkboxes. The parse is heuristic and cross-platform (GNU
//! `--help`, BSD `man`), never authoritative: an empty result just means no
//! checkboxes are offered. Running the command is the caller's part.

use vstd::prelude::*;
use crate::text::{chars_of, is_ascii_alnum, is_ascii_alnum_spec, is_whitespace, string_of, white_space};

verus! {

/// How many options a command Select offers at most.
pub const OPTION_CAP: usize = 24;

/// How many characters of a description are kept.
pub const LABEL_WIDTH: usize = 48;

// --- the pieces of a line -------------------------------------------------------

/// Where the leading whitespace of `s` from `j` on ends.
pub open spec fn lead_from(s: Seq<char>, j: int) -> int
    decreases s.len() - j,
{
    if 0 <= j < s.len() && white_space(s[j]) { lead_from(s, j + 1) } else { j }
}

/// Where the trailing whitespace of `s[..j]` begins.
pub open spec fn trail_from(s: Seq<char>, j: int) -> int
    decreases j,
{
    if 0 < j <= s.len() && white_space(s[j - 1]) { trail_from(s, j - 1) } else { j }
}

/// `s` without its leading whitespace.
pub open spec fn trim_start_spec(s: Seq<char>) -> Seq<char> {
    s.skip(lead_from(s, 0))
}

/// `s` without its leading and trailing whitespace.
pub open spec fn trim_spec(s: Seq<char>) -> Seq<char> {
    let t = trim_start_spec(s);
    t.take(trail_from(t, t.len() as int))
}

/// The first two-space gap of `t` at or after `j`.
pub open spec fn gap_from(t: Seq<char>, j: int) -> Option<int>
    decreases t.len() - j,
{
    if j < 0 || j + 1 >= t.len() {
        None
    } else if t[j] == ' ' && t[j + 1] == ' ' {
        Some(j)
    } else {
        gap_from(t, j + 1)
    }
}

/// A character that ends the first flag of a cluster.
pub open spec fn is_sep(c: char) -> bool {
    c == ',' || c == ' ' || c == '=' || c == '['
}

/// The first separator of `f` at or after `j` (its length when there is none).
pub open spec fn sep_from(f: Seq<char>, j: int) -> int
    decreases f.len() - j,
{
    if j < 0 || j >= f.len() {
        f.len() as int
    } else if is_sep(f[j]) {
        j
    } else {
        sep_from(f, j + 1)
    }
}

/// Where the leading dashes of `s` from `j` on end.
pub open spec fn dash_from(s: Seq<char>, j: int) -> int
    decreases s.len() - j,
{
    if 0 <= j < s.len() && s[j] == '-' { dash_from(s, j + 1) } else { j }
}

/// A token that looks like an option: `-`, then after the dashes an ASCII
/// letter or digit.
pub open spec fn is_flag_spec(s: Seq<char>) -> bool {
    &&& s.len() > 0
    &&& s[0] == '-'
    &&& dash_from(s, 0) < s.len()
    &&& is_ascii_alnum_spec(s[dash_from(s, 0)])
}

/// The first `n` characters of `s` and an ellipsis, when `s` is longer.
pub open spec fn truncate_spec(s: Seq<char>, n: int) -> Seq<char> {
    if s.len() > n { s.take(n).push('\u{2026}') } else { s }
}

/// The tokens that are never offered.
pub open spec fn excluded(t: Seq<char>) -> bool {
    t == "-h"@ || t == "--help"@ || t == "--version"@ || t == "--usage"@
}

/// The option a help line advertises: a line that starts (after whitespace)
/// with `-`, split at its first two-space gap into the flag cluster and the
/// description; the cluster's first flag and the shortened description.
pub open spec fn line_option(line: Seq<char>) -> Option<(Seq<char>, Seq<char>)> {
    let t = trim_start_spec(line);
    if t.len() == 0 || t[0] != '-' {
        None
    } else {
        let flags = match gap_from(t, 0) {
            Some(i) => trim_spec(t.take(i)),
            None => trim_spec(t),
        };
        let desc = match gap_from(t, 0) {
            Some(i) => trim_spec(t.skip(i)),
            None => Seq::empty(),
        };
        let first = trim_spec(flags.take(sep_from(flags, 0)));
        if !is_flag_spec(first) || excluded(first) {
            None
        } else {
            Some((first, truncate_spec(desc, LABEL_WIDTH as int)))
        }
    }
}

/// Where the line starting at `j` ends: the next newline, or the end.
pub open spec fn line_end_from(s: Seq<char>, j: int) -> int
    decreases s.len() - j,
{
    if j < 0 || j >= s.len() {
        s.len() as int
    } else if s[j] == '\n' {
        j
    } else {
        line_end_from(s, j + 1)
    }
}

pub proof fn lemma_line_end_bounds(s: Seq<char>, j: int)
    requires
        0 <= j <= s.len(),
    ensures
        j <= line_end_from(s, j) <= s.len(),
    decreases s.len() - j,
{
    if j < s.len() && s[j] != '\n' {
        lemma_line_end_bounds(s, j + 1);
    }
}

/// The line from `j` to its end `e`, without the `\r` of a `\r\n` ending.
pub open spec fn line_at(s: Seq<char>, j: int, e: int) -> Seq<char> {
    let l = s.subrange(j, e);
    if e < s.len() && l.len() > 0 && l.last() == '\r' { l.drop_last() } else { l }
}

/// The options of the lines of `s` from `j` on, in order.
pub open spec fn options_from(s: Seq<char>, j: int) -> Seq<(Seq<char>, Seq<char>)>
    decreases s.len() - j,
{
    if j < 0 || j >= s.len() {
        Seq::empty()
    } else {
        let e = line_end_from(s, j);
        proof { lemma_line_end_bounds(s, j); }
        let here = match line_option(line_at(s, j, e)) {
            Some(o) => seq![o],
            None => Seq::empty(),
        };
        if e < s.len() { here + options_from(s, e + 1) } else { here }
    }
}

/// The models of option pairs.
pub open spec fn pair_views(v: Seq<(String, String)>) -> Seq<(Seq<char>, Seq<char>)> {
    Seq::new(v.len(), |i: int| (v[i].0@, v[i].1@))
}

// --- the pieces in code ------------------------------------------------------------

fn copy_range(s: &[char], lo: usize, hi: usize) -> (r: Vec<char>)
    requires
        lo <= hi <= s@.len(),
    ensures
        r@ == s@.subrange(lo as int, hi as int),
{
    let mut out: Vec<char> = Vec::new();
    let mut i: usize = lo;
    while i < hi
        invariant
            lo <= i <= hi <= s@.len(),
            out@ == s@.subrange(lo as int, i as int),
        decreases hi - i,
    {
        out.push(s[i]);
        i = i + 1;
        assert(out@ =~= s@.subrange(lo as int, i as int));
    }
    out
}

fn trim_start_chars(s: &[char]) -> (r: Vec<char>)
    ensures
        r@ == trim_start_spec(s@),
{
    let mut i: usize = 0;
    while i < s.len() && is_whitespace(s[i])
        invariant
            i <= s@.len(),
            lead_from(s@, 0) == lead_from(s@, i as int),
        decreases s@.len() - i,
    {
        i = i + 1;
    }
    assert(s@.skip(i as int) =~= s@.subrange(i as int, s@.len() as int));
    copy_range(s, i, s.len())
}

/// `s` without its leading and trailing whitespace.
pub fn trim_chars(s: &[char]) -> (r: Vec<char>)
    ensures
        r@ == trim_spec(s@),
{
    let t = trim_start_chars(s);
    let mut k: usize = t.len();
    while k > 0 && is_whitespace(t[k - 1])
        invariant
            k <= t@.len(),
            trail_from(t@, t@.len() as int) == trail_from(t@, k as int),
        decreases k,
    {
        k = k - 1;
    }
    assert(t@.take(k as int) =~= t@.subrange(0, k as int));
    copy_range(t.as_slice(), 0, k)
}

fn find_gap(t: &[char]) -> (r: Option<usize>)
    ensures
        match r {
            Some(i) => gap_from(t@, 0) == Some(i as int),
            None => gap_from(t@, 0) is None,
        },
        r matches Some(i) ==> i + 1 < t@.len(),
{
    let mut j: usize = 0;
    while j < t.len() && j + 1 < t.len()
        invariant
            j <= t@.len(),
            gap_from(t@, 0) == gap_from(t@, j as int),
        decreases t@.len() - j,
    {
        if t[j] == ' ' && t[j + 1] == ' ' {
            return Some(j);
        }
        j = j + 1;
    }
    None
}

fn find_sep(f: &[char]) -> (r: usize)
    ensures
        r as int == sep_from(f@, 0),
        r <= f@.len(),
{
    let mut j: usize = 0;
    while j < f.len()
        invariant
            j <= f@.len(),
            sep_from(f@, 0) == sep_from(f@, j as int),
        decreases f@.len() - j,
    {
        let c = f[j];
        if c == ',' || c == ' ' || c == '=' || c == '[' {
            return j;
        }
        j = j + 1;
    }
    j
}

/// Whether a token looks like an option: `-`, then after the dashes an
/// ASCII letter or digit.
pub fn is_flag(s: &[char]) -> (r: bool)
    ensures
        r == is_flag_spec(s@),
{
    if s.len() == 0 || s[0] != '-' {
        return false;
    }
    let mut j: usize = 0;
    while j < s.len() && s[j] == '-'
        invariant
            j <= s@.len(),
            dash_from(s@, 0) == dash_from(s@, j as int),
        decreases s@.len() - j,
    {
        j = j + 1;
    }
    j < s.len() && is_ascii_alnum(s[j])
}

/// The first `n` characters and an ellipsis, when the text is longer.
pub fn truncate(s: &[char], n: usize) -> (r: String)
    ensures
        r@ == truncate_spec(s@, n as int),
{
    if s.len() > n {
        let mut v = copy_range(s, 0, n);
        v.push('\u{2026}');
        assert(v@ =~= s@.take(n as int).push('\u{2026}'));
        string_of(v.as_slice())
    } else {
        string_of(s)
    }
}

fn is_excluded(t: &str) -> (r: bool)
    ensures
        r == excluded(t@),
{
    crate::text::str_eq(t, "-h") || crate::text::str_eq(t, "--help") || crate::text::str_eq(t, "--version")
        || crate::text::str_eq(t, "--usage")
}

/// The option a help line advertises, if any.
pub fn option_of_line(line: &[char]) -> (r: Option<(String, String)>)
    ensures
        match r {
            Some(o) => line_option(line@) == Some((o.0@, o.1@)),
            None => line_option(line@) is None,
        },
{
    let t = trim_start_chars(line);
    if t.len() == 0 || t[0] != '-' {
        return None;
    }
    let (flags, desc) = match find_gap(t.as_slice()) {
        Some(i) => {
            let head = copy_range(t.as_slice(), 0, i);
            let tail = copy_range(t.as_slice(), i, t.len());
            assert(head@ =~= t@.take(i as int));
            assert(tail@ =~= t@.skip(i as int));
            (trim_chars(head.as_slice()), trim_chars(tail.as_slice()))
        }
        None => (trim_chars(t.as_slice()), Vec::new()),
    };
    let k = find_sep(flags.as_slice());
    let head = copy_range(flags.as_slice(), 0, k);
    assert(head@ =~= flags@.take(k as int));
    let first = trim_chars(head.as_slice());
    let token = string_of(first.as_slice());
    if !is_flag(first.as_slice()) || is_excluded(token.as_str()) {
        return None;
    }
    Some((token, truncate(desc.as_slice(), LABEL_WIDTH)))
}

/// Parse `-x` / `--long  description` lines of help or man text into
/// `(token, description)` pairs, in order.
pub fn parse_help(text: &str) -> (r: Vec<(String, String)>)
    ensures
        pair_views(r@) == options_from(text@, 0),
{
    let s = chars_of(text);
    let mut out: Vec<(String, String)> = Vec::new();
    let mut j: usize = 0;
    assert(pair_views(out@) + options_from(s@, 0) =~= options_from(s@, 0));
    while j < s.len()
        invariant
            j <= s@.len(),
            s@ == text@,
            pair_views(out@) + options_from(s@, j as int) == options_from(s@, 0),
        decreases s@.len() - j,
    {
        let mut e: usize = j;
        while e < s.len() && s[e] != '\n'
            invariant
                j <= e <= s@.len(),
                line_end_from(s@, j as int) == line_end_from(s@, e as int),
            decreases s@.len() - e,
        {
            e = e + 1;
        }
        let mut line = copy_range(s.as_slice(), j, e);
        if e < s.len() && line.len() > 0 && line[line.len() - 1] == '\r' {
            line.pop();
        }
        assert(line@ =~= line_at(s@, j as int, e as int));
        let ghost before = pair_views(out@);
        match option_of_line(line.as_slice()) {
            Some(o) => {
                out.push(o);
                assert(pair_views(out@) =~= before + seq![(o.0@, o.1@)]);
            }
            None => {}
        }
        let ghost here = match line_option(line_at(s@, j as int, e as int)) {
            Some(o) => seq![o],
            None => Seq::<(Seq<char>, Seq<char>)>::empty(),
        };
        assert(pair_views(out@) =~= before + here);
        if e < s.len() {
            assert(options_from(s@, j as int) == here + options_from(s@, e + 1));
            assert(pair_views(out@) + options_from(s@, e + 1) =~= before + options_from(s@, j as int));
            j = e + 1;
        } else {
            assert(options_from(s@, j as int) == here);
            assert(pair_views(out@) + options_from(s@, e as int) =~= before + options_from(s@, j as int));
            j = e;
        }
    }
    assert(pair_views(out@) + options_from(s@, j as int) =~= pair_views(out@));
    out
}

// --- man overstrike, dedup, and the whole extraction --------------------------------

/// `s` with each backspace removing the character before it (man's
/// overstrike bold and underline).
pub open spec fn strip_spec(s: Seq<char>) -> Seq<char>
    decreases s.len(),
{
    if s.len() == 0 {
        Seq::empty()
    } else {
        let p = strip_spec(s.drop_last());
        if s.last() == '\u{8}' {
            if p.len() > 0 { p.drop_last() } else { p }
        } else {
            p.push(s.last())
        }
    }
}

/// Remove man's overstrike bold and underline (`X\x08Y` becomes `Y`).
pub fn strip_overstrike(s: &str) -> (r: String)
    ensures
        r@ == strip_spec(s@),
{
    let cs = chars_of(s);
    let mut out: Vec<char> = Vec::new();
    let mut i: usize = 0;
    while i < cs.len()
        invariant
            i <= cs@.len(),
            cs@ == s@,
            out@ == strip_spec(cs@.take(i as int)),
        decreases cs@.len() - i,
    {
        assert(cs@.take(i + 1).drop_last() =~= cs@.take(i as int));
        let c = cs[i];
        if c == '\u{8}' {
            let _ = out.pop();
        } else {
            out.push(c);
        }
        i = i + 1;
    }
    assert(cs@.take(i as int) =~= cs@);
    string_of(out.as_slice())
}

/// The tokens of option pairs.
pub open spec fn tokens_of(v: Seq<(Seq<char>, Seq<char>)>) -> Seq<Seq<char>> {
    Seq::new(v.len(), |i: int| v[i].0)
}

/// The first occurrence of each token among `opts[0..n]`, at most the cap.
pub open spec fn dedupe_spec(opts: Seq<(Seq<char>, Seq<char>)>, n: int) -> Seq<(Seq<char>, Seq<char>)>
    decreases n,
{
    if n <= 0 {
        Seq::empty()
    } else {
        let p = dedupe_spec(opts, n - 1);
        if p.len() >= OPTION_CAP || tokens_of(p).contains(opts[n - 1].0) { p } else { p.push(opts[n - 1]) }
    }
}

proof fn lemma_dedupe_capped(opts: Seq<(Seq<char>, Seq<char>)>, n: int)
    ensures
        dedupe_spec(opts, n).len() <= OPTION_CAP,
    decreases n,
{
    if n > 0 {
        lemma_dedupe_capped(opts, n - 1);
    }
}

/// Keep the first occurrence of each token, capped so the list stays usable.
pub fn dedupe(opts: Vec<(String, String)>) -> (r: Vec<(String, String)>)
    ensures
        pair_views(r@) == dedupe_spec(pair_views(opts@), opts@.len() as int),
{
    let ghost m = pair_views(opts@);
    let mut out: Vec<(String, String)> = Vec::new();
    let mut i: usize = 0;
    assert(pair_views(out@) =~= dedupe_spec(m, 0));
    while i < opts.len()
        invariant
            i <= opts@.len(),
            m == pair_views(opts@),
            pair_views(out@) == dedupe_spec(m, i as int),
        decreases opts@.len() - i,
    {
        proof { lemma_dedupe_capped(m, i as int); }
        let ghost before = pair_views(out@);
        assert(m[i as int] == (opts@[i as int].0@, opts@[i as int].1@));
        if out.len() < OPTION_CAP {
            let mut seen = false;
            let mut k: usize = 0;
            while k < out.len()
                invariant
                    k <= out@.len(),
                    i < opts@.len(),
                    before == pair_views(out@),
                    seen == tokens_of(before).take(k as int).contains(opts@[i as int].0@),
                decreases out@.len() - k,
            {
                assert(tokens_of(before).take(k + 1) =~= tokens_of(before).take(k as int).push(out@[k as int].0@));
                let hit = crate::text::str_eq(out[k].0.as_str(), opts[i].0.as_str());
                proof {
                    let x = opts@[i as int].0@;
                    let t = tokens_of(before).take(k as int);
                    if t.push(out@[k as int].0@).contains(x) {
                        let w = choose|w: int| 0 <= w < k + 1 && t.push(out@[k as int].0@)[w] == x;
                        if w < k {
                            assert(t[w] == x);
                        }
                    }
                    if hit {
                        assert(t.push(out@[k as int].0@)[k as int] == x);
                    }
                }
                if hit {
                    seen = true;
                }
                k = k + 1;
            }
            assert(tokens_of(before).take(k as int) =~= tokens_of(before));
            if !seen {
                out.push((opts[i].0.clone(), opts[i].1.clone()));
                assert(pair_views(out@) =~= before.push(m[i as int]));
            }
        }
        i = i + 1;
    }
    out
}

/// The options a command advertises, from what its `--help` printed and,
/// when that offered none, what its man page printed (`None` when it was
/// not consulted): parsed, deduplicated by token, and capped.
pub fn extract_options(help_text: &str, man_text: Option<&str>) -> (r: Vec<(String, String)>)
    ensures
        pair_views(r@) == (if options_from(help_text@, 0).len() > 0 {
            dedupe_spec(options_from(help_text@, 0), options_from(help_text@, 0).len() as int)
        } else {
            match man_text {
                Some(m) => dedupe_spec(options_from(strip_spec(m@), 0), options_from(strip_spec(m@), 0).len() as int),
                None => Seq::empty(),
            }
        }),
{
    let opts = parse_help(help_text);
    if opts.len() > 0 {
        return dedupe(opts);
    }
    match man_text {
        Some(m) => {
            let plain = strip_overstrike(m);
            let parsed = parse_help(plain.as_str());
            dedupe(parsed)
        }
        None => Vec::new(),
    }
}

} // verus!
