//! Decoding read chunks into the preview's own content: text lines with
//! syntax-highlight runs, or hexdump rows, grown chunk by chunk; the bytes of
//! a partial unit are carried to the next chunk.

use vstd::prelude::*;
use crate::event::StyleRun;
use crate::magic::{detect_mime, mime_spec, MimeClass};
use crate::options::{lemma_line_end_bounds, line_at, line_end_from};
use crate::path::{extension, extension_spec};
use crate::state::{views, Entry};
use crate::text::{chars_of, push_char, push_str, string_of};

verus! {

// --- outside calls --------------------------------------------------------------

/// What `String::from_utf8_lossy` gives for some bytes.
pub uninterp spec fn utf8_lossy(b: Seq<u8>) -> Seq<char>;

/// `String::from_utf8_lossy`: the bytes decoded as UTF-8, each invalid
/// sequence replaced by U+FFFD. The result is named by `utf8_lossy`; for valid
/// UTF-8 it is the plain decoding, as std documents.
#[verifier::external_body]
fn lossy(b: &[u8]) -> (r: String)
    ensures
        r@ == utf8_lossy(b@),
        vstd::utf8::valid_utf8(b@) ==> r@ == vstd::utf8::decode_utf8(b@),
{
    String::from_utf8_lossy(b).into_owned()
}

/// What syntect's bundled syntaxes and a bundled theme give for some lines of
/// a file with the given extension: `None` when no syntax claims the
/// extension, else per line `None` when highlighting failed, or the pieces as
/// (foreground color, byte length).
pub uninterp spec fn syntect_pieces(ext: Seq<char>, theme: Seq<char>, lines: Seq<Seq<char>>) -> Option<Seq<Option<Seq<((u8, u8, u8), usize)>>>>;

/// The model of the highlighter's raw result.
pub open spec fn pieces_view(r: Option<Vec<Option<Vec<((u8, u8, u8), usize)>>>>) -> Option<Seq<Option<Seq<((u8, u8, u8), usize)>>>> {
    match r {
        Some(v) => Some(Seq::new(v@.len(), |i: int| match v@[i] {
            Some(w) => Some(w@),
            None => None,
        })),
        None => None,
    }
}

/// The theme the previews are drawn with, one that syntect bundles.
pub open spec fn preview_theme() -> Seq<char> {
    "base16-ocean.dark"@
}

/// syntect: `SyntaxSet::load_defaults_newlines`, `find_syntax_by_extension`,
/// `ThemeSet::load_defaults`, and `HighlightLines::highlight_line` over each
/// line as given, in order, one highlighter carrying state from line to
/// line. The result is named by
/// `syntect_pieces`; one entry per line when a syntax was found.
#[verifier::external_body]
fn highlight_pieces(ext: &str, theme: &str, lines: &Vec<String>) -> (r: Option<Vec<Option<Vec<((u8, u8, u8), usize)>>>>)
    requires
        theme@ == preview_theme(),
    ensures
        pieces_view(r) == syntect_pieces(ext@, theme@, views(lines@)),
        r matches Some(v) ==> v@.len() == lines@.len(),
{
    let ss = syntect::parsing::SyntaxSet::load_defaults_newlines();
    let ts = syntect::highlighting::ThemeSet::load_defaults();
    let syntax = ss.find_syntax_by_extension(ext)?;
    let mut hl = syntect::easy::HighlightLines::new(syntax, &ts.themes[theme]);
    Some(lines.iter().map(|l| hl.highlight_line(l, &ss).ok().map(|ranges| {
        ranges.iter().map(|(st, piece)| ((st.foreground.r, st.foreground.g, st.foreground.b), piece.len())).collect()
    })).collect())
}

// --- highlighting ---------------------------------------------------------------

/// The runs of the pieces, cut so their lengths sum to at most `remaining`
/// (the line's byte length: the restored newline gets no run).
pub open spec fn cap_runs(ps: Seq<((u8, u8, u8), usize)>, remaining: int) -> Seq<StyleRun>
    decreases ps.len(),
{
    if ps.len() == 0 || remaining <= 0 {
        Seq::empty()
    } else {
        let len = if (ps[0].1 as int) < remaining { ps[0].1 as int } else { remaining };
        seq![StyleRun { len: len as usize, fg: ps[0].0, bg: None }] + cap_runs(ps.drop_first(), remaining - len)
    }
}

/// The lines with their newlines restored, as syntect's newline syntaxes
/// expect them.
pub open spec fn newline_lines(lines: Seq<String>) -> Seq<Seq<char>> {
    Seq::new(lines.len(), |i: int| lines[i]@.push('\n'))
}

/// The style runs of each line: none at all when the file's extension names
/// no syntax, else per line the capped pieces (no runs when it failed).
pub open spec fn highlight_spec(path: Seq<char>, lines: Seq<String>) -> Seq<Seq<StyleRun>> {
    match extension_spec(path) {
        None => Seq::empty(),
        Some(ext) => match syntect_pieces(ext, preview_theme(), newline_lines(lines)) {
            None => Seq::empty(),
            Some(per) => Seq::new(per.len(), |i: int| match per[i] {
                Some(ps) => cap_runs(ps, vstd::utf8::encode_utf8(lines[i]@).len() as int),
                None => Seq::empty(),
            }),
        },
    }
}

fn capped(ps: &Vec<((u8, u8, u8), usize)>, line_len: usize) -> (r: Vec<StyleRun>)
    ensures
        r@ == cap_runs(ps@, line_len as int),
{
    let mut out: Vec<StyleRun> = Vec::new();
    let mut remaining: usize = line_len;
    let mut k: usize = 0;
    assert(ps@.skip(0) =~= ps@);
    while k < ps.len() && remaining > 0
        invariant
            k <= ps@.len(),
            remaining <= line_len,
            out@ + cap_runs(ps@.skip(k as int), remaining as int) == cap_runs(ps@, line_len as int),
        decreases ps@.len() - k,
    {
        let len = if ps[k].1 < remaining { ps[k].1 } else { remaining };
        let run = StyleRun { len, fg: ps[k].0, bg: None };
        assert(ps@.skip(k as int).drop_first() =~= ps@.skip(k + 1));
        assert(ps@.skip(k as int)[0] == ps@[k as int]);
        let ghost before = out@;
        out.push(run);
        assert(out@ == before + seq![run]);
        assert(cap_runs(ps@.skip(k as int), remaining as int) == seq![run] + cap_runs(ps@.skip(k + 1), remaining - len));
        assert(out@ + cap_runs(ps@.skip(k + 1), remaining - len) =~= before + cap_runs(ps@.skip(k as int), remaining as int));
        remaining = remaining - len;
        k = k + 1;
    }
    assert(cap_runs(ps@.skip(k as int), remaining as int) =~= Seq::<StyleRun>::empty());
    assert(out@ =~= out@ + Seq::<StyleRun>::empty());
    out
}

/// Syntax-highlight the lines of a file into per-line style runs, keyed by the
/// file's extension. Empty when no syntax matches the file, so the renderer
/// falls back to plain text.
pub fn highlight_lines(path: &str, lines: &Vec<String>) -> (r: Vec<Vec<StyleRun>>)
    ensures
        r@.len() == highlight_spec(path@, lines@).len(),
        forall|i: int| 0 <= i < r@.len() ==> (#[trigger] r@[i])@ == highlight_spec(path@, lines@)[i],
{
    let ext = match extension(path) {
        Some(e) => e,
        None => return Vec::new(),
    };
    proof { reveal_strlit("base16-ocean.dark"); }
    let mut fed: Vec<String> = Vec::new();
    let mut k: usize = 0;
    while k < lines.len()
        invariant
            k <= lines@.len(),
            views(fed@) == newline_lines(lines@.take(k as int)),
        decreases lines@.len() - k,
    {
        let mut l = lines[k].clone();
        push_char(&mut l, '\n');
        let ghost before = views(fed@);
        fed.push(l);
        assert(views(fed@) =~= before.push(lines@[k as int]@.push('\n')));
        k = k + 1;
        assert(newline_lines(lines@.take(k as int)) =~= newline_lines(lines@.take(k - 1)).push(lines@[k - 1]@.push('\n')));
    }
    assert(lines@.take(k as int) =~= lines@);
    assert(fed@.len() == views(fed@).len() && views(fed@).len() == lines@.len());
    let per = match highlight_pieces(ext.as_str(), "base16-ocean.dark", &fed) {
        Some(p) => p,
        None => return Vec::new(),
    };
    let ghost spec = highlight_spec(path@, lines@);
    let mut out: Vec<Vec<StyleRun>> = Vec::new();
    let mut i: usize = 0;
    while i < per.len()
        invariant
            i <= per@.len(),
            per@.len() == lines@.len(),
            spec == highlight_spec(path@, lines@),
            Some(ext@) == extension_spec(path@),
            pieces_view(Some(per)) == syntect_pieces(ext@, preview_theme(), newline_lines(lines@)),
            out@.len() == i,
            forall|j: int| 0 <= j < i ==> (#[trigger] out@[j])@ == spec[j],
        decreases per@.len() - i,
    {
        let line = lines[i].as_str();
        let len = line.as_bytes().len();
        assert(line@ == lines@[i as int]@);
        let runs = match &per[i] {
            Some(ps) => capped(ps, len),
            None => Vec::new(),
        };
        proof {
            let pv = syntect_pieces(ext@, preview_theme(), newline_lines(lines@))->0;
            assert(pv[i as int] == (match per@[i as int] { Some(w) => Some(w@), None => None }));
        }
        assert(len as int == vstd::utf8::encode_utf8(lines@[i as int]@).len());
        assert(spec[i as int] == (match per@[i as int] { Some(w) => cap_runs(w@, vstd::utf8::encode_utf8(lines@[i as int]@).len() as int), None => Seq::<StyleRun>::empty() }));
        assert(runs@ == spec[i as int]);
        out.push(runs);
        i = i + 1;
    }
    out
}

// --- line splitting ------------------------------------------------------------

/// The lines of `s` from `j` on, as `str::lines` gives them: split at `\n`,
/// a `\r` before the `\n` dropped, no empty last line after a final newline.
pub open spec fn lines_from(s: Seq<char>, j: int) -> Seq<Seq<char>>
    decreases s.len() - j,
{
    if j < 0 || j >= s.len() {
        Seq::empty()
    } else {
        let e = line_end_from(s, j);
        proof { lemma_line_end_bounds(s, j); }
        if e < s.len() {
            seq![line_at(s, j, e)] + lines_from(s, e + 1)
        } else {
            seq![line_at(s, j, e)]
        }
    }
}

/// The lines of a string.
pub fn lines_of(text: &str) -> (r: Vec<String>)
    ensures
        views(r@) == lines_from(text@, 0),
{
    let s = chars_of(text);
    let mut out: Vec<String> = Vec::new();
    let mut j: usize = 0;
    assert(views(out@) + lines_from(s@, 0) =~= lines_from(s@, 0));
    while j < s.len()
        invariant
            j <= s@.len(),
            s@ == text@,
            views(out@) + lines_from(s@, j as int) == lines_from(s@, 0),
        decreases s@.len() - j,
    {
        let mut e: usize = j;
        while e < s.len() && s[e] != '\n'
            invariant
                j <= e <= s@.len(),
                line_end_from(s@, j as int) == line_end_from(s@, e as int),
            decreases s@.len() - e,
        {
            e = e + 1;
        }
        let mut line: Vec<char> = Vec::new();
        let mut k: usize = j;
        while k < e
            invariant
                j <= k <= e <= s@.len(),
                line@ == s@.subrange(j as int, k as int),
            decreases e - k,
        {
            line.push(s[k]);
            k = k + 1;
            assert(line@ =~= s@.subrange(j as int, k as int));
        }
        if e < s.len() && line.len() > 0 && line[line.len() - 1] == '\r' {
            line.pop();
        }
        assert(line@ =~= line_at(s@, j as int, e as int));
        let l = string_of(line.as_slice());
        let ghost before = views(out@);
        out.push(l);
        assert(views(out@) =~= before.push(l@));
        if e < s.len() {
            assert(views(out@) + lines_from(s@, e + 1) =~= before + lines_from(s@, j as int));
            j = e + 1;
        } else {
            assert(views(out@) + lines_from(s@, e as int) =~= before + lines_from(s@, j as int));
            j = e;
        }
    }
    assert(views(out@) + lines_from(s@, j as int) =~= views(out@));
    out
}

/// The last newline byte of `b` before position `j`.
pub open spec fn last_newline(b: Seq<u8>, j: int) -> Option<int>
    decreases j,
{
    if j <= 0 || j > b.len() {
        None
    } else if b[j - 1] == 10u8 {
        Some(j - 1)
    } else {
        last_newline(b, j - 1)
    }
}

proof fn lemma_last_newline_in(b: Seq<u8>, j: int)
    requires
        0 <= j <= b.len(),
    ensures
        last_newline(b, j) matches Some(i) ==> 0 <= i < j && b[i] == 10u8,
    decreases j,
{
    if j > 0 && b[j - 1] != 10u8 {
        lemma_last_newline_in(b, j - 1);
    }
}

/// Bytes as text: their UTF-8 decoding when valid, else std's lossy
/// decoding (each invalid sequence replaced by U+FFFD).
pub open spec fn decoded_text(b: Seq<u8>) -> Seq<char> {
    if vstd::utf8::valid_utf8(b) { vstd::utf8::decode_utf8(b) } else { utf8_lossy(b) }
}

/// The complete lines of `buf` and the bytes carried to the next chunk: at
/// the end of the file everything decodes; else the lines up to the last
/// newline decode and what follows it is carried.
pub open spec fn split_spec(buf: Seq<u8>, eof: bool) -> (Seq<Seq<char>>, Seq<u8>) {
    if eof {
        (lines_from(decoded_text(buf), 0), Seq::empty())
    } else {
        match last_newline(buf, buf.len() as int) {
            Some(nl) => (lines_from(decoded_text(buf.take(nl)), 0), buf.skip(nl + 1)),
            None => (Seq::empty(), buf),
        }
    }
}

fn copy_bytes(b: &[u8], lo: usize, hi: usize) -> (r: Vec<u8>)
    requires
        lo <= hi <= b@.len(),
    ensures
        r@ == b@.subrange(lo as int, hi as int),
{
    let mut out: Vec<u8> = Vec::new();
    let mut i: usize = lo;
    while i < hi
        invariant
            lo <= i <= hi <= b@.len(),
            out@ == b@.subrange(lo as int, i as int),
        decreases hi - i,
    {
        out.push(b[i]);
        i = i + 1;
        assert(out@ =~= b@.subrange(lo as int, i as int));
    }
    out
}

fn split_lines(buf: &[u8], eof: bool) -> (r: (Vec<String>, Vec<u8>))
    ensures
        views(r.0@) == split_spec(buf@, eof).0,
        r.1@ == split_spec(buf@, eof).1,
{
    if eof {
        let text = lossy(buf);
        return (lines_of(text.as_str()), Vec::new());
    }
    let mut j: usize = buf.len();
    while j > 0 && buf[j - 1] != 10u8
        invariant
            j <= buf@.len(),
            last_newline(buf@, buf@.len() as int) == last_newline(buf@, j as int),
        decreases j,
    {
        j = j - 1;
    }
    if j == 0 {
        return (Vec::new(), copy_bytes(buf, 0, buf.len()));
    }
    let nl = j - 1;
    let head = copy_bytes(buf, 0, nl);
    assert(head@ =~= buf@.take(nl as int));
    let text = lossy(head.as_slice());
    let tail = copy_bytes(buf, nl + 1, buf.len());
    assert(tail@ =~= buf@.skip(nl + 1));
    (lines_of(text.as_str()), tail)
}

// --- hexdump rows --------------------------------------------------------------

/// A lowercase hex digit.
pub open spec fn hex_digit(d: int) -> char {
    if d < 10 { ((d + 48) as u8) as char } else { ((d + 87) as u8) as char }
}

/// `n` in lowercase hex, without leading zeros (`0` for zero).
pub open spec fn hex_spec(n: nat) -> Seq<char>
    decreases n,
{
    if n < 16 { seq![hex_digit(n as int)] } else { hex_spec(n / 16).push(hex_digit((n % 16) as int)) }
}

/// `s` left-padded with `c` to at least `w` characters.
pub open spec fn pad_left(s: Seq<char>, w: int, c: char) -> Seq<char> {
    if s.len() >= w { s } else { Seq::new((w - s.len()) as nat, |i: int| c) + s }
}

/// `s` right-padded with spaces to at least `w` characters.
pub open spec fn pad_right(s: Seq<char>, w: int) -> Seq<char> {
    if s.len() >= w { s } else { s + Seq::new((w - s.len()) as nat, |i: int| ' ') }
}

/// A byte as two lowercase hex digits.
pub open spec fn byte_hex(b: u8) -> Seq<char> {
    seq![hex_digit((b / 16) as int), hex_digit((b % 16) as int)]
}

/// The bytes `c[0..n]` in hex, separated by single spaces.
pub open spec fn joined_hex(c: Seq<u8>, n: int) -> Seq<char>
    decreases n,
{
    if n <= 0 { Seq::empty() } else if n == 1 { byte_hex(c[0]) } else { joined_hex(c, n - 1) + " "@ + byte_hex(c[n - 1]) }
}

/// A printable ASCII byte as itself, anything else as `.`.
pub open spec fn shown(b: u8) -> char {
    if 0x20 <= b && b < 0x7f { b as char } else { '.' }
}

/// One hexdump row: the address in at least eight hex digits, the bytes in
/// hex padded to 48 columns, and the bytes as text.
pub open spec fn hex_row_spec(addr: nat, chunk: Seq<u8>) -> Seq<char> {
    pad_left(hex_spec(addr), 8, '0') + "  "@ + pad_right(joined_hex(chunk, chunk.len() as int), 48) + "  "@
        + Seq::new(chunk.len(), |i: int| shown(chunk[i]))
}

/// How many bytes of `buf` make rows now: all at the end of the file, else the
/// full 16-byte rows.
pub open spec fn full_len(len: int, eof: bool) -> int {
    if eof { len } else { len - len % 16 }
}

/// The rows of `buf` addressed from row `start`, and the bytes carried.
pub open spec fn hex_rows_spec(buf: Seq<u8>, start: int, eof: bool) -> (Seq<Seq<char>>, Seq<u8>) {
    let full = full_len(buf.len() as int, eof);
    let n = (full + 15) / 16;
    (
        Seq::new(n as nat, |i: int| hex_row_spec(((start + i) * 16) as nat,
            buf.subrange(16 * i, if 16 * i + 16 < full { 16 * i + 16 } else { full }))),
        buf.skip(full),
    )
}

fn hex_char(d: u8) -> (c: char)
    requires
        d < 16,
    ensures
        c == hex_digit(d as int),
{
    if d < 10 { (d + 48) as char } else { (d + 87) as char }
}

fn push_hex(out: &mut String, n: usize)
    ensures
        final(out)@ == old(out)@ + hex_spec(n as nat),
    decreases n,
{
    if n < 16 {
        push_char(out, hex_char(n as u8));
        assert(out@ =~= old(out)@ + hex_spec(n as nat));
    } else {
        push_hex(out, n / 16);
        push_char(out, hex_char((n % 16) as u8));
        assert(out@ =~= old(out)@ + hex_spec(n as nat));
    }
}

/// One hexdump row for up to 16 bytes at `addr`.
pub fn hex_row(addr: usize, chunk: &[u8]) -> (r: String)
    requires
        chunk@.len() <= 16,
    ensures
        r@ == hex_row_spec(addr as nat, chunk@),
{
    let mut digits = String::new();
    push_hex(&mut digits, addr);
    let ghost h = hex_spec(addr as nat);
    let dl = chars_of(digits.as_str()).len();
    let mut out = String::new();
    let mut p: usize = dl;
    while p < 8
        invariant
            dl == h.len(),
            dl <= p <= 8 || (p == dl && dl > 8),
            out@ == Seq::new((p - dl) as nat, |i: int| '0'),
        decreases 8 - p,
    {
        push_char(&mut out, '0');
        p = p + 1;
        assert(out@ =~= Seq::new((p - dl) as nat, |i: int| '0'));
    }
    push_str(&mut out, digits.as_str());
    assert(out@ =~= pad_left(h, 8, '0'));
    let ghost head = out@;
    push_str(&mut out, "  ");
    let mut hex = String::new();
    let mut i: usize = 0;
    while i < chunk.len()
        invariant
            i <= chunk@.len() <= 16,
            hex@ == joined_hex(chunk@, i as int),
            hex@.len() == (if i == 0 { 0 } else { 3 * i - 1 }),
        decreases chunk@.len() - i,
    {
        if i > 0 {
            push_char(&mut hex, ' ');
        }
        let b = chunk[i];
        push_char(&mut hex, hex_char(b / 16));
        push_char(&mut hex, hex_char(b % 16));
        i = i + 1;
        proof { reveal_strlit(" "); }
        assert(hex@ =~= joined_hex(chunk@, i as int));
    }
    let hl = chars_of(hex.as_str()).len();
    push_str(&mut out, hex.as_str());
    let ghost before_pad = out@;
    let mut q: usize = hl;
    while q < 48
        invariant
            hl <= q <= 48,
            out@ == before_pad + Seq::new((q - hl) as nat, |k: int| ' '),
        decreases 48 - q,
    {
        push_char(&mut out, ' ');
        q = q + 1;
        assert(out@ =~= before_pad + Seq::new((q - hl) as nat, |k: int| ' '));
    }
    push_str(&mut out, "  ");
    let ghost before_text = out@;
    let mut k: usize = 0;
    while k < chunk.len()
        invariant
            k <= chunk@.len(),
            out@ == before_text + Seq::new(k as nat, |j: int| shown(chunk@[j])),
        decreases chunk@.len() - k,
    {
        let b = chunk[k];
        let c = if 0x20u8 <= b && b < 0x7fu8 { b as char } else { '.' };
        push_char(&mut out, c);
        k = k + 1;
        assert(out@ =~= before_text + Seq::new(k as nat, |j: int| shown(chunk@[j])));
    }
    proof { reveal_strlit("  "); }
    assert(out@ =~= hex_row_spec(addr as nat, chunk@));
    out
}

fn hex_rows(buf: &[u8], start_row: usize, eof: bool) -> (r: (Vec<String>, Vec<u8>))
    requires
        start_row + buf@.len() <= usize::MAX / 32,
    ensures
        views(r.0@) == hex_rows_spec(buf@, start_row as int, eof).0,
        r.1@ == hex_rows_spec(buf@, start_row as int, eof).1,
{
    let full = if eof { buf.len() } else { buf.len() - buf.len() % 16 };
    let ghost n = (full + 15) / 16;
    let mut rows: Vec<String> = Vec::new();
    let mut i: usize = 0;
    while i * 16 < full
        invariant
            full <= buf@.len(),
            full == full_len(buf@.len() as int, eof),
            n == (full + 15) / 16,
            start_row + buf@.len() <= usize::MAX / 32,
            i <= n,
            i * 16 <= full + 15,
            views(rows@) == hex_rows_spec(buf@, start_row as int, eof).0.take(i as int),
        decreases full + 16 - i * 16,
    {
        let lo = i * 16;
        let hi = if lo + 16 < full { lo + 16 } else { full };
        let chunk = copy_bytes(buf, lo, hi);
        let row = hex_row((start_row + i) * 16, chunk.as_slice());
        let ghost before = views(rows@);
        rows.push(row);
        assert(views(rows@) =~= before.push(row@));
        i = i + 1;
        assert(views(rows@) =~= hex_rows_spec(buf@, start_row as int, eof).0.take(i as int));
    }
    assert(i == n);
    assert(hex_rows_spec(buf@, start_row as int, eof).0.take(i as int) =~= hex_rows_spec(buf@, start_row as int, eof).0);
    let tail = copy_bytes(buf, full, buf.len());
    assert(tail@ =~= buf@.skip(full as int));
    (rows, tail)
}

// --- the decoded content ------------------------------------------------------------

/// The preview's decoded content: styled text lines, a bounded RGB image, hex
/// rows, or a directory listing. Text and hex grow chunk by chunk.
pub enum Decoded {
    Text { lines: Vec<String>, styles: Vec<Vec<StyleRun>> },
    Image { width: u32, height: u32, rgb: Vec<u8> },
    Binary { lines: Vec<String> },
    Dir { entries: Vec<Entry> },
}

/// Which streamed representation the first chunk selected.
#[derive(Debug, Clone, Copy, PartialEq, Eq, Structural)]
pub enum Kind {
    Text,
    Hex,
}

/// Classify the first chunk: a streamed kind with its (still empty) content,
/// or `None` for an image, which the caller decodes whole from the file.
pub fn classify_first(bytes: &[u8]) -> (r: Option<(Decoded, Kind)>)
    requires
        bytes@.len() * 100 <= usize::MAX,
    ensures
        match mime_spec(bytes@) {
            MimeClass::Image => r is None,
            MimeClass::Text => r matches Some((Decoded::Text { lines, styles }, Kind::Text)) && lines@.len() == 0 && styles@.len() == 0,
            MimeClass::Binary => r matches Some((Decoded::Binary { lines }, Kind::Hex)) && lines@.len() == 0,
        },
{
    match detect_mime(bytes) {
        MimeClass::Image => None,
        MimeClass::Text => Some((Decoded::Text { lines: Vec::new(), styles: Vec::new() }, Kind::Text)),
        MimeClass::Binary => Some((Decoded::Binary { lines: Vec::new() }, Kind::Hex)),
    }
}

/// The streamed lines decoded so far: those of text or hex content; none for
/// whole-decoded content, which never pages.
pub open spec fn streamed_lines(d: Decoded) -> int {
    match d {
        Decoded::Text { lines, .. } => lines@.len() as int,
        Decoded::Binary { lines } => lines@.len() as int,
        _ => 0,
    }
}

/// What appending `buf` does: text gains the complete lines (and their runs),
/// hex gains the full rows addressed after the rows it has; the result is the
/// carried tail. Content of another kind is left as it is.
pub open spec fn append_post(path: Seq<char>, kind: Kind, old: Decoded, new: Decoded, buf: Seq<u8>, eof: bool, tail: Seq<u8>) -> bool {
    match (kind, old) {
        (Kind::Text, Decoded::Text { lines, styles }) => {
            let (ls, t) = split_spec(buf, eof);
            &&& new matches Decoded::Text { lines: nl, styles: ns }
                && views(nl@) == views(lines@) + ls
                && ns@.len() == styles@.len() + highlight_spec(path, Seq::new(ls.len(), |i: int| nl@[lines@.len() + i])).len()
                && (forall|i: int| 0 <= i < styles@.len() ==> #[trigger] ns@[i] == styles@[i])
                && (forall|i: int| 0 <= i < ns@.len() - styles@.len() ==>
                    (#[trigger] ns@[styles@.len() + i])@ == highlight_spec(path, Seq::new(ls.len(), |k: int| nl@[lines@.len() + k]))[i])
            &&& tail == t
        },
        (Kind::Hex, Decoded::Binary { lines }) => {
            let (rows, t) = hex_rows_spec(buf, lines@.len() as int, eof);
            &&& new matches Decoded::Binary { lines: nl } && views(nl@) == views(lines@) + rows
            &&& tail == t
        },
        _ => new == old && tail.len() == 0,
    }
}

/// Append a chunk into streamed content, decoding only the completed units,
/// and return the undecoded trailing bytes to put before the next chunk.
/// `buf` is the previous tail followed by the new chunk's bytes; with `eof`
/// everything is flushed and the tail is empty.
pub fn append(path: &str, kind: Kind, content: &mut Decoded, buf: &[u8], eof: bool) -> (tail: Vec<u8>)
    requires
        streamed_lines(*old(content)) + buf@.len() <= usize::MAX / 32,
    ensures
        append_post(path@, kind, *old(content), *final(content), buf@, eof, tail@),
{
    match kind {
        Kind::Text => {
            match content {
                Decoded::Text { lines, styles } => {
                    let (new_lines, tail) = split_lines(buf, eof);
                    let mut new_styles = highlight_lines(path, &new_lines);
                    let ghost l0 = lines@;
                    let ghost s0 = styles@;
                    let ghost nl0 = new_lines@;
                    let ghost ns0 = new_styles@;
                    let mut moved = new_lines;
                    lines.append(&mut moved);
                    styles.append(&mut new_styles);
                    assert(lines@ == l0 + nl0);
                    assert(styles@ == s0 + ns0);
                    assert(views(lines@) =~= views(l0) + views(nl0));
                    assert(Seq::new(views(nl0).len(), |q: int| lines@[l0.len() + q]) =~= nl0);
                    tail
                }
                _ => Vec::new(),
            }
        }
        Kind::Hex => {
            match content {
                Decoded::Binary { lines } => {
                    let (rows, tail) = hex_rows(buf, lines.len(), eof);
                    let ghost l0 = lines@;
                    let ghost r0 = rows@;
                    let mut moved = rows;
                    lines.append(&mut moved);
                    assert(views(lines@) =~= views(l0) + views(r0));
                    tail
                }
                _ => Vec::new(),
            }
        }
    }
}


// --- images ------------------------------------------------------------------

/// The largest width and height a decoded image keeps.
pub const IMAGE_MAX: u32 = 320;

/// What the `image` crate decodes as RGB8 from the bytes of a file at
/// `path` (its format taken from the path's extension): width, height and
/// the packed pixels, or its error message.
pub uninterp spec fn image_rgb8(bytes: Seq<u8>, path: Seq<char>) -> Result<(u32, u32, Seq<u8>), Seq<char>>;

/// What the `image` crate's thumbnail of the decoded bytes, bounded by
/// `max` on each side, is as RGB8, or the decoding error message.
pub uninterp spec fn image_thumbnail(bytes: Seq<u8>, path: Seq<char>, max: u32) -> Result<(u32, u32, Seq<u8>), Seq<char>>;

/// `image::ImageFormat::from_path` and `image::load_from_memory_with_format`
/// (the format chosen by the path's extension, as `image::open` does), then
/// `DynamicImage::to_rgb8`, its dimensions and `into_raw`: the packed RGB8
/// pixels hold three bytes per pixel; an error becomes its display text.
#[verifier::external_body]
fn decode_rgb8(bytes: &[u8], path: &str) -> (r: Result<(u32, u32, Vec<u8>), String>)
    ensures
        match r {
            Ok((w, h, px)) => image_rgb8(bytes@, path@) == Ok::<(u32, u32, Seq<u8>), Seq<char>>((w, h, px@)) && px@.len() == w * h * 3,
            Err(e) => image_rgb8(bytes@, path@) == Err::<(u32, u32, Seq<u8>), Seq<char>>(e@),
        },
{
    let loaded = match image::ImageFormat::from_path(path) {
        Ok(f) => image::load_from_memory_with_format(bytes, f),
        Err(e) => Err(e),
    };
    match loaded {
        Ok(img) => {
            let rgb = img.to_rgb8();
            let (w, h) = rgb.dimensions();
            Ok((w, h, rgb.into_raw()))
        }
        Err(e) => Err(format!("{e}")),
    }
}

/// The same decoding as `decode_rgb8`, then `DynamicImage::thumbnail(max,
/// max)` and its RGB8 pixels: the thumbnail keeps the aspect ratio and fits
/// within `max` on each side; decoding succeeds exactly when it does for
/// `decode_rgb8`, which makes the same first calls.
#[verifier::external_body]
fn decode_thumbnail(bytes: &[u8], path: &str, max: u32) -> (r: Result<(u32, u32, Vec<u8>), String>)
    requires
        max >= 1,
    ensures
        r is Ok == image_rgb8(bytes@, path@) is Ok,
        match r {
            Ok((w, h, px)) => image_thumbnail(bytes@, path@, max) == Ok::<(u32, u32, Seq<u8>), Seq<char>>((w, h, px@))
                && w <= max && h <= max && px@.len() == w * h * 3,
            Err(e) => image_thumbnail(bytes@, path@, max) == Err::<(u32, u32, Seq<u8>), Seq<char>>(e@),
        },
{
    let loaded = match image::ImageFormat::from_path(path) {
        Ok(f) => image::load_from_memory_with_format(bytes, f),
        Err(e) => Err(e),
    };
    match loaded {
        Ok(img) => {
            let rgb = img.thumbnail(max, max).to_rgb8();
            let (w, h) = rgb.dimensions();
            Ok((w, h, rgb.into_raw()))
        }
        Err(e) => Err(format!("{e}")),
    }
}

/// The one-line note shown for an image that cannot be decoded.
pub open spec fn image_note(e: Seq<char>) -> Seq<char> {
    "[image: "@ + e + "]"@
}

/// What decoding an image file's bytes gives: its RGB8 pixels when both
/// sides fit within `IMAGE_MAX`, else its thumbnail; a note on any error.
pub open spec fn image_decoded(d: Decoded, bytes: Seq<u8>, path: Seq<char>) -> bool {
    let full = image_rgb8(bytes, path);
    let picked = match full {
        Ok(t) => if t.0 > IMAGE_MAX || t.1 > IMAGE_MAX { image_thumbnail(bytes, path, IMAGE_MAX) } else { full },
        Err(e) => full,
    };
    match picked {
        Ok(t) => d matches Decoded::Image { width, height, rgb } && width == t.0 && height == t.1 && rgb@ == t.2,
        Err(e) => d matches Decoded::Text { lines, styles } && views(lines@) == seq![image_note(e)] && styles@.len() == 0,
    }
}

fn image_note_line(e: &str) -> (r: String)
    ensures
        r@ == image_note(e@),
{
    let mut m = String::new();
    push_str(&mut m, "[image: ");
    push_str(&mut m, e);
    push_str(&mut m, "]");
    proof {
        reveal_strlit("[image: ");
        reveal_strlit("]");
    }
    m
}

fn note_decoded(e: &str) -> (d: Decoded)
    ensures
        d matches Decoded::Text { lines, styles } && views(lines@) == seq![image_note(e@)] && styles@.len() == 0,
{
    let mut lines: Vec<String> = Vec::new();
    lines.push(image_note_line(e));
    let d = Decoded::Text { lines, styles: Vec::new() };
    proof {
        assert(views(lines@) =~= seq![image_note(e@)]);
    }
    d
}

/// Decode the bytes of the image file at `path` (its format chosen by the
/// extension) to a bounded RGB8 buffer: scaled down to fit within
/// `IMAGE_MAX` on each side when larger; a one-line note when the bytes are
/// no image of that format.
pub fn decode_image(bytes: &[u8], path: &str) -> (d: Decoded)
    ensures
        image_decoded(d, bytes@, path@),
        d matches Decoded::Image { width, height, rgb } ==> width <= IMAGE_MAX && height <= IMAGE_MAX
            && rgb@.len() == width * height * 3,
{
    match decode_rgb8(bytes, path) {
        Ok((w, h, px)) => {
            if w > IMAGE_MAX || h > IMAGE_MAX {
                match decode_thumbnail(bytes, path, IMAGE_MAX) {
                    Ok((tw, th, tpx)) => Decoded::Image { width: tw, height: th, rgb: tpx },
                    Err(e) => note_decoded(e.as_str()),
                }
            } else {
                Decoded::Image { width: w, height: h, rgb: px }
            }
        }
        Err(e) => note_decoded(e.as_str()),
    }
}

} // verus!
