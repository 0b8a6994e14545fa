//! Character-level text helpers shared by the parsers, the codec and the
//! reducer. Strings are reasoned about through their `Seq<char>` views.

use vstd::prelude::*;

verus! {

/// The characters of `s`, in order.
pub fn chars_of(s: &str) -> (v: Vec<char>)
    ensures
        v@ == s@,
{
    let mut v: Vec<char> = Vec::new();
    for c in it: s.chars()
        invariant
            v@ == it.seq().take(it.index() as int),
    {
        v.push(c);
    }
    v
}

/// `String::push`: appends one character.
#[verifier::external_body]
pub(crate) fn push_char(s: &mut String, c: char)
    ensures
        final(s)@ == old(s)@.push(c),
{
    s.push(c);
}

/// A string holding exactly the characters of `cs`.
pub fn string_of(cs: &[char]) -> (s: String)
    ensures
        s@ == cs@,
{
    let mut s = String::new();
    let mut i: usize = 0;
    while i < cs.len()
        invariant
            i <= cs@.len(),
            s@ == cs@.take(i as int),
        decreases cs@.len() - i,
    {
        push_char(&mut s, cs[i]);
        i = i + 1;
        assert(s@ == cs@.take(i as int));
    }
    assert(cs@.take(cs@.len() as int) == cs@);
    s
}

/// A copy of `s` as an owned string.
pub fn owned(s: &str) -> (r: String)
    ensures
        r@ == s@,
{
    let cs = chars_of(s);
    string_of(cs.as_slice())
}

/// Appends the characters of `t` to `s`.
pub fn push_str(s: &mut String, t: &str)
    ensures
        final(s)@ == old(s)@ + t@,
{
    let cs = chars_of(t);
    let mut i: usize = 0;
    while i < cs.len()
        invariant
            i <= cs@.len(),
            cs@ == t@,
            s@ == old(s)@ + cs@.take(i as int),
        decreases cs@.len() - i,
    {
        push_char(s, cs[i]);
        i = i + 1;
        assert(s@ == old(s)@ + cs@.take(i as int));
    }
    assert(cs@.take(cs@.len() as int) == cs@);
}

/// Whether two character sequences are equal.
pub fn seq_eq(a: &[char], b: &[char]) -> (r: bool)
    ensures
        r == (a@ == b@),
{
    if a.len() != b.len() {
        return false;
    }
    let mut i: usize = 0;
    while i < a.len()
        invariant
            a@.len() == b@.len(),
            i <= a@.len(),
            forall|j: int| 0 <= j < i ==> a@[j] == b@[j],
        decreases a@.len() - i,
    {
        if a[i] != b[i] {
            return false;
        }
        i = i + 1;
    }
    assert(a@ =~= b@);
    true
}

/// Whether two strings hold the same characters.
pub fn str_eq(a: &str, b: &str) -> (r: bool)
    ensures
        r == (a@ == b@),
{
    let ca = chars_of(a);
    let cb = chars_of(b);
    seq_eq(ca.as_slice(), cb.as_slice())
}

/// `p` is a prefix of `s`.
pub open spec fn is_prefix(p: Seq<char>, s: Seq<char>) -> bool {
    p.len() <= s.len() && s.take(p.len() as int) == p
}

/// `p` is a suffix of `s`.
pub open spec fn is_suffix(p: Seq<char>, s: Seq<char>) -> bool {
    p.len() <= s.len() && s.skip(s.len() - p.len()) == p
}

/// Whether `s` starts with `p`.
pub fn starts_with(s: &str, p: &str) -> (r: bool)
    ensures
        r == is_prefix(p@, s@),
{
    let cs = chars_of(s);
    let cp = chars_of(p);
    if cp.len() > cs.len() {
        return false;
    }
    let mut i: usize = 0;
    while i < cp.len()
        invariant
            cs@ == s@,
            cp@ == p@,
            cp@.len() <= cs@.len(),
            i <= cp@.len(),
            forall|j: int| 0 <= j < i ==> cs@[j] == cp@[j],
        decreases cp@.len() - i,
    {
        if cs[i] != cp[i] {
            assert(s@.take(p@.len() as int)[i as int] != p@[i as int]);
            return false;
        }
        i = i + 1;
    }
    assert(cs@.take(cp@.len() as int) =~= cp@);
    true
}

/// Whether `s` ends with `p`.
pub fn ends_with(s: &str, p: &str) -> (r: bool)
    ensures
        r == is_suffix(p@, s@),
{
    let cs = chars_of(s);
    let cp = chars_of(p);
    if cp.len() > cs.len() {
        return false;
    }
    let off = cs.len() - cp.len();
    let mut i: usize = 0;
    while i < cp.len()
        invariant
            cs@ == s@,
            cp@ == p@,
            cp@.len() <= cs@.len(),
            off as int + cp@.len() == cs@.len(),
            cs.len() == cs@.len(),
            cp.len() == cp@.len(),
            i <= cp@.len(),
            forall|j: int| 0 <= j < i ==> cs@[off + j] == cp@[j],
        decreases cp@.len() - i,
    {
        let k = off + i;
        if cs[k] != cp[i] {
            assert(s@.skip(off as int)[i as int] != p@[i as int]);
            return false;
        }
        i = i + 1;
    }
    assert(cs@.skip(off as int) =~= cp@);
    true
}

/// Whether `c` occurs in `s`.
pub fn contains_char(s: &str, c: char) -> (r: bool)
    ensures
        r == s@.contains(c),
{
    let cs = chars_of(s);
    let mut i: usize = 0;
    while i < cs.len()
        invariant
            cs@ == s@,
            i <= cs@.len(),
            forall|j: int| 0 <= j < i ==> cs@[j] != c,
        decreases cs@.len() - i,
    {
        if cs[i] == c {
            assert(s@[i as int] == c);
            return true;
        }
        i = i + 1;
    }
    false
}

// --- Unicode properties and case mapping (std) ------------------------------

/// Whether `c` has the Unicode `White_Space` property (what
/// `char::is_whitespace` tests): tab through carriage return, space, next
/// line, no-break space, ogham space mark, the spaces U+2000..U+200A, the
/// line and paragraph separators, narrow no-break space, medium mathematical
/// space and ideographic space.
pub open spec fn white_space(c: char) -> bool {
    let u = c as u32;
    ||| 0x09 <= u <= 0x0D
    ||| u == 0x20
    ||| u == 0x85
    ||| u == 0xA0
    ||| u == 0x1680
    ||| 0x2000 <= u <= 0x200A
    ||| u == 0x2028
    ||| u == 0x2029
    ||| u == 0x202F
    ||| u == 0x205F
    ||| u == 0x3000
}

/// Whether the character has the Unicode `White_Space` property.
pub fn is_whitespace(c: char) -> (r: bool)
    ensures
        r == white_space(c),
{
    let u = c as u32;
    (0x09 <= u && u <= 0x0D) || u == 0x20 || u == 0x85 || u == 0xA0 || u == 0x1680
        || (0x2000 <= u && u <= 0x200A) || u == 0x2028 || u == 0x2029 || u == 0x202F || u == 0x205F || u == 0x3000
}

/// The Unicode lowercase mapping of a whole string (may change its length).
pub uninterp spec fn lowercase(s: Seq<char>) -> Seq<char>;

/// `str::to_lowercase`: the string under the Unicode lowercase mapping. The
/// mapping table is std's and is named, not restated.
#[verifier::external_body]
pub(crate) fn to_lowercase(s: &str) -> (r: String)
    ensures
        r@ == lowercase(s@),
{
    s.to_lowercase()
}

// --- ASCII classes -----------------------------------------------------------

pub open spec fn is_ascii_digit_spec(c: char) -> bool {
    '0' <= c && c <= '9'
}

pub open spec fn is_ascii_alnum_spec(c: char) -> bool {
    is_ascii_digit_spec(c) || ('a' <= c && c <= 'z') || ('A' <= c && c <= 'Z')
}

pub fn is_ascii_digit(c: char) -> (r: bool)
    ensures
        r == is_ascii_digit_spec(c),
{
    '0' <= c && c <= '9'
}

pub fn is_ascii_alnum(c: char) -> (r: bool)
    ensures
        r == is_ascii_alnum_spec(c),
{
    ('0' <= c && c <= '9') || ('a' <= c && c <= 'z') || ('A' <= c && c <= 'Z')
}

/// ASCII lowercasing of one byte (other bytes unchanged).
pub open spec fn ascii_lower_spec(b: u8) -> u8 {
    if 65 <= b && b <= 90 {
        (b + 32) as u8
    } else {
        b
    }
}

pub fn ascii_lower(b: u8) -> (r: u8)
    ensures
        r == ascii_lower_spec(b),
{
    if 65 <= b && b <= 90 {
        b + 32
    } else {
        b
    }
}

// --- decimal rendering -------------------------------------------------------

pub open spec fn digit_char(d: int) -> char {
    if d == 0 { '0' }
    else if d == 1 { '1' }
    else if d == 2 { '2' }
    else if d == 3 { '3' }
    else if d == 4 { '4' }
    else if d == 5 { '5' }
    else if d == 6 { '6' }
    else if d == 7 { '7' }
    else if d == 8 { '8' }
    else { '9' }
}

/// The decimal digits of `n`, most significant first, without leading zeros.
pub open spec fn nat_decimal(n: nat) -> Seq<char>
    decreases n,
{
    if n < 10 {
        seq![digit_char(n as int)]
    } else {
        nat_decimal(n / 10).push(digit_char((n % 10) as int))
    }
}

/// The decimal rendering of an integer (`-` sign for negatives).
pub open spec fn int_decimal(i: int) -> Seq<char> {
    if i < 0 {
        seq!['-'] + nat_decimal((-i) as nat)
    } else {
        nat_decimal(i as nat)
    }
}

fn digit_of(d: u64) -> (c: char)
    requires
        d < 10,
    ensures
        c == digit_char(d as int),
{
    if d == 0 { '0' }
    else if d == 1 { '1' }
    else if d == 2 { '2' }
    else if d == 3 { '3' }
    else if d == 4 { '4' }
    else if d == 5 { '5' }
    else if d == 6 { '6' }
    else if d == 7 { '7' }
    else if d == 8 { '8' }
    else { '9' }
}

/// Appends the decimal digits of `n`.
pub fn push_decimal(s: &mut String, n: u64)
    ensures
        final(s)@ == old(s)@ + nat_decimal(n as nat),
    decreases n,
{
    if n < 10 {
        push_char(s, digit_of(n));
        assert(old(s)@.push(digit_char(n as int)) =~= old(s)@ + nat_decimal(n as nat));
    } else {
        push_decimal(s, n / 10);
        push_char(s, digit_of(n % 10));
        assert(old(s)@ + nat_decimal((n / 10) as nat) + seq![digit_char((n % 10) as int)]
            =~= old(s)@ + nat_decimal(n as nat));
    }
}

/// The decimal rendering of an unsigned integer.
pub fn u64_to_string(n: u64) -> (s: String)
    ensures
        s@ == nat_decimal(n as nat),
{
    let mut s = String::new();
    push_decimal(&mut s, n);
    assert(Seq::<char>::empty() + nat_decimal(n as nat) =~= nat_decimal(n as nat));
    s
}

/// The decimal rendering of a signed integer.
pub fn i64_to_string(i: i64) -> (s: String)
    ensures
        s@ == int_decimal(i as int),
{
    let mut s = String::new();
    if i < 0 {
        push_char(&mut s, '-');
        let m: u64 = if i == i64::MIN { 9223372036854775808u64 } else { (-i) as u64 };
        push_decimal(&mut s, m);
    } else {
        push_decimal(&mut s, i as u64);
        assert(Seq::<char>::empty() + nat_decimal(i as nat) =~= nat_decimal(i as nat));
    }
    s
}

// --- decimal parsing (the `i64: FromStr` grammar) ---------------------------

/// The value of a run of decimal digits.
pub open spec fn digits_value(ds: Seq<char>) -> int
    decreases ds.len(),
{
    if ds.len() == 0 {
        0
    } else {
        digits_value(ds.drop_last()) * 10 + (ds.last() as int - '0' as int)
    }
}

pub open spec fn all_digits(ds: Seq<char>) -> bool {
    forall|k: int| 0 <= k < ds.len() ==> is_ascii_digit_spec(#[trigger] ds[k])
}

/// `i64::from_str`: an optional `+`/`-` sign, then one or more ASCII digits,
/// within the `i64` range.
pub open spec fn parse_i64_spec(s: Seq<char>) -> Option<i64> {
    let neg = s.len() > 0 && s[0] == '-';
    let signed = s.len() > 0 && (s[0] == '-' || s[0] == '+');
    let ds = if signed { s.skip(1) } else { s };
    if ds.len() == 0 || !all_digits(ds) {
        None
    } else {
        let v = if neg { -digits_value(ds) } else { digits_value(ds) };
        if i64::MIN <= v && v <= i64::MAX {
            Some(v as i64)
        } else {
            None
        }
    }
}

proof fn lemma_digit_char(d: int)
    requires
        0 <= d < 10,
    ensures
        is_ascii_digit_spec(digit_char(d)),
        digit_char(d) as int - '0' as int == d,
{
}

/// Decimal digits read back as the number they render.
pub proof fn lemma_nat_decimal_value(n: nat)
    ensures
        nat_decimal(n).len() > 0,
        all_digits(nat_decimal(n)),
        digits_value(nat_decimal(n)) == n,
    decreases n,
{
    if n < 10 {
        lemma_digit_char(n as int);
        let s = nat_decimal(n);
        assert(s.drop_last() =~= Seq::<char>::empty());
        assert(digits_value(s.drop_last()) == 0);
        assert(digits_value(s) == digits_value(s.drop_last()) * 10 + (s.last() as int - '0' as int));
    } else {
        lemma_nat_decimal_value(n / 10);
        lemma_digit_char((n % 10) as int);
        let s = nat_decimal(n);
        assert(s.drop_last() =~= nat_decimal(n / 10));
        assert(s.last() == digit_char((n % 10) as int));
        assert forall|k: int| 0 <= k < s.len() implies is_ascii_digit_spec(#[trigger] s[k]) by {
            if k < s.len() - 1 {
                assert(s[k] == nat_decimal(n / 10)[k]);
            }
        }
        assert((n / 10) * 10 + n % 10 == n) by (nonlinear_arith);
        assert(digits_value(s) == digits_value(s.drop_last()) * 10 + (s.last() as int - '0' as int));
    }
}

/// A rendered integer parses back to itself.
pub proof fn lemma_parse_int_decimal(v: i64)
    ensures
        parse_i64_spec(int_decimal(v as int)) == Some(v),
        int_decimal(v as int).len() > 0,
        forall|k: int| 0 <= k < int_decimal(v as int).len() ==> is_ascii_digit_spec(#[trigger] int_decimal(v as int)[k]) || int_decimal(v as int)[k] == '-',
{
    let s = int_decimal(v as int);
    if v < 0 {
        let m = (-(v as int)) as nat;
        lemma_nat_decimal_value(m);
        assert(s.skip(1) =~= nat_decimal(m));
        assert forall|k: int| 0 <= k < s.len() implies is_ascii_digit_spec(#[trigger] s[k]) || s[k] == '-' by {
            if k > 0 {
                assert(s[k] == nat_decimal(m)[k - 1]);
            }
        }
    } else {
        lemma_nat_decimal_value(v as nat);
        assert(is_ascii_digit_spec(s[0]));
    }
}

proof fn lemma_digits_value_nonneg(ds: Seq<char>)
    requires
        all_digits(ds),
    ensures
        digits_value(ds) >= 0,
    decreases ds.len(),
{
    if ds.len() > 0 {
        assert(all_digits(ds.drop_last()));
        lemma_digits_value_nonneg(ds.drop_last());
        assert(is_ascii_digit_spec(ds[ds.len() - 1]));
    }
}

proof fn lemma_digits_value_monotone(ds: Seq<char>, i: int)
    requires
        all_digits(ds),
        0 <= i <= ds.len(),
    ensures
        digits_value(ds.take(i)) <= digits_value(ds),
    decreases ds.len() - i,
{
    if i < ds.len() {
        lemma_digits_value_monotone(ds, i + 1);
        let t = ds.take(i + 1);
        assert(t.drop_last() =~= ds.take(i));
        assert(all_digits(ds.take(i)));
        lemma_digits_value_nonneg(ds.take(i));
        assert(is_ascii_digit_spec(ds[i]));
    } else {
        assert(ds.take(i) =~= ds);
    }
}

/// Parses a decimal `i64` as `str::parse::<i64>` does.
pub fn parse_i64(s: &str) -> (r: Option<i64>)
    ensures
        r == parse_i64_spec(s@),
{
    let cs = chars_of(s);
    let n = cs.len();
    let neg = n > 0 && cs[0] == '-';
    let signed = n > 0 && (cs[0] == '-' || cs[0] == '+');
    let start: usize = if signed { 1 } else { 0 };
    let ghost ds = if signed { s@.skip(1) } else { s@ };
    if start >= n {
        assert(ds.len() == 0);
        return None;
    }
    // Accumulate the magnitude as a negative number so i64::MIN fits.
    assert(s@.skip(0) =~= s@);
    let mut acc: i128 = 0;
    let mut i: usize = start;
    while i < n
        invariant
            cs@ == s@,
            n == cs@.len(),
            start <= i <= n,
            signed == (s@.len() > 0 && (s@[0] == '-' || s@[0] == '+')),
            neg == (s@.len() > 0 && s@[0] == '-'),
            ds == (if signed { s@.skip(1) } else { s@ }),
            ds == s@.skip(start as int),
            all_digits(ds.take(i - start)),
            acc == digits_value(ds.take(i - start)),
            0 <= acc <= 9223372036854775808,
        decreases n - i,
    {
        let c = cs[i];
        if !is_ascii_digit(c) {
            assert(ds[i - start] == c);
            assert(!is_ascii_digit_spec(ds[i - start]));
            assert(!all_digits(ds));
            assert(parse_i64_spec(s@) == None::<i64>);
            return None;
        }
        let d = (c as u32 - '0' as u32) as i128;
        let next = acc * 10 + d;
        proof {
            let t = ds.take(i + 1 - start);
            assert(t.drop_last() =~= ds.take(i - start));
            assert(t.last() == c);
            assert(all_digits(t));
        }
        if next > 9223372036854775808 {
            proof {
                if all_digits(ds) {
                    lemma_digits_value_monotone(ds, i + 1 - start);
                }
            }
            return None;
        }
        acc = next;
        i = i + 1;
    }
    assert(ds.take(n - start) =~= ds);
    assert(all_digits(ds));
    assert(digits_value(ds) == acc);
    assert(ds.len() > 0);
    assert(neg == (s@.len() > 0 && s@[0] == '-'));
    if neg {
        Some((-acc) as i64)
    } else if acc <= 9223372036854775807 {
        Some(acc as i64)
    } else {
        None
    }
}

} // verus!

verus! {

/// Lexicographic order on character sequences (the order of `str`/`String`).
pub open spec fn seq_less(a: Seq<char>, b: Seq<char>) -> bool
    decreases a.len(),
{
    if a.len() == 0 {
        b.len() > 0
    } else if b.len() == 0 {
        false
    } else if a[0] != b[0] {
        (a[0] as u32) < (b[0] as u32)
    } else {
        seq_less(a.drop_first(), b.drop_first())
    }
}

proof fn lemma_seq_less_skip(a: Seq<char>, b: Seq<char>, i: int)
    requires
        0 <= i <= a.len(),
        i <= b.len(),
        forall|j: int| 0 <= j < i ==> a[j] == b[j],
    ensures
        seq_less(a, b) == seq_less(a.skip(i), b.skip(i)),
    decreases i,
{
    if i > 0 {
        assert(a.drop_first().skip(i - 1) =~= a.skip(i));
        assert(b.drop_first().skip(i - 1) =~= b.skip(i));
        lemma_seq_less_skip(a.drop_first(), b.drop_first(), i - 1);
    } else {
        assert(a.skip(0) =~= a);
        assert(b.skip(0) =~= b);
    }
}

/// Whether `a` sorts strictly before `b`.
pub fn str_less(a: &str, b: &str) -> (r: bool)
    ensures
        r == seq_less(a@, b@),
{
    let ca = chars_of(a);
    let cb = chars_of(b);
    let mut i: usize = 0;
    while i < ca.len() && i < cb.len() && ca[i] == cb[i]
        invariant
            ca@ == a@,
            cb@ == b@,
            i <= ca@.len(),
            i <= cb@.len(),
            forall|j: int| 0 <= j < i ==> ca@[j] == cb@[j],
        decreases ca@.len() - i,
    {
        i = i + 1;
    }
    proof {
        lemma_seq_less_skip(a@, b@, i as int);
    }
    if i == ca.len() {
        i < cb.len()
    } else if i == cb.len() {
        false
    } else {
        (ca[i] as u32) < (cb[i] as u32)
    }
}

} // verus!
