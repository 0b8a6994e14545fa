//! File signature ("magic number") detection from a leading byte slice, and
//! the coarse MIME class that picks a content renderer.

use vstd::prelude::*;

verus! {

/// A coarse classification of a file by its leading bytes.
#[derive(Debug, Clone, Copy, PartialEq, Eq, Structural)]
pub enum Signature {
    Png,
    Jpeg,
    Gif,
    Pdf,
    Gzip,
    Zip,
    Bzip2,
    Xz,
    Zstd,
    Tar,
    Elf,
    Unknown,
}

impl Signature {
    /// True when this signature denotes an archive or compressed container.
    pub fn is_archive(self) -> (r: bool)
        ensures
            r == (self is Gzip || self is Zip || self is Bzip2 || self is Xz || self is Zstd || self is Tar),
    {
        match self {
            Signature::Gzip | Signature::Zip | Signature::Bzip2 | Signature::Xz | Signature::Zstd | Signature::Tar => true,
            _ => false,
        }
    }

    /// True when this signature denotes a raster image.
    pub fn is_image(self) -> (r: bool)
        ensures
            r == (self is Png || self is Jpeg || self is Gif),
    {
        match self {
            Signature::Png | Signature::Jpeg | Signature::Gif => true,
            _ => false,
        }
    }
}

/// `head` begins with `sig`.
pub open spec fn starts(head: Seq<u8>, sig: Seq<u8>) -> bool {
    head.len() >= sig.len() && head.take(sig.len() as int) == sig
}

/// The signature the leading bytes show, in this order of tests.
pub open spec fn signature_spec(head: Seq<u8>) -> Signature {
    if starts(head, seq![0x89u8, 0x50, 0x4E, 0x47]) {
        Signature::Png
    } else if starts(head, seq![0xFFu8, 0xD8, 0xFF]) {
        Signature::Jpeg
    } else if starts(head, seq![0x47u8, 0x49, 0x46, 0x38]) {
        Signature::Gif
    } else if starts(head, seq![0x25u8, 0x50, 0x44, 0x46]) {
        Signature::Pdf
    } else if starts(head, seq![0x1Fu8, 0x8B]) {
        Signature::Gzip
    } else if starts(head, seq![0x50u8, 0x4B, 0x03, 0x04]) || starts(head, seq![0x50u8, 0x4B, 0x05, 0x06]) {
        Signature::Zip
    } else if starts(head, seq![0x42u8, 0x5A, 0x68]) {
        Signature::Bzip2
    } else if starts(head, seq![0xFDu8, 0x37, 0x7A, 0x58, 0x5A, 0x00]) {
        Signature::Xz
    } else if starts(head, seq![0x28u8, 0xB5, 0x2F, 0xFD]) {
        Signature::Zstd
    } else if starts(head, seq![0x7Fu8, 0x45, 0x4C, 0x46]) {
        Signature::Elf
    } else if head.len() >= 262 && head.subrange(257, 262) == seq![0x75u8, 0x73, 0x74, 0x61, 0x72] {
        Signature::Tar
    } else {
        Signature::Unknown
    }
}

fn starts_with(head: &[u8], sig: &[u8]) -> (r: bool)
    ensures
        r == starts(head@, sig@),
{
    if head.len() < sig.len() {
        return false;
    }
    let mut i: usize = 0;
    while i < sig.len()
        invariant
            i <= sig@.len() <= head@.len(),
            forall|j: int| 0 <= j < i ==> head@[j] == sig@[j],
        decreases sig@.len() - i,
    {
        if head[i] != sig[i] {
            assert(head@.take(sig@.len() as int)[i as int] != sig@[i as int]);
            return false;
        }
        i = i + 1;
    }
    assert(head@.take(sig@.len() as int) =~= sig@);
    true
}

fn ustar_at(head: &[u8]) -> (r: bool)
    ensures
        r == (head@.len() >= 262 && head@.subrange(257, 262) == seq![0x75u8, 0x73, 0x74, 0x61, 0x72]),
{
    if head.len() < 262 {
        return false;
    }
    let r = head[257] == 0x75 && head[258] == 0x73 && head[259] == 0x74 && head[260] == 0x61 && head[261] == 0x72;
    if r {
        assert(head@.subrange(257, 262) =~= seq![0x75u8, 0x73, 0x74, 0x61, 0x72]);
    } else {
        assert(head@.subrange(257, 262) != seq![0x75u8, 0x73, 0x74, 0x61, 0x72]) by {
            let s = head@.subrange(257, 262);
            assert(s[0] == head@[257] && s[1] == head@[258] && s[2] == head@[259] && s[3] == head@[260] && s[4] == head@[261]);
        }
    }
    r
}

/// Detect a signature from the head of a file's contents.
pub fn detect_signature(head: &[u8]) -> (r: Signature)
    ensures
        r == signature_spec(head@),
{
    let png: [u8; 4] = [0x89, 0x50, 0x4E, 0x47];
    let jpeg: [u8; 3] = [0xFF, 0xD8, 0xFF];
    let gif: [u8; 4] = [0x47, 0x49, 0x46, 0x38];
    let pdf: [u8; 4] = [0x25, 0x50, 0x44, 0x46];
    let gz: [u8; 2] = [0x1F, 0x8B];
    let zip1: [u8; 4] = [0x50, 0x4B, 0x03, 0x04];
    let zip2: [u8; 4] = [0x50, 0x4B, 0x05, 0x06];
    let bz: [u8; 3] = [0x42, 0x5A, 0x68];
    let xz: [u8; 6] = [0xFD, 0x37, 0x7A, 0x58, 0x5A, 0x00];
    let zst: [u8; 4] = [0x28, 0xB5, 0x2F, 0xFD];
    let elf: [u8; 4] = [0x7F, 0x45, 0x4C, 0x46];
    assert(png@ =~= seq![0x89u8, 0x50, 0x4E, 0x47]);
    assert(jpeg@ =~= seq![0xFFu8, 0xD8, 0xFF]);
    assert(gif@ =~= seq![0x47u8, 0x49, 0x46, 0x38]);
    assert(pdf@ =~= seq![0x25u8, 0x50, 0x44, 0x46]);
    assert(gz@ =~= seq![0x1Fu8, 0x8B]);
    assert(zip1@ =~= seq![0x50u8, 0x4B, 0x03, 0x04]);
    assert(zip2@ =~= seq![0x50u8, 0x4B, 0x05, 0x06]);
    assert(bz@ =~= seq![0x42u8, 0x5A, 0x68]);
    assert(xz@ =~= seq![0xFDu8, 0x37, 0x7A, 0x58, 0x5A, 0x00]);
    assert(zst@ =~= seq![0x28u8, 0xB5, 0x2F, 0xFD]);
    assert(elf@ =~= seq![0x7Fu8, 0x45, 0x4C, 0x46]);
    if starts_with(head, png.as_slice()) {
        Signature::Png
    } else if starts_with(head, jpeg.as_slice()) {
        Signature::Jpeg
    } else if starts_with(head, gif.as_slice()) {
        Signature::Gif
    } else if starts_with(head, pdf.as_slice()) {
        Signature::Pdf
    } else if starts_with(head, gz.as_slice()) {
        Signature::Gzip
    } else if starts_with(head, zip1.as_slice()) || starts_with(head, zip2.as_slice()) {
        Signature::Zip
    } else if starts_with(head, bz.as_slice()) {
        Signature::Bzip2
    } else if starts_with(head, xz.as_slice()) {
        Signature::Xz
    } else if starts_with(head, zst.as_slice()) {
        Signature::Zstd
    } else if starts_with(head, elf.as_slice()) {
        Signature::Elf
    } else if ustar_at(head) {
        Signature::Tar
    } else {
        Signature::Unknown
    }
}

/// The renderer-relevant class of a file's content.
#[derive(Debug, Clone, Copy, PartialEq, Eq, Structural)]
pub enum MimeClass {
    Text,
    Image,
    Binary,
}

/// A control byte that marks content as binary (tab to carriage return are not).
pub open spec fn is_control(b: u8) -> bool {
    b < 0x09 || (0x0E <= b && b < 0x20)
}

/// How many of `head[0..n]` are control bytes.
pub open spec fn control_count(head: Seq<u8>, n: int) -> int
    decreases n,
{
    if n <= 0 { 0 } else { control_count(head, n - 1) + if is_control(head[n - 1]) { 1int } else { 0int } }
}

/// The class of content by its leading bytes: a known image signature is an
/// image; empty content is text; a NUL byte, or control bytes making up more
/// than 30 percent (by whole-number division), mark it binary; the rest is text.
pub open spec fn mime_spec(head: Seq<u8>) -> MimeClass {
    let sig = signature_spec(head);
    if sig is Png || sig is Jpeg || sig is Gif {
        MimeClass::Image
    } else if head.len() == 0 {
        MimeClass::Text
    } else if head.contains(0u8) {
        MimeClass::Binary
    } else if control_count(head, head.len() as int) * 100 / (head.len() as int) > 30 {
        MimeClass::Binary
    } else {
        MimeClass::Text
    }
}

proof fn lemma_control_bounded(head: Seq<u8>, n: int)
    requires
        0 <= n <= head.len(),
    ensures
        0 <= control_count(head, n) <= n,
    decreases n,
{
    if n > 0 {
        lemma_control_bounded(head, n - 1);
    }
}

/// Classify content from its leading bytes.
pub fn detect_mime(head: &[u8]) -> (r: MimeClass)
    requires
        head@.len() * 100 <= usize::MAX,
    ensures
        r == mime_spec(head@),
{
    if detect_signature(head).is_image() {
        return MimeClass::Image;
    }
    if head.len() == 0 {
        return MimeClass::Text;
    }
    let mut control: usize = 0;
    let mut i: usize = 0;
    while i < head.len()
        invariant
            i <= head@.len(),
            head@.len() * 100 <= usize::MAX,
            control == control_count(head@, i as int),
            forall|j: int| 0 <= j < i ==> head@[j] != 0u8,
            head@.len() > 0,
            !(signature_spec(head@) is Png || signature_spec(head@) is Jpeg || signature_spec(head@) is Gif),
        decreases head@.len() - i,
    {
        proof { lemma_control_bounded(head@, i as int); }
        let b = head[i];
        if b == 0 {
            assert(head@.contains(0u8));
            return MimeClass::Binary;
        }
        if b < 0x09 || (0x0E <= b && b < 0x20) {
            control = control + 1;
        }
        i = i + 1;
    }
    assert(!head@.contains(0u8));
    proof { lemma_control_bounded(head@, head@.len() as int); }
    if control * 100 / head.len() > 30 {
        MimeClass::Binary
    } else {
        MimeClass::Text
    }
}

/// Whether the leading bytes look like an archive container.
pub fn is_archive(head: &[u8]) -> (r: bool)
    ensures
        r == signature_spec(head@).is_archive_spec(),
{
    detect_signature(head).is_archive()
}

impl Signature {
    /// The archive and compressed-container signatures.
    pub open spec fn is_archive_spec(self) -> bool {
        self is Gzip || self is Zip || self is Bzip2 || self is Xz || self is Zstd || self is Tar
    }
}

/// The signature of the leading bytes.
pub fn signature_of(head: &[u8]) -> (r: Signature)
    ensures
        r == signature_spec(head@),
{
    detect_signature(head)
}

// --- permissions --------------------------------------------------------------

/// The file-type letter of a unix mode.
pub open spec fn file_type_spec(mode: u32) -> char {
    let t = mode & 0o170000u32;
    if t == 0o040000u32 { 'd' }
    else if t == 0o120000u32 { 'l' }
    else if t == 0o060000u32 { 'b' }
    else if t == 0o020000u32 { 'c' }
    else if t == 0o010000u32 { 'p' }
    else if t == 0o140000u32 { 's' }
    else { '-' }
}

/// The `rwx` triple of the three low bits of `bits`.
pub open spec fn rwx_spec(bits: u32) -> Seq<char> {
    seq![
        if bits & 4u32 != 0 { 'r' } else { '-' },
        if bits & 2u32 != 0 { 'w' } else { '-' },
        if bits & 1u32 != 0 { 'x' } else { '-' },
    ]
}

/// A unix mode as an `rwxr-xr-x`-style string with its file-type letter first.
pub open spec fn permissions_spec(mode: u32) -> Seq<char> {
    seq![file_type_spec(mode)] + rwx_spec((mode >> 6u32) & 7u32) + rwx_spec((mode >> 3u32) & 7u32) + rwx_spec(mode & 7u32)
}

fn file_type_char(mode: u32) -> (c: char)
    ensures
        c == file_type_spec(mode),
{
    let t = mode & 0o170000u32;
    if t == 0o040000u32 { 'd' }
    else if t == 0o120000u32 { 'l' }
    else if t == 0o060000u32 { 'b' }
    else if t == 0o020000u32 { 'c' }
    else if t == 0o010000u32 { 'p' }
    else if t == 0o140000u32 { 's' }
    else { '-' }
}

fn push_rwx(out: &mut String, bits: u32)
    ensures
        final(out)@ == old(out)@ + rwx_spec(bits),
{
    crate::text::push_char(out, if bits & 4u32 != 0 { 'r' } else { '-' });
    crate::text::push_char(out, if bits & 2u32 != 0 { 'w' } else { '-' });
    crate::text::push_char(out, if bits & 1u32 != 0 { 'x' } else { '-' });
    assert(out@ =~= old(out)@ + rwx_spec(bits));
}

/// Format a unix mode bitmask as an `rwxr-xr-x`-style permission string.
pub fn format_permissions(mode: u32) -> (r: String)
    ensures
        r@ == permissions_spec(mode),
{
    let mut out = String::new();
    crate::text::push_char(&mut out, file_type_char(mode));
    push_rwx(&mut out, (mode >> 6u32) & 7u32);
    push_rwx(&mut out, (mode >> 3u32) & 7u32);
    push_rwx(&mut out, mode & 7u32);
    assert(out@ =~= permissions_spec(mode));
    out
}


/// The permission string shows each of the nine permission bits in place:
/// the owner's read, write and execute bits (0o400, 0o200, 0o100) as
/// characters 1 to 3, the group's (0o040, 0o020, 0o010) as 4 to 6, and
/// everyone else's (0o004, 0o002, 0o001) as 7 to 9; a set bit shows its
/// letter, a clear one `-`.
pub proof fn law_permission_bits_in_place(mode: u32)
    ensures
        permissions_spec(mode).len() == 10,
        permissions_spec(mode)[0] == file_type_spec(mode),
        permissions_spec(mode)[1] == (if mode & 0o400u32 != 0 { 'r' } else { '-' }),
        permissions_spec(mode)[2] == (if mode & 0o200u32 != 0 { 'w' } else { '-' }),
        permissions_spec(mode)[3] == (if mode & 0o100u32 != 0 { 'x' } else { '-' }),
        permissions_spec(mode)[4] == (if mode & 0o040u32 != 0 { 'r' } else { '-' }),
        permissions_spec(mode)[5] == (if mode & 0o020u32 != 0 { 'w' } else { '-' }),
        permissions_spec(mode)[6] == (if mode & 0o010u32 != 0 { 'x' } else { '-' }),
        permissions_spec(mode)[7] == (if mode & 0o004u32 != 0 { 'r' } else { '-' }),
        permissions_spec(mode)[8] == (if mode & 0o002u32 != 0 { 'w' } else { '-' }),
        permissions_spec(mode)[9] == (if mode & 0o001u32 != 0 { 'x' } else { '-' }),
{
    assert((((mode >> 6u32) & 7u32) & 4u32 != 0) == (mode & 0o400u32 != 0)) by (bit_vector);
    assert((((mode >> 6u32) & 7u32) & 2u32 != 0) == (mode & 0o200u32 != 0)) by (bit_vector);
    assert((((mode >> 6u32) & 7u32) & 1u32 != 0) == (mode & 0o100u32 != 0)) by (bit_vector);
    assert((((mode >> 3u32) & 7u32) & 4u32 != 0) == (mode & 0o040u32 != 0)) by (bit_vector);
    assert((((mode >> 3u32) & 7u32) & 2u32 != 0) == (mode & 0o020u32 != 0)) by (bit_vector);
    assert((((mode >> 3u32) & 7u32) & 1u32 != 0) == (mode & 0o010u32 != 0)) by (bit_vector);
    assert(((mode & 7u32) & 4u32 != 0) == (mode & 0o004u32 != 0)) by (bit_vector);
    assert(((mode & 7u32) & 2u32 != 0) == (mode & 0o002u32 != 0)) by (bit_vector);
    assert(((mode & 7u32) & 1u32 != 0) == (mode & 0o001u32 != 0)) by (bit_vector);
}

} // verus!
