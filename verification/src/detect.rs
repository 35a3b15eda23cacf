//! Font-file magic-number detection.
//! Distinguishes single fonts from collections before any table is parsed.
use vstd::prelude::*;

verus! {

/// Font format identified by magic bytes.
#[derive(Debug, Clone, Copy, PartialEq, Eq, Structural)]
pub enum FontFormat {
    /// Single TrueType font (glyf outlines).
    Ttf,
    /// Single OpenType font with CFF/CFF2 outlines.
    Otf,
    /// TrueType Collection (multiple TrueType faces).
    Ttc,
    /// OpenType Collection (multiple CFF faces).
    Otc,
}

/// `ttcf`: the tag that opens a TrueType or OpenType collection.
pub open spec fn collection_magic() -> Seq<u8> {
    seq![0x74u8, 0x74u8, 0x63u8, 0x66u8]
}

/// `OTTO`: the tag that opens a single font with CFF outlines.
pub open spec fn cff_magic() -> Seq<u8> {
    seq![0x4Fu8, 0x54u8, 0x54u8, 0x4Fu8]
}

/// `00 01 00 00`: the version that opens a single TrueType font.
pub open spec fn truetype_magic() -> Seq<u8> {
    seq![0x00u8, 0x01u8, 0x00u8, 0x00u8]
}

/// The data begins with the four bytes `magic`.
pub open spec fn starts_with_magic(bytes: Seq<u8>, magic: Seq<u8>) -> bool {
    &&& bytes.len() >= 4
    &&& bytes.subrange(0, 4) == magic
}

/// The format that the first four bytes announce.
pub open spec fn format_of(bytes: Seq<u8>) -> Option<FontFormat> {
    if bytes.len() < 4 {
        None
    } else if starts_with_magic(bytes, collection_magic()) {
        Some(FontFormat::Ttc)
    } else if starts_with_magic(bytes, cff_magic()) {
        Some(FontFormat::Otf)
    } else if starts_with_magic(bytes, truetype_magic()) {
        Some(FontFormat::Ttf)
    } else {
        None
    }
}

/// Compares the first four bytes of `bytes` with `m0 m1 m2 m3`.
fn has_magic(bytes: &[u8], m0: u8, m1: u8, m2: u8, m3: u8) -> (res: bool)
    ensures
        res == starts_with_magic(bytes@, seq![m0, m1, m2, m3]),
{
    if bytes.len() < 4 {
        return false;
    }
    let res = bytes[0] == m0 && bytes[1] == m1 && bytes[2] == m2 && bytes[3] == m3;
    assert(res == (bytes@.subrange(0, 4) =~= seq![m0, m1, m2, m3]));
    res
}

/// Returns true if the bytes represent a font collection (TTC or OTC).
pub fn is_font_collection(bytes: &[u8]) -> (res: bool)
    ensures
        res == starts_with_magic(bytes@, collection_magic()),
{
    has_magic(bytes, 0x74, 0x74, 0x63, 0x66)
}

/// Identifies the font format from magic bytes.
/// Returns None if the data is too short or unrecognized. Both kinds of
/// collection share the `ttcf` tag, so a collection is reported as `Ttc`.
pub fn font_format(bytes: &[u8]) -> (res: Option<FontFormat>)
    ensures
        res == format_of(bytes@),
{
    if bytes.len() < 4 {
        return None;
    }
    if has_magic(bytes, 0x74, 0x74, 0x63, 0x66) {
        Some(FontFormat::Ttc)
    } else if has_magic(bytes, 0x4F, 0x54, 0x54, 0x4F) {
        Some(FontFormat::Otf)
    } else if has_magic(bytes, 0x00, 0x01, 0x00, 0x00) {
        Some(FontFormat::Ttf)
    } else {
        None
    }
}

/// A font is a collection exactly when its format is reported as `Ttc`.
pub proof fn lemma_collection_iff_ttc(bytes: Seq<u8>)
    ensures
        starts_with_magic(bytes, collection_magic()) <==> format_of(bytes) == Some(FontFormat::Ttc),
{
}

/// Detection never reports `Otc`: both kinds of collection are reported as `Ttc`.
pub proof fn lemma_never_otc(bytes: Seq<u8>)
    ensures
        format_of(bytes) != Some(FontFormat::Otc),
{
}

/// The format depends on the first four bytes alone: data after them never
/// changes the answer.
pub proof fn lemma_format_depends_on_magic(a: Seq<u8>, b: Seq<u8>)
    requires
        a.len() >= 4,
        b.len() >= 4,
        a.subrange(0, 4) == b.subrange(0, 4),
    ensures
        format_of(a) == format_of(b),
{
}

/// Data that carries one of the three known tags is always recognized, and
/// the three tags are told apart.
pub proof fn lemma_known_magics_recognized(bytes: Seq<u8>)
    ensures
        starts_with_magic(bytes, collection_magic()) ==> format_of(bytes) == Some(FontFormat::Ttc),
        starts_with_magic(bytes, cff_magic()) ==> format_of(bytes) == Some(FontFormat::Otf),
        starts_with_magic(bytes, truetype_magic()) ==> format_of(bytes) == Some(FontFormat::Ttf),
        format_of(bytes) is Some <==> (starts_with_magic(bytes, collection_magic())
            || starts_with_magic(bytes, cff_magic()) || starts_with_magic(bytes, truetype_magic())),
{
}

} // verus!
