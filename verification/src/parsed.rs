//! Parsed font faces and the calls into `ttf_parser` and `rustybuzz`.
//!
//! A face is identified by the font data and the face index it was parsed
//! with. What the parsers compute from them is named by the uninterpreted
//! functions below, and the trusted wrappers of this module are stated over
//! those names. A `FontFace` is made only by `parse_face`, here, so the
//! parsed face it holds is always the one of its data and index.
use vstd::prelude::*;
use crate::text::byte_start;

verus! {

#[verifier::external_type_specification]
#[verifier::external_body]
pub struct ExParsedFace<'a>(ttf_parser::Face<'a>);

/// Whether `ttf_parser` parses face `index` of `data`.
pub uninterp spec fn face_parses(data: Seq<u8>, index: u32) -> bool;

/// The glyph that the cmap of face `index` of `data` maps the code point of
/// `c` itself to (no case folding or other substitution).
pub uninterp spec fn glyph_index_of(data: Seq<u8>, index: u32, c: char) -> Option<u16>;

/// The horizontal advance of `glyph` in face `index` of `data`, in font units.
pub uninterp spec fn hor_advance_of(data: Seq<u8>, index: u32, glyph: u16) -> Option<u16>;

/// The bounding box of `glyph` in face `index` of `data`, in font units.
pub uninterp spec fn bounding_box_of(data: Seq<u8>, index: u32, glyph: u16) -> Option<GlyphRect>;

/// The units per em of face `index` of `data`.
pub uninterp spec fn units_per_em_of(data: Seq<u8>, index: u32) -> u16;

/// The glyph run that `rustybuzz` shapes `text` into with face `index` of
/// `data`, no features and the segment properties guessed from the text.
pub uninterp spec fn shaped_run(data: Seq<u8>, index: u32, text: Seq<char>) -> Seq<ShapedGlyph>;

/// A glyph bounding box in font units.
#[derive(Clone, Copy, Debug, PartialEq, Eq, Structural)]
pub struct GlyphRect {
    pub x_min: i16,
    pub y_min: i16,
    pub x_max: i16,
    pub y_max: i16,
}

/// One shaped glyph: its id, the byte offset in the text of the cluster it
/// belongs to, and its advances and offsets in font units.
#[derive(Clone, Copy, Debug, PartialEq, Eq, Structural)]
pub struct ShapedGlyph {
    pub glyph_id: u32,
    pub cluster: u32,
    pub x_advance: i32,
    pub y_advance: i32,
    pub x_offset: i32,
    pub y_offset: i32,
}

/// Every glyph's cluster is the UTF-8 byte offset at which some character of
/// `text` starts.
pub open spec fn clusters_start_characters(run: Seq<ShapedGlyph>, text: Seq<char>) -> bool {
    forall|i: int|
        0 <= i < run.len() ==> exists|k: int|
            0 <= k < text.len() && #[trigger] byte_start(text, k) == (#[trigger] run[i]).cluster
}

/// A face parsed by `ttf_parser`, with the data and index it was parsed from.
pub struct FontFace<'a> {
    face: ttf_parser::Face<'a>,
    data: &'a [u8],
    index: u32,
}

impl<'a> View for FontFace<'a> {
    type V = (Seq<u8>, u32);

    /// The font data and the index of the face.
    closed spec fn view(&self) -> (Seq<u8>, u32) {
        (self.data@, self.index)
    }
}

impl<'a> FontFace<'a> {
    /// The `ttf_parser` face itself.
    pub closed spec fn parsed(&self) -> ttf_parser::Face<'a> {
        self.face
    }

    /// The `ttf_parser` face, parsed from face `self@.1` of `self@.0`; for
    /// outline extraction.
    pub fn ttf_face(&self) -> (r: &ttf_parser::Face<'a>)
        ensures
            *r == self.parsed(),
    {
        &self.face
    }
}

/// Parses face `index` of `data` with `ttf_parser::Face::parse`. Succeeds
/// exactly when the name `face_parses` says so; the face remembers its source.
#[verifier::external_body]
pub(crate) fn parse_face<'a>(data: &'a [u8], index: u32) -> (r: Option<FontFace<'a>>)
    ensures
        r is Some <==> face_parses(data@, index),
        r matches Some(f) ==> f@ == (data@, index),
{
    match ttf_parser::Face::parse(data, index) {
        Ok(face) => Some(FontFace { face, data, index }),
        Err(_) => None,
    }
}

/// `ttf_parser::Face::glyph_index` on `c` itself: the glyph its cmap maps
/// the character to, by its id.
#[verifier::external_body]
pub(crate) fn face_glyph_index(face: &FontFace, c: char) -> (r: Option<u16>)
    ensures
        r == glyph_index_of(face@.0, face@.1, c),
{
    face.face.glyph_index(c).map(|g| g.0)
}

/// `ttf_parser::Face::glyph_hor_advance`: a glyph's horizontal advance.
#[verifier::external_body]
pub(crate) fn face_hor_advance(face: &FontFace, glyph: u16) -> (r: Option<u16>)
    ensures
        r == hor_advance_of(face@.0, face@.1, glyph),
{
    face.face.glyph_hor_advance(ttf_parser::GlyphId(glyph))
}

/// `ttf_parser::Face::glyph_bounding_box`: a glyph's bounding box.
#[verifier::external_body]
pub(crate) fn face_bounding_box(face: &FontFace, glyph: u16) -> (r: Option<GlyphRect>)
    ensures
        r == bounding_box_of(face@.0, face@.1, glyph),
{
    match face.face.glyph_bounding_box(ttf_parser::GlyphId(glyph)) {
        Some(b) => Some(GlyphRect { x_min: b.x_min, y_min: b.y_min, x_max: b.x_max, y_max: b.y_max }),
        None => None,
    }
}

/// `ttf_parser::Face::units_per_em`, which its documentation guarantees to lie
/// in `16..=16384`.
#[verifier::external_body]
pub(crate) fn face_units_per_em(face: &FontFace) -> (r: u16)
    ensures
        r == units_per_em_of(face@.0, face@.1),
        16 <= r <= 16384,
{
    face.face.units_per_em()
}

/// `rustybuzz::shape` with no features, on the `rustybuzz::Face` built from
/// this parsed face and a `rustybuzz::UnicodeBuffer` holding `text` with its
/// segment properties guessed; the glyph infos and positions are paired up.
/// Glyph ids are at most `u16::MAX`, and each glyph's cluster is "an index to
/// the start of the grapheme cluster in the original string", as `rustybuzz`
/// documents; `push_str` numbers the characters by their UTF-8 byte offsets
/// (`char_indices`), so a cluster is the byte offset at which a character of
/// the text starts. `rustybuzz`
/// does not document that shaping never panics: its internal assertions on
/// malformed fonts are not ruled out here.
#[verifier::external_body]
pub(crate) fn shape_run(face: &FontFace, text: &str) -> (r: Vec<ShapedGlyph>)
    ensures
        r@ == shaped_run(face@.0, face@.1, text@),
        forall|i: int| 0 <= i < r.len() ==> #[trigger] r@[i].glyph_id <= u16::MAX,
        clusters_start_characters(r@, text@),
{
    let shaper = rustybuzz::Face::from_face(face.face.clone());
    let mut buffer = rustybuzz::UnicodeBuffer::new();
    buffer.push_str(text);
    buffer.guess_segment_properties();
    let run = rustybuzz::shape(&shaper, &[], buffer);
    run.glyph_infos().iter().zip(run.glyph_positions().iter()).map(|(i, p)| ShapedGlyph {
        glyph_id: i.glyph_id,
        cluster: i.cluster,
        x_advance: p.x_advance,
        y_advance: p.y_advance,
        x_offset: p.x_offset,
        y_offset: p.y_offset,
    }).collect()
}

} // verus!
