//! Loading font faces and probing the faces of a collection.
//!
//! The contracts here are stated over the names of `crate::parsed` for what
//! `ttf_parser` and `rustybuzz` compute from a face's data and index.
use vstd::prelude::*;
use crate::detect::{starts_with_magic, collection_magic};
use crate::text::{byte_start, char_covering, lemma_char_covering_matches_encoding, lemma_byte_start_is_encoded_prefix_length};
use crate::parsed::{
    FontFace, GlyphRect, ShapedGlyph, face_parses, glyph_index_of, hor_advance_of, bounding_box_of,
    units_per_em_of, shaped_run, parse_face, face_glyph_index, face_hor_advance, face_bounding_box,
    face_units_per_em, shape_run, clusters_start_characters,
};

verus! {

/// `Vec::leak`: the bytes, kept alive for the rest of the program.
#[verifier::external_body]
fn leak_font_bytes(bytes: Vec<u8>) -> (r: &'static [u8])
    ensures
        r@ == bytes@,
{
    bytes.leak()
}

/// Big-endian `u32` at offset `at` of `data`.
pub open spec fn be_u32_at(data: Seq<u8>, at: int) -> int {
    data[at] * 0x1000000 + data[at + 1] * 0x10000 + data[at + 2] * 0x100 + data[at + 3]
}

/// What `ttf_parser::fonts_in_collection` returns: for data that opens with
/// the collection tag and holds a 12-byte header, the face count stored
/// big-endian at offset 8; otherwise `None`.
pub open spec fn collection_size(data: Seq<u8>) -> Option<u32> {
    if starts_with_magic(data, collection_magic()) && data.len() >= 12 {
        Some(be_u32_at(data, 8) as u32)
    } else {
        None
    }
}

/// `ttf_parser::fonts_in_collection`: the number of faces in a collection, or
/// `None` when the data is not a collection.
#[verifier::external_body]
pub fn fonts_in_collection(data: &[u8]) -> (r: Option<u32>)
    ensures
        r == collection_size(data@),
{
    ttf_parser::fonts_in_collection(data)
}

/// Loads a font face, answers glyph queries on it and shapes text with it.
/// The font bytes are leaked so that the face can borrow them for the rest of
/// the program.
pub struct FontLoader {
    data: &'static [u8],
    font: FontFace<'static>,
    units_per_em: u16,
}

impl View for FontLoader {
    type V = (Seq<u8>, u32);

    /// The font data and the index of the loaded face.
    closed spec fn view(&self) -> (Seq<u8>, u32) {
        self.font@
    }
}

impl FontLoader {
    #[verifier::type_invariant]
    spec fn wf(self) -> bool {
        &&& self.data@ == self.font@.0
        &&& self.units_per_em == units_per_em_of(self.font@.0, self.font@.1)
        &&& 16 <= self.units_per_em <= 16384
    }

    /// Load a font from bytes (face 0). For collections, use
    /// [`FontLoader::from_bytes_with_index`] with the correct face index.
    pub fn from_bytes(bytes: Vec<u8>) -> (r: Result<Self, String>)
        ensures
            r is Ok <==> face_parses(bytes@, 0),
            r matches Ok(l) ==> l@ == (bytes@, 0u32),
            r matches Err(e) ==> e@ == "Failed to parse font"@,
    {
        Self::from_bytes_with_index(bytes, 0)
    }

    /// Load a font from bytes with a specific face index (for collections).
    /// Fails with "Failed to parse font" when the face does not parse.
    pub fn from_bytes_with_index(bytes: Vec<u8>, face_index: u32) -> (r: Result<Self, String>)
        ensures
            r is Ok <==> face_parses(bytes@, face_index),
            r matches Ok(l) ==> l@ == (bytes@, face_index),
            r matches Err(e) ==> e@ == "Failed to parse font"@,
    {
        let leaked = leak_font_bytes(bytes);
        match parse_face(leaked, face_index) {
            Some(font) => {
                let units_per_em = face_units_per_em(&font);
                Ok(FontLoader { data: leaked, font, units_per_em })
            },
            None => Err(String::from_str("Failed to parse font")),
        }
    }

    /// The loaded face: the face parsed from the loader's data at its face
    /// index.
    pub fn face(&self) -> (r: &FontFace<'static>)
        ensures
            r@ == self@,
    {
        &self.font
    }

    /// The glyph id of a character, if the face maps it.
    pub fn glyph_index(&self, c: char) -> (r: Option<u16>)
        ensures
            r == glyph_index_of(self@.0, self@.1, c),
    {
        face_glyph_index(&self.font, c)
    }

    /// Advance width of a glyph in font units.
    pub fn advance_width(&self, glyph_id: u16) -> (r: Option<u16>)
        ensures
            r == hor_advance_of(self@.0, self@.1, glyph_id),
    {
        face_hor_advance(&self.font, glyph_id)
    }

    /// Bounding box of a glyph in font units.
    pub fn glyph_bounds(&self, glyph_id: u16) -> (r: Option<GlyphRect>)
        ensures
            r == bounding_box_of(self@.0, self@.1, glyph_id),
    {
        face_bounding_box(&self.font, glyph_id)
    }

    /// Units per em of the face.
    pub fn units_per_em(&self) -> (r: u16)
        ensures
            r == units_per_em_of(self@.0, self@.1),
            16 <= r <= 16384,
    {
        proof {
            use_type_invariant(self);
        }
        self.units_per_em
    }

    /// Shapes `text` with this face: the glyph run in visual order, with
    /// advances and offsets in font units.
    pub fn shape(&self, text: &str) -> (r: Vec<ShapedGlyph>)
        ensures
            r@ == shaped_run(self@.0, self@.1, text@),
            forall|i: int| 0 <= i < r.len() ==> #[trigger] r@[i].glyph_id <= u16::MAX,
            clusters_start_characters(r@, text@),
    {
        shape_run(&self.font, text)
    }
}

/// Lowest advance of 'l' taken as sane, in font units: a face read with the
/// wrong metrics offsets yields the left side bearing (about 36) instead.
pub const SANE_ADVANCE_MIN: u16 = 50;

/// Highest advance of 'l' taken as sane, in font units: garbage reads give
/// values such as 65535.
pub const SANE_ADVANCE_MAX: u16 = 2000;

/// Face `index` of `data` parses, maps 'l' to a glyph, and that glyph's
/// advance lies in `SANE_ADVANCE_MIN..=SANE_ADVANCE_MAX`.
pub open spec fn has_sane_latin_advance(data: Seq<u8>, index: u32) -> bool {
    &&& face_parses(data, index)
    &&& glyph_index_of(data, index, 'l') matches Some(g)
    &&& hor_advance_of(data, index, g) matches Some(adv)
    &&& SANE_ADVANCE_MIN <= adv <= SANE_ADVANCE_MAX
}

/// `index` is the first face of the collection with a sane Latin advance.
pub open spec fn is_first_sane_face(data: Seq<u8>, num_faces: u32, index: u32) -> bool {
    &&& index < num_faces
    &&& has_sane_latin_advance(data, index)
    &&& forall|j: u32| j < index ==> !has_sane_latin_advance(data, j)
}

/// The face that `pick_ttc_face_index` picks: the first face with a sane
/// Latin advance; failing that, face 2 when there are at least three
/// faces (where CJK collections often keep Simplified Chinese), else face 0.
pub open spec fn picked_face(data: Seq<u8>, num_faces: u32) -> u32 {
    if exists|i: u32| is_first_sane_face(data, num_faces, i) {
        choose|i: u32| is_first_sane_face(data, num_faces, i)
    } else if num_faces >= 3 {
        2
    } else {
        0
    }
}

/// Pick the best face index of a collection by probing metrics. When the
/// metrics table is read at the wrong offsets (for instance with the wrong
/// face index), the advance of 'l' comes out as its side bearing or as
/// garbage; this probes each face and returns the first whose advance for
/// 'l' is sane.
pub fn pick_ttc_face_index(bytes: &[u8], num_faces: u32) -> (r: u32)
    ensures
        r == picked_face(bytes@, num_faces),
        (exists|i: u32| is_first_sane_face(bytes@, num_faces, i)) ==> is_first_sane_face(bytes@, num_faces, r),
{
    let mut i: u32 = 0;
    while i < num_faces
        invariant
            i <= num_faces,
            forall|j: u32| j < i ==> !has_sane_latin_advance(bytes@, j),
        decreases num_faces - i,
    {
        if let Some(face) = parse_face(bytes, i) {
            if let Some(gid) = face_glyph_index(&face, 'l') {
                if let Some(adv) = face_hor_advance(&face, gid) {
                    if SANE_ADVANCE_MIN <= adv && adv <= SANE_ADVANCE_MAX {
                        proof {
                            assert(is_first_sane_face(bytes@, num_faces, i));
                            lemma_first_sane_face_unique(bytes@, num_faces, i);
                        }
                        return i;
                    }
                }
            }
        }
        i = i + 1;
    }
    proof {
        assert forall|k: u32| !is_first_sane_face(bytes@, num_faces, k) by {
            if k < num_faces {
                assert(!has_sane_latin_advance(bytes@, k));
            }
        }
    }
    // Heuristic fallback: Simplified Chinese is often face 2 of a CJK collection
    if num_faces >= 3 {
        2
    } else {
        0
    }
}

proof fn lemma_first_sane_face_unique(data: Seq<u8>, num_faces: u32, i: u32)
    requires
        is_first_sane_face(data, num_faces, i),
    ensures
        picked_face(data, num_faces) == i,
{
    let c = choose|k: u32| is_first_sane_face(data, num_faces, k);
    assert(is_first_sane_face(data, num_faces, c));
    if c < i {
        assert(!has_sane_latin_advance(data, c));
    } else if i < c {
        assert(!has_sane_latin_advance(data, i));
    }
}

/// The face of the font data to load: for a collection of more than one face,
/// the face that `pick_ttc_face_index` picks; otherwise face 0.
pub open spec fn chosen_face(data: Seq<u8>) -> u32 {
    match collection_size(data) {
        Some(n) => if n > 1 {
            picked_face(data, n)
        } else {
            0
        },
        None => 0,
    }
}

/// Chooses the face index to load from font data: probes the faces of a
/// collection of several faces, and takes face 0 otherwise.
pub fn face_index_for(bytes: &[u8]) -> (r: u32)
    ensures
        r == chosen_face(bytes@),
{
    match fonts_in_collection(bytes) {
        Some(n) if n > 1 => pick_ttc_face_index(bytes, n),
        _ => 0,
    }
}

/// Data that `fonts_in_collection` counts faces in is data that
/// `is_font_collection` recognizes as a collection.
pub proof fn lemma_counted_collections_are_collections(data: Seq<u8>)
    ensures
        collection_size(data) is Some ==> starts_with_magic(data, collection_magic()),
{
}

/// The picked face is always a face of the collection: whenever the
/// collection has a face at all, the picked index is below the face count.
pub proof fn lemma_picked_face_in_range(data: Seq<u8>, num_faces: u32)
    requires
        num_faces >= 1,
    ensures
        picked_face(data, num_faces) < num_faces,
{
    if exists|i: u32| is_first_sane_face(data, num_faces, i) {
        let c = choose|i: u32| is_first_sane_face(data, num_faces, i);
        assert(is_first_sane_face(data, num_faces, c));
    }
}

/// The face chosen for loading is a face of the data: face 0, or a face below
/// the collection's face count.
pub proof fn lemma_chosen_face_in_range(data: Seq<u8>)
    ensures
        chosen_face(data) == 0 || (collection_size(data) matches Some(n) && chosen_face(data) < n),
{
    if let Some(n) = collection_size(data) {
        if n > 1 {
            lemma_picked_face_in_range(data, n);
        }
    }
}

/// Each glyph of a shaped run names a character of the text: its cluster is
/// the length of the UTF-8 encoding of the characters before some character
/// `text[k]`, and `char_at_byte_offset(text, cluster)` gives that character.
pub proof fn lemma_shaped_clusters_name_characters(text: Seq<char>, run: Seq<ShapedGlyph>)
    requires
        clusters_start_characters(run, text),
    ensures
        forall|i: int|
            0 <= i < run.len() ==> exists|k: int|
                0 <= k < text.len() && vstd::utf8::encode_utf8(text.take(k)).len() == (#[trigger] run[i]).cluster
                    && char_covering(text, run[i].cluster as int) == Some(text[k]),
{
    assert forall|i: int| 0 <= i < run.len() implies exists|k: int|
        0 <= k < text.len() && vstd::utf8::encode_utf8(text.take(k)).len() == (#[trigger] run[i]).cluster
            && char_covering(text, run[i].cluster as int) == Some(text[k]) by {
        let k = choose|k: int| 0 <= k < text.len() && #[trigger] byte_start(text, k) == run[i].cluster;
        lemma_byte_start_is_encoded_prefix_length(text, k);
        lemma_char_covering_matches_encoding(text, k, run[i].cluster as int);
        crate::text::lemma_utf8_width_is_encoding_length(text[k]);
    }
}

} // verus!
