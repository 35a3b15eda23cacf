//! Verified core of the Slug glyph renderer: font-file detection, face
//! probing and loading, text shaping, band-texture layout and vertex packing.
//! Floating-point work (outlines, bounding boxes, vertex positions) lives in
//! the application crate around this library.
pub mod detect;
pub mod text;
pub mod bands;
pub mod pack;
pub mod parsed;
pub mod face;

pub use detect::{is_font_collection, font_format, FontFormat};
pub use parsed::{FontFace, GlyphRect, ShapedGlyph};
pub use face::{FontLoader, pick_ttc_face_index, face_index_for, fonts_in_collection};
pub use bands::{
    BandLayout, band_count, curve_texture_height, pad_rows, sort_curves_into_bands, build_band_texture,
    layout_bands, layout_glyph_bands, BAND_TEXTURE_WIDTH, MAX_BANDS,
};
pub use pack::{pack_glyph_location, pack_band_max};
pub use text::char_at_byte_offset;
