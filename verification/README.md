# slug

Glyph preparation for Slug-style GPU text rendering, verified with Verus.

`src/` is the verified library:

- `detect` — font-file magic numbers: single TrueType / CFF fonts and collections.
- `text` — mapping UTF-8 byte offsets (shaping clusters) back to characters.
- `parsed` — parsed faces and the trusted wrappers around `ttf-parser` and
  `rustybuzz` (parsing, glyph queries, shaping).
- `face` — probing the faces of a collection, loading a face, glyph queries and
  shaping, verified over those wrappers.
- `bands` — band count, sorting curves into bands, and the integer layout of the
  band and curve textures, with the proof that every band header leads the
  shader to exactly that band's curves.
- `pack` — bit packing of glyph data into vertex attributes.

`app/` holds the floating-point parts (outline extraction, bounding boxes, band
boundaries, vertex positions) and a command-line demo that prints the shaping,
band and vertex data of a text for the fonts given on the command line.
