use slug::{face_index_for, fonts_in_collection, pick_ttc_face_index, FontLoader, GlyphRect};

fn put16(v: &mut Vec<u8>, x: u16) {
    v.extend_from_slice(&x.to_be_bytes());
}

fn put32(v: &mut Vec<u8>, x: u32) {
    v.extend_from_slice(&x.to_be_bytes());
}

/// Tables of a two-glyph TrueType face (sorted by tag): glyph 1 is a square
/// mapped from 'l' with the given advance; glyph 0 is empty.
fn face_tables(l_advance: u16) -> Vec<([u8; 4], Vec<u8>)> {
    let mut cmap = Vec::new();
    put16(&mut cmap, 0);
    put16(&mut cmap, 1);
    put16(&mut cmap, 0);
    put16(&mut cmap, 3);
    put32(&mut cmap, 12);
    put16(&mut cmap, 0);
    put16(&mut cmap, 262);
    put16(&mut cmap, 0);
    let mut ids = [0u8; 256];
    ids[b'l' as usize] = 1;
    cmap.extend_from_slice(&ids);

    let mut glyf = Vec::new();
    put16(&mut glyf, 1);
    for x in [100i16, 0, 400, 700] {
        put16(&mut glyf, x as u16);
    }
    put16(&mut glyf, 3);
    put16(&mut glyf, 0);
    glyf.extend_from_slice(&[1, 1, 1, 1]);
    for dx in [100i16, 300, 0, -300] {
        put16(&mut glyf, dx as u16);
    }
    for dy in [0i16, 0, 700, 0] {
        put16(&mut glyf, dy as u16);
    }

    let mut head = vec![0u8; 54];
    head[0..4].copy_from_slice(&0x0001_0000u32.to_be_bytes());
    head[12..16].copy_from_slice(&0x5F0F_3CF5u32.to_be_bytes());
    head[18..20].copy_from_slice(&1000u16.to_be_bytes());
    head[40..42].copy_from_slice(&400u16.to_be_bytes());
    head[42..44].copy_from_slice(&700u16.to_be_bytes());

    let mut hhea = vec![0u8; 36];
    hhea[0..4].copy_from_slice(&0x0001_0000u32.to_be_bytes());
    hhea[4..6].copy_from_slice(&800u16.to_be_bytes());
    hhea[34..36].copy_from_slice(&2u16.to_be_bytes());

    let mut hmtx = Vec::new();
    put16(&mut hmtx, 500);
    put16(&mut hmtx, 0);
    put16(&mut hmtx, l_advance);
    put16(&mut hmtx, 100);

    let mut loca = Vec::new();
    put16(&mut loca, 0);
    put16(&mut loca, 0);
    put16(&mut loca, (glyf.len() / 2) as u16);

    let mut maxp = Vec::new();
    put32(&mut maxp, 0x0000_5000);
    put16(&mut maxp, 2);

    vec![
        (*b"cmap", cmap),
        (*b"glyf", glyf),
        (*b"head", head),
        (*b"hhea", hhea),
        (*b"hmtx", hmtx),
        (*b"loca", loca),
        (*b"maxp", maxp),
    ]
}

/// Lays out faces (a single font when `collection` is false) with absolute
/// table offsets.
fn build_font(advances: &[u16], collection: bool) -> Vec<u8> {
    let faces: Vec<_> = advances.iter().map(|a| face_tables(*a)).collect();
    let header_len = if collection { 12 + 4 * faces.len() } else { 0 };
    let dir_len: Vec<usize> = faces.iter().map(|t| 12 + 16 * t.len()).collect();
    let mut dir_offsets = Vec::new();
    let mut at = header_len;
    for d in &dir_len {
        dir_offsets.push(at);
        at += d;
    }
    let mut out = Vec::new();
    if collection {
        out.extend_from_slice(b"ttcf");
        put32(&mut out, 0x0001_0000);
        put32(&mut out, faces.len() as u32);
        for o in &dir_offsets {
            put32(&mut out, *o as u32);
        }
    }
    let mut table_at = at;
    let mut data = Vec::new();
    for tables in &faces {
        put32(&mut out, 0x0001_0000);
        put16(&mut out, tables.len() as u16);
        put16(&mut out, 0);
        put16(&mut out, 0);
        put16(&mut out, 0);
        for (tag, t) in tables {
            out.extend_from_slice(tag);
            put32(&mut out, 0);
            put32(&mut out, table_at as u32);
            put32(&mut out, t.len() as u32);
            data.extend_from_slice(t);
            table_at += t.len();
            while table_at % 4 != 0 {
                data.push(0);
                table_at += 1;
            }
        }
    }
    out.extend_from_slice(&data);
    out
}

#[test]
fn single_font_loads_and_answers_queries() {
    let font = build_font(&[600], false);
    let loader = FontLoader::from_bytes(font).expect("test font parses");
    assert_eq!(loader.units_per_em(), 1000);
    assert_eq!(loader.glyph_index('l'), Some(1));
    assert_eq!(loader.glyph_index('a'), None);
    assert_eq!(loader.advance_width(1), Some(600));
    assert_eq!(loader.advance_width(0), Some(500));
    assert_eq!(
        loader.glyph_bounds(1),
        Some(GlyphRect { x_min: 100, y_min: 0, x_max: 400, y_max: 700 })
    );
    assert_eq!(loader.glyph_bounds(0), None);
}

#[test]
fn unparsable_data_fails_to_load() {
    match FontLoader::from_bytes(b"not a font at all".to_vec()) {
        Err(e) => assert_eq!(e, "Failed to parse font"),
        Ok(_) => panic!("garbage parsed as a font"),
    }
    assert!(FontLoader::from_bytes(Vec::new()).is_err());
}

#[test]
fn single_font_rejects_nonzero_face_index() {
    let font = build_font(&[600], false);
    assert!(FontLoader::from_bytes_with_index(font.clone(), 0).is_ok());
    match FontLoader::from_bytes_with_index(font, 1) {
        Err(e) => assert_eq!(e, "Failed to parse font"),
        Ok(_) => panic!("face 1 of a single font loaded"),
    }
}

#[test]
fn shaping_gives_glyphs_clusters_and_advances() {
    let loader = FontLoader::from_bytes(build_font(&[600], false)).unwrap();
    let run = loader.shape("ll");
    assert_eq!(run.len(), 2);
    assert_eq!(run[0].glyph_id, 1);
    assert_eq!(run[0].cluster, 0);
    assert_eq!(run[0].x_advance, 600);
    assert_eq!(run[1].glyph_id, 1);
    assert_eq!(run[1].cluster, 1);
    assert_eq!(run[1].x_advance, 600);
    assert_eq!(run[0].y_advance, 0);
    assert!(loader.shape("").is_empty());
}

#[test]
fn counting_faces_of_a_collection() {
    let ttc = build_font(&[36, 600, 65535], true);
    assert_eq!(fonts_in_collection(&ttc), Some(3));
    assert_eq!(fonts_in_collection(&build_font(&[600], false)), None);
    assert_eq!(fonts_in_collection(b"ttcf\x00\x01\x00\x00"), None);
    assert_eq!(fonts_in_collection(b"ttcf\x00\x01\x00\x00\x00\x00\x01\x02"), Some(258));
}

#[test]
fn probing_finds_the_face_with_a_sane_advance() {
    let ttc = build_font(&[36, 600], true);
    assert_eq!(pick_ttc_face_index(&ttc, 2), 1);
    assert_eq!(face_index_for(&ttc), 1);
    let loader = FontLoader::from_bytes_with_index(ttc, 1).unwrap();
    assert_eq!(loader.advance_width(1), Some(600));
}

#[test]
fn probing_accepts_the_bounds_of_the_sane_range() {
    assert_eq!(pick_ttc_face_index(&build_font(&[49, 50], true), 2), 1);
    assert_eq!(pick_ttc_face_index(&build_font(&[2001, 2000], true), 2), 1);
    assert_eq!(pick_ttc_face_index(&build_font(&[1200, 600], true), 2), 0);
}

#[test]
fn probing_falls_back_when_no_face_is_sane() {
    assert_eq!(pick_ttc_face_index(&build_font(&[36, 65535, 36], true), 3), 2);
    assert_eq!(pick_ttc_face_index(&build_font(&[36, 65535], true), 2), 0);
    assert_eq!(pick_ttc_face_index(b"garbage", 5), 2);
    assert_eq!(pick_ttc_face_index(b"garbage", 0), 0);
}

#[test]
fn probing_checks_every_face() {
    let ttc = build_font(&[36, 36, 36, 36, 600], true);
    assert_eq!(pick_ttc_face_index(&ttc, 5), 4);
    assert_eq!(face_index_for(&ttc), 4);
    let ttc = build_font(&[36, 36, 36, 600, 600], true);
    assert_eq!(pick_ttc_face_index(&ttc, 5), 3);
    let ttc = build_font(&[36, 36, 36, 36, 36, 36], true);
    assert_eq!(pick_ttc_face_index(&ttc, 6), 2);
}

#[test]
fn loaded_face_is_the_requested_face() {
    let ttc = build_font(&[36, 600, 900], true);
    let loader = FontLoader::from_bytes_with_index(ttc.clone(), 2).unwrap();
    assert_eq!(loader.face().ttf_face().glyph_hor_advance(ttf_parser::GlyphId(1)), Some(900));
    assert_eq!(loader.shape("l")[0].x_advance, 900);
    let first = FontLoader::from_bytes(ttc).unwrap();
    assert_eq!(first.shape("l")[0].x_advance, 36);
    assert_eq!(first.advance_width(1), Some(36));
}

#[test]
fn single_fonts_and_one_face_collections_use_face_zero() {
    assert_eq!(face_index_for(&build_font(&[36], false)), 0);
    assert_eq!(face_index_for(&build_font(&[36], true)), 0);
    assert_eq!(face_index_for(b"OTTO"), 0);
    assert_eq!(face_index_for(&build_font(&[36, 36, 36], true)), 2);
}
