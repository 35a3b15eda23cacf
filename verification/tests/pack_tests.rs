use slug::{pack_band_max, pack_glyph_location};

#[test]
fn glyph_location_packs_y_high_x_low() {
    assert_eq!(pack_glyph_location(3, 5), (5 << 16) | 3);
    assert_eq!(pack_glyph_location(0, 0), 0);
    assert_eq!(pack_glyph_location(0xFFFF, 0xFFFF), 0xFFFF_FFFF);
}

#[test]
fn glyph_location_unpacks() {
    let bits = pack_glyph_location(1234, 4321);
    assert_eq!(bits & 0xFFFF, 1234);
    assert_eq!(bits >> 16, 4321);
}

#[test]
fn glyph_location_drops_high_bits_of_y() {
    assert_eq!(pack_glyph_location(1, 0x1_0002), 0x0002_0001);
}

#[test]
fn band_max_keeps_low_bytes() {
    assert_eq!(pack_band_max(3, 2), 0x0002_0003);
    assert_eq!(pack_band_max(0x1FF, 0x102), 0x0002_00FF);
    let bits = pack_band_max(15, 7);
    assert_eq!(bits & 0xFFFF, 15);
    assert_eq!(bits >> 16, 7);
}
