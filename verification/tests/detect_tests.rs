use slug::{font_format, is_font_collection, FontFormat};

#[test]
fn collection_magic_is_recognized() {
    assert!(is_font_collection(b"ttcf\x00\x01\x00\x00"));
    assert!(is_font_collection(b"ttcf"));
}

#[test]
fn short_or_other_data_is_not_a_collection() {
    assert!(!is_font_collection(b""));
    assert!(!is_font_collection(b"ttc"));
    assert!(!is_font_collection(b"OTTO"));
    assert!(!is_font_collection(&[0x00, 0x01, 0x00, 0x00]));
    assert!(!is_font_collection(b"Ttcf"));
}

#[test]
fn font_format_of_each_magic() {
    assert_eq!(font_format(b"ttcf\x00\x02\x00\x00"), Some(FontFormat::Ttc));
    assert_eq!(font_format(b"OTTO\x00\x0a"), Some(FontFormat::Otf));
    assert_eq!(font_format(&[0x00, 0x01, 0x00, 0x00, 0x00, 0x0c]), Some(FontFormat::Ttf));
}

#[test]
fn font_format_rejects_short_and_unknown_data() {
    assert_eq!(font_format(b""), None);
    assert_eq!(font_format(b"OTT"), None);
    assert_eq!(font_format(b"true"), None);
    assert_eq!(font_format(b"wOFF"), None);
    assert_eq!(font_format(&[0x00, 0x02, 0x00, 0x00]), None);
}

#[test]
fn collection_iff_ttc_on_samples() {
    let samples: Vec<&[u8]> = vec![b"ttcf", b"ttcfxyz", b"OTTO", b"\x00\x01\x00\x00", b"ab", b"wOF2"];
    for s in samples {
        assert_eq!(is_font_collection(s), font_format(s) == Some(FontFormat::Ttc));
        assert_ne!(font_format(s), Some(FontFormat::Otc));
    }
}

#[test]
fn format_depends_only_on_first_four_bytes() {
    assert_eq!(font_format(b"OTTO"), font_format(b"OTTO and more bytes"));
    assert_eq!(font_format(b"zzzz"), font_format(b"zzzzOTTO"));
}
