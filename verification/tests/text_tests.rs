use slug::char_at_byte_offset;

#[test]
fn offsets_map_to_the_covering_character() {
    let text = "aé你😀";
    assert_eq!(char_at_byte_offset(text, 0), Some('a'));
    assert_eq!(char_at_byte_offset(text, 1), Some('é'));
    assert_eq!(char_at_byte_offset(text, 2), Some('é'));
    assert_eq!(char_at_byte_offset(text, 3), Some('你'));
    assert_eq!(char_at_byte_offset(text, 5), Some('你'));
    assert_eq!(char_at_byte_offset(text, 6), Some('😀'));
    assert_eq!(char_at_byte_offset(text, 9), Some('😀'));
}

#[test]
fn offsets_past_the_end_give_none() {
    assert_eq!(char_at_byte_offset("aé你😀", 10), None);
    assert_eq!(char_at_byte_offset("", 0), None);
    assert_eq!(char_at_byte_offset("abc", usize::MAX), None);
}

#[test]
fn every_byte_maps_back_to_its_character() {
    let text = "Hello 你好 日本語";
    let mut offset = 0;
    for c in text.chars() {
        for k in 0..c.len_utf8() {
            assert_eq!(char_at_byte_offset(text, offset + k), Some(c));
        }
        offset += c.len_utf8();
    }
    assert_eq!(char_at_byte_offset(text, offset), None);
}
