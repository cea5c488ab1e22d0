use gfx_core::words::{words_from_bytes, WordsError};

#[test]
fn words_are_packed_least_significant_byte_first() {
    let bytes = vec![0x67, 0x45, 0x23, 0x01, 0xff, 0x00, 0x00, 0x00];
    let words = words_from_bytes(&bytes).unwrap();
    assert_eq!(words, vec![0x0123_4567, 0x0000_00ff]);
}

#[test]
fn an_empty_stream_packs_to_no_words() {
    assert_eq!(words_from_bytes(&Vec::new()), Ok(Vec::new()));
}

#[test]
fn an_uneven_stream_is_a_fatal_misread() {
    assert_eq!(words_from_bytes(&vec![1, 2, 3]), Err(WordsError::UnevenLength));
    assert_eq!(words_from_bytes(&vec![1, 2, 3, 4, 5]), Err(WordsError::UnevenLength));
}

#[test]
fn extreme_bytes_pack_exactly() {
    let words = words_from_bytes(&vec![0xff, 0xff, 0xff, 0xff, 0, 0, 0, 0x80]).unwrap();
    assert_eq!(words, vec![u32::MAX, 0x8000_0000]);
}
