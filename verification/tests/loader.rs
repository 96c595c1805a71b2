use universal_machine::from_bytes;
use universal_machine::loader::LoadError;

#[test]
fn reads_big_endian_words() {
    let bytes = [0xDA, 0x00, 0x00, 0x2A, 0x70, 0x00, 0x00, 0x00];
    assert_eq!(from_bytes(&bytes), Ok(vec![0xDA00_002A, 0x7000_0000]));
}

#[test]
fn most_significant_byte_comes_first() {
    assert_eq!(from_bytes(&[0x01, 0x02, 0x03, 0x04]), Ok(vec![0x0102_0304]));
    assert_eq!(from_bytes(&[0xFF, 0xFF, 0xFF, 0xFF]), Ok(vec![0xFFFF_FFFF]));
    assert_eq!(from_bytes(&[0x80, 0x00, 0x00, 0x00]), Ok(vec![0x8000_0000]));
    assert_eq!(from_bytes(&[0x00, 0x00, 0x00, 0x01]), Ok(vec![1]));
}

#[test]
fn empty_stream_is_an_empty_program() {
    assert_eq!(from_bytes(&[]), Ok(vec![]));
}

#[test]
fn keeps_the_order_of_the_words() {
    let mut bytes = Vec::new();
    for i in 0..100u32 {
        bytes.push((i >> 24) as u8);
        bytes.push((i >> 16) as u8);
        bytes.push((i >> 8) as u8);
        bytes.push(i as u8);
    }
    let words = from_bytes(&bytes).unwrap();
    assert_eq!(words.len(), 100);
    for i in 0..100u32 {
        assert_eq!(words[i as usize], i);
    }
}

#[test]
fn rejects_a_partial_word() {
    assert_eq!(from_bytes(&[1]), Err(LoadError { length: 1 }));
    assert_eq!(from_bytes(&[1, 2]), Err(LoadError { length: 2 }));
    assert_eq!(from_bytes(&[1, 2, 3]), Err(LoadError { length: 3 }));
    assert_eq!(from_bytes(&[1, 2, 3, 4, 5]), Err(LoadError { length: 5 }));
    assert_eq!(from_bytes(&[0; 7]), Err(LoadError { length: 7 }));
}
