use voijix::codec::{decode, encode};

#[test]
fn encode_writes_big_endian_words() {
    let bytes = encode(&vec![1, -1]);
    assert_eq!(bytes, vec![0, 0, 0, 1, 255, 255, 255, 255]);
}

#[test]
fn encode_extremes() {
    let bytes = encode(&vec![0, i32::MAX, i32::MIN]);
    assert_eq!(
        bytes,
        vec![0, 0, 0, 0, 127, 255, 255, 255, 128, 0, 0, 0]
    );
}

#[test]
fn encode_empty_buffer() {
    assert_eq!(encode(&Vec::new()), Vec::<u8>::new());
}

#[test]
fn decode_reads_big_endian_words() {
    let samples = decode(&vec![0, 0, 1, 0, 255, 255, 255, 254]);
    assert_eq!(samples, vec![256, -2]);
}

#[test]
fn decode_inverts_encode() {
    let samples = vec![0, 1, -1, 123456789, -123456789, i32::MAX, i32::MIN];
    assert_eq!(decode(&encode(&samples)), samples);
}

#[test]
fn decode_empty_buffer() {
    assert_eq!(decode(&Vec::new()), Vec::<i32>::new());
}
