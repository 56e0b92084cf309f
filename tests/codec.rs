use paxos::codec::{paxos_decode, paxos_encode, DecodeError};

#[test]
fn encode_one_is_big_endian() {
    assert_eq!(paxos_encode(&[1]), vec![0x00, 0x00, 0x00, 0x01]);
}

#[test]
fn encode_minus_one_is_all_ones() {
    assert_eq!(paxos_encode(&[-1]), vec![0xFF, 0xFF, 0xFF, 0xFF]);
}

#[test]
fn encode_several_words() {
    assert_eq!(
        paxos_encode(&[0x01020304, i32::MIN, 0]),
        vec![1, 2, 3, 4, 0x80, 0, 0, 0, 0, 0, 0, 0]
    );
}

#[test]
fn encode_empty() {
    assert_eq!(paxos_encode(&[]), Vec::<u8>::new());
}

#[test]
fn round_trip_keeps_values() {
    let xs = [0, 1, -1, 42, i32::MAX, i32::MIN, -123456789, 7];
    let b = paxos_encode(&xs);
    assert_eq!(b.len(), 4 * xs.len());
    assert_eq!(paxos_decode(&b, b.len()), Ok(xs.to_vec()));
}

#[test]
fn decode_reads_only_size_bytes() {
    let mut buf = paxos_encode(&[5, 3, 9]);
    buf.resize(128, 0xAB);
    assert_eq!(paxos_decode(&buf, 12), Ok(vec![5, 3, 9]));
    assert_eq!(paxos_decode(&buf, 0), Ok(vec![]));
}

#[test]
fn decode_truncated_word_is_error() {
    let buf = paxos_encode(&[5, 3]);
    assert_eq!(paxos_decode(&buf, 7), Err(DecodeError::TrailingBytes));
    assert_eq!(paxos_decode(&buf, 1), Err(DecodeError::TrailingBytes));
}
