use encoding_boundary::capi::{construct, encode_into, release};
use encoding_boundary::encoding::{encode, EncodedResult};

#[test]
fn construct_then_release() {
    let input: Vec<u8> = vec![b'a', b'b', b'c'];
    let handle = construct(Some(&input), 3);
    assert!(handle.is_some());
    release(handle);
}

#[test]
fn construct_null_input() {
    let handle = construct(None, 0);
    assert!(handle.is_none());
}

#[test]
fn release_null_is_noop() {
    release(None);
}

#[test]
fn construct_borrows_clean_input() {
    let input: Vec<u8> = vec![b'a', b'b', b'c'];
    let handle = construct(Some(&input), 3).unwrap();
    assert!(matches!(handle.result, EncodedResult::Borrowed));
}

#[test]
fn construct_null_terminated_input() {
    let input: Vec<u8> = vec![b'a', b' ', b'b', 0, b'X'];
    let handle = construct(Some(&input), 0).unwrap();
    match handle.result {
        EncodedResult::Owned(v) => assert_eq!(v, b"a%20b".to_vec()),
        EncodedResult::Borrowed => panic!("a space must force an owned result"),
    }
}

#[test]
fn construct_trusts_given_length() {
    let input: Vec<u8> = vec![b'a', b' ', b'b', b' ', b'c'];
    let handle = construct(Some(&input), 3).unwrap();
    match handle.result {
        EncodedResult::Owned(v) => assert_eq!(v, b"a%20b".to_vec()),
        EncodedResult::Borrowed => panic!("a space must force an owned result"),
    }
}

#[test]
fn encode_escapes_every_reserved_byte() {
    let input: Vec<u8> = vec![0x25, 0xff, b'/'];
    match encode(&input) {
        EncodedResult::Owned(v) => assert_eq!(v, b"%25%FF%2F".to_vec()),
        EncodedResult::Borrowed => panic!("reserved bytes must force an owned result"),
    }
}

#[test]
fn encode_borrows_unreserved_bytes() {
    let input: Vec<u8> = vec![b'A', b'z', b'0', b'9', b'-', b'.', b'_', b'~'];
    assert!(matches!(encode(&input), EncodedResult::Borrowed));
}

#[test]
fn encode_into_insufficient_capacity() {
    let input: Vec<u8> = vec![b'a', b' ', b'b', 0];
    let mut buf: Vec<u8> = vec![b'a', b' ', b'b', 0, 0xaa];
    let mut cap: usize = 5;
    let r = encode_into(Some(&input), &mut buf, &mut cap);
    assert_eq!(r, -1);
    assert_eq!(cap, 6);
    assert_eq!(buf, vec![b'a', b' ', b'b', 0, 0xaa]);
}

#[test]
fn encode_into_retry_succeeds() {
    let input: Vec<u8> = vec![b'a', b' ', b'b', 0];
    let mut buf: Vec<u8> = vec![b'a', b' ', b'b', 0, 0, 0];
    let mut cap: usize = 6;
    let r = encode_into(Some(&input), &mut buf, &mut cap);
    assert_eq!(r, 0);
    assert_eq!(cap, 6);
    assert_eq!(buf, b"a%20b\0".to_vec());
}

#[test]
fn encode_into_null_input() {
    let mut buf: Vec<u8> = vec![b'a', 0, 0];
    let mut cap: usize = 3;
    let r = encode_into(None, &mut buf, &mut cap);
    assert_eq!(r, -1);
    assert_eq!(cap, 3);
    assert_eq!(buf, vec![b'a', 0, 0]);
}

#[test]
fn encode_into_never_overruns() {
    // guard bytes sit at the offered capacity and beyond; no call may touch them
    let input: Vec<u8> = vec![b'a', b' ', b'b', 0];
    let mut buf: Vec<u8> = vec![b'a', b' ', b'b', 0, 0xee, 0xee, 0xee, 0xee, 0xee, 0xee];
    let mut cap: usize = 5;
    let r = encode_into(Some(&input), &mut buf, &mut cap);
    assert_eq!(r, -1);
    assert_eq!(&buf[5..], &[0xee, 0xee, 0xee, 0xee, 0xee]);

    let mut buf: Vec<u8> = vec![b'a', b' ', b'b', 0, 0, 0, 0xee, 0xee, 0xee, 0xee];
    let mut cap: usize = 6;
    let r = encode_into(Some(&input), &mut buf, &mut cap);
    assert_eq!(r, 0);
    assert_eq!(&buf[..6], b"a%20b\0");
    assert_eq!(&buf[6..], &[0xee, 0xee, 0xee, 0xee]);
}

#[test]
fn encode_into_missing_terminator() {
    let input: Vec<u8> = vec![b'a', 0];
    let mut buf: Vec<u8> = vec![b'a', b'b', b'c'];
    let mut cap: usize = 3;
    let r = encode_into(Some(&input), &mut buf, &mut cap);
    assert_eq!(r, -1);
    assert_eq!(cap, 3);
    assert_eq!(buf, vec![b'a', b'b', b'c']);
}

#[test]
fn encode_into_zero_capacity() {
    let input: Vec<u8> = vec![0];
    let mut buf: Vec<u8> = vec![0xaa, 0xbb];
    let mut cap: usize = 0;
    let r = encode_into(Some(&input), &mut buf, &mut cap);
    assert_eq!(r, -1);
    assert_eq!(cap, 0);
    assert_eq!(buf, vec![0xaa, 0xbb]);
}

#[test]
fn encode_into_borrowed_fits_exactly() {
    // an input the encoder keeps needs only its own length plus the terminator
    let input: Vec<u8> = vec![b'a', b'b', b'c', 0];
    let mut buf: Vec<u8> = vec![b'a', b'b', b'c', 0];
    let mut cap: usize = 4;
    let r = encode_into(Some(&input), &mut buf, &mut cap);
    assert_eq!(r, 0);
    assert_eq!(cap, 4);
    assert_eq!(buf, b"abc\0".to_vec());
}

#[test]
fn encode_into_empty_staged_string() {
    let input: Vec<u8> = vec![0];
    let mut buf: Vec<u8> = vec![0, 0xaa];
    let mut cap: usize = 2;
    let r = encode_into(Some(&input), &mut buf, &mut cap);
    assert_eq!(r, 0);
    assert_eq!(cap, 1);
    assert_eq!(buf, vec![0, 0xaa]);
}
