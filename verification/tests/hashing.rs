use dilok_did::bytes::{copy_of, extend, push_be64, read_be64, same_bytes, slice_of};
use dilok_did::hash::{hmac, to_hex};

#[test]
fn hex_of_bytes_is_lower_case_pairs() {
    assert_eq!(to_hex(&[0x00, 0x0f, 0xa5, 0xff]), "000fa5ff");
    assert_eq!(to_hex(&[0x12, 0x34, 0x56, 0x78, 0x9a, 0xbc, 0xde]), "123456789abcde");
    assert_eq!(to_hex(&[]), "");
}

#[test]
fn hmac_matches_known_vectors() {
    // From RFC 4231: a short key.
    assert_eq!(
        to_hex(&hmac(b"Jefe", b"what do ya want for nothing?")),
        "5bdcc146bf60754e6a042426089575c75a003f089d2739839dec58b964ec3843"
    );
    // From RFC 4231: a key of twenty bytes.
    assert_eq!(
        to_hex(&hmac(&[0x0b; 20], b"Hi There")),
        "b0344c61d8db38535ca8afceaf0bf12b881dc200c9833da726e9376c2e32cff7"
    );
    // From RFC 4231: a key longer than one block.
    assert_eq!(
        to_hex(&hmac(
            &[0xaa; 131],
            b"Test Using Larger Than Block-Size Key - Hash Key First"
        )),
        "60e431591ee0b67f0d8a26aacbf5b77f8e0bc6213728c5140546040f0ee37f54"
    );
}

#[test]
fn byte_helpers() {
    let mut v: Vec<u8> = vec![1, 2];
    extend(&mut v, &[3, 4]);
    assert_eq!(v, vec![1, 2, 3, 4]);
    assert_eq!(copy_of(&[9, 8]), vec![9, 8]);
    assert_eq!(slice_of(&[1, 2, 3, 4, 5], 1, 3), vec![2, 3]);
    assert_eq!(slice_of(&[1, 2, 3], 3, 3), Vec::<u8>::new());
    assert!(same_bytes(&[1, 2, 3], &[1, 2, 3]));
    assert!(same_bytes(&[], &[]));
    assert!(!same_bytes(&[1, 2, 3], &[1, 2, 4]));
    assert!(!same_bytes(&[0, 2, 3], &[1, 2, 3]));
    assert!(!same_bytes(&[1, 2, 3], &[1, 2]));
}

#[test]
fn big_endian_numbers() {
    let mut v: Vec<u8> = vec![7];
    push_be64(&mut v, 0x0102030405060708);
    assert_eq!(v, vec![7, 1, 2, 3, 4, 5, 6, 7, 8]);
    assert_eq!(read_be64(&v, 1), 0x0102030405060708);
    let mut w: Vec<u8> = Vec::new();
    push_be64(&mut w, u64::MAX);
    push_be64(&mut w, 0);
    assert_eq!(read_be64(&w, 0), u64::MAX);
    assert_eq!(read_be64(&w, 8), 0);
}
