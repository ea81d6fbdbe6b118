use solana_vault::randomness::{seed_from_digest, seed_from_timestamp, timestamp_bytes};

#[test]
fn timestamp_bytes_are_big_endian() {
    assert_eq!(timestamp_bytes(0), [0u8; 8]);
    assert_eq!(timestamp_bytes(1), [0, 0, 0, 0, 0, 0, 0, 1]);
    assert_eq!(timestamp_bytes(1_700_000_000), [0, 0, 0, 0, 101, 83, 241, 0]);
    assert_eq!(timestamp_bytes(0x0102_0304_0506_0708), [1, 2, 3, 4, 5, 6, 7, 8]);
    assert_eq!(timestamp_bytes(i64::MAX), [127, 255, 255, 255, 255, 255, 255, 255]);
}

#[test]
fn negative_timestamps_are_in_twos_complement() {
    assert_eq!(timestamp_bytes(-1), [255u8; 8]);
    assert_eq!(timestamp_bytes(-2), [255, 255, 255, 255, 255, 255, 255, 254]);
    assert_eq!(timestamp_bytes(-256), [255, 255, 255, 255, 255, 255, 255, 0]);
    assert_eq!(timestamp_bytes(i64::MIN), [128, 0, 0, 0, 0, 0, 0, 0]);
}

#[test]
fn timestamp_bytes_agree_with_the_standard_encoding() {
    for t in [0i64, 1, -1, 42, -42, 1_700_000_000, -1_700_000_000, i64::MAX, i64::MIN] {
        assert_eq!(timestamp_bytes(t), t.to_be_bytes());
    }
}

#[test]
fn seed_is_the_first_eight_digest_bytes_little_endian() {
    let mut digest = [0u8; 32];
    assert_eq!(seed_from_digest(&digest), 0);
    digest[0] = 1;
    assert_eq!(seed_from_digest(&digest), 1);
    digest[1] = 2;
    assert_eq!(seed_from_digest(&digest), 513);
    digest[7] = 0x80;
    assert_eq!(seed_from_digest(&digest), 0x8000_0000_0000_0201);
    // Bytes past the eighth play no part.
    digest[8] = 0xff;
    digest[31] = 0xff;
    assert_eq!(seed_from_digest(&digest), 0x8000_0000_0000_0201);
    assert_eq!(seed_from_digest(&[0xff; 32]), u64::MAX);
}

#[test]
fn seed_of_a_timestamp_comes_from_its_sha256_digest() {
    // SHA-256 of eight zero bytes starts af 55 70 f5 a1 81 0b 7a.
    assert_eq!(seed_from_timestamp(0), 0x7a0b_81a1_f570_55af);
    assert_eq!(seed_from_timestamp(0), 8794265229978523055);
    assert_eq!(seed_from_timestamp(1), 12859585968136660685);
    assert_eq!(seed_from_timestamp(1_700_000_000), 11356000786992708781);
    assert_eq!(seed_from_timestamp(-1), 6759447113877070610);
    assert_eq!(seed_from_timestamp(i64::MIN), 17692533213202657457);
    assert_eq!(seed_from_timestamp(i64::MAX), 4864611470273291462);
}

#[test]
fn same_timestamp_same_seed() {
    assert_eq!(seed_from_timestamp(1_234_567), seed_from_timestamp(1_234_567));
    assert_ne!(seed_from_timestamp(1_234_567), seed_from_timestamp(1_234_568));
}
