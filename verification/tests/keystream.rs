use streamchat::keystream::{
    keystream_preview, lcg_keystream, KeystreamGenerator, LCG_A, LCG_C, LCG_M, PREVIEW_LEN,
};

#[test]
fn constants_of_the_recurrence() {
    assert_eq!(LCG_A, 1_103_515_245);
    assert_eq!(LCG_C, 12_345);
    assert_eq!(LCG_M, 1u64 << 32);
}

#[test]
fn first_bytes_of_seed_zero() {
    let mut generator = lcg_keystream(0);
    assert_eq!(generator.state_value(), 0);
    assert_eq!(generator.next(), 0x39);
    assert_eq!(generator.state_value(), 12_345);
    assert_eq!(generator.next(), 0x7e);
    assert_eq!(generator.state_value(), 3_554_416_254);
    assert_eq!(generator.next(), 0xdf);
    assert_eq!(generator.state_value(), 2_802_067_423);
    assert_eq!(generator.seed_value(), 0);
}

#[test]
fn take_hands_out_the_stream_in_order() {
    let mut generator = lcg_keystream(42);
    assert_eq!(
        generator.take(10),
        vec![0x1b, 0xb8, 0x91, 0xf6, 0xf7, 0x64, 0xcd, 0x82, 0x93, 0xd0]
    );
}

#[test]
fn take_nothing_leaves_the_generator_in_place() {
    let mut generator = lcg_keystream(42);
    assert_eq!(generator.take(0), Vec::<u8>::new());
    assert_eq!(generator.state_value(), 42);
    assert_eq!(generator.next(), 0x1b);
}

#[test]
fn seeds_above_32_bits_wrap_in_the_product() {
    let mut generator = lcg_keystream(0xDEAD_BEEF_CAFE_BABE);
    assert_eq!(generator.next(), 0x1f);
    assert_eq!(generator.state_value(), 3_092_223_775);
    assert_eq!(generator.take(7), vec![0x6c, 0x35, 0xca, 0x3b, 0x58, 0xb1, 0x96]);

    let mut last = lcg_keystream(u64::MAX);
    assert_eq!(last.take(4), vec![0xcc, 0x15, 0x2a, 0x1b]);
    assert_eq!(last.state_value() < LCG_M, true);
}

#[test]
fn same_seed_gives_the_same_stream() {
    for seed in [0u64, 1, 47, 0xFFFF_FFFF, 0x1_0000_0000, u64::MAX] {
        let mut first = KeystreamGenerator::new(seed);
        let mut second = lcg_keystream(seed);
        for _ in 0..200 {
            assert_eq!(first.next(), second.next());
            assert_eq!(first.state_value(), second.state_value());
        }
    }
}

#[test]
fn a_prefix_is_reproduced_by_a_fresh_generator() {
    let mut whole = lcg_keystream(47);
    let stream = whole.take(64);
    let mut again = lcg_keystream(47);
    let skipped = again.take(20);
    assert_eq!(skipped[..], stream[..20]);
    assert_eq!(again.take(44)[..], stream[20..]);
}

#[test]
fn single_steps_and_take_agree() {
    let mut stepped = lcg_keystream(5);
    let mut taken = lcg_keystream(5);
    let bytes = taken.take(4);
    assert_eq!(bytes, vec![0x5a, 0x8b, 0x68, 0x81]);
    for byte in bytes {
        assert_eq!(stepped.next(), byte);
    }
}

#[test]
fn the_preview_is_the_start_of_the_stream() {
    assert_eq!(PREVIEW_LEN, 10);
    assert_eq!(
        keystream_preview(0),
        vec![0x39, 0x7e, 0xdf, 0x2c, 0xf5, 0x8a, 0xfb, 0x18, 0x71, 0x56]
    );
    assert_eq!(keystream_preview(42), lcg_keystream(42).take(10));
}

#[test]
fn a_generator_continues_as_one_seeded_with_its_state() {
    let mut running = lcg_keystream(0xDEAD_BEEF_CAFE_BABE);
    let _ = running.take(33);
    let mut resumed = lcg_keystream(running.state_value());
    assert_eq!(running.take(50), resumed.take(50));
}
