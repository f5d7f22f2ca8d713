use mseed::decode::decode_payload;
use mseed::{MSErrorCode, SampleBuffer};

/// One 64-byte Steim frame out of sixteen 32-bit words, big-endian.
fn frame(words: [u32; 16]) -> Vec<u8> {
    let mut v = Vec::new();
    for w in words {
        v.extend_from_slice(&w.to_be_bytes());
    }
    v
}

/// The control word of a frame: 2-bit codes, one per word slot, high to low.
fn ctrl(codes: [u32; 16]) -> u32 {
    let mut c = 0u32;
    for (i, code) in codes.iter().enumerate() {
        c |= code << (30 - 2 * i);
    }
    c
}

#[test]
fn steim1_known_sequence() {
    // Samples [1, 3, 2, 6]: differences (the first is a carry-over and is
    // ignored in favour of the stored first sample) packed as four 8-bit
    // values in one word.
    let mut words = [0u32; 16];
    words[0] = ctrl([0, 0, 0, 1, 0, 0, 0, 0, 0, 0, 0, 0, 0, 0, 0, 0]);
    words[1] = 1; // first sample
    words[2] = 6; // last sample
    words[3] = u32::from_be_bytes([1, 2, 0xFF, 4]); // +1, +2, -1, +4
    let payload = frame(words);
    let out = decode_payload(10, &payload, 4).unwrap();
    assert_eq!(out, SampleBuffer::Integer32(vec![1, 3, 2, 6]));
}

#[test]
fn steim1_halfword_and_fullword_packings() {
    // Word codes 2 (two 16-bit) and 3 (one 32-bit).
    let mut words = [0u32; 16];
    words[0] = ctrl([0, 0, 0, 2, 3, 0, 0, 0, 0, 0, 0, 0, 0, 0, 0, 0]);
    words[1] = 1000; // first sample
    words[2] = 0;
    // The first packed difference is the carry-over and is ignored; then
    // -500 -> 500.
    words[3] = ((1000u32 & 0xFFFF) << 16) | ((-500i16 as u16) as u32);
    // -100000 -> -99500.
    words[4] = (-100_000i32) as u32;
    let payload = frame(words);
    let out = decode_payload(10, &payload, 3).unwrap();
    assert_eq!(out, SampleBuffer::Integer32(vec![1000, 500, -99_500]));
}

#[test]
fn steim2_ten_bit_packing() {
    // Samples [10, 5, -3]: differences packed as three 10-bit values under
    // decode nibble 3.
    let mut words = [0u32; 16];
    words[0] = ctrl([0, 0, 0, 2, 0, 0, 0, 0, 0, 0, 0, 0, 0, 0, 0, 0]);
    words[1] = 10;
    words[2] = (-3i32) as u32;
    let d0 = 10u32 & 0x3FF;
    let d1 = (-5i32 as u32) & 0x3FF;
    let d2 = (-8i32 as u32) & 0x3FF;
    words[3] = (3 << 30) | (d0 << 20) | (d1 << 10) | d2;
    let payload = frame(words);
    let out = decode_payload(11, &payload, 3).unwrap();
    assert_eq!(out, SampleBuffer::Integer32(vec![10, 5, -3]));
}

#[test]
fn steim2_thirty_and_fifteen_bit_packings() {
    let mut words = [0u32; 16];
    words[0] = ctrl([0, 0, 0, 2, 2, 0, 0, 0, 0, 0, 0, 0, 0, 0, 0, 0]);
    words[1] = 0; // first sample
    words[2] = 0;
    // One 30-bit difference: the carry-over, ignored.
    words[3] = (1 << 30) | 300_000;
    // Two 15-bit differences: -2 -> -2, +15000 -> 14998.
    let e0 = (-2i32 as u32) & 0x7FFF;
    let e1 = 15_000u32 & 0x7FFF;
    words[4] = (2 << 30) | (e0 << 15) | e1;
    let payload = frame(words);
    let out = decode_payload(11, &payload, 3).unwrap();
    assert_eq!(out, SampleBuffer::Integer32(vec![0, -2, 14_998]));
}

#[test]
fn steim2_subbyte_packings() {
    // Decode nibbles 0, 1, 2 under word code 3: five 6-bit, six 5-bit and
    // seven 4-bit differences.
    let mut words = [0u32; 16];
    words[0] = ctrl([0, 0, 0, 3, 3, 3, 0, 0, 0, 0, 0, 0, 0, 0, 0, 0]);
    words[1] = 0;
    words[2] = 0;
    // Five 6-bit differences.
    let s6 = |x: i32| (x as u32) & 0x3F;
    words[3] = (s6(1) << 24) | (s6(-1) << 18) | (s6(2) << 12) | (s6(-2) << 6) | s6(3);
    // Six 5-bit: all +1.
    let s5 = |x: i32| (x as u32) & 0x1F;
    words[4] = (1 << 30)
        | (s5(1) << 25)
        | (s5(1) << 20)
        | (s5(1) << 15)
        | (s5(1) << 10)
        | (s5(1) << 5)
        | s5(1);
    // Seven 4-bit: alternating +2 and -2.
    let s4 = |x: i32| (x as u32) & 0xF;
    words[5] = (2 << 30)
        | (s4(2) << 24)
        | (s4(-2) << 20)
        | (s4(2) << 16)
        | (s4(-2) << 12)
        | (s4(2) << 8)
        | (s4(-2) << 4)
        | s4(2);
    let payload = frame(words);
    let out = decode_payload(11, &payload, 18).unwrap();
    // Integrate by hand: x0 = 0 and the first difference is ignored.
    let diffs: Vec<i32> = vec![1, -1, 2, -2, 3, 1, 1, 1, 1, 1, 1, 2, -2, 2, -2, 2, -2, 2];
    let mut manual = vec![0i32];
    for d in &diffs[1..] {
        manual.push(manual.last().unwrap().wrapping_add(*d));
    }
    assert_eq!(manual.len(), 18);
    assert_eq!(out, SampleBuffer::Integer32(manual));
}

#[test]
fn steim2_reserved_nibble_fails() {
    // Word code 2 with decode nibble 0 is invalid.
    let mut words = [0u32; 16];
    words[0] = ctrl([0, 0, 0, 2, 0, 0, 0, 0, 0, 0, 0, 0, 0, 0, 0, 0]);
    words[3] = 0x1234; // top two bits zero: invalid decode nibble
    let payload = frame(words);
    let err = decode_payload(11, &payload, 2).unwrap_err();
    assert_eq!(err.code(), MSErrorCode::SteimBadCompressionFlag);
    // Word code 3 with decode nibble 3 is invalid too.
    let mut words2 = [0u32; 16];
    words2[0] = ctrl([0, 0, 0, 3, 0, 0, 0, 0, 0, 0, 0, 0, 0, 0, 0, 0]);
    words2[3] = 3 << 30;
    let err2 = decode_payload(11, &frame(words2), 2).unwrap_err();
    assert_eq!(err2.code(), MSErrorCode::SteimBadCompressionFlag);
}

#[test]
fn steim_truncated_payload_fails_wrong_length() {
    // More samples declared than the frame can supply.
    let mut words = [0u32; 16];
    words[0] = ctrl([0, 0, 0, 1, 0, 0, 0, 0, 0, 0, 0, 0, 0, 0, 0, 0]);
    words[1] = 1;
    words[3] = u32::from_be_bytes([1, 1, 1, 1]);
    let payload = frame(words);
    let err = decode_payload(10, &payload, 100).unwrap_err();
    assert_eq!(err.code(), MSErrorCode::WrongLength);
    // No whole frame at all.
    let err2 = decode_payload(10, &payload[..32], 1).unwrap_err();
    assert_eq!(err2.code(), MSErrorCode::WrongLength);
    let err3 = decode_payload(11, &[], 1).unwrap_err();
    assert_eq!(err3.code(), MSErrorCode::WrongLength);
}

#[test]
fn steim_stops_at_declared_count() {
    // Trailing frame data past the declared count is legal and ignored,
    // even an invalid control code there.
    let mut words = [0u32; 16];
    words[0] = ctrl([0, 0, 0, 1, 2, 0, 0, 0, 0, 0, 0, 0, 0, 0, 0, 0]);
    words[1] = 0;
    words[3] = u32::from_be_bytes([1, 2, 3, 4]);
    words[4] = 0x0000_1234; // would be an invalid Steim2 nibble
    let payload = frame(words);
    let out = decode_payload(11, &payload, 4).unwrap();
    assert_eq!(out, SampleBuffer::Integer32(vec![0, 2, 5, 9]));
}

#[test]
fn steim_zero_samples_is_empty() {
    let out = decode_payload(10, &[], 0).unwrap();
    assert_eq!(out, SampleBuffer::Integer32(vec![]));
}

#[test]
fn steim1_wraps_in_32_bits() {
    // Integration wraps like 32-bit two's-complement arithmetic.
    let mut words = [0u32; 16];
    words[0] = ctrl([0, 0, 0, 3, 3, 0, 0, 0, 0, 0, 0, 0, 0, 0, 0, 0]);
    words[1] = i32::MAX as u32;
    words[3] = 0; // ignored first difference
    words[4] = 1; // overflowing step
    let payload = frame(words);
    let out = decode_payload(10, &payload, 2).unwrap();
    assert_eq!(
        out,
        SampleBuffer::Integer32(vec![i32::MAX, i32::MIN])
    );
}

#[test]
fn steim_spans_multiple_frames() {
    // 13 usable words in frame 0, all four 8-bit diffs, then more in frame 1.
    let mut w0 = [0u32; 16];
    let mut codes = [1u32; 16];
    codes[0] = 0;
    codes[1] = 0;
    codes[2] = 0;
    w0[0] = ctrl(codes);
    w0[1] = 0;
    for i in 3..16 {
        w0[i] = u32::from_be_bytes([1, 1, 1, 1]);
    }
    let mut w1 = [0u32; 16];
    let mut codes1 = [0u32; 16];
    codes1[1] = 1;
    w1[0] = ctrl(codes1);
    w1[1] = u32::from_be_bytes([1, 1, 1, 1]);
    let mut payload = frame(w0);
    payload.extend_from_slice(&frame(w1));
    // 13 * 4 + 4 = 56 differences available; ask for all of them.
    let out = decode_payload(10, &payload, 56).unwrap();
    match out {
        SampleBuffer::Integer32(v) => {
            assert_eq!(v.len(), 56);
            // x0 = 0, first diff ignored, every further diff is +1.
            assert_eq!(v[0], 0);
            assert_eq!(v[1], 1);
            assert_eq!(v[55], 55);
        }
        other => panic!("wrong buffer kind: {:?}", other),
    }
}
