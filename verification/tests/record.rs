use mseed::{DecodedTime, MSDataEncoding, MSErrorCode, MSRecord, MSSampleType, SampleBuffer};

/// Assemble a MiniSEED record buffer: fixed header, identifier, extra
/// headers, payload. The CRC field is left zero; tests that need a valid
/// checksum fill bytes 28..32 themselves.
#[allow(clippy::too_many_arguments)]
fn build_record(
    sid: &[u8],
    nanosecond: u32,
    year: u16,
    yday: u16,
    hour: u8,
    min: u8,
    sec: u8,
    encoding: i8,
    samprate: f64,
    samplecnt: u32,
    pubversion: u8,
    extra: &[u8],
    payload: &[u8],
) -> Vec<u8> {
    let mut v = Vec::new();
    v.extend_from_slice(b"MS");
    v.push(3);
    v.push(0); // flags
    v.extend_from_slice(&nanosecond.to_le_bytes());
    v.extend_from_slice(&year.to_le_bytes());
    v.extend_from_slice(&yday.to_le_bytes());
    v.push(hour);
    v.push(min);
    v.push(sec);
    v.push(encoding as u8);
    v.extend_from_slice(&samprate.to_le_bytes());
    v.extend_from_slice(&samplecnt.to_le_bytes());
    v.extend_from_slice(&0u32.to_le_bytes());
    v.push(pubversion);
    v.push(sid.len() as u8);
    v.extend_from_slice(&(extra.len() as u16).to_le_bytes());
    v.extend_from_slice(&(payload.len() as u32).to_le_bytes());
    v.extend_from_slice(sid);
    v.extend_from_slice(extra);
    v.extend_from_slice(payload);
    v
}

fn int32_payload(samples: &[i32]) -> Vec<u8> {
    let mut v = Vec::new();
    for s in samples {
        v.extend_from_slice(&s.to_le_bytes());
    }
    v
}

#[test]
fn header_fields_round_trip() {
    let payload = int32_payload(&[7, 8, 9]);
    let buf = build_record(
        b"XX_STA01_00_BHZ",
        123_456_789,
        2023,
        100,
        12,
        34,
        56,
        3, // Integer32
        40.0,
        3,
        2,
        b"{}",
        &payload,
    );
    let rec = MSRecord::parse(&buf, false).unwrap();
    assert_eq!(rec.pub_version(), 2);
    assert_eq!(rec.sample_cnt(), 3);
    assert_eq!(rec.crc(), 0);
    assert_eq!(rec.extra_length(), 2);
    assert_eq!(rec.data_length(), 12);
    assert_eq!(rec.record_length(), buf.len() as u32);
    assert_eq!(rec.encoding().unwrap(), MSDataEncoding::Integer32);
    assert_eq!(f64::from_bits(rec.sample_rate_bits()), 40.0);
    assert_eq!(rec.sid_lossy(), "XX_STA01_00_BHZ");
    assert_eq!(rec.network().unwrap(), "XX");
    assert_eq!(rec.station().unwrap(), "STA01");
    assert_eq!(rec.location().unwrap(), "00");
    assert_eq!(rec.channel().unwrap(), "BHZ");
    let t = rec.start_time().unwrap();
    assert_eq!(
        t,
        DecodedTime { year: 2023, yday: 100, hour: 12, min: 34, sec: 56, nsec: 123_456_789 }
    );
    // Not yet unpacked.
    assert_eq!(rec.num_samples(), 0);
    assert_eq!(rec.data_size(), 0);
    assert!(rec.sample_type().is_err());
}

#[test]
fn integer32_scenario_decodes_exactly() {
    // A minimal synthetic record: three declared samples, Integer32
    // encoding, little-endian payload for [1, -2, 3].
    let payload = int32_payload(&[1, -2, 3]);
    let buf = build_record(
        b"XX_STA01_00_BHZ",
        0,
        2020,
        1,
        0,
        0,
        0,
        3,
        100.0,
        3,
        1,
        b"",
        &payload,
    );
    let mut rec = MSRecord::parse(&buf, true).unwrap();
    assert_eq!(rec.num_samples(), 3);
    assert_eq!(rec.data_size(), 12);
    assert_eq!(rec.sample_type().unwrap(), MSSampleType::Integer32);
    let samples = rec.data_samples().unwrap();
    assert_eq!(samples, &SampleBuffer::Integer32(vec![1, -2, 3]));
}

#[test]
fn unpack_data_is_idempotent() {
    let payload = int32_payload(&[5, 6, 7, 8]);
    let buf = build_record(
        b"XX_STA01_00_BHZ",
        0,
        2020,
        1,
        0,
        0,
        0,
        3,
        1.0,
        4,
        1,
        b"",
        &payload,
    );
    let mut rec = MSRecord::parse(&buf, false).unwrap();
    let first = rec.unpack_data().unwrap();
    let second = rec.unpack_data().unwrap();
    assert_eq!(first, 4);
    assert_eq!(second, 4);
    let samples = rec.data_samples().unwrap().clone();
    assert_eq!(samples, SampleBuffer::Integer32(vec![5, 6, 7, 8]));
    let samples_again = rec.data_samples().unwrap();
    assert_eq!(samples_again, &samples);
}

#[test]
fn not_seed_marker_fails() {
    let payload = int32_payload(&[1]);
    let mut buf = build_record(
        b"XX_STA01_00_BHZ",
        0,
        2020,
        1,
        0,
        0,
        0,
        3,
        1.0,
        1,
        1,
        b"",
        &payload,
    );
    buf[0] = b'Z';
    let err = MSRecord::parse(&buf, false).unwrap_err();
    assert_eq!(err.code(), MSErrorCode::NotSEED);
    // The rest of the buffer does not matter: a version byte other than 3
    // fails the same way.
    let mut buf2 = build_record(
        b"XX_STA01_00_BHZ",
        0,
        2020,
        1,
        0,
        0,
        0,
        3,
        1.0,
        1,
        1,
        b"",
        &payload,
    );
    buf2[2] = 2;
    let err2 = MSRecord::parse(&buf2, false).unwrap_err();
    assert_eq!(err2.code(), MSErrorCode::NotSEED);
    // Two bytes are already enough to see a bad marker.
    let err3 = MSRecord::parse(b"XY", false).unwrap_err();
    assert_eq!(err3.code(), MSErrorCode::NotSEED);
}

#[test]
fn minimal_record_is_forty_bytes() {
    // Empty identifier, no extra headers, empty text payload.
    let buf = build_record(b"", 0, 1970, 1, 0, 0, 0, 0, 0.0, 0, 0, b"", b"");
    assert_eq!(buf.len(), 40);
    let mut rec = MSRecord::parse(&buf, true).unwrap();
    assert_eq!(rec.record_length(), 40);
    assert_eq!(rec.sid_lossy(), "");
    assert_eq!(rec.num_samples(), 0);
    assert_eq!(rec.data_samples().unwrap(), &SampleBuffer::Ascii(vec![]));
}

#[test]
fn short_buffer_fails_wrong_length() {
    let err = MSRecord::parse(&[b'M', b'S', 3, 0, 0], false).unwrap_err();
    assert_eq!(err.code(), MSErrorCode::WrongLength);
    let err2 = MSRecord::parse(&[], false).unwrap_err();
    assert_eq!(err2.code(), MSErrorCode::WrongLength);
    let err3 = MSRecord::parse(&[b'M'], false).unwrap_err();
    assert_eq!(err3.code(), MSErrorCode::WrongLength);
    let err4 = MSRecord::parse(b"MS", false).unwrap_err();
    assert_eq!(err4.code(), MSErrorCode::WrongLength);
}

#[test]
fn declared_length_beyond_buffer_fails_wrong_length() {
    let payload = int32_payload(&[1, 2]);
    let buf = build_record(
        b"XX_STA01_00_BHZ",
        0,
        2020,
        1,
        0,
        0,
        0,
        3,
        1.0,
        2,
        1,
        b"",
        &payload,
    );
    // Cut the buffer short of the declared record length.
    let err = MSRecord::parse(&buf[..buf.len() - 1], false).unwrap_err();
    assert_eq!(err.code(), MSErrorCode::WrongLength);
}

#[test]
fn oversized_record_length_fails_out_of_range() {
    let mut buf = build_record(
        b"XX_STA01_00_BHZ",
        0,
        2020,
        1,
        0,
        0,
        0,
        3,
        1.0,
        1,
        1,
        b"",
        &[0, 0, 0, 0],
    );
    // Declare a data payload so large the record length passes the format
    // maximum.
    buf[36..40].copy_from_slice(&0xFFFF_FFFFu32.to_le_bytes());
    let err = MSRecord::parse(&buf, false).unwrap_err();
    assert_eq!(err.code(), MSErrorCode::OutOfRange);
}

#[test]
fn trailing_bytes_beyond_record_are_ignored() {
    let payload = int32_payload(&[4]);
    let mut buf = build_record(
        b"XX_STA01_00_BHZ",
        0,
        2020,
        1,
        0,
        0,
        0,
        3,
        1.0,
        1,
        1,
        b"",
        &payload,
    );
    buf.extend_from_slice(b"garbage after the record");
    let mut rec = MSRecord::parse(&buf, true).unwrap();
    assert_eq!(rec.num_samples(), 1);
    assert_eq!(
        rec.data_samples().unwrap(),
        &SampleBuffer::Integer32(vec![4])
    );
}

#[test]
fn invalid_time_fields_fail_generic() {
    let payload = int32_payload(&[1]);
    // Day 400 of the year does not exist.
    let buf = build_record(
        b"XX_STA01_00_BHZ",
        0,
        2020,
        400,
        0,
        0,
        0,
        3,
        1.0,
        1,
        1,
        b"",
        &payload,
    );
    let err = MSRecord::parse(&buf, false).unwrap_err();
    assert_eq!(err.code(), MSErrorCode::GenericError);
    // A leap second (second 60) is not a representable calendar value.
    let buf2 = build_record(
        b"XX_STA01_00_BHZ",
        0,
        2020,
        1,
        23,
        59,
        60,
        3,
        1.0,
        1,
        1,
        b"",
        &payload,
    );
    let err2 = MSRecord::parse(&buf2, false).unwrap_err();
    assert_eq!(err2.code(), MSErrorCode::GenericError);
}

#[test]
fn unknown_encoding_fails_on_unpack_only() {
    let buf = build_record(
        b"XX_STA01_00_BHZ",
        0,
        2020,
        1,
        0,
        0,
        0,
        77,
        1.0,
        1,
        1,
        b"",
        &[1, 2, 3, 4],
    );
    // Deferred decode: the parse itself succeeds.
    let mut rec = MSRecord::parse(&buf, false).unwrap();
    assert!(rec.encoding().is_err());
    let err = rec.unpack_data().unwrap_err();
    assert_eq!(err.code(), MSErrorCode::UnknownFormat);
    // Eager decode fails the parse.
    let err2 = MSRecord::parse(&buf, true).unwrap_err();
    assert_eq!(err2.code(), MSErrorCode::UnknownFormat);
}

#[test]
fn legacy_encoding_recognized_but_not_decoded() {
    let buf = build_record(
        b"XX_STA01_00_BHZ",
        0,
        2020,
        1,
        0,
        0,
        0,
        30, // SRO
        1.0,
        1,
        1,
        b"",
        &[1, 2, 3, 4],
    );
    let mut rec = MSRecord::parse(&buf, false).unwrap();
    assert_eq!(rec.encoding().unwrap(), MSDataEncoding::SRO);
    let err = rec.unpack_data().unwrap_err();
    assert_eq!(err.code(), MSErrorCode::UnknownFormat);
}

#[test]
fn failed_unpack_leaves_record_untouched() {
    // Truncated payload: 8 bytes for 3 declared Integer32 samples.
    let buf = build_record(
        b"XX_STA01_00_BHZ",
        0,
        2020,
        1,
        0,
        0,
        0,
        3,
        1.0,
        3,
        1,
        b"",
        &[1, 0, 0, 0, 2, 0, 0, 0],
    );
    let mut rec = MSRecord::parse(&buf, false).unwrap();
    let err = rec.unpack_data().unwrap_err();
    assert_eq!(err.code(), MSErrorCode::WrongLength);
    assert_eq!(rec.num_samples(), 0);
    assert_eq!(rec.data_size(), 0);
    assert!(rec.sample_type().is_err());
    assert!(rec.data_samples().is_none());
}

#[test]
fn payload_larger_than_declared_fails_out_of_range() {
    // 12 payload bytes but only 2 declared Integer32 samples.
    let buf = build_record(
        b"XX_STA01_00_BHZ",
        0,
        2020,
        1,
        0,
        0,
        0,
        3,
        1.0,
        2,
        1,
        b"",
        &int32_payload(&[1, 2, 3]),
    );
    let mut rec = MSRecord::parse(&buf, false).unwrap();
    let err = rec.unpack_data().unwrap_err();
    assert_eq!(err.code(), MSErrorCode::OutOfRange);
}

#[test]
fn crc_validation() {
    let payload = int32_payload(&[1, -2, 3]);
    let mut buf = build_record(
        b"XX_STA01_00_BHZ",
        0,
        2020,
        1,
        0,
        0,
        0,
        3,
        1.0,
        3,
        1,
        b"",
        &payload,
    );
    // The CRC is computed over the record with the CRC field zeroed.
    let crc = crc32c::crc32c(&buf);
    buf[28..32].copy_from_slice(&crc.to_le_bytes());
    let rec = MSRecord::parse_with_options(&buf, false, true).unwrap();
    assert_eq!(rec.crc(), crc);
    // A corrupted record fails with InvalidCRC.
    let mut bad = buf.clone();
    bad[45] ^= 0xFF;
    let err = MSRecord::parse_with_options(&bad, false, true).unwrap_err();
    assert_eq!(err.code(), MSErrorCode::InvalidCRC);
    // Without validation the corruption goes unnoticed.
    assert!(MSRecord::parse_with_options(&bad, false, false).is_ok());
}

#[test]
fn negative_sample_rate_is_a_period() {
    // samprate = -100.0 encodes a sample period: the effective rate is
    // -1.0 / samprate = 0.01 Hz.
    let payload = int32_payload(&[1]);
    let buf = build_record(
        b"XX_STA01_00_BHZ",
        0,
        2020,
        1,
        0,
        0,
        0,
        3,
        -100.0,
        1,
        1,
        b"",
        &payload,
    );
    let rec = MSRecord::parse(&buf, false).unwrap();
    let samprate = f64::from_bits(rec.sample_rate_bits());
    assert_eq!(samprate, -100.0);
    let effective = if samprate < 0.0 { -1.0 / samprate } else { samprate };
    assert!((effective - 0.01).abs() < 1e-15);
}

#[test]
fn detect_record_length_peeks_the_prefix() {
    let payload = int32_payload(&[1, 2, 3]);
    let buf = build_record(
        b"XX_STA01_00_BHZ",
        0,
        2020,
        1,
        0,
        0,
        0,
        3,
        1.0,
        3,
        1,
        b"xy",
        &payload,
    );
    // The fixed 40-byte prefix is enough.
    let n = MSRecord::detect_record_length(&buf[..40]).unwrap();
    assert_eq!(n as usize, buf.len());
    assert_eq!(n, 40 + 15 + 2 + 12);
    let err = MSRecord::detect_record_length(&buf[..20]).unwrap_err();
    assert_eq!(err.code(), MSErrorCode::WrongLength);
}

#[test]
fn ascii_payload_passes_through() {
    // Ten declared samples, one byte each.
    let buf = build_record(
        b"XX_STA01_00_LOG",
        0,
        2020,
        1,
        0,
        0,
        0,
        0, // text
        0.0,
        10,
        1,
        b"",
        b"a log line",
    );
    let mut rec = MSRecord::parse(&buf, true).unwrap();
    assert_eq!(rec.sample_type().unwrap(), MSSampleType::Ascii);
    assert_eq!(rec.num_samples(), 10);
    assert_eq!(rec.num_samples(), rec.sample_cnt());
    assert_eq!(rec.data_size(), 10);
    assert_eq!(
        rec.data_samples().unwrap(),
        &SampleBuffer::Ascii(b"a log line".to_vec())
    );
}

#[test]
fn ascii_payload_count_is_validated() {
    // A text payload shorter than the declared count is a truncation.
    let short = build_record(
        b"XX_STA01_00_LOG",
        0,
        2020,
        1,
        0,
        0,
        0,
        0,
        0.0,
        20,
        1,
        b"",
        b"a log line",
    );
    let err = MSRecord::parse(&short, true).unwrap_err();
    assert_eq!(err.code(), MSErrorCode::WrongLength);
    // One longer than declared is out of range.
    let long = build_record(
        b"XX_STA01_00_LOG",
        0,
        2020,
        1,
        0,
        0,
        0,
        0,
        0.0,
        3,
        1,
        b"",
        b"a log line",
    );
    let err2 = MSRecord::parse(&long, true).unwrap_err();
    assert_eq!(err2.code(), MSErrorCode::OutOfRange);
}

#[test]
fn float_payloads_decode_to_bit_patterns() {
    let mut payload = Vec::new();
    for x in [1.5f32, -2.25f32] {
        payload.extend_from_slice(&x.to_le_bytes());
    }
    let buf = build_record(
        b"XX_STA01_00_BHZ",
        0,
        2020,
        1,
        0,
        0,
        0,
        4, // float32
        1.0,
        2,
        1,
        b"",
        &payload,
    );
    let mut rec = MSRecord::parse(&buf, true).unwrap();
    assert_eq!(rec.sample_type().unwrap(), MSSampleType::Float32);
    match rec.data_samples().unwrap() {
        SampleBuffer::Float32(bits) => {
            let vals: Vec<f32> = bits.iter().map(|b| f32::from_bits(*b)).collect();
            assert_eq!(vals, vec![1.5, -2.25]);
        }
        other => panic!("wrong buffer kind: {:?}", other),
    }

    let mut payload64 = Vec::new();
    for x in [3.5f64, -0.125f64] {
        payload64.extend_from_slice(&x.to_le_bytes());
    }
    let buf64 = build_record(
        b"XX_STA01_00_BHZ",
        0,
        2020,
        1,
        0,
        0,
        0,
        5, // float64
        1.0,
        2,
        1,
        b"",
        &payload64,
    );
    let mut rec64 = MSRecord::parse(&buf64, true).unwrap();
    assert_eq!(rec64.sample_type().unwrap(), MSSampleType::Float64);
    match rec64.data_samples().unwrap() {
        SampleBuffer::Float64(bits) => {
            let vals: Vec<f64> = bits.iter().map(|b| f64::from_bits(*b)).collect();
            assert_eq!(vals, vec![3.5, -0.125]);
        }
        other => panic!("wrong buffer kind: {:?}", other),
    }
}

#[test]
fn int16_payload_widens() {
    let mut payload = Vec::new();
    for x in [300i16, -5i16, 0i16] {
        payload.extend_from_slice(&x.to_le_bytes());
    }
    let buf = build_record(
        b"XX_STA01_00_BHZ",
        0,
        2020,
        1,
        0,
        0,
        0,
        1, // int16
        1.0,
        3,
        1,
        b"",
        &payload,
    );
    let mut rec = MSRecord::parse(&buf, true).unwrap();
    assert_eq!(rec.sample_type().unwrap(), MSSampleType::Integer32);
    assert_eq!(
        rec.data_samples().unwrap(),
        &SampleBuffer::Integer32(vec![300, -5, 0])
    );
}
