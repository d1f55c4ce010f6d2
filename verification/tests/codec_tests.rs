use kakarot_aec::codec::{decode, decode_sample, encode, encode_sample};

#[test]
fn decode_reads_little_endian_pairs() {
    let bytes: Vec<u8> = vec![0x34, 0x12, 0xff, 0xff, 0x00, 0x80, 0xff, 0x7f, 0x00, 0x00];
    assert_eq!(decode(&bytes), vec![0x1234i16, -1, i16::MIN, i16::MAX, 0]);
}

#[test]
fn encode_writes_little_endian_pairs() {
    let samples: Vec<i16> = vec![1, -2, 0x1234, i16::MIN, i16::MAX];
    assert_eq!(
        encode(&samples),
        vec![0x01u8, 0x00, 0xfe, 0xff, 0x34, 0x12, 0x00, 0x80, 0xff, 0x7f]
    );
}

#[test]
fn decode_sample_exact_values() {
    assert_eq!(decode_sample(0x00, 0x00), 0);
    assert_eq!(decode_sample(0x01, 0x00), 1);
    assert_eq!(decode_sample(0x00, 0x01), 256);
    assert_eq!(decode_sample(0xff, 0x7f), 32767);
    assert_eq!(decode_sample(0x00, 0x80), -32768);
    assert_eq!(decode_sample(0xff, 0xff), -1);
    assert_eq!(decode_sample(0x9c, 0xff), -100);
}

#[test]
fn encode_sample_exact_values() {
    assert_eq!(encode_sample(0), (0x00, 0x00));
    assert_eq!(encode_sample(1), (0x01, 0x00));
    assert_eq!(encode_sample(256), (0x00, 0x01));
    assert_eq!(encode_sample(32767), (0xff, 0x7f));
    assert_eq!(encode_sample(-32768), (0x00, 0x80));
    assert_eq!(encode_sample(-1), (0xff, 0xff));
    assert_eq!(encode_sample(-100), (0x9c, 0xff));
}

#[test]
fn codec_agrees_with_std_on_every_sample() {
    let mut value: i32 = i16::MIN as i32;
    while value <= i16::MAX as i32 {
        let sample = value as i16;
        let expected = sample.to_le_bytes();
        assert_eq!(encode_sample(sample), (expected[0], expected[1]));
        assert_eq!(decode_sample(expected[0], expected[1]), sample);
        value += 1;
    }
}

#[test]
fn round_trip_gives_the_samples_back() {
    let samples: Vec<i16> = vec![0, 1, -1, 255, 256, -256, 12345, -12345, i16::MIN, i16::MAX];
    assert_eq!(decode(&encode(&samples)), samples);
}

#[test]
fn round_trip_of_nothing_is_nothing() {
    let samples: Vec<i16> = Vec::new();
    assert_eq!(encode(&samples), Vec::<u8>::new());
    assert_eq!(decode(&encode(&samples)), samples);
}

#[test]
fn encode_doubles_the_length() {
    let samples: Vec<i16> = vec![7; 123];
    assert_eq!(encode(&samples).len(), 246);
}

#[test]
fn decoding_five_bytes_yields_two_samples() {
    let bytes: Vec<u8> = vec![0x01, 0x00, 0x02, 0x00, 0x7f];
    let samples = decode(&bytes);
    assert_eq!(samples.len(), 2);
    assert_eq!(samples, vec![1i16, 2]);
}

#[test]
fn decoding_a_single_byte_yields_nothing() {
    let bytes: Vec<u8> = vec![0xab];
    assert_eq!(decode(&bytes), Vec::<i16>::new());
}

#[test]
fn decoding_nothing_yields_nothing() {
    let bytes: Vec<u8> = Vec::new();
    assert_eq!(decode(&bytes), Vec::<i16>::new());
}

#[test]
fn encoding_what_was_decoded_drops_only_the_odd_byte() {
    let bytes: Vec<u8> = vec![0x10, 0x20, 0x30, 0x40, 0x50, 0x60, 0x70];
    assert_eq!(encode(&decode(&bytes)), vec![0x10u8, 0x20, 0x30, 0x40, 0x50, 0x60]);
}
