use rusteze::audio::{encode_samples, f32le_to_pcm16, pcm16_from_f32_bits, WavError, WavWriter};

#[test]
fn audio_converts_float_samples_to_pcm16() {
    let samples = f32le_to_pcm16(&0.5f32.to_le_bytes()).unwrap();
    assert_eq!(samples, vec![16_383]);
}

#[test]
fn rejects_incomplete_float_samples() {
    assert!(f32le_to_pcm16(&[0, 0, 0]).is_err());
}

fn float_reference(value: f32) -> i16 {
    (value.clamp(-1.0, 1.0) * f32::from(i16::MAX)) as i16
}

#[test]
fn integer_conversion_matches_float_arithmetic_on_chosen_values() {
    let values = [
        0.0f32, -0.0, 0.5, -0.5, 1.0, -1.0, 2.0, -3.5, 0.25, 0.999_999_9, -0.999_999_9,
        1.0e-3, 3.0e-5, 1.0e-40, -1.0e-40, 0.123_456_79, 0.7, -0.7, 0.333_333_34,
        f32::INFINITY, f32::NEG_INFINITY, f32::NAN, f32::MIN_POSITIVE, f32::EPSILON,
        1.0 / 32767.0, 0.5 / 32767.0, 1.5 / 32767.0, 16383.5 / 32767.0,
    ];
    for value in values {
        assert_eq!(pcm16_from_f32_bits(value.to_bits()), float_reference(value), "{value}");
    }
}

#[test]
fn integer_conversion_matches_float_arithmetic_on_many_bit_patterns() {
    let mut state: u64 = 0x2545_f491_4f6c_dd1d;
    for _ in 0..200_000 {
        state ^= state << 13;
        state ^= state >> 7;
        state ^= state << 17;
        let bits = (state >> 16) as u32;
        let value = f32::from_bits(bits);
        assert_eq!(pcm16_from_f32_bits(bits), float_reference(value), "{bits:#x}");
    }
    // Every value in [0.5, 1) near integer products.
    for step in 0..100_000u32 {
        let bits = 0x3f00_0000 + step * 83;
        assert_eq!(pcm16_from_f32_bits(bits), float_reference(f32::from_bits(bits)));
    }
}

#[test]
fn converts_several_samples_in_order() {
    let mut bytes = Vec::new();
    for value in [0.5f32, -1.0, 0.0, 2.0] {
        bytes.extend_from_slice(&value.to_le_bytes());
    }
    assert_eq!(f32le_to_pcm16(&bytes).unwrap(), vec![16_383, -32_767, 0, 32_767]);
    assert_eq!(
        f32le_to_pcm16(&bytes[..7]),
        Err("PipeWire returned an incomplete F32LE sample")
    );
}

#[test]
fn encodes_samples_little_endian() {
    assert_eq!(encode_samples(&[1, -1, 256, i16::MIN]), vec![1, 0, 255, 255, 0, 1, 0, 128]);
    assert_eq!(encode_samples(&[]), Vec::<u8>::new());
}

#[test]
fn writes_a_pcm16_wav_header() {
    let mut writer = WavWriter::create(48_000, 2);
    assert_eq!(WavWriter::placeholder(), vec![0u8; 44]);
    writer.add_data_bytes(8).unwrap();
    let header = writer.header().unwrap();
    let mut expected = Vec::new();
    expected.extend_from_slice(b"RIFF");
    expected.extend_from_slice(&44u32.to_le_bytes());
    expected.extend_from_slice(b"WAVEfmt ");
    expected.extend_from_slice(&16u32.to_le_bytes());
    expected.extend_from_slice(&1u16.to_le_bytes());
    expected.extend_from_slice(&2u16.to_le_bytes());
    expected.extend_from_slice(&48_000u32.to_le_bytes());
    expected.extend_from_slice(&192_000u32.to_le_bytes());
    expected.extend_from_slice(&4u16.to_le_bytes());
    expected.extend_from_slice(&16u16.to_le_bytes());
    expected.extend_from_slice(b"data");
    expected.extend_from_slice(&8u32.to_le_bytes());
    assert_eq!(header, expected);
}

#[test]
fn refuses_data_beyond_the_size_fields() {
    let mut writer = WavWriter::create(8_000, 1);
    writer.add_data_bytes(u32::MAX as usize - 10).unwrap();
    assert_eq!(writer.header(), Err(WavError::TooLarge));
    assert_eq!(writer.add_data_bytes(11), Err(WavError::TooLarge));
    assert_eq!(WavError::TooLarge.message(), "WAV file is too large");
}

#[test]
fn a_finished_file_is_the_header_and_every_sample() {
    let mut writer = WavWriter::create(8_000, 1);
    let mut file = WavWriter::placeholder();
    for chunk in [&[1i16, -2][..], &[3][..], &[][..]] {
        file.extend_from_slice(&encode_samples(chunk));
        writer.count_samples(chunk).unwrap();
    }
    let header = writer.header().unwrap();
    file[..44].copy_from_slice(&header);
    assert_eq!(&file[40..44], &6u32.to_le_bytes());
    assert_eq!(&file[44..], &encode_samples(&[1, -2, 3])[..]);
    let mut full = WavWriter::create(8_000, 1);
    full.add_data_bytes(u32::MAX as usize - 1).unwrap();
    assert_eq!(full.count_samples(&[0]), Err(WavError::TooLarge));
}
