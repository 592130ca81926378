use wave_vpi::decode::{
    binary_string_two_state, bytes_to_u32s_be, cover_with_32, decode_sample, hex_string_of_bits,
    integer_two_state, string_from_chars, vector_words_four_state, vector_words_two_state,
    DecodeFault, DecodedValue, Sample, ValueFormat, VectorWord,
};

fn chars(s: &str) -> Vec<char> {
    s.chars().collect()
}

#[test]
fn integer_encoding_of_forty_two() {
    let data: Vec<u8> = vec![0x00, 0x00, 0x00, 0x2A];
    assert_eq!(integer_two_state(&data), 42);
}

#[test]
fn word_vector_encoding_of_forty_two_is_one_word() {
    let data: Vec<u8> = vec![0x00, 0x00, 0x00, 0x2A];
    let words = vector_words_two_state(&data);
    assert_eq!(words, vec![VectorWord { aval: 0x2A, bval: 0 }]);
}

#[test]
fn hex_encoding_of_eight_bit_forty_two() {
    let hex = hex_string_of_bits(&chars("00101010"));
    assert_eq!(hex, chars("2a"));
}

#[test]
fn binary_string_of_one_byte() {
    let data: Vec<u8> = vec![0x2A];
    assert_eq!(binary_string_two_state(&data, 8), chars("00101010"));
}

#[test]
fn binary_string_takes_low_bits_of_wider_data() {
    let data: Vec<u8> = vec![0xFF, 0x2A];
    assert_eq!(binary_string_two_state(&data, 8), chars("00101010"));
}

#[test]
fn binary_string_of_non_byte_multiple_width() {
    let data: Vec<u8> = vec![0x2A];
    assert_eq!(binary_string_two_state(&data, 6), chars("101010"));
}

#[test]
fn hex_of_short_leading_group_aligns_to_least_significant_end() {
    let hex = hex_string_of_bits(&chars("101010"));
    assert_eq!(hex, chars("2a"));
}

#[test]
fn hex_depends_only_on_bit_characters_not_byte_alignment() {
    let narrow = binary_string_two_state(&vec![0x2A], 8);
    let wide = binary_string_two_state(&vec![0xFF, 0x2A], 8);
    assert_eq!(hex_string_of_bits(&narrow), hex_string_of_bits(&wide));
}

#[test]
fn hex_of_single_bit() {
    assert_eq!(hex_string_of_bits(&chars("1")), chars("1"));
    assert_eq!(hex_string_of_bits(&chars("0")), chars("0"));
}

#[test]
fn hex_of_all_digits() {
    let hex = hex_string_of_bits(&chars("0001001000110100010101100111100010011010101111001101111011110000"));
    assert_eq!(hex, chars("123456789abcdef0"));
}

#[test]
fn words_pad_on_the_left() {
    let data: Vec<u8> = vec![0x01, 0x00, 0x00, 0x00, 0x2A];
    let words = bytes_to_u32s_be(&data);
    assert_eq!(words, vec![0x01, 0x2A]);
}

#[test]
fn word_vector_emits_least_significant_word_first() {
    let data: Vec<u8> = vec![0x01, 0x00, 0x00, 0x00, 0x2A];
    let words = vector_words_two_state(&data);
    assert_eq!(
        words,
        vec![VectorWord { aval: 0x2A, bval: 0 }, VectorWord { aval: 0x01, bval: 0 }]
    );
}

#[test]
fn integer_encoding_takes_least_significant_word() {
    let data: Vec<u8> = vec![0x01, 0x00, 0x00, 0x00, 0x2A];
    assert_eq!(integer_two_state(&data), 0x2A);
}

#[test]
fn integer_encoding_reinterprets_sign_bit() {
    let data: Vec<u8> = vec![0xFF, 0xFF, 0xFF, 0xFF];
    assert_eq!(integer_two_state(&data), -1);
}

#[test]
fn cover_with_32_rounds_up() {
    assert_eq!(cover_with_32(0), 0);
    assert_eq!(cover_with_32(1), 1);
    assert_eq!(cover_with_32(32), 1);
    assert_eq!(cover_with_32(33), 2);
    assert_eq!(cover_with_32(70), 3);
}

#[test]
fn decode_two_state_in_every_encoding() {
    let sample = Sample::TwoState { width: 32, data: vec![0x00, 0x00, 0x00, 0x2A] };
    match decode_sample(&sample, ValueFormat::Integer) {
        Ok(DecodedValue::Integer(n)) => assert_eq!(n, 42),
        other => panic!("unexpected: {:?}", other),
    }
    match decode_sample(&sample, ValueFormat::Vector) {
        Ok(DecodedValue::Vector(v)) => assert_eq!(v, vec![VectorWord { aval: 42, bval: 0 }]),
        other => panic!("unexpected: {:?}", other),
    }
    match decode_sample(&sample, ValueFormat::BinaryString) {
        Ok(DecodedValue::Text(t)) => assert_eq!(t, "00000000000000000000000000101010"),
        other => panic!("unexpected: {:?}", other),
    }
    match decode_sample(&sample, ValueFormat::HexString) {
        Ok(DecodedValue::Text(t)) => assert_eq!(t, "0000002a"),
        other => panic!("unexpected: {:?}", other),
    }
}

#[test]
fn decode_eight_bit_hex_is_two_digits() {
    let sample = Sample::TwoState { width: 8, data: vec![0x2A] };
    match decode_sample(&sample, ValueFormat::HexString) {
        Ok(DecodedValue::Text(t)) => assert_eq!(t, "2a"),
        other => panic!("unexpected: {:?}", other),
    }
}

#[test]
fn decode_four_state_vector_is_zeroed_with_right_shape() {
    let sample = Sample::FourState { width: 70, bits: vec!['x'; 70] };
    match decode_sample(&sample, ValueFormat::Vector) {
        Ok(DecodedValue::Vector(v)) => {
            assert_eq!(v.len(), 3);
            for w in v {
                assert_eq!(w, VectorWord { aval: 0, bval: 0 });
            }
        },
        other => panic!("unexpected: {:?}", other),
    }
}

#[test]
fn decode_four_state_integer_is_zero() {
    let sample = Sample::FourState { width: 4, bits: chars("x0z1") };
    match decode_sample(&sample, ValueFormat::Integer) {
        Ok(DecodedValue::Integer(n)) => assert_eq!(n, 0),
        other => panic!("unexpected: {:?}", other),
    }
}

#[test]
fn decode_four_state_binary_string_passes_through() {
    let sample = Sample::FourState { width: 4, bits: chars("x0z1") };
    match decode_sample(&sample, ValueFormat::BinaryString) {
        Ok(DecodedValue::Text(t)) => assert_eq!(t, "x0z1"),
        other => panic!("unexpected: {:?}", other),
    }
}

#[test]
fn decode_four_state_hex_is_unsupported_format() {
    let sample = Sample::FourState { width: 4, bits: chars("x0z1") };
    assert_eq!(
        decode_sample(&sample, ValueFormat::HexString),
        Err(DecodeFault::UnsupportedFormat)
    );
}

#[test]
fn decode_unknown_representation_is_a_fault_in_every_encoding() {
    for format in [
        ValueFormat::Vector,
        ValueFormat::Integer,
        ValueFormat::HexString,
        ValueFormat::BinaryString,
    ] {
        assert_eq!(
            decode_sample(&Sample::Unsupported, format),
            Err(DecodeFault::UnsupportedRepresentation)
        );
    }
}

#[test]
fn decode_two_state_without_bytes_is_a_representation_fault() {
    let sample = Sample::TwoState { width: 0, data: vec![] };
    assert_eq!(
        decode_sample(&sample, ValueFormat::Integer),
        Err(DecodeFault::UnsupportedRepresentation)
    );
}

#[test]
fn binary_string_round_trip_reconstructs_bytes() {
    let data: Vec<u8> = vec![0x00, 0x00, 0x00, 0x2A];
    let bits = binary_string_two_state(&data, 32);
    let mut rebuilt: Vec<u8> = vec![0; 4];
    for (j, c) in bits.iter().enumerate() {
        let k = 31 - j;
        if *c == '1' {
            rebuilt[3 - k / 8] |= 1 << (k % 8);
        } else {
            assert_eq!(*c, '0');
        }
    }
    assert_eq!(rebuilt, data);
}

#[test]
fn binary_string_round_trip_respects_zero_padding() {
    let data: Vec<u8> = vec![0x2A];
    let bits = binary_string_two_state(&data, 6);
    assert_eq!(bits.len(), 6);
    let mut rebuilt: u8 = 0;
    for c in bits.iter() {
        rebuilt = (rebuilt << 1) | if *c == '1' { 1 } else { 0 };
    }
    assert_eq!(rebuilt, 0x2A);
}

#[test]
fn string_from_chars_keeps_characters() {
    assert_eq!(string_from_chars(&chars("x0z1")), "x0z1");
    assert_eq!(string_from_chars(&chars("")), "");
}

#[test]
fn four_state_vector_helper_counts_words() {
    assert_eq!(vector_words_four_state(1).len(), 1);
    assert_eq!(vector_words_four_state(32).len(), 1);
    assert_eq!(vector_words_four_state(33).len(), 2);
    assert_eq!(vector_words_four_state(0).len(), 0);
}
