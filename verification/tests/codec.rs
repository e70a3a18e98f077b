use txn_pipeline::codec::{
    hex_decode, hex_decode_bare, hex_encode, hex_encode_prefixed, i128_to_dec_string,
    i64_to_dec_string, parse_dec_i128, parse_dec_i64, parse_dec_u128, parse_dec_u64,
    u128_to_dec_string, u64_to_dec_string,
};
use txn_pipeline::errors::PipelineError;

#[test]
fn hex_encode_renders_lowercase_pairs() {
    assert_eq!(hex_encode(&vec![]), "");
    assert_eq!(hex_encode(&vec![0x00]), "00");
    assert_eq!(hex_encode(&vec![0x12, 0x34, 0xab]), "1234ab");
    assert_eq!(hex_encode_prefixed(&vec![0x12, 0x34, 0xab]), "0x1234ab");
}

#[test]
fn hex_encode_matches_reference_implementation() {
    let samples: Vec<Vec<u8>> = vec![
        vec![],
        vec![0],
        vec![0xff],
        vec![0xde, 0xad, 0xbe, 0xef],
        (0u8..=255).collect(),
    ];
    for bytes in samples {
        assert_eq!(hex_encode(&bytes), hex::encode(&bytes));
    }
}

#[test]
fn hex_decode_round_trips() {
    let bytes = vec![0x12, 0x34, 0xab, 0x00, 0xff];
    assert_eq!(hex_decode(&hex_encode(&bytes)).unwrap(), bytes);
    assert_eq!(hex_decode(&hex_encode_prefixed(&bytes)).unwrap(), bytes);
}

#[test]
fn hex_decode_accepts_uppercase_and_optional_prefix() {
    assert_eq!(hex_decode("DEADBEEF").unwrap(), vec![0xde, 0xad, 0xbe, 0xef]);
    assert_eq!(hex_decode("0xDEADBEEF").unwrap(), vec![0xde, 0xad, 0xbe, 0xef]);
    assert_eq!(hex_decode("").unwrap(), Vec::<u8>::new());
    assert_eq!(hex_decode("0x").unwrap(), Vec::<u8>::new());
    assert_eq!(hex_decode(&hex::encode(vec![1u8, 2, 3])).unwrap(), vec![1, 2, 3]);
}

#[test]
fn hex_decode_rejects_odd_length_and_junk() {
    assert_eq!(hex_decode("abc"), Err(PipelineError::DecodeError));
    assert_eq!(hex_decode("zz"), Err(PipelineError::DecodeError));
    assert_eq!(hex_decode("0xg1"), Err(PipelineError::DecodeError));
    assert!(hex::decode("zz").is_err());
}

#[test]
fn bare_hex_decode_takes_no_prefix() {
    assert_eq!(hex_decode_bare("1234"), Ok(vec![0x12, 0x34]));
    // `0x` is not stripped here: `x` is not a hex digit.
    assert_eq!(hex_decode_bare("0x12"), Err(PipelineError::DecodeError));
}

#[test]
fn decimal_encode_renders_exact_strings() {
    assert_eq!(u64_to_dec_string(0), "0");
    assert_eq!(u64_to_dec_string(42), "42");
    assert_eq!(u64_to_dec_string(u64::MAX), "18446744073709551615");
    assert_eq!(u128_to_dec_string(u128::MAX), "340282366920938463463374607431768211455");
    assert_eq!(i64_to_dec_string(-1), "-1");
    assert_eq!(i64_to_dec_string(i64::MIN), "-9223372036854775808");
    assert_eq!(i128_to_dec_string(i128::MIN), "-170141183460469231731687303715884105728");
    assert_eq!(i128_to_dec_string(7), "7");
}

#[test]
fn decimal_round_trips_through_strings() {
    for n in [0u64, 1, 9, 10, 12345, u64::MAX] {
        assert_eq!(parse_dec_u64(&u64_to_dec_string(n)).unwrap(), n);
    }
    for n in [0u128, 53, u64::MAX as u128 + 1, u128::MAX] {
        assert_eq!(parse_dec_u128(&u128_to_dec_string(n)).unwrap(), n);
    }
    for n in [i64::MIN, -7, 0, 7, i64::MAX] {
        assert_eq!(parse_dec_i64(&i64_to_dec_string(n)).unwrap(), n);
    }
    for n in [i128::MIN, -7, 0, 7, i128::MAX] {
        assert_eq!(parse_dec_i128(&i128_to_dec_string(n)).unwrap(), n);
    }
}

#[test]
fn decimal_parse_rejects_empty_junk_and_overflow() {
    assert_eq!(parse_dec_u64(""), Err(PipelineError::DecodeError));
    assert_eq!(parse_dec_u64("12a"), Err(PipelineError::DecodeError));
    assert_eq!(parse_dec_u64("-1"), Err(PipelineError::DecodeError));
    // one past u64::MAX
    assert_eq!(parse_dec_u64("18446744073709551616"), Err(PipelineError::DecodeError));
    // one past u128::MAX
    assert_eq!(
        parse_dec_u128("340282366920938463463374607431768211456"),
        Err(PipelineError::DecodeError)
    );
    // one past i64::MAX, one below i64::MIN
    assert_eq!(parse_dec_i64("9223372036854775808"), Err(PipelineError::DecodeError));
    assert_eq!(parse_dec_i64("-9223372036854775809"), Err(PipelineError::DecodeError));
}

#[test]
fn decimal_parse_accepts_leading_zeros() {
    assert_eq!(parse_dec_u64("007").unwrap(), 7);
    assert_eq!(parse_dec_i64("-007").unwrap(), -7);
}
