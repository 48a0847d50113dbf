use typed_store::key::KeyCodec;
use typed_store::value::ValueCodec;
use typed_store::TypedStoreError;

#[test]
fn u64_key_is_eight_bytes_most_significant_first() {
    assert_eq!(1u64.encode_key().unwrap(), vec![0, 0, 0, 0, 0, 0, 0, 1]);
    assert_eq!(0x0102_0304_0506_0708u64.encode_key().unwrap(), vec![1, 2, 3, 4, 5, 6, 7, 8]);
    assert_eq!(u64::MAX.encode_key().unwrap(), vec![255; 8]);
    assert_eq!(0u64.encode_key().unwrap(), vec![0; 8]);
}

#[test]
fn u32_key_is_four_bytes_most_significant_first() {
    assert_eq!(1u32.encode_key().unwrap(), vec![0, 0, 0, 1]);
    assert_eq!(0x0A0B_0C0Du32.encode_key().unwrap(), vec![10, 11, 12, 13]);
    assert_eq!(u32::MAX.encode_key().unwrap(), vec![255; 4]);
}

#[test]
fn key_encoding_keeps_the_order() {
    let samples: Vec<u64> = vec![0, 1, 2, 255, 256, 257, 65_535, 65_536, 1 << 32, (1 << 32) + 1, u64::MAX - 1, u64::MAX];
    for a in samples.iter() {
        for b in samples.iter() {
            let ea = a.encode_key().unwrap();
            let eb = b.encode_key().unwrap();
            assert_eq!(ea < eb, a < b);
            assert_eq!(ea == eb, a == b);
        }
    }
    let narrow: Vec<u32> = vec![0, 1, 255, 256, 70_000, u32::MAX];
    for a in narrow.iter() {
        for b in narrow.iter() {
            assert_eq!(a.encode_key().unwrap() < b.encode_key().unwrap(), a < b);
        }
    }
}

#[test]
fn key_round_trip() {
    for k in [0u64, 1, 255, 256, 1 << 40, u64::MAX] {
        assert_eq!(u64::decode_key(&k.encode_key().unwrap()), Ok(k));
    }
    for k in [0u32, 1, 255, 256, 1 << 20, u32::MAX] {
        assert_eq!(u32::decode_key(&k.encode_key().unwrap()), Ok(k));
    }
}

#[test]
fn key_of_wrong_length_is_a_decoding_error() {
    assert!(matches!(u64::decode_key(&[0, 0, 0, 1]), Err(TypedStoreError::DecodingError(_))));
    assert!(matches!(u64::decode_key(&[0; 9]), Err(TypedStoreError::DecodingError(_))));
    assert!(matches!(u64::decode_key(&[]), Err(TypedStoreError::DecodingError(_))));
    assert!(matches!(u32::decode_key(&[0; 8]), Err(TypedStoreError::DecodingError(_))));
    assert!(matches!(u32::decode_key(&[0; 3]), Err(TypedStoreError::DecodingError(_))));
    assert_eq!(u64::decode_key(&[0, 0, 0, 0, 0, 0, 1, 0]), Ok(256));
    assert_eq!(u32::decode_key(&[0, 0, 1, 0]), Ok(256));
}

#[test]
fn u64_value_is_eight_bytes_least_significant_first() {
    assert_eq!(1u64.encode_value().unwrap(), vec![1, 0, 0, 0, 0, 0, 0, 0]);
    assert_eq!(0x0102_0304_0506_0708u64.encode_value().unwrap(), vec![8, 7, 6, 5, 4, 3, 2, 1]);
    assert_eq!(u64::decode_value(&[0, 1, 0, 0, 0, 0, 0, 0]), Ok(256));
}

#[test]
fn u64_value_ignores_trailing_bytes_and_rejects_short_input() {
    assert_eq!(u64::decode_value(&[7, 0, 0, 0, 0, 0, 0, 0, 99, 98]), Ok(7));
    assert!(matches!(u64::decode_value(&[7, 0, 0]), Err(TypedStoreError::DecodingError(_))));
}

#[test]
fn bytes_value_is_length_then_payload() {
    let value: Vec<u8> = vec![9, 8, 7];
    assert_eq!(value.encode_value().unwrap(), vec![3, 0, 0, 0, 0, 0, 0, 0, 9, 8, 7]);
    let empty: Vec<u8> = vec![];
    assert_eq!(empty.encode_value().unwrap(), vec![0; 8]);
    assert_eq!(<Vec<u8>>::decode_value(&[2, 0, 0, 0, 0, 0, 0, 0, 5, 6, 7]), Ok(vec![5, 6]));
    assert!(matches!(
        <Vec<u8>>::decode_value(&[4, 0, 0, 0, 0, 0, 0, 0, 5, 6, 7]),
        Err(TypedStoreError::DecodingError(_))
    ));
    assert!(matches!(<Vec<u8>>::decode_value(&[1, 0, 0]), Err(TypedStoreError::DecodingError(_))));
}

#[test]
fn string_value_is_length_then_utf8() {
    assert_eq!("ab".to_string().encode_value().unwrap(), vec![2, 0, 0, 0, 0, 0, 0, 0, 97, 98]);
    assert_eq!("é".to_string().encode_value().unwrap(), vec![2, 0, 0, 0, 0, 0, 0, 0, 0xC3, 0xA9]);
    assert_eq!(String::decode_value(&[1, 0, 0, 0, 0, 0, 0, 0, 120, 121]), Ok("x".to_string()));
    assert!(matches!(
        String::decode_value(&[1, 0, 0, 0, 0, 0, 0, 0, 0xFF]),
        Err(TypedStoreError::DecodingError(_))
    ));
    assert!(matches!(
        String::decode_value(&[3, 0, 0, 0, 0, 0, 0, 0, 97]),
        Err(TypedStoreError::DecodingError(_))
    ));
}

#[test]
fn value_round_trip() {
    for v in [0u64, 1, 1 << 33, u64::MAX] {
        assert_eq!(u64::decode_value(&v.encode_value().unwrap()), Ok(v));
    }
    for v in [vec![], vec![0u8], vec![1, 2, 3, 255], vec![7u8; 300]] {
        assert_eq!(<Vec<u8>>::decode_value(&v.encode_value().unwrap()), Ok(v));
    }
    for v in ["", "a", "hello world", "grüße, 世界"] {
        assert_eq!(String::decode_value(&v.to_string().encode_value().unwrap()), Ok(v.to_string()));
    }
}
