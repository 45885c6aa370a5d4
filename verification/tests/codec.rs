use scarf::codec::IndexValue;
use scarf::codec::decode_hex;
use scarf::codec::decode_index_value;
use scarf::codec::decode_value;
use scarf::codec::encode_hex;
use scarf::codec::encode_index_value;
use scarf::codec::encode_value;

fn round_trip(v: IndexValue) -> IndexValue {
    let enc = encode_index_value(&v);
    decode_index_value(enc.as_str()).expect("an encoded value must decode")
}

#[test]
fn value_codec_round_trip_nil() {
    assert!(matches!(round_trip(IndexValue::Nil), IndexValue::Nil));
}

#[test]
fn value_codec_round_trip_bool() {
    assert!(matches!(round_trip(IndexValue::Bool(true)), IndexValue::Bool(true)));
    assert!(matches!(round_trip(IndexValue::Bool(false)), IndexValue::Bool(false)));
}

#[test]
fn value_codec_round_trip_int() {
    for i in [0i64, 1, -1, i64::MIN, i64::MAX, 42, -90210] {
        match round_trip(IndexValue::Int(i)) {
            IndexValue::Int(j) => assert_eq!(i, j),
            _ => panic!("wrong variant"),
        }
    }
}

#[test]
fn value_codec_round_trip_str() {
    for s in ["", "a@x.com", "héllo wörld", "日本語", "slash/and\0nul"] {
        match round_trip(IndexValue::Str(s.to_string())) {
            IndexValue::Str(t) => assert_eq!(s, t),
            _ => panic!("wrong variant"),
        }
    }
}

#[test]
fn value_codec_round_trip_bytes() {
    let b = vec![0u8, 255, 1, 2, 3];
    match round_trip(IndexValue::Bytes(b.clone())) {
        IndexValue::Bytes(c) => assert_eq!(b, c),
        _ => panic!("wrong variant"),
    }
}

#[test]
fn value_codec_exact_bytes() {
    assert_eq!(encode_value(&IndexValue::Nil), vec![0u8]);
    assert_eq!(encode_value(&IndexValue::Bool(false)), vec![1u8, 0]);
    assert_eq!(encode_value(&IndexValue::Bool(true)), vec![1u8, 1]);
    // 0 is offset to 2^63, whose big-endian bytes start with 0x80.
    assert_eq!(encode_value(&IndexValue::Int(0)), vec![2u8, 0x80, 0, 0, 0, 0, 0, 0, 0]);
    assert_eq!(encode_value(&IndexValue::Int(-1)), vec![2u8, 0x7f, 255, 255, 255, 255, 255, 255, 255]);
    assert_eq!(
        encode_value(&IndexValue::Str("ab".to_string())),
        vec![3u8, 0, 0, 0, 0, 0, 0, 0, 2, b'a', b'b']
    );
    assert_eq!(encode_value(&IndexValue::Bytes(vec![9u8])), vec![4u8, 0, 0, 0, 0, 0, 0, 0, 1, 9]);
}

#[test]
fn int_encoding_preserves_order() {
    let mut last: Option<Vec<u8>> = None;
    for i in [i64::MIN, -5, -1, 0, 1, 7, i64::MAX] {
        let enc = encode_value(&IndexValue::Int(i));
        if let Some(prev) = last {
            assert!(prev < enc, "byte order must follow numeric order");
        }
        last = Some(enc);
    }
}

#[test]
fn encoding_is_deterministic() {
    let v1 = IndexValue::Str("a@x.com".to_string());
    let v2 = IndexValue::Str("a@x.com".to_string());
    assert_eq!(encode_index_value(&v1), encode_index_value(&v2));
    let w = IndexValue::Str("b@x.com".to_string());
    assert_ne!(encode_index_value(&v1), encode_index_value(&w));
}

#[test]
fn distinct_variants_encode_distinctly() {
    let vals = [
        IndexValue::Nil,
        IndexValue::Bool(false),
        IndexValue::Int(0),
        IndexValue::Str(String::new()),
        IndexValue::Bytes(Vec::new()),
    ];
    for (i, a) in vals.iter().enumerate() {
        for (j, b) in vals.iter().enumerate() {
            if i != j {
                assert_ne!(encode_index_value(a), encode_index_value(b));
            }
        }
    }
}

#[test]
fn decode_rejects_malformed_bytes() {
    assert!(decode_value(&[]).is_none());
    assert!(decode_value(&[5]).is_none());
    assert!(decode_value(&[0, 0]).is_none());
    assert!(decode_value(&[1, 2]).is_none());
    assert!(decode_value(&[2, 1]).is_none());
    // length prefix disagrees with the payload
    assert!(decode_value(&[4, 0, 0, 0, 0, 0, 0, 0, 2, 9]).is_none());
    // invalid UTF-8 payload under the string tag
    assert!(decode_value(&[3, 0, 0, 0, 0, 0, 0, 0, 1, 0xff]).is_none());
}

#[test]
fn hex_exact_and_reversible() {
    assert_eq!(encode_hex(&[]), "");
    assert_eq!(encode_hex(&[0u8, 255, 16, 1]), "00ff1001");
    assert_eq!(decode_hex("00ff1001"), Some(vec![0u8, 255, 16, 1]));
    assert_eq!(decode_hex(""), Some(Vec::new()));
    assert_eq!(decode_hex("abc"), None, "odd length is no hex rendering");
    assert_eq!(decode_hex("zz"), None, "non-digits are rejected");
    assert_eq!(decode_hex("AB"), None, "the rendering is lower-case");
}

#[test]
fn index_key_is_text_safe() {
    let enc = encode_index_value(&IndexValue::Str("a/b:c d".to_string()));
    assert!(enc.chars().all(|c| c.is_ascii_hexdigit()));
}
