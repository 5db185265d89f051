use trust0::crypto::asn::{
    stringify_asn_value, stringify_bool, stringify_enumerated, stringify_integer,
    stringify_octets, stringify_oid, stringify_text, AsnValue, TAG_BOOLEAN, TAG_ENUMERATED,
    TAG_GENERALIZED_TIME, TAG_GENERAL_STRING, TAG_IA5_STRING, TAG_INTEGER, TAG_OCTET_STRING,
    TAG_OID, TAG_PRINTABLE_STRING, TAG_RELATIVE_OID, TAG_UTC_TIME, TAG_UTF8_STRING,
};
use trust0::error::AppError;

fn value(tag: u32, data: &[u8]) -> AsnValue {
    AsnValue { tag, constructed: false, data: data.to_vec() }
}

fn text_of(tag: u32, data: &[u8]) -> String {
    match stringify_asn_value(&value(tag, data)) {
        Ok(text) => text,
        Err(err) => panic!("Unexpected result: tag={}, err={:?}", tag, err),
    }
}

fn is_conversion_failure(tag: u32, data: &[u8]) -> bool {
    matches!(stringify_asn_value(&value(tag, data)), Err(AppError::Conversion))
}

#[test]
fn asn_boolean() {
    assert_eq!(text_of(TAG_BOOLEAN, &[0xff]), "true");
    assert_eq!(text_of(TAG_BOOLEAN, &[0x01]), "true");
    assert_eq!(text_of(TAG_BOOLEAN, &[0x00]), "false");
    assert!(is_conversion_failure(TAG_BOOLEAN, &[]));
    assert!(is_conversion_failure(TAG_BOOLEAN, &[0, 0]));
}

#[test]
fn asn_enumerated() {
    assert_eq!(text_of(TAG_ENUMERATED, &[0x05]), "5");
    assert_eq!(text_of(TAG_ENUMERATED, &[0x01, 0x00]), "256");
    assert_eq!(text_of(TAG_ENUMERATED, &[0xff, 0xff, 0xff, 0xff]), "4294967295");
    assert_eq!(text_of(TAG_ENUMERATED, &[]), "0");
    assert_eq!(text_of(TAG_ENUMERATED, &[0, 0, 0, 0, 0, 0, 0, 0, 0, 5]), "5");
    assert!(is_conversion_failure(TAG_ENUMERATED, &[0x01, 0, 0, 0, 0]));
    assert!(is_conversion_failure(TAG_ENUMERATED, &[0xff; 9]));
    let constructed = AsnValue { tag: TAG_ENUMERATED, constructed: true, data: vec![5] };
    assert!(matches!(stringify_asn_value(&constructed), Err(AppError::Conversion)));
}

#[test]
fn asn_integer() {
    assert_eq!(text_of(TAG_INTEGER, &[0x00]), "0");
    assert_eq!(text_of(TAG_INTEGER, &[0x7f]), "127");
    assert_eq!(text_of(TAG_INTEGER, &[0x01, 0x00]), "256");
    assert_eq!(text_of(TAG_INTEGER, &[0xff]), "-1");
    assert_eq!(text_of(TAG_INTEGER, &[0x80]), "-128");
    assert_eq!(
        text_of(TAG_INTEGER, &[0x7f, 0xff, 0xff, 0xff, 0xff, 0xff, 0xff, 0xff]),
        "9223372036854775807"
    );
    assert_eq!(
        text_of(TAG_INTEGER, &[0x80, 0, 0, 0, 0, 0, 0, 0]),
        "-9223372036854775808"
    );
    assert_eq!(text_of(TAG_INTEGER, &[]), "0");
    assert_eq!(text_of(TAG_INTEGER, &[0, 0, 0, 0, 0, 0, 0, 0, 0, 1]), "1");
    assert_eq!(text_of(TAG_INTEGER, &[0, 0, 0]), "0");
    assert_eq!(text_of(TAG_INTEGER, &[0xff, 0x7f]), "-129");
    assert_eq!(text_of(TAG_INTEGER, &[0xff, 0xff, 0xff, 0xff, 0xff, 0xff, 0xff, 0xfe]), "-2");
    assert_eq!(
        text_of(TAG_INTEGER, &[0, 0x7f, 0xff, 0xff, 0xff, 0xff, 0xff, 0xff, 0xff]),
        "9223372036854775807"
    );
    assert!(is_conversion_failure(TAG_INTEGER, &[0x01, 0, 0, 0, 0, 0, 0, 0, 0]));
    assert!(is_conversion_failure(TAG_INTEGER, &[0, 0x80, 0, 0, 0, 0, 0, 0, 0]));
    assert!(is_conversion_failure(TAG_INTEGER, &[0, 0xff, 0xff, 0xff, 0xff, 0xff, 0xff, 0xff, 0xff]));
    assert!(is_conversion_failure(TAG_INTEGER, &[0xff; 9]));
}

#[test]
fn asn_octet_string() {
    assert_eq!(text_of(TAG_OCTET_STRING, &[0xde, 0xad, 0x00, 0x0f]), "dead000f");
    assert_eq!(text_of(TAG_OCTET_STRING, &[]), "");
}

#[test]
fn asn_object_identifier() {
    let rsa = [0x2a, 0x86, 0x48, 0x86, 0xf7, 0x0d];
    assert_eq!(text_of(TAG_OID, &rsa), "1.2.840.113549");
    assert_eq!(text_of(TAG_RELATIVE_OID, &rsa), "1.2.840.113549");
    assert_eq!(text_of(TAG_OID, &[0x55, 0x04, 0x03]), "2.5.4.3");
}

#[test]
fn asn_strings() {
    assert_eq!(text_of(TAG_PRINTABLE_STRING, b"Example CA (1)"), "Example CA (1)");
    assert_eq!(text_of(TAG_IA5_STRING, b"user@example.com"), "user@example.com");
    assert_eq!(text_of(TAG_GENERAL_STRING, b"100:user*"), "100:user*");
    assert_eq!(text_of(TAG_UTF8_STRING, "z\u{fc}rich".as_bytes()), "z\u{fc}rich");
    assert_eq!(text_of(TAG_UTF8_STRING, b""), "");
    assert!(is_conversion_failure(TAG_PRINTABLE_STRING, b"a*b"));
    assert!(is_conversion_failure(TAG_IA5_STRING, &[0x61, 0x80]));
    assert!(is_conversion_failure(TAG_GENERAL_STRING, &[0xff]));
    assert!(is_conversion_failure(TAG_UTF8_STRING, &[0xc3]));
}

#[test]
fn asn_times() {
    assert_eq!(text_of(TAG_UTC_TIME, b"230102030405Z"), "0023-01-02 03:04:05Z");
    assert_eq!(text_of(TAG_GENERALIZED_TIME, b"20230102030405Z"), "2023-01-02 03:04:05Z");
    assert_eq!(text_of(TAG_GENERALIZED_TIME, b"20230102030405"), "2023-01-02 03:04:05");
    assert!(is_conversion_failure(TAG_UTC_TIME, b"2301"));
    assert!(is_conversion_failure(TAG_UTC_TIME, b"231302030405Z"));
    assert!(is_conversion_failure(TAG_GENERALIZED_TIME, b"not a time"));
}

#[test]
fn asn_unsupported_tags() {
    for tag in [0u32, 3, 5, 9, 16, 17, 18, 20, 26, 28, 30, 31, 1000] {
        match stringify_asn_value(&value(tag, &[1])) {
            Err(AppError::UnsupportedTag(found)) => assert_eq!(found, tag),
            other => panic!("Unexpected result: tag={}, {:?}", tag, other),
        }
    }
    assert_eq!(AppError::UnsupportedTag(3).to_string(), "unsupported tag 3");
    assert_eq!(AppError::Conversion.to_string(), "Failed ASN value conversion");
}

#[test]
fn asn_texts_of_what_was_decoded() {
    assert_eq!(stringify_bool(Some(true)).unwrap(), "true");
    assert_eq!(stringify_bool(Some(false)).unwrap(), "false");
    assert!(matches!(stringify_bool(None), Err(AppError::Conversion)));
    assert_eq!(stringify_enumerated(Some(0)).unwrap(), "0");
    assert_eq!(stringify_enumerated(Some(u32::MAX)).unwrap(), "4294967295");
    assert!(matches!(stringify_enumerated(None), Err(AppError::Conversion)));
    assert_eq!(stringify_integer(Some(-42)).unwrap(), "-42");
    assert_eq!(stringify_integer(Some(i64::MIN)).unwrap(), "-9223372036854775808");
    assert!(matches!(stringify_integer(None), Err(AppError::Conversion)));
    assert_eq!(stringify_text(Some("abc".to_string())).unwrap(), "abc");
    assert!(matches!(stringify_text(None), Err(AppError::Conversion)));
    assert_eq!(stringify_octets(Some(vec![0x0a, 0xff])).unwrap(), "0aff");
    assert!(matches!(stringify_octets(None), Err(AppError::Conversion)));
    assert_eq!(stringify_oid(Some(vec![0x55, 0x04, 0x0a])).unwrap(), "2.5.4.10");
    assert!(matches!(stringify_oid(None), Err(AppError::Conversion)));
}
