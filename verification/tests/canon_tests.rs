use tuf::jsonval::JsonValue;
use tuf::Error;

fn obj(members: Vec<(&str, JsonValue)>) -> JsonValue {
    JsonValue::Object(members.into_iter().map(|(k, v)| (k.to_string(), v)).collect())
}

fn s(x: &str) -> JsonValue {
    JsonValue::Str(x.to_string())
}

#[test]
fn canonical_simple_object() {
    let v = obj(vec![("b", JsonValue::Int(2)), ("a", JsonValue::Int(1))]);
    let bytes = tuf::canon::canonicalize(&v).unwrap();
    assert_eq!(bytes, b"{\"a\":1,\"b\":2}".to_vec());
}

#[test]
fn canonical_insensitive_to_member_order() {
    let v1 = obj(vec![
        ("b", JsonValue::Int(2)),
        ("a", s("x")),
        ("c", JsonValue::Array(vec![JsonValue::Null, JsonValue::Bool(true)])),
    ]);
    let v2 = obj(vec![
        ("c", JsonValue::Array(vec![JsonValue::Null, JsonValue::Bool(true)])),
        ("b", JsonValue::Int(2)),
        ("a", s("x")),
    ]);
    let b1 = tuf::canon::canonicalize(&v1).unwrap();
    let b2 = tuf::canon::canonicalize(&v2).unwrap();
    assert_eq!(b1, b2);
    assert_eq!(b1, b"{\"a\":\"x\",\"b\":2,\"c\":[null,true]}".to_vec());
}

#[test]
fn canonical_nested_objects_sorted() {
    let inner = obj(vec![("z", JsonValue::Int(1)), ("y", JsonValue::Int(0))]);
    let v = obj(vec![("outer", inner)]);
    let bytes = tuf::canon::canonicalize(&v).unwrap();
    assert_eq!(bytes, b"{\"outer\":{\"y\":0,\"z\":1}}".to_vec());
}

#[test]
fn canonical_rejects_duplicate_keys() {
    let v = obj(vec![("a", JsonValue::Int(1)), ("a", JsonValue::Int(2))]);
    let r = tuf::canon::canonicalize(&v);
    assert_eq!(r, Err(Error::MalformedDocument));
}

#[test]
fn canonical_rejects_nested_duplicate_keys() {
    let inner = obj(vec![("k", JsonValue::Int(1)), ("k", JsonValue::Int(2))]);
    let v = JsonValue::Array(vec![inner]);
    let r = tuf::canon::canonicalize(&v);
    assert_eq!(r, Err(Error::MalformedDocument));
}

#[test]
fn canonical_string_escaping() {
    let v = s("a\"b\\c");
    let bytes = tuf::canon::canonicalize(&v).unwrap();
    assert_eq!(bytes, b"\"a\\\"b\\\\c\"".to_vec());
}

#[test]
fn canonical_utf8_passthrough() {
    let v = s("\u{e9}");
    let bytes = tuf::canon::canonicalize(&v).unwrap();
    assert_eq!(bytes, vec![0x22, 0xC3, 0xA9, 0x22]);
}

#[test]
fn canonical_integers() {
    assert_eq!(
        tuf::canon::canonicalize(&JsonValue::Int(0)).unwrap(),
        b"0".to_vec()
    );
    assert_eq!(
        tuf::canon::canonicalize(&JsonValue::Int(-42)).unwrap(),
        b"-42".to_vec()
    );
    assert_eq!(
        tuf::canon::canonicalize(&JsonValue::Int(i64::MIN)).unwrap(),
        b"-9223372036854775808".to_vec()
    );
    assert_eq!(
        tuf::canon::canonicalize(&JsonValue::Int(i64::MAX)).unwrap(),
        b"9223372036854775807".to_vec()
    );
}

#[test]
fn canonical_empty_containers() {
    assert_eq!(
        tuf::canon::canonicalize(&JsonValue::Array(vec![])).unwrap(),
        b"[]".to_vec()
    );
    assert_eq!(tuf::canon::canonicalize(&obj(vec![])).unwrap(), b"{}".to_vec());
    assert_eq!(tuf::canon::canonicalize(&s("")).unwrap(), b"\"\"".to_vec());
    assert_eq!(
        tuf::canon::canonicalize(&JsonValue::Null).unwrap(),
        b"null".to_vec()
    );
    assert_eq!(
        tuf::canon::canonicalize(&JsonValue::Bool(false)).unwrap(),
        b"false".to_vec()
    );
}

#[test]
fn datetime_parsing() {
    let dt = tuf::dtime::parse_datetime("2017-01-01T00:00:00Z").unwrap();
    assert_eq!(dt.year, 2017);
    assert_eq!(dt.month, 1);
    assert_eq!(dt.day, 1);
    // leap day accepted in a leap year, rejected otherwise
    assert!(tuf::dtime::parse_datetime("2024-02-29T12:30:59Z").is_ok());
    assert!(tuf::dtime::parse_datetime("2023-02-29T12:30:59Z").is_err());
    assert!(tuf::dtime::parse_datetime("1900-02-29T00:00:00Z").is_err());
    assert!(tuf::dtime::parse_datetime("2000-02-29T00:00:00Z").is_ok());
    // shape errors
    assert!(tuf::dtime::parse_datetime("2017-01-01 00:00:00Z").is_err());
    assert!(tuf::dtime::parse_datetime("2017-13-01T00:00:00Z").is_err());
    assert!(tuf::dtime::parse_datetime("2017-01-01T24:00:00Z").is_err());
    assert!(tuf::dtime::parse_datetime("2017-01-01T00:00:00").is_err());
    assert!(tuf::dtime::parse_datetime("2017-01-32T00:00:00Z").is_err());
}

#[test]
fn hex_round_trip() {
    let bytes = tuf::hex::hex_decode("00ff10ab").unwrap();
    assert_eq!(bytes, vec![0x00, 0xFF, 0x10, 0xAB]);
    let back = tuf::hex::hex_encode(&bytes);
    assert_eq!(back, "00ff10ab");
    // odd length and non-hex characters are rejected
    assert!(tuf::hex::hex_decode("abc").is_err());
    assert!(tuf::hex::hex_decode("zz").is_err());
    // uppercase digits are not the lowercase form
    assert!(tuf::hex::hex_decode("AB").is_err());
    assert_eq!(tuf::hex::hex_decode("").unwrap(), Vec::<u8>::new());
}

#[test]
fn pkcs1_unwraps_subject_public_key_info() {
    let mut spki: Vec<u8> = vec![0x30, 0x15];
    spki.extend_from_slice(&[
        0x30, 0x0D, 0x06, 0x09, 0x2A, 0x86, 0x48, 0x86, 0xF7, 0x0D, 0x01, 0x01, 0x01, 0x05,
        0x00,
    ]);
    spki.extend_from_slice(&[0x03, 0x04, 0x00, 0x01, 0x02, 0x03]);
    let out = tuf::pkcs1::convert_to_pkcs1(&spki);
    assert_eq!(out, vec![0x01, 0x02, 0x03]);
}

#[test]
fn pkcs1_leaves_other_bytes_alone() {
    let raw = vec![0xFF, 0x01, 0x02];
    assert_eq!(tuf::pkcs1::convert_to_pkcs1(&raw), raw);
    let empty: Vec<u8> = vec![];
    assert_eq!(tuf::pkcs1::convert_to_pkcs1(&empty), empty);
}
