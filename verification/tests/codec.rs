use htrpc::deserializers::http_body::HttpBodyDeserializer;
use htrpc::deserializers::http_header::{header_get, parse_slice};
use htrpc::deserializers::url_path::{
    decode_path_values, match_path, parse_escaped_str, split_path, UrlPathDeserializer,
};
use htrpc::deserializers::url_query::decode_query;
use htrpc::error::ErrorKind;
use htrpc::path_template::PathSegment;
use htrpc::percent::{percent_decode, percent_encode};
use htrpc::procedure::{EntryPoint, QueryField, Scalar, ScalarKind};
use htrpc::serializers::http_body::HttpBodySerializer;
use htrpc::serializers::rpc_request::join_path;
use htrpc::serializers::url_path::fill_path;
use htrpc::serializers::url_query::encode_query;

#[test]
fn percent_round_trip() {
    let encoded = percent_encode("hello world");
    assert_eq!(encoded, "hello%20world");
    assert_eq!(percent_decode(&encoded).unwrap(), "hello world");
    assert_eq!(percent_encode("a/b%c"), "a%2Fb%25c");
    assert_eq!(percent_decode("a%2Fb%25c").unwrap(), "a/b%c");
    assert!(percent_decode("bad%zzescape").is_err());
    assert!(percent_decode("truncated%2").is_err());
}

#[test]
fn url_path_it_works() {
    let url = url::Url::parse("http://localhost/foo/hello%20world/baz/3").unwrap();
    let segments: Vec<String> = url.path_segments().unwrap().map(|s| s.to_string()).collect();
    let template = vec![
        PathSegment::Val("foo"),
        PathSegment::Var,
        PathSegment::Val("baz"),
        PathSegment::Var,
    ];
    let raws = match_path(&template, &segments).unwrap();
    assert_eq!(raws[0], "hello world");
    let typed = decode_path_values(&vec![ScalarKind::Text, ScalarKind::Uint], &raws).unwrap();
    match &typed[1] {
        Scalar::Uint(v) => assert_eq!(*v, 3),
        _ => panic!("expected an unsigned value"),
    }
}

#[test]
fn url_path_fill_works() {
    let template = vec![
        PathSegment::Val("foo"),
        PathSegment::Var,
        PathSegment::Val("baz"),
        PathSegment::Var,
    ];
    let values = vec!["hello world".to_string(), "3".to_string()];
    let filled = fill_path(&template, &values).unwrap();
    let path = join_path(&filled);
    assert_eq!(
        format!("http://localhost{}", path),
        "http://localhost/foo/hello%20world/baz/3"
    );
    // the wrong arity is rejected either way round
    assert!(fill_path(&template, &vec!["x".to_string()]).is_err());
    let three = vec!["a".to_string(), "b".to_string(), "c".to_string()];
    assert!(fill_path(&template, &three).is_err());
}

#[test]
fn fill_then_match_round_trip() {
    let template = vec![
        PathSegment::Val("foo"),
        PathSegment::Var,
        PathSegment::Val("baz"),
        PathSegment::Var,
    ];
    let values = vec!["hello/world %?#".to_string(), "".to_string()];
    let filled = fill_path(&template, &values).unwrap();
    let back = match_path(&template, &filled).unwrap();
    assert_eq!(back, values);
    // splitting the joined path gives the filled segments back
    let path = join_path(&filled);
    assert_eq!(split_path(&path), filled);
}

#[test]
fn match_rejects_leftovers_and_mismatches() {
    let template = vec![PathSegment::Val("foo"), PathSegment::Var];
    let ok = vec!["foo".to_string(), "1".to_string()];
    assert!(match_path(&template, &ok).is_ok());
    let wrong_literal = vec!["bar".to_string(), "1".to_string()];
    assert!(match_path(&template, &wrong_literal).is_err());
    let leftover = vec!["foo".to_string(), "1".to_string(), "2".to_string()];
    assert!(match_path(&template, &leftover).is_err());
    let short = vec!["foo".to_string()];
    assert!(match_path(&template, &short).is_err());
}

#[test]
fn scalar_texts_parse_back() {
    assert!(matches!(
        parse_escaped_str(ScalarKind::Int, "-42"),
        Ok(Scalar::Int(-42))
    ));
    assert!(matches!(
        parse_escaped_str(ScalarKind::Bool, "true"),
        Ok(Scalar::Bool(true))
    ));
    assert!(matches!(
        parse_escaped_str(ScalarKind::Uint, "18446744073709551615"),
        Ok(Scalar::Uint(u64::MAX))
    ));
    // too large for the machine representation
    let e = parse_escaped_str(ScalarKind::Uint, "18446744073709551616").unwrap_err();
    assert_eq!(e.kind, ErrorKind::Invalid);
    let e = parse_escaped_str(ScalarKind::Int, "abc").unwrap_err();
    assert_eq!(e.kind, ErrorKind::Invalid);
}

#[test]
fn map_works() {
    // query pairs in field order, form-urlencoded
    let args = vec![
        ("bar".to_string(), Some(Scalar::Text("baz qux".to_string()))),
        ("foo".to_string(), Some(Scalar::Uint(3))),
    ];
    let q = encode_query(&args);
    assert_eq!(format!("http://localhost/?{}", q), "http://localhost/?bar=baz+qux&foo=3");
}

#[test]
fn url_query_struct_works() {
    // absent optional fields are skipped on encode ...
    let args = vec![
        ("foo".to_string(), None),
        ("bar".to_string(), Some(Scalar::Text("baz qux".to_string()))),
    ];
    assert_eq!(format!("http://localhost/?{}", encode_query(&args)), "http://localhost/?bar=baz+qux");
    let args = vec![
        ("foo".to_string(), Some(Scalar::Uint(3))),
        ("bar".to_string(), Some(Scalar::Text("baz qux".to_string()))),
    ];
    assert_eq!(
        format!("http://localhost/?{}", encode_query(&args)),
        "http://localhost/?foo=3&bar=baz+qux"
    );
    // ... and decode to the missing state on read
    let fields = vec![
        QueryField { name: "foo", kind: ScalarKind::Uint, required: false },
        QueryField { name: "bar", kind: ScalarKind::Text, required: true },
    ];
    let pairs = vec![("bar".to_string(), "baz qux".to_string())];
    let decoded = decode_query(&fields, &pairs).unwrap();
    assert!(decoded[0].is_none());
    assert!(matches!(&decoded[1], Some(Scalar::Text(s)) if s == "baz qux"));
    let pairs = vec![
        ("foo".to_string(), "10".to_string()),
        ("bar".to_string(), "baz qux".to_string()),
    ];
    let decoded = decode_query(&fields, &pairs).unwrap();
    assert!(matches!(&decoded[0], Some(Scalar::Uint(10))));
    // a present but unparsable value fails as invalid
    let pairs = vec![
        ("foo".to_string(), "ten".to_string()),
        ("bar".to_string(), "x".to_string()),
    ];
    assert_eq!(decode_query(&fields, &pairs).unwrap_err().kind, ErrorKind::Invalid);
    // a missing required field fails as invalid
    let pairs = vec![("foo".to_string(), "1".to_string())];
    assert_eq!(decode_query(&fields, &pairs).unwrap_err().kind, ErrorKind::Invalid);
}

#[test]
fn header_lookup_is_case_insensitive_first_wins() {
    let headers = vec![
        ("Content-Type".to_string(), "text/plain".to_string()),
        ("X-Tag".to_string(), "one".to_string()),
        ("x-tag".to_string(), "two".to_string()),
    ];
    assert_eq!(header_get(&headers, "content-type").unwrap(), "text/plain");
    assert_eq!(header_get(&headers, "X-TAG").unwrap(), "one");
    assert!(header_get(&headers, "missing").is_none());
}

#[test]
fn body_codec_works() {
    let bytes = HttpBodySerializer::serialize_scalar(&Scalar::Uint(42));
    assert_eq!(bytes, b"42".to_vec());
    let de = HttpBodyDeserializer::new(bytes);
    assert!(matches!(de.deserialize_scalar(ScalarKind::Uint), Ok(Scalar::Uint(42))));
    // non-ASCII text survives the UTF-8 boundary
    let text = Scalar::Text("ba\u{f1}o".to_string());
    let bytes = HttpBodySerializer::serialize_scalar(&text);
    match parse_slice(ScalarKind::Text, bytes) {
        Ok(Scalar::Text(s)) => assert_eq!(s, "ba\u{f1}o"),
        _ => panic!("expected text"),
    }
    // invalid UTF-8 is rejected
    let e = parse_slice(ScalarKind::Text, vec![0xff, 0xfe]).unwrap_err();
    assert_eq!(e.kind, ErrorKind::Invalid);
}

#[test]
fn url_path_deserializer_cursor() {
    let ep = EntryPoint::new(vec![
        PathSegment::Val("foo"),
        PathSegment::Var,
        PathSegment::Val("baz"),
        PathSegment::Var,
    ]);
    let segments = vec![
        "foo".to_string(),
        "hello%20world".to_string(),
        "baz".to_string(),
        "3".to_string(),
    ];
    let mut de = UrlPathDeserializer::new(&ep, &segments).unwrap();
    assert!(!de.is_end_of_segment());
    assert_eq!(de.next_value().unwrap(), "hello world");
    assert!(de.finish().is_err());
    assert_eq!(de.next_value().unwrap(), "3");
    assert!(de.is_end_of_segment());
    assert!(de.finish().is_ok());
    assert!(de.next_value().is_err());
    // a mismatching path is rejected at construction
    let bad = vec!["foo".to_string(), "x".to_string()];
    assert!(UrlPathDeserializer::new(&ep, &bad).is_err());
}
