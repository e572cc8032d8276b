use htrpc::deserializers::rpc_response::status_code_to_str;
use htrpc::error::ErrorKind;
use htrpc::serializers::rpc_response::status_from_str;
use htrpc::types::HttpMethod;
use htrpc::types::HttpStatus;

#[test]
fn status_mapping() {
    // encoding the NotFound outcome yields 404 / "Not Found"
    assert_eq!(HttpStatus::NotFound.code(), 404);
    assert_eq!(HttpStatus::NotFound.reason_phrase(), "Not Found");
    // decoding 404 selects NotFound
    assert_eq!(HttpStatus::from_code(404).unwrap(), HttpStatus::NotFound);
    // an unrecognized code fails decoding as invalid
    assert_eq!(HttpStatus::from_code(499).unwrap_err().kind, ErrorKind::Invalid);
    assert_eq!(HttpStatus::from_code(306).unwrap_err().kind, ErrorKind::Invalid);
}

#[test]
fn status_table_round_trips() {
    let some = [
        HttpStatus::Continue,
        HttpStatus::Okay,
        HttpStatus::NoContent,
        HttpStatus::PermanentRedirect,
        HttpStatus::BadRequest,
        HttpStatus::ImATeapot,
        HttpStatus::UnavailableForLegalReasons,
        HttpStatus::InternalServerError,
        HttpStatus::NotExtended,
    ];
    for s in some {
        assert_eq!(HttpStatus::from_code(s.code()).unwrap(), s);
        assert_eq!(HttpStatus::from_name(s.name()).unwrap(), s);
    }
    assert_eq!(HttpStatus::Okay.code(), 200);
    assert_eq!(HttpStatus::Okay.reason_phrase(), "OK");
}

#[test]
fn status_names() {
    assert_eq!(status_code_to_str(200).unwrap(), "Ok");
    assert_eq!(status_code_to_str(404).unwrap(), "NotFound");
    assert_eq!(status_code_to_str(111).unwrap_err().kind, ErrorKind::Invalid);
    assert_eq!(status_from_str("NotFound").unwrap(), HttpStatus::NotFound);
    assert_eq!(status_from_str("Ok").unwrap(), HttpStatus::Okay);
    assert_eq!(status_from_str("NoSuchOutcome").unwrap_err().kind, ErrorKind::Invalid);
}

#[test]
fn method_tokens() {
    assert_eq!(HttpMethod::Put.token(), "PUT");
    assert_eq!(HttpMethod::from_token("GET").unwrap(), HttpMethod::Get);
    assert_eq!(HttpMethod::from_token("YELL").unwrap_err().kind, ErrorKind::Invalid);
}
