use webcodecs::error::{
    abort_error, config_type_error, data_error, dom_exception, encoding_error, invalid_state_error,
    js_type_error, not_supported_error, read_dom_message, trim_str, DOMExceptionName, ErrorStatus,
};

#[test]
fn dom_exception_messages() {
    assert_eq!(not_supported_error("x").reason, "NotSupportedError: x");
    assert_eq!(invalid_state_error("closed").reason, "InvalidStateError: closed");
    assert_eq!(encoding_error("e").reason, "EncodingError: e");
    assert_eq!(data_error("d").reason, "DataError: d");
    assert_eq!(abort_error("a").reason, "AbortError: a");
    assert_eq!(dom_exception(DOMExceptionName::ConstraintError, "c").reason, "ConstraintError: c");
    assert_eq!(js_type_error("t").status, ErrorStatus::InvalidArg);
    assert_eq!(config_type_error("bad").reason, "bad");
}

#[test]
fn dom_messages_read_back() {
    let (name, msg) = read_dom_message("EncodingError:   Decode failed ").unwrap();
    assert_eq!(name, DOMExceptionName::EncodingError);
    assert_eq!(msg, "Decode failed");
    assert!(read_dom_message("TypeError: x").is_none());
    assert!(read_dom_message("plain failure").is_none());
    assert_eq!(trim_str("  a b \n"), "a b");
}

#[test]
fn dom_message_round_trip() {
    for name in [
        DOMExceptionName::EncodingError,
        DOMExceptionName::InvalidStateError,
        DOMExceptionName::NotSupportedError,
        DOMExceptionName::DataError,
        DOMExceptionName::AbortError,
        DOMExceptionName::ConstraintError,
    ] {
        let e = dom_exception(name, " Cannot flush a closed codec ");
        let (back, msg) = read_dom_message(&e.reason).unwrap();
        assert_eq!(back, name);
        assert_eq!(msg, "Cannot flush a closed codec");
    }
}
