use tray_node::error::{Error, ErrorMessage, ErrorType};
use tray_node::http_status::HttpStatus;

#[test]
fn http_status_numbers_and_phrases() {
    assert_eq!(HttpStatus::OK.to_u16(), 200);
    assert_eq!(HttpStatus::NotFound.to_u16(), 404);
    assert_eq!(HttpStatus::ImATeapot.to_u16(), 418);
    assert_eq!(HttpStatus::NotFound.reason_phrase(), "Not Found");
    assert_eq!(HttpStatus::OK.reason_phrase(), "OK");
    assert_eq!(HttpStatus::from_u16(503).unwrap(), HttpStatus::ServiceUnavailable);
}

#[test]
fn http_status_unknown_number() {
    let e = HttpStatus::from_u16(999).unwrap_err();
    assert_eq!(e.error_type, ErrorType::InvalidInput);
    assert_eq!(e.message, "Invalid HTTP status code: 999");
}

#[test]
fn http_status_round_trip() {
    for code in 0u16..1000 {
        if let Ok(s) = HttpStatus::from_u16(code) {
            assert_eq!(s.to_u16(), code);
        }
    }
    for s in [HttpStatus::Continue, HttpStatus::Created, HttpStatus::BadGateway, HttpStatus::Locked] {
        assert_eq!(HttpStatus::from_u16(s.to_u16()).unwrap(), s);
    }
}

#[test]
fn error_kinds_to_status() {
    assert_eq!(ErrorType::NotFound.to_http_status(), HttpStatus::NotFound);
    assert_eq!(ErrorType::PermissionDenied.to_http_status(), HttpStatus::Forbidden);
    assert_eq!(ErrorType::InvalidInput.to_http_status(), HttpStatus::BadRequest);
    assert_eq!(ErrorType::AlreadyExists.to_http_status(), HttpStatus::Conflict);
}

#[test]
fn status_to_error_kinds() {
    assert_eq!(ErrorType::from_http_status(404), ErrorType::NotFound);
    assert_eq!(ErrorType::from_http_status(418), ErrorType::InvalidInput);
    assert_eq!(ErrorType::from_http_status(500), ErrorType::Other);
    assert_eq!(ErrorType::from_http_status(599), ErrorType::Uncategorized);
    assert_eq!(ErrorType::from_http_status(200), ErrorType::Other);
    assert_eq!(ErrorType::from_http_status(502), ErrorType::ConnectionRefused);
}

#[test]
fn error_status_is_stable() {
    for e in [ErrorType::NotFound, ErrorType::TimedOut, ErrorType::Parse, ErrorType::StorageFull] {
        let s = e.to_http_status();
        let back = ErrorType::from_http_status(s.to_u16());
        assert_eq!(back.to_http_status(), s);
    }
}

#[test]
fn error_constructors_and_text() {
    let e = Error::not_found("missing");
    assert_eq!(e.kind(), ErrorType::NotFound);
    assert!(e.is_kind(ErrorType::NotFound));
    assert!(!e.is_kind(ErrorType::Other));
    assert_eq!(e.text(), "[NotFound] missing");
    assert!(e.get_original_error().is_none());
    let e = Error::new(ErrorType::Parse, "bad");
    assert_eq!(e.text(), "[Parse] bad");
    assert_eq!(Error::io_error("x").kind(), ErrorType::Other);
    assert_eq!(Error::from_std_error("y").message, "y");
    assert_eq!(Error::invalid_range("r").kind(), ErrorType::InvalidRange);
    assert_eq!(Error::parse_error("p").kind(), ErrorType::Parse);
}

#[test]
fn error_from_io_errors() {
    let e = Error::from_io_error(std::io::Error::new(std::io::ErrorKind::NotFound, "gone"));
    assert_eq!(e.kind(), ErrorType::NotFound);
    assert_eq!(e.message, "gone");
    let e = Error::from_io_error(std::io::Error::new(std::io::ErrorKind::TimedOut, "slow"));
    assert_eq!(e.kind(), ErrorType::TimedOut);
    let e = Error::from_io_error(std::io::Error::new(std::io::ErrorKind::Other, "o"));
    assert_eq!(e.kind(), ErrorType::Other);
    let e = Error::tls_handshake_error(std::io::Error::new(std::io::ErrorKind::Other, "x"), "tls");
    assert_eq!((e.kind(), e.message.as_str()), (ErrorType::TlsHandshakeFailed, "tls"));
}

#[test]
fn io_kind_names() {
    let n: Vec<char> = "BrokenPipe".chars().collect();
    assert_eq!(ErrorType::from_io_kind_name(&n), ErrorType::BrokenPipe);
    let n: Vec<char> = "Nonsense".chars().collect();
    assert_eq!(ErrorType::from_io_kind_name(&n), ErrorType::Other);
}

#[test]
fn wrapped_and_io_errors() {
    let inner = Error::not_found("gone");
    let w = Error::new_message(ErrorType::Other, ErrorMessage::Library(inner));
    assert_eq!((w.error_type, w.message.as_str()), (ErrorType::NotFound, "gone"));
    let t = Error::new_message(ErrorType::Parse, ErrorMessage::Text("bad".to_string()));
    assert_eq!((t.error_type, t.message.as_str()), (ErrorType::Parse, "bad"));
    let io = std::io::Error::new(std::io::ErrorKind::PermissionDenied, "no");
    assert_eq!(Error::io_error_from(io).error_type, ErrorType::PermissionDenied);
    let io = std::io::Error::new(std::io::ErrorKind::NotFound, "missing");
    let e = Error::from_io_error(io);
    assert_eq!((e.error_type, e.message.as_str()), (ErrorType::NotFound, "missing"));
    assert_eq!(Error::io_error("disk gone").error_type, ErrorType::Other);
}
