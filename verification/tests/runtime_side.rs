use scale_signature_http::context::new;
use scale_signature_http::guest::GuestContext;
use scale_signature_http::http_signature::{DecodeError, Encode};
use scale_signature_http::wire::Fault;

#[test]
fn write_is_the_encoding() {
    let mut context = new();
    context.request().set_uri("/w".to_string());
    let mut expected = Vec::new();
    context.encode(&mut expected).unwrap();
    assert_eq!(context.write().unwrap(), expected);
}

#[test]
fn read_takes_over_what_was_written() {
    let mut source = new();
    source.request().set_uri("/r".to_string()).set_body("abc".to_string());
    source.response().set_headers("h".to_string(), vec!["1".to_string(), "2".to_string()]);
    let bytes = source.write().unwrap();
    let mut target = new();
    target.request().set_method("OLD".to_string());
    assert!(target.read(&bytes).is_none());
    assert_eq!(target.request().uri(), "/r");
    assert_eq!(target.request().method(), "");
    assert_eq!(target.request().content_length(), 3);
    assert_eq!(
        target.response().get_headers(&"h".to_string()).unwrap().value,
        vec!["1".to_string(), "2".to_string()]
    );
    assert_eq!(target.write().unwrap(), bytes);
}

#[test]
fn read_leaves_the_context_alone_when_it_fails() {
    let mut target = new();
    target.request().set_method("KEEP".to_string());
    assert!(matches!(target.read(&[]), Some(DecodeError::Invalid(Fault::InvalidString))));
    assert_eq!(target.request().method(), "KEEP");
    assert!(matches!(target.read(&[0x00]), Some(DecodeError::Invalid(Fault::InvalidStruct))));
    assert_eq!(target.request().method(), "KEEP");
    let bytes = target.error("boom").unwrap();
    assert!(matches!(target.read(&bytes), Some(DecodeError::Reported(m)) if m == "boom"));
    assert_eq!(target.request().method(), "KEEP");
}

#[test]
fn error_is_an_error_record() {
    let context = new();
    assert_eq!(
        context.error("boom").unwrap(),
        vec![0x06, 0x05, 0x0a, 0x04, b'b', b'o', b'o', b'm']
    );
    assert_eq!(context.error("").unwrap(), vec![0x06, 0x05, 0x0a, 0x00]);
}
