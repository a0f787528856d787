use scale_signature_http::context::{new, Context};
use scale_signature_http::headers::Headers;
use scale_signature_http::http_signature::{
    decode_headers, encode_headers, Decode, DecodeError, Encode, HttpContext, HttpRequest,
    HttpResponse, HttpStringList,
};
use scale_signature_http::guest::GuestContext;
use scale_signature_http::wire::Fault;

fn strings(items: &[&str]) -> Vec<String> {
    items.iter().map(|s| s.to_string()).collect()
}

fn list(items: &[&str]) -> HttpStringList {
    HttpStringList { value: strings(items) }
}

fn encoded<T: Encode>(record: &T) -> Vec<u8> {
    let mut out = Vec::new();
    record.encode(&mut out).unwrap();
    out
}

fn error_buffer(message: &str) -> Vec<u8> {
    let mut out = Vec::new();
    new().internal_error(&mut out, message).unwrap();
    out
}

fn entries(headers: &Headers) -> Vec<(String, Vec<String>)> {
    (0..headers.len())
        .map(|i| (headers.key_at(i).clone(), headers.values_at(i).value.clone()))
        .collect()
}

fn assert_same_request(a: &HttpRequest, b: &HttpRequest) {
    let (mut a, mut b) = (a.clone(), b.clone());
    assert_eq!(a.uri(), b.uri());
    assert_eq!(a.method(), b.method());
    assert_eq!(a.content_length(), b.content_length());
    assert_eq!(a.protocol(), b.protocol());
    assert_eq!(a.remote_ip(), b.remote_ip());
    assert_eq!(a.body(), b.body());
    assert_eq!(entries(a.headers()), entries(b.headers()));
}

fn assert_same_response(a: &HttpResponse, b: &HttpResponse) {
    let (mut a, mut b) = (a.clone(), b.clone());
    assert_eq!(a.status_code(), b.status_code());
    assert_eq!(a.body(), b.body());
    assert_eq!(entries(a.headers()), entries(b.headers()));
}

fn assert_same_context(a: &Context, b: &Context) {
    let (mut a, mut b) = (a.clone(), b.clone());
    assert_same_request(a.request(), b.request());
    assert_same_response(a.response(), b.response());
}

fn get_context() -> Context {
    let mut context = new();
    context.request().set_method("GET".to_string()).set_uri("/x".to_string());
    context.request().set_headers("Accept".to_string(), strings(&["text/html", "*/*"]));
    context
}

fn busy_context() -> Context {
    let mut context = new();
    context
        .request()
        .set_method("POST".to_string())
        .set_uri("/upload?name=ü".to_string())
        .set_body("hello, wörld".to_string());
    context.request().set_headers("Content-Type".to_string(), strings(&["text/plain"]));
    context.request().set_headers("Cookie".to_string(), strings(&["a=1", "b=2", "a=1"]));
    context.request().set_headers("X-Empty".to_string(), strings(&[]));
    context.response().set_body_bytes(vec![0, 255, 6, 5, 0]);
    context.response().set_headers("Set-Cookie".to_string(), strings(&["z=26", "y=25"]));
    context
}

#[test]
fn fresh_context_on_the_wire() {
    let bytes = encoded(&new());
    assert_eq!(
        bytes,
        vec![
            0x05, 0x0a, 0x00, // uri
            0x05, 0x0a, 0x00, // method
            0x0d, 0x00, // content length
            0x05, 0x0a, 0x00, // protocol
            0x05, 0x0a, 0x00, // ip
            0x04, 0x0a, 0x00, // body
            0x02, 0x05, 0x03, 0x0a, 0x00, // request headers
            0x0c, 0x00, // status code
            0x04, 0x0a, 0x00, // body
            0x02, 0x05, 0x03, 0x0a, 0x00, // response headers
        ]
    );
}

#[test]
fn request_fields_go_out_in_wire_order() {
    let mut request = new().request().clone();
    request.set_uri("/x".to_string()).set_method("GET".to_string()).set_body_bytes(vec![9, 8]);
    request.set_headers("A".to_string(), strings(&["b", "c"]));
    assert_eq!(
        encoded(&request),
        vec![
            0x05, 0x0a, 0x02, b'/', b'x', // uri
            0x05, 0x0a, 0x03, b'G', b'E', b'T', // method
            0x0d, 0x04, // content length 2
            0x05, 0x0a, 0x00, // protocol
            0x05, 0x0a, 0x00, // ip
            0x04, 0x0a, 0x02, 9, 8, // body
            0x02, 0x05, 0x03, 0x0a, 0x01, // one header
            0x05, 0x0a, 0x01, b'A', // key
            0x01, 0x05, 0x0a, 0x02, // two values
            0x05, 0x0a, 0x01, b'b', 0x05, 0x0a, 0x01, b'c',
        ]
    );
}

#[test]
fn string_list_on_the_wire() {
    assert_eq!(
        encoded(&list(&["a", "bc"])),
        vec![0x01, 0x05, 0x0a, 0x02, 0x05, 0x0a, 0x01, b'a', 0x05, 0x0a, 0x02, b'b', b'c']
    );
    assert_eq!(encoded(&list(&[])), vec![0x01, 0x05, 0x0a, 0x00]);
}

#[test]
fn end_to_end_scenario() {
    let context = get_context();
    let bytes = encoded(&context);
    let (decoded, next) = HttpContext::decode(&bytes, 0).unwrap();
    assert_eq!(next, bytes.len());
    let mut decoded = decoded.unwrap();
    assert_same_context(&decoded, &context);
    assert_eq!(decoded.request().method(), "GET");
    assert_eq!(decoded.request().uri(), "/x");
    assert_eq!(decoded.request().body(), Vec::<u8>::new());
    assert_eq!(
        decoded.request().get_headers(&"Accept".to_string()).unwrap().value,
        strings(&["text/html", "*/*"])
    );
    assert_eq!(decoded.response().status_code(), 0);
    assert_eq!(decoded.response().body(), Vec::<u8>::new());
    assert_eq!(decoded.response().headers().len(), 0);

    let failed = error_buffer("boom");
    match HttpContext::decode(&failed, 0) {
        Err(DecodeError::Reported(message)) => assert_eq!(message, "boom"),
        other => panic!("expected the reported error, got {:?}", other),
    }
}

#[test]
fn round_trip_of_a_fresh_context() {
    let context = new();
    let bytes = encoded(&context);
    let (decoded, next) = HttpContext::decode(&bytes, 0).unwrap();
    assert_eq!(next, bytes.len());
    assert_same_context(&decoded.unwrap(), &context);
}

#[test]
fn round_trip_of_a_busy_context() {
    let context = busy_context();
    let bytes = encoded(&context);
    let (decoded, next) = HttpContext::decode(&bytes, 0).unwrap();
    assert_eq!(next, bytes.len());
    assert_same_context(&decoded.unwrap(), &context);
}

#[test]
fn round_trip_of_request_and_response_alone() {
    let mut context = busy_context();
    let request = context.request().clone();
    let response = context.response().clone();
    let bytes = encoded(&request);
    let (decoded, next) = HttpRequest::decode(&bytes, 0).unwrap();
    assert_eq!(next, bytes.len());
    assert_same_request(&decoded.unwrap(), &request);
    let bytes = encoded(&response);
    let (decoded, next) = HttpResponse::decode(&bytes, 0).unwrap();
    assert_eq!(next, bytes.len());
    assert_same_response(&decoded.unwrap(), &response);
}

#[test]
fn round_trip_keeps_small_negative_numbers() {
    for n in [-1i64, -2, -63, -64, -65, i64::MIN, i64::MAX] {
        let mut bytes = vec![0x05, 0x0a, 0x00, 0x05, 0x0a, 0x00];
        scale_signature_http::codec::write_i64(&mut bytes, n).unwrap();
        bytes.extend([0x05, 0x0a, 0x00, 0x05, 0x0a, 0x00, 0x04, 0x0a, 0x00]);
        bytes.extend([0x02, 0x05, 0x03, 0x0a, 0x00]);
        let (request, _) = HttpRequest::decode(&bytes, 0).unwrap();
        let mut request = request.unwrap();
        assert_eq!(request.content_length(), n);
        assert_eq!(encoded(&request), bytes);
    }
    for n in [-1i32, -64, 200, 404, i32::MIN, i32::MAX] {
        let mut bytes = Vec::new();
        scale_signature_http::codec::write_i32(&mut bytes, n).unwrap();
        bytes.extend([0x04, 0x0a, 0x00, 0x02, 0x05, 0x03, 0x0a, 0x00]);
        let (response, _) = HttpResponse::decode(&bytes, 0).unwrap();
        let mut response = response.unwrap();
        assert_eq!(response.status_code(), n);
        assert_eq!(encoded(&response), bytes);
    }
}

#[test]
fn string_list_keeps_its_order() {
    let values = list(&["b", "a", "c", "a", ""]);
    let bytes = encoded(&values);
    let (decoded, next) = HttpStringList::decode(&bytes, 0).unwrap();
    assert_eq!(next, bytes.len());
    assert_eq!(decoded.unwrap().value, strings(&["b", "a", "c", "a", ""]));
}

#[test]
fn headers_keep_keys_and_values() {
    let mut context = new();
    context.request().set_headers("b".to_string(), strings(&["2", "1"]));
    context.request().set_headers("a".to_string(), strings(&["x"]));
    context.request().set_headers("B".to_string(), strings(&[]));
    let mut bytes = Vec::new();
    encode_headers(context.request().headers(), &mut bytes).unwrap();
    let (decoded, next) = decode_headers(&bytes, 0).unwrap();
    assert_eq!(next, bytes.len());
    assert_eq!(decoded.len(), 3);
    assert_eq!(decoded.get(&"b".to_string()).unwrap().value, strings(&["2", "1"]));
    assert_eq!(decoded.get(&"a".to_string()).unwrap().value, strings(&["x"]));
    assert_eq!(decoded.get(&"B".to_string()).unwrap().value, strings(&[]));
    assert!(decoded.get(&"A".to_string()).is_none());
}

#[test]
fn error_buffer_is_an_error_for_every_record() {
    let bytes = error_buffer("boom");
    assert!(matches!(HttpContext::decode(&bytes, 0), Err(DecodeError::Reported(m)) if m == "boom"));
    assert!(matches!(HttpRequest::decode(&bytes, 0), Err(DecodeError::Reported(m)) if m == "boom"));
    assert!(matches!(HttpResponse::decode(&bytes, 0), Err(DecodeError::Reported(m)) if m == "boom"));
    assert!(
        matches!(HttpStringList::decode(&bytes, 0), Err(DecodeError::Reported(m)) if m == "boom")
    );
}

#[test]
fn every_record_writes_the_same_error() {
    let mut context = busy_context();
    let expected = vec![0x06, 0x05, 0x0a, 0x02, b'n', b'o'];
    let mut out = Vec::new();
    context.internal_error(&mut out, "no").unwrap();
    assert_eq!(out, expected);
    let mut out = Vec::new();
    context.request().internal_error(&mut out, "no").unwrap();
    assert_eq!(out, expected);
    let mut out = Vec::new();
    context.response().internal_error(&mut out, "no").unwrap();
    assert_eq!(out, expected);
    let mut out = Vec::new();
    list(&["a"]).internal_error(&mut out, "no").unwrap();
    assert_eq!(out, expected);
}

#[test]
fn error_with_empty_message() {
    let bytes = error_buffer("");
    assert_eq!(bytes, vec![0x06, 0x05, 0x0a, 0x00]);
    assert!(matches!(HttpContext::decode(&bytes, 0), Err(DecodeError::Reported(m)) if m.is_empty()));
}

#[test]
fn error_in_front_of_a_record_wins() {
    let mut bytes = error_buffer("first");
    bytes.extend(encoded(&get_context()));
    assert!(
        matches!(HttpContext::decode(&bytes, 0), Err(DecodeError::Reported(m)) if m == "first")
    );
}

#[test]
fn none_marker_is_no_record() {
    assert!(matches!(HttpContext::decode(&[0x00], 0), Ok((None, 1))));
    assert!(matches!(HttpRequest::decode(&[0x00], 0), Ok((None, 1))));
    assert!(matches!(HttpResponse::decode(&[0x00], 0), Ok((None, 1))));
    assert!(matches!(HttpStringList::decode(&[0x00, 0x05], 0), Ok((None, 1))));
}

#[test]
fn zero_length_buffer_is_a_decode_error() {
    assert!(matches!(
        HttpContext::decode(&[], 0),
        Err(DecodeError::Invalid(Fault::InvalidString))
    ));
    assert!(matches!(
        HttpRequest::decode(&[], 0),
        Err(DecodeError::Invalid(Fault::InvalidString))
    ));
    assert!(matches!(HttpResponse::decode(&[], 0), Err(DecodeError::Invalid(Fault::InvalidI32))));
    assert!(matches!(
        HttpStringList::decode(&[], 0),
        Err(DecodeError::Invalid(Fault::InvalidArray))
    ));
}

#[test]
fn position_behind_the_end_is_a_decode_error() {
    let bytes = encoded(&get_context());
    assert!(matches!(
        HttpContext::decode(&bytes, bytes.len()),
        Err(DecodeError::Invalid(Fault::InvalidString))
    ));
    assert!(matches!(
        HttpContext::decode(&bytes, bytes.len() + 5),
        Err(DecodeError::Invalid(Fault::InvalidString))
    ));
}

#[test]
fn length_beyond_the_buffer_fails_cleanly() {
    // A uri that announces 100 bytes and brings three.
    let bytes = [0x05, 0x0a, 0x64, b'a', b'b', b'c'];
    assert!(matches!(
        HttpContext::decode(&bytes, 0),
        Err(DecodeError::Invalid(Fault::InvalidString))
    ));
    // A body that announces the largest length there is.
    let bytes = [0x0c, 0x00, 0x04, 0x0a, 0xff, 0xff, 0xff, 0xff, 0x0f, 1, 2, 3];
    assert!(matches!(
        HttpResponse::decode(&bytes, 0),
        Err(DecodeError::Invalid(Fault::InvalidBytes))
    ));
}

#[test]
fn every_cut_of_a_context_is_a_decode_error() {
    let bytes = encoded(&busy_context());
    for cut in 0..bytes.len() {
        assert!(
            matches!(HttpContext::decode(&bytes[..cut], 0), Err(DecodeError::Invalid(_))),
            "cut at {}",
            cut
        );
    }
}

#[test]
fn context_without_a_response_is_invalid() {
    let request = get_context().request().clone();
    let bytes = encoded(&request);
    assert!(matches!(
        HttpContext::decode(&bytes, 0),
        Err(DecodeError::Invalid(Fault::InvalidI32))
    ));
}

#[test]
fn absent_response_is_invalid_struct() {
    let request = get_context().request().clone();
    let mut bytes = encoded(&request);
    bytes.push(0x00);
    assert!(matches!(
        HttpContext::decode(&bytes, 0),
        Err(DecodeError::Invalid(Fault::InvalidStruct))
    ));
}

#[test]
fn reported_error_in_place_of_the_response_comes_through() {
    let request = get_context().request().clone();
    let mut bytes = encoded(&request);
    bytes.extend(error_buffer("late"));
    assert!(matches!(HttpContext::decode(&bytes, 0), Err(DecodeError::Reported(m)) if m == "late"));
}

#[test]
fn absent_headers_are_invalid_map() {
    let bytes = [0x0c, 0x00, 0x04, 0x0a, 0x00, 0x00];
    assert!(matches!(HttpResponse::decode(&bytes, 0), Err(DecodeError::Invalid(Fault::InvalidMap))));
    assert!(matches!(decode_headers(&[0x00], 0), Err(DecodeError::Invalid(Fault::InvalidMap))));
}

#[test]
fn headers_of_other_kinds_are_invalid_u32() {
    let bytes = [0x02, 0x05, 0x05, 0x0a, 0x00];
    assert!(matches!(decode_headers(&bytes, 0), Err(DecodeError::Invalid(Fault::InvalidU32))));
    assert!(matches!(decode_headers(&[], 0), Err(DecodeError::Invalid(Fault::InvalidU32))));
    assert!(matches!(
        decode_headers(&[0x02, 0x05, 0x03], 0),
        Err(DecodeError::Invalid(Fault::InvalidU32))
    ));
}

#[test]
fn header_with_absent_values_is_invalid_map() {
    let bytes = [0x02, 0x05, 0x03, 0x0a, 0x01, 0x05, 0x0a, 0x01, b'k', 0x00];
    assert!(matches!(decode_headers(&bytes, 0), Err(DecodeError::Invalid(Fault::InvalidMap))));
}

#[test]
fn header_with_an_error_for_values_reports_it() {
    let mut bytes = vec![0x02, 0x05, 0x03, 0x0a, 0x01, 0x05, 0x0a, 0x01, b'k'];
    bytes.extend(error_buffer("bad"));
    assert!(matches!(decode_headers(&bytes, 0), Err(DecodeError::Reported(m)) if m == "bad"));
}

#[test]
fn headers_that_announce_more_than_they_bring_are_invalid() {
    let bytes = [0x02, 0x05, 0x03, 0x0a, 0x02, 0x05, 0x0a, 0x01, b'k', 0x01, 0x05, 0x0a, 0x00];
    assert!(matches!(decode_headers(&bytes, 0), Err(DecodeError::Invalid(Fault::InvalidString))));
    let bytes = [0x02, 0x05, 0x03, 0x0a, 0xff, 0xff, 0xff, 0xff, 0x0f];
    assert!(matches!(decode_headers(&bytes, 0), Err(DecodeError::Invalid(Fault::InvalidString))));
}

#[test]
fn string_list_that_announces_more_than_it_brings_is_invalid() {
    let bytes = [0x01, 0x05, 0x0a, 0x02, 0x05, 0x0a, 0x01, b'a'];
    assert!(matches!(
        HttpStringList::decode(&bytes, 0),
        Err(DecodeError::Invalid(Fault::InvalidString))
    ));
    let bytes = [0x01, 0x05, 0x0a, 0xff, 0xff, 0xff, 0xff, 0x0f];
    assert!(matches!(
        HttpStringList::decode(&bytes, 0),
        Err(DecodeError::Invalid(Fault::InvalidString))
    ));
}

#[test]
fn string_list_of_another_kind_is_invalid_u32() {
    let bytes = [0x01, 0x04, 0x0a, 0x00];
    assert!(matches!(
        HttpStringList::decode(&bytes, 0),
        Err(DecodeError::Invalid(Fault::InvalidU32))
    ));
}

#[test]
fn malformed_error_record_is_no_record_either() {
    // The error tag with a message that is cut off.
    let bytes = [0x06, 0x05, 0x0a, 0x09, b'a'];
    assert!(matches!(
        HttpContext::decode(&bytes, 0),
        Err(DecodeError::Invalid(Fault::InvalidString))
    ));
    assert!(matches!(
        HttpStringList::decode(&bytes, 0),
        Err(DecodeError::Invalid(Fault::InvalidU32))
    ));
    // An error tag, then something that could be read as a list.
    let bytes = [0x06, 0x05, 0x01, 0x05, 0x0a, 0x00];
    assert!(matches!(
        HttpStringList::decode(&bytes, 0),
        Err(DecodeError::Invalid(Fault::InvalidU32))
    ));
}

#[test]
fn key_that_comes_twice_keeps_its_place_and_its_last_values() {
    let mut bytes = vec![0x02, 0x05, 0x03, 0x0a, 0x03];
    for (key, value) in [("a", "1"), ("b", "2"), ("a", "3")] {
        scale_signature_http::codec::write_string(&mut bytes, &key.to_string()).unwrap();
        list(&[value]).encode(&mut bytes).unwrap();
    }
    let (headers, next) = decode_headers(&bytes, 0).unwrap();
    assert_eq!(next, bytes.len());
    assert_eq!(
        entries(&headers),
        vec![("a".to_string(), strings(&["3"])), ("b".to_string(), strings(&["2"]))]
    );
}

#[test]
fn header_keys_are_case_sensitive() {
    let mut context = new();
    context.request().set_headers("Accept".to_string(), strings(&["a"]));
    context.request().set_headers("accept".to_string(), strings(&["b"]));
    let bytes = encoded(&context);
    let mut decoded = HttpContext::decode(&bytes, 0).unwrap().0.unwrap();
    assert_eq!(decoded.request().headers().len(), 2);
    assert_eq!(decoded.request().get_headers(&"Accept".to_string()).unwrap().value, strings(&["a"]));
    assert_eq!(decoded.request().get_headers(&"accept".to_string()).unwrap().value, strings(&["b"]));
}

#[test]
fn records_are_read_from_the_middle_of_a_buffer() {
    let mut bytes = vec![0xee, 0xee, 0xee];
    bytes.extend(encoded(&busy_context()));
    let end = bytes.len();
    bytes.extend([0x07, 0x07]);
    let (decoded, next) = HttpContext::decode(&bytes, 3).unwrap();
    assert_eq!(next, end);
    assert_same_context(&decoded.unwrap(), &busy_context());
}

#[test]
fn decode_error_messages() {
    assert_eq!(DecodeError::Reported("boom".to_string()).message(), "boom");
    assert_eq!(DecodeError::Invalid(Fault::InvalidString).message(), "InvalidString");
    assert_eq!(DecodeError::Invalid(Fault::InvalidStruct).message(), "InvalidStruct");
}

#[test]
fn clones_are_equal_and_apart() {
    let context = busy_context();
    let mut copy = context.clone();
    assert_same_context(&copy, &context);
    copy.request().set_uri("/other".to_string());
    assert_eq!(context.clone().request().uri(), "/upload?name=ü");
    assert_eq!(copy.request().uri(), "/other");
}
