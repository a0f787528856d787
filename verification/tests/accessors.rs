use scale_signature_http::context::new;
use scale_signature_http::guest::GuestContext;
use scale_signature_http::headers::Headers;
use scale_signature_http::http_signature::HttpStringList;

fn strings(items: &[&str]) -> Vec<String> {
    items.iter().map(|s| s.to_string()).collect()
}

#[test]
fn fresh_context_is_empty() {
    let mut context = new();
    assert_eq!(context.request().method(), "");
    assert_eq!(context.request().uri(), "");
    assert_eq!(context.request().protocol(), "");
    assert_eq!(context.request().remote_ip(), "");
    assert_eq!(context.request().content_length(), 0);
    assert_eq!(context.request().body(), Vec::<u8>::new());
    assert_eq!(context.request().headers().len(), 0);
    assert_eq!(context.response().status_code(), 0);
    assert_eq!(context.response().body(), Vec::<u8>::new());
    assert_eq!(context.response().headers().len(), 0);
}

#[test]
fn request_setters_set_their_field_only() {
    let mut context = new();
    let request = context.request();
    request.set_method("PUT".to_string());
    assert_eq!(request.method(), "PUT");
    assert_eq!(request.uri(), "");
    request.set_uri("/a".to_string());
    assert_eq!(request.uri(), "/a");
    assert_eq!(request.method(), "PUT");
    assert_eq!(request.content_length(), 0);
}

#[test]
fn request_setters_chain() {
    let mut context = new();
    context
        .request()
        .set_method("GET".to_string())
        .set_uri("/chain".to_string())
        .set_body_bytes(vec![1, 2, 3]);
    assert_eq!(context.request().method(), "GET");
    assert_eq!(context.request().uri(), "/chain");
    assert_eq!(context.request().body(), vec![1, 2, 3]);
}

#[test]
fn request_body_sets_content_length() {
    let mut context = new();
    context.request().set_body_bytes(vec![7; 10]);
    assert_eq!(context.request().content_length(), 10);
    assert_eq!(context.request().body(), vec![7; 10]);
    context.request().set_body("héllo".to_string());
    assert_eq!(context.request().content_length(), 6);
    assert_eq!(context.request().body(), "héllo".as_bytes().to_vec());
    context.request().set_body_bytes(Vec::new());
    assert_eq!(context.request().content_length(), 0);
}

#[test]
fn response_body_setters() {
    let mut context = new();
    context.response().set_body("ok".to_string());
    assert_eq!(context.response().body(), vec![b'o', b'k']);
    context.response().set_body_bytes(vec![1]).set_body_bytes(vec![2, 3]);
    assert_eq!(context.response().body(), vec![2, 3]);
    assert_eq!(context.response().status_code(), 0);
}

#[test]
fn headers_are_set_and_found() {
    let mut context = new();
    assert!(context.request().get_headers(&"Accept".to_string()).is_none());
    context.request().set_headers("Accept".to_string(), strings(&["text/html", "*/*"]));
    assert_eq!(
        context.request().get_headers(&"Accept".to_string()).unwrap().value,
        strings(&["text/html", "*/*"])
    );
    assert!(context.request().get_headers(&"accept".to_string()).is_none());
    assert!(context.response().get_headers(&"Accept".to_string()).is_none());
    context.response().set_headers("Server".to_string(), strings(&["s"]));
    assert_eq!(context.response().get_headers(&"Server".to_string()).unwrap().value, strings(&["s"]));
    assert_eq!(context.response().headers().len(), 1);
}

#[test]
fn setting_a_header_again_replaces_its_values() {
    let mut context = new();
    context.request().set_headers("a".to_string(), strings(&["1"]));
    context.request().set_headers("b".to_string(), strings(&["2"]));
    context.request().set_headers("a".to_string(), strings(&["3", "4"]));
    let headers = context.request().headers();
    assert_eq!(headers.len(), 2);
    assert_eq!(headers.key_at(0), "a");
    assert_eq!(headers.values_at(0).value, strings(&["3", "4"]));
    assert_eq!(headers.key_at(1), "b");
    assert_eq!(headers.values_at(1).value, strings(&["2"]));
}

#[test]
fn header_map_of_its_own() {
    let mut headers = Headers::new();
    assert_eq!(headers.len(), 0);
    assert!(headers.get(&"k".to_string()).is_none());
    headers.insert("k".to_string(), HttpStringList { value: strings(&["v"]) });
    headers.insert("".to_string(), HttpStringList { value: strings(&[]) });
    assert_eq!(headers.len(), 2);
    assert_eq!(headers.get(&"k".to_string()).unwrap().value, strings(&["v"]));
    assert_eq!(headers.get(&"".to_string()).unwrap().value, strings(&[]));
    let copy = headers.clone();
    headers.insert("k".to_string(), HttpStringList { value: strings(&["w"]) });
    assert_eq!(copy.get(&"k".to_string()).unwrap().value, strings(&["v"]));
    assert_eq!(headers.get(&"k".to_string()).unwrap().value, strings(&["w"]));
    assert_eq!(headers.len(), 2);
}
