use simple_web_server::payload::Payload;
use simple_web_server::response::{root, root_post, LISTEN_PORT};

fn payload_of(fields: &[(&str, &str)]) -> Payload {
    let mut p = Payload::new();
    for (k, v) in fields {
        p.insert(k.to_string(), v.to_string());
    }
    p
}

#[test]
fn get_answers_hello_world() {
    assert_eq!(root(), "Hello, World!");
}

#[test]
fn get_answers_are_identical() {
    let first = root();
    for _ in 0..5 {
        assert_eq!(root().as_bytes(), first.as_bytes());
    }
}

#[test]
fn post_two_fields_renders_mapping() {
    let p = payload_of(&[("a", "1"), ("b", "2")]);
    assert_eq!(
        root_post(&p),
        "Received POST request with payload: {\"a\": \"1\", \"b\": \"2\"}"
    );
}

#[test]
fn post_single_field() {
    let p = payload_of(&[("a", "1")]);
    assert_eq!(root_post(&p), "Received POST request with payload: {\"a\": \"1\"}");
}

#[test]
fn post_empty_body_renders_empty_mapping() {
    let p = Payload::new();
    assert_eq!(root_post(&p), "Received POST request with payload: {}");
}

#[test]
fn post_answers_are_identical() {
    let a = root_post(&payload_of(&[("name", "x y")]));
    let b = root_post(&payload_of(&[("name", "x y")]));
    assert_eq!(a.as_bytes(), b.as_bytes());
}

#[test]
fn post_quotes_and_escapes_text() {
    let p = payload_of(&[("say \"hi\"", "line\nbreak")]);
    assert_eq!(
        root_post(&p),
        "Received POST request with payload: {\"say \\\"hi\\\"\": \"line\\nbreak\"}"
    );
}

#[test]
fn later_value_for_a_key_wins() {
    let p = payload_of(&[("a", "1"), ("b", "2"), ("a", "3")]);
    assert_eq!(p.len(), 2);
    assert_eq!(p.render(), "{\"a\": \"3\", \"b\": \"2\"}");
}

#[test]
fn empty_key_and_value_pass_through() {
    let p = payload_of(&[("", "")]);
    assert_eq!(p.render(), "{\"\": \"\"}");
}

#[test]
fn listens_on_port_3000() {
    assert_eq!(LISTEN_PORT, 3000);
}
