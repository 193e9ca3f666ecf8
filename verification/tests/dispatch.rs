use greeter::{dispatch, extract_name, greet, Request};

#[test]
fn named_request_is_greeted() {
    let req = Request { path: String::from("/Alice") };
    let resp = dispatch(&req);
    assert_eq!(resp.body, "Hello Alice!");
}

#[test]
fn root_request_gets_default_greeting() {
    let req = Request { path: String::from("/") };
    let resp = dispatch(&req);
    assert_eq!(resp.body, "Hello World!");
}

#[test]
fn interpolation_is_exact() {
    assert_eq!(greet(Some("Bob")), "Hello Bob!");
    assert_eq!(greet(Some(" Bob ")), "Hello  Bob !");
    assert_eq!(greet(Some("O'Brien")), "Hello O'Brien!");
    assert_eq!(greet(Some("H\u{e9}lo\u{ef}se")), "Hello H\u{e9}lo\u{ef}se!");
    assert_eq!(greet(Some("<b>")), "Hello <b>!");
}

#[test]
fn absent_or_empty_name_defaults_to_world() {
    assert_eq!(greet(None), "Hello World!");
    assert_eq!(greet(Some("")), "Hello World!");
}

#[test]
fn repeated_request_is_byte_identical() {
    let req = Request { path: String::from("/Alice") };
    let first = dispatch(&req);
    let second = dispatch(&req);
    assert_eq!(first.body.as_bytes(), second.body.as_bytes());
}

#[test]
fn distinct_names_get_their_own_responses() {
    let names = ["Alice", "Bob", "Carol", "Dave"];
    let mut bodies: Vec<String> = Vec::new();
    for name in names.iter() {
        let req = Request { path: format!("/{}", name) };
        bodies.push(dispatch(&req).body);
    }
    for (name, body) in names.iter().zip(bodies.iter()) {
        assert_eq!(body, &format!("Hello {}!", name));
    }
}

#[test]
fn route_matching_extracts_single_segments_only() {
    assert_eq!(extract_name("/Alice"), Some("Alice"));
    assert_eq!(extract_name("/"), None);
    assert_eq!(extract_name(""), None);
    assert_eq!(extract_name("Alice"), None);
    assert_eq!(extract_name("/a/b"), None);
    assert_eq!(extract_name("/Alice/"), None);
}

#[test]
fn unnamed_routes_fall_back_to_default() {
    let req = Request { path: String::from("/a/b") };
    assert_eq!(dispatch(&req).body, "Hello World!");
}
