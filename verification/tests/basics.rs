use axum_course::basics::{dummy_handler, handler, Dummy};

#[test]
fn test_hello_world() {
    let s = handler();
    assert!(s.contains("Hello, World!"));
}

#[test]
fn hello_page_is_exact() {
    assert_eq!(handler(), "<h1>🌎 Hello, World!</h1>");
}

#[test]
fn dummy_page_is_exact() {
    assert_eq!(dummy_handler(), "<h1>🤪 Dummy Handler</h1>");
}

#[test]
fn dummy_names_its_type() {
    let d = Dummy::new();
    assert_eq!(d.to_string(), "Dummy");
}
