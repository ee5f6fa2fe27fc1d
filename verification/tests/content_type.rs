use file_resources::content_type::content_type_for;

#[test]
fn known_extensions() {
    assert_eq!(content_type_for(Some("png")), "image/png");
    assert_eq!(content_type_for(Some("gif")), "image/gif");
    assert_eq!(content_type_for(Some("txt")), "text/plain");
    assert_eq!(content_type_for(Some("html")), "text/html");
}

#[test]
fn extension_lookup_ignores_case() {
    assert_eq!(content_type_for(Some("PNG")), "image/png");
    assert_eq!(content_type_for(Some("Txt")), "text/plain");
}

#[test]
fn unknown_extension_is_a_binary_stream() {
    assert_eq!(content_type_for(Some("blahblah")), "application/octet-stream");
}

#[test]
fn empty_extension_is_a_binary_stream() {
    assert_eq!(content_type_for(Some("")), "application/octet-stream");
}

#[test]
fn absent_extension_is_a_binary_stream() {
    assert_eq!(content_type_for(None), "application/octet-stream");
}
