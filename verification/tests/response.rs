use file_resources::etag::{compute_data_etag, EntityTag};
use file_resources::response::StaticResponse;
use std::sync::Arc;

#[test]
fn built_response_carries_its_parts() {
    let data = Arc::new(b"123456789".to_vec());
    let etag = compute_data_etag(&data);
    let response = StaticResponse::build("text/plain", data.clone(), &etag);
    let (mime, body, tag) = response.into_parts().unwrap();
    assert_eq!(mime, "text/plain");
    assert!(Arc::ptr_eq(&body, &data));
    assert_eq!(tag, "W/\"6C40DF5F0B497347\"");
}

#[test]
fn built_response_with_a_strong_tag() {
    let data = Arc::new(Vec::new());
    let response = StaticResponse::build("image/png", data, &EntityTag { weak: false, tag: 26 });
    let (mime, body, tag) = response.into_parts().unwrap();
    assert_eq!(mime, "image/png");
    assert!(body.is_empty());
    assert_eq!(tag, "\"1A\"");
}

#[test]
fn not_modified_has_no_parts() {
    assert!(StaticResponse::not_modified().into_parts().is_none());
}
