//! What the store's caller answers a request with.

use crate::etag::EntityTag;
use std::sync::Arc;
use vstd::prelude::*;

verus! {

/// The parts of a response that carries a resource.
#[derive(Debug)]
struct StaticResponseInner {
    mime: String,
    data: Arc<Vec<u8>>,
    etag: String,
}

/// To respond a static resource.
#[derive(Debug)]
pub struct StaticResponse {
    inner: Option<StaticResponseInner>,
}

/// The parts of a response that carries a resource: content type, body and
/// entity tag as text.
pub type Parts = (Seq<char>, Seq<u8>, Seq<char>);

impl View for StaticResponse {
    type V = Option<Parts>;

    /// The parts of the response, or `None` for the response that says that
    /// the resource was not modified.
    closed spec fn view(&self) -> Option<Parts> {
        match self.inner {
            Some(inner) => Some((inner.mime@, inner.data@, inner.etag@)),
            None => None,
        }
    }
}

impl StaticResponse {
    /// The response that carries `data` with its content type and entity
    /// tag.
    pub fn build(mime: &str, data: Arc<Vec<u8>>, etag: &EntityTag) -> (response: StaticResponse)
        ensures
            response@ == Some((mime@, data@, etag.text())),
    {
        StaticResponse {
            inner: Some(StaticResponseInner { mime: mime.to_owned(), data, etag: etag.to_text() }),
        }
    }

    /// The response that says that the resource was not modified.
    pub fn not_modified() -> (response: StaticResponse)
        ensures
            response@ is None,
    {
        StaticResponse { inner: None }
    }

    /// Takes the response apart.
    pub fn into_parts(self) -> (parts: Option<(String, Arc<Vec<u8>>, String)>)
        ensures
            match parts {
                Some(p) => self@ == Some(p@),
                None => self@ is None,
            },
    {
        match self.inner {
            Some(inner) => Some((inner.mime, inner.data, inner.etag)),
            None => None,
        }
    }
}

} // verus!
