//! Errors of the catalog.
use crate::ids::hyphenated;
use vstd::prelude::*;
use vstd::string::*;

verus! {

/// Errors from catalog mutations and persistence.
#[derive(Debug, PartialEq, Eq)]
pub enum CatalogError {
    NotFound(u128),
    Invalid(String),
    EndpointExhausted,
    Io(String),
    Json(String),
}

/// What a [`CatalogError`] says.
pub enum CatalogErrorView {
    NotFound(u128),
    Invalid(Seq<char>),
    EndpointExhausted,
    Io(Seq<char>),
    Json(Seq<char>),
}

impl View for CatalogError {
    type V = CatalogErrorView;

    open spec fn view(&self) -> CatalogErrorView {
        match self {
            CatalogError::NotFound(id) => CatalogErrorView::NotFound(*id),
            CatalogError::Invalid(m) => CatalogErrorView::Invalid(m@),
            CatalogError::EndpointExhausted => CatalogErrorView::EndpointExhausted,
            CatalogError::Io(m) => CatalogErrorView::Io(m@),
            CatalogError::Json(m) => CatalogErrorView::Json(m@),
        }
    }
}

/// The message of an error.
pub open spec fn error_text(e: CatalogErrorView) -> Seq<char> {
    match e {
        CatalogErrorView::NotFound(id) => "export not found: "@ + crate::ids::hyphenated_text(id),
        CatalogErrorView::Invalid(m) => "invalid export: "@ + m,
        CatalogErrorView::EndpointExhausted => "endpoint id space exhausted"@,
        CatalogErrorView::Io(m) => "io: "@ + m,
        CatalogErrorView::Json(m) => "json: "@ + m,
    }
}

impl CatalogError {
    /// The message shown for this error.
    pub fn message(&self) -> (r: String)
        ensures
            r@ == error_text(self@),
    {
        match self {
            CatalogError::NotFound(id) => "export not found: ".to_owned().concat(
                hyphenated(*id).as_str(),
            ),
            CatalogError::Invalid(m) => "invalid export: ".to_owned().concat(m.as_str()),
            CatalogError::EndpointExhausted => "endpoint id space exhausted".to_owned(),
            CatalogError::Io(m) => "io: ".to_owned().concat(m.as_str()),
            CatalogError::Json(m) => "json: ".to_owned().concat(m.as_str()),
        }
    }
}

/// A message begins with what kind of error it is and ends with what is known of it.
pub proof fn law_error_messages(id: u128, m: Seq<char>)
    ensures
        error_text(CatalogErrorView::NotFound(id)) == "export not found: "@
            + crate::ids::hyphenated_text(id),
        error_text(CatalogErrorView::Invalid(m)) == "invalid export: "@ + m,
        error_text(CatalogErrorView::EndpointExhausted) == "endpoint id space exhausted"@,
        error_text(CatalogErrorView::Io(m)) == "io: "@ + m,
        error_text(CatalogErrorView::Json(m)) == "json: "@ + m,
{
}

/// The contents of an error are those of its fields.
pub proof fn law_error_contents(id: u128, m: String)
    ensures
        CatalogError::NotFound(id)@ == CatalogErrorView::NotFound(id),
        CatalogError::Invalid(m)@ == CatalogErrorView::Invalid(m@),
        CatalogError::EndpointExhausted@ == CatalogErrorView::EndpointExhausted,
        CatalogError::Io(m)@ == CatalogErrorView::Io(m@),
        CatalogError::Json(m)@ == CatalogErrorView::Json(m@),
{
}

} // verus!
