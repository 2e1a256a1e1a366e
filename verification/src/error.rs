//! The catalog's error taxonomy. Every failing operation reports exactly one
//! of these variants; `message` renders the single descriptive line shown to
//! callers.
use vstd::prelude::*;

use crate::text::{spec_decimal_signed, i32_to_string};

verus! {

/// One error class per failure condition of the catalog:
/// - `StoreError`: the backing table could not be opened, read or written;
/// - `NotFoundError`: an id that is not a key of the store;
/// - `SerializationError`: a stored value that does not decode to a record;
/// - `FilesystemError`: a missing path, a path of the wrong kind, or a
///   non-empty deployment target;
/// - `ExternalToolError`: the archiving tool was missing, failed to spawn, or
///   exited non-zero (`code` holds the exit code when one was observed);
/// - `ValidationError`: an unrecognized settings field name or value.
#[derive(Debug, Clone)]
pub enum CatalogError {
    StoreError { detail: String },
    NotFoundError { id: String },
    SerializationError { id: String },
    FilesystemError { path: String },
    ExternalToolError { code: Option<i32> },
    ValidationError { field: String },
}

/// The ghost value of a `CatalogError`.
pub ghost enum CatalogErrorView {
    StoreError { detail: Seq<char> },
    NotFoundError { id: Seq<char> },
    SerializationError { id: Seq<char> },
    FilesystemError { path: Seq<char> },
    ExternalToolError { code: Option<i32> },
    ValidationError { field: Seq<char> },
}

impl View for CatalogError {
    type V = CatalogErrorView;

    open spec fn view(&self) -> CatalogErrorView {
        match self {
            CatalogError::StoreError { detail } => CatalogErrorView::StoreError {
                detail: detail@,
            },
            CatalogError::NotFoundError { id } => CatalogErrorView::NotFoundError { id: id@ },
            CatalogError::SerializationError { id } => CatalogErrorView::SerializationError {
                id: id@,
            },
            CatalogError::FilesystemError { path } => CatalogErrorView::FilesystemError {
                path: path@,
            },
            CatalogError::ExternalToolError { code } => CatalogErrorView::ExternalToolError {
                code: *code,
            },
            CatalogError::ValidationError { field } => CatalogErrorView::ValidationError {
                field: field@,
            },
        }
    }
}

/// The one-line description of an error.
pub open spec fn spec_message(e: CatalogErrorView) -> Seq<char> {
    match e {
        CatalogErrorView::StoreError { detail } => "store error: "@ + detail,
        CatalogErrorView::NotFoundError { id } => "not found: "@ + id,
        CatalogErrorView::SerializationError { id } => "serialization error for record "@ + id,
        CatalogErrorView::FilesystemError { path } => "filesystem error at "@ + path,
        CatalogErrorView::ExternalToolError { code } => match code {
            Some(c) => "external tool failed with exit code "@ + spec_decimal_signed(c as int),
            None => "external tool failed before it reported an exit code"@,
        },
        CatalogErrorView::ValidationError { field } => "unknown settings field "@ + field,
    }
}

impl CatalogError {
    /// The single descriptive message for this error.
    pub fn message(&self) -> (r: String)
        ensures
            r@ == spec_message(self@),
    {
        match self {
            CatalogError::StoreError { detail } => {
                let mut s = String::from_str("store error: ");
                s.append(detail.as_str());
                s
            },
            CatalogError::NotFoundError { id } => {
                let mut s = String::from_str("not found: ");
                s.append(id.as_str());
                s
            },
            CatalogError::SerializationError { id } => {
                let mut s = String::from_str("serialization error for record ");
                s.append(id.as_str());
                s
            },
            CatalogError::FilesystemError { path } => {
                let mut s = String::from_str("filesystem error at ");
                s.append(path.as_str());
                s
            },
            CatalogError::ExternalToolError { code } => match code {
                Some(c) => {
                    let mut s = String::from_str("external tool failed with exit code ");
                    let d = i32_to_string(*c);
                    s.append(d.as_str());
                    s
                },
                None => String::from_str("external tool failed before it reported an exit code"),
            },
            CatalogError::ValidationError { field } => {
                let mut s = String::from_str("unknown settings field ");
                s.append(field.as_str());
                s
            },
        }
    }

    /// Whether this error is the `NotFoundError` variant.
    pub fn is_not_found(&self) -> (r: bool)
        ensures
            r == (self@ is NotFoundError),
    {
        match self {
            CatalogError::NotFoundError { .. } => true,
            _ => false,
        }
    }
}

} // verus!
