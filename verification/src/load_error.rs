//! Why building a catalog from a directory tree can fail.

use vstd::prelude::*;
use vstd::std_specs::cmp::PartialEqSpecImpl;

verus! {

/// A failure while a catalog is gathered from a tree of directories.
///
/// Two such errors are equal when they are of the same kind and name the
/// same path; what caused them is carried along but not compared.
#[derive(Debug)]
pub enum CatalogLoadError {
    /// A data file lies at the root, where no category applies to it.
    EmptyCategoryPath,
    /// A directory or file at `path` could not be read.
    ReadError { path: String, source: String },
    /// The data file at `path` does not hold a list of compounds.
    ParseError { path: String, source: String },
}

/// What a [`CatalogLoadError`] holds, as text.
pub ghost enum CatalogLoadErrorView {
    EmptyCategoryPath,
    ReadError { path: Seq<char>, source: Seq<char> },
    ParseError { path: Seq<char>, source: Seq<char> },
}

impl View for CatalogLoadError {
    type V = CatalogLoadErrorView;

    open spec fn view(&self) -> CatalogLoadErrorView {
        match self {
            CatalogLoadError::EmptyCategoryPath => CatalogLoadErrorView::EmptyCategoryPath,
            CatalogLoadError::ReadError { path, source } => CatalogLoadErrorView::ReadError {
                path: path@,
                source: source@,
            },
            CatalogLoadError::ParseError { path, source } => CatalogLoadErrorView::ParseError {
                path: path@,
                source: source@,
            },
        }
    }
}

/// Same kind of failure at the same path.
pub open spec fn same_failure(left: CatalogLoadErrorView, right: CatalogLoadErrorView) -> bool {
    match (left, right) {
        (
            CatalogLoadErrorView::EmptyCategoryPath,
            CatalogLoadErrorView::EmptyCategoryPath,
        ) => true,
        (
            CatalogLoadErrorView::ReadError { path: l, .. },
            CatalogLoadErrorView::ReadError { path: r, .. },
        ) => l == r,
        (
            CatalogLoadErrorView::ParseError { path: l, .. },
            CatalogLoadErrorView::ParseError { path: r, .. },
        ) => l == r,
        _ => false,
    }
}

impl PartialEq for CatalogLoadError {
    fn eq(&self, other: &Self) -> (same: bool) {
        match self {
            CatalogLoadError::EmptyCategoryPath => match other {
                CatalogLoadError::EmptyCategoryPath => true,
                _ => false,
            },
            CatalogLoadError::ReadError { path: left, .. } => match other {
                CatalogLoadError::ReadError { path: right, .. } => *left == *right,
                _ => false,
            },
            CatalogLoadError::ParseError { path: left, .. } => match other {
                CatalogLoadError::ParseError { path: right, .. } => *left == *right,
                _ => false,
            },
        }
    }
}

impl PartialEqSpecImpl for CatalogLoadError {
    open spec fn obeys_eq_spec() -> bool {
        true
    }

    open spec fn eq_spec(&self, other: &Self) -> bool {
        same_failure(self@, other@)
    }
}

impl Eq for CatalogLoadError {

}

} // verus!
