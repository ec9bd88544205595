//! Why the elevation at a position could not be told.

use vstd::prelude::*;
use vstd::string::*;

verus! {

#[derive(Clone, Debug, PartialEq, Eq)]
pub enum ElevationError {
    /// The raster files could not be read; the text describes the failure.
    Network(String),
    /// A raster file could not be decoded; the text describes the failure.
    Gdal(String),
    /// No raster file covers the position.
    CoordNotFound,
}

pub enum ElevationErrorView {
    Network(Seq<char>),
    Gdal(Seq<char>),
    CoordNotFound,
}

impl View for ElevationError {
    type V = ElevationErrorView;

    open spec fn view(&self) -> ElevationErrorView {
        match self {
            ElevationError::Network(m) => ElevationErrorView::Network(m@),
            ElevationError::Gdal(m) => ElevationErrorView::Gdal(m@),
            ElevationError::CoordNotFound => ElevationErrorView::CoordNotFound,
        }
    }
}

/// The text that describes the error `e`.
pub open spec fn elevation_error_text(e: ElevationErrorView) -> Seq<char> {
    match e {
        ElevationErrorView::Network(_) => "io error"@,
        ElevationErrorView::Gdal(_) => "gdal error"@,
        ElevationErrorView::CoordNotFound => "coordinate not found"@,
    }
}

impl ElevationError {
    /// The text that describes this error.
    pub fn message(&self) -> (text: String)
        ensures
            text@ == elevation_error_text(self@),
    {
        match self {
            ElevationError::Network(_) => String::from_str("io error"),
            ElevationError::Gdal(_) => String::from_str("gdal error"),
            ElevationError::CoordNotFound => String::from_str("coordinate not found"),
        }
    }
}

/// The elevation that a lookup comes to where a failed lookup counts as
/// zero.
pub open spec fn elevation_or_0(found: Result<i32, ElevationError>) -> i32 {
    match found {
        Ok(elevation) => elevation,
        Err(_) => 0,
    }
}

/// The elevation that a lookup comes to where a failed lookup counts as
/// zero.
pub fn lookup_or_0(found: Result<i32, ElevationError>) -> (elevation: i32)
    ensures
        elevation == elevation_or_0(found),
{
    match found {
        Ok(elevation) => elevation,
        Err(_) => 0,
    }
}

} // verus!
