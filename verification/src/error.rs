//! Failures of pipeline compilation and execution.
use vstd::prelude::*;

verus! {

/// A failure of a datum grid: of loading it, or of shifting a coordinate with it.
#[derive(Debug, PartialEq, Eq)]
pub enum GridError {
    /// The grid is not known.
    NotFound(String),
    /// The grid is known and its data cannot be had.
    Unavailable(String),
    /// The grid does not cover the coordinate.
    OutsideCoverage(String),
    /// The grid is stored in a format that cannot be read.
    UnsupportedFormat(String),
    /// The grid's data is damaged.
    Malformed(String),
}

/// A failure of compiling or of executing a pipeline.
#[derive(Debug, PartialEq, Eq)]
pub enum Error {
    OutOfRange(String),
    InvalidDefinition(String),
    UnknownCrs(String),
    UnknownOperation(String),
    UnsupportedProjection(String),
    OperationSelection(String),
    Grid(GridError),
}

/// What a [`GridError`] says, with its text as a sequence of characters.
pub enum GridErrorView {
    NotFound(Seq<char>),
    Unavailable(Seq<char>),
    OutsideCoverage(Seq<char>),
    UnsupportedFormat(Seq<char>),
    Malformed(Seq<char>),
}

/// What an [`Error`] says, with its text as a sequence of characters.
pub enum ErrorView {
    OutOfRange(Seq<char>),
    InvalidDefinition(Seq<char>),
    UnknownCrs(Seq<char>),
    UnknownOperation(Seq<char>),
    UnsupportedProjection(Seq<char>),
    OperationSelection(Seq<char>),
    Grid(GridErrorView),
}

impl GridErrorView {
    /// The text of the failure.
    pub open spec fn detail(self) -> Seq<char> {
        match self {
            GridErrorView::NotFound(text) => text,
            GridErrorView::Unavailable(text) => text,
            GridErrorView::OutsideCoverage(text) => text,
            GridErrorView::UnsupportedFormat(text) => text,
            GridErrorView::Malformed(text) => text,
        }
    }
}

impl ErrorView {
    /// The text of the failure.
    pub open spec fn detail(self) -> Seq<char> {
        match self {
            ErrorView::OutOfRange(text) => text,
            ErrorView::InvalidDefinition(text) => text,
            ErrorView::UnknownCrs(text) => text,
            ErrorView::UnknownOperation(text) => text,
            ErrorView::UnsupportedProjection(text) => text,
            ErrorView::OperationSelection(text) => text,
            ErrorView::Grid(error) => error.detail(),
        }
    }
}

impl View for GridError {
    type V = GridErrorView;

    open spec fn view(&self) -> GridErrorView {
        match *self {
            GridError::NotFound(text) => GridErrorView::NotFound(text@),
            GridError::Unavailable(text) => GridErrorView::Unavailable(text@),
            GridError::OutsideCoverage(text) => GridErrorView::OutsideCoverage(text@),
            GridError::UnsupportedFormat(text) => GridErrorView::UnsupportedFormat(text@),
            GridError::Malformed(text) => GridErrorView::Malformed(text@),
        }
    }
}

impl View for Error {
    type V = ErrorView;

    open spec fn view(&self) -> ErrorView {
        match *self {
            Error::OutOfRange(text) => ErrorView::OutOfRange(text@),
            Error::InvalidDefinition(text) => ErrorView::InvalidDefinition(text@),
            Error::UnknownCrs(text) => ErrorView::UnknownCrs(text@),
            Error::UnknownOperation(text) => ErrorView::UnknownOperation(text@),
            Error::UnsupportedProjection(text) => ErrorView::UnsupportedProjection(text@),
            Error::OperationSelection(text) => ErrorView::OperationSelection(text@),
            Error::Grid(error) => ErrorView::Grid(error@),
        }
    }
}

impl Clone for GridError {
    fn clone(&self) -> (copy: Self)
        ensures
            copy == *self,
    {
        match self {
            GridError::NotFound(text) => GridError::NotFound(text.clone()),
            GridError::Unavailable(text) => GridError::Unavailable(text.clone()),
            GridError::OutsideCoverage(text) => GridError::OutsideCoverage(text.clone()),
            GridError::UnsupportedFormat(text) => GridError::UnsupportedFormat(text.clone()),
            GridError::Malformed(text) => GridError::Malformed(text.clone()),
        }
    }
}

impl Clone for Error {
    fn clone(&self) -> (copy: Self)
        ensures
            copy == *self,
    {
        match self {
            Error::OutOfRange(text) => Error::OutOfRange(text.clone()),
            Error::InvalidDefinition(text) => Error::InvalidDefinition(text.clone()),
            Error::UnknownCrs(text) => Error::UnknownCrs(text.clone()),
            Error::UnknownOperation(text) => Error::UnknownOperation(text.clone()),
            Error::UnsupportedProjection(text) => Error::UnsupportedProjection(text.clone()),
            Error::OperationSelection(text) => Error::OperationSelection(text.clone()),
            Error::Grid(error) => Error::Grid(error.clone()),
        }
    }
}

impl GridError {
    /// The text of the failure.
    pub fn detail(&self) -> (text: &str)
        ensures
            text@ == self@.detail(),
    {
        match self {
            GridError::NotFound(text) => text.as_str(),
            GridError::Unavailable(text) => text.as_str(),
            GridError::OutsideCoverage(text) => text.as_str(),
            GridError::UnsupportedFormat(text) => text.as_str(),
            GridError::Malformed(text) => text.as_str(),
        }
    }
}

impl Error {
    /// The text of the failure.
    pub fn detail(&self) -> (text: &str)
        ensures
            text@ == self@.detail(),
    {
        match self {
            Error::OutOfRange(text) => text.as_str(),
            Error::InvalidDefinition(text) => text.as_str(),
            Error::UnknownCrs(text) => text.as_str(),
            Error::UnknownOperation(text) => text.as_str(),
            Error::UnsupportedProjection(text) => text.as_str(),
            Error::OperationSelection(text) => text.as_str(),
            Error::Grid(error) => error.detail(),
        }
    }
}

} // verus!
