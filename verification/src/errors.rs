//! The library's errors.

use vstd::prelude::*;
use vstd::string::StringExecFns;
use crate::config::WeightType;

verus! {

/// What can go wrong, each kind with its message.
#[derive(Debug, Clone, PartialEq, Eq)]
pub enum CzscError {
    /// The input is not fit to be worked on: a table that lacks a column,
    /// is empty or holds nulls, or settings that are invalid.
    Validation(String),
    /// The data could not be processed.
    DataProcessing(String),
    /// The backtest's own logic found the data inconsistent.
    BacktestLogic(String),
    /// A performance figure could not be computed.
    Performance(String),
    /// The host scripting environment reported a failure.
    PythonInteraction(String),
    /// A value could not be written out or read back.
    Serialization(String),
    /// A weighting that the operation does not handle.
    InvalidWeightType(WeightType),
    /// A column that the table lacks.
    ColumnNotFound(String),
    /// Anything else.
    Unknown(String),
}

pub type CzscResult<T> = Result<T, CzscError>;

/// A message with its context put in front: the context, a colon, a space,
/// the message.
pub open spec fn in_context(context: Seq<char>, message: Seq<char>) -> Seq<char> {
    context + ": "@ + message
}

/// The mathematical content of a [`CzscError`].
pub enum CzscErrorView {
    Validation(Seq<char>),
    DataProcessing(Seq<char>),
    BacktestLogic(Seq<char>),
    Performance(Seq<char>),
    PythonInteraction(Seq<char>),
    Serialization(Seq<char>),
    InvalidWeightType(WeightType),
    ColumnNotFound(Seq<char>),
    Unknown(Seq<char>),
}

impl View for CzscError {
    type V = CzscErrorView;

    open spec fn view(&self) -> CzscErrorView {
        match self {
            CzscError::Validation(m) => CzscErrorView::Validation(m@),
            CzscError::DataProcessing(m) => CzscErrorView::DataProcessing(m@),
            CzscError::BacktestLogic(m) => CzscErrorView::BacktestLogic(m@),
            CzscError::Performance(m) => CzscErrorView::Performance(m@),
            CzscError::PythonInteraction(m) => CzscErrorView::PythonInteraction(m@),
            CzscError::Serialization(m) => CzscErrorView::Serialization(m@),
            CzscError::InvalidWeightType(w) => CzscErrorView::InvalidWeightType(*w),
            CzscError::ColumnNotFound(m) => CzscErrorView::ColumnNotFound(m@),
            CzscError::Unknown(m) => CzscErrorView::Unknown(m@),
        }
    }
}

impl CzscErrorView {
    /// The same kind of error with the context put in front of its message.
    /// An invalid weighting carries no message and stays as it is.
    pub open spec fn with_context(self, context: Seq<char>) -> CzscErrorView {
        match self {
            CzscErrorView::Validation(m) => CzscErrorView::Validation(in_context(context, m)),
            CzscErrorView::DataProcessing(m) => CzscErrorView::DataProcessing(
                in_context(context, m),
            ),
            CzscErrorView::BacktestLogic(m) => CzscErrorView::BacktestLogic(in_context(context, m)),
            CzscErrorView::Performance(m) => CzscErrorView::Performance(in_context(context, m)),
            CzscErrorView::PythonInteraction(m) => CzscErrorView::PythonInteraction(
                in_context(context, m),
            ),
            CzscErrorView::Serialization(m) => CzscErrorView::Serialization(in_context(context, m)),
            CzscErrorView::InvalidWeightType(w) => CzscErrorView::InvalidWeightType(w),
            CzscErrorView::ColumnNotFound(m) => CzscErrorView::ColumnNotFound(
                in_context(context, m),
            ),
            CzscErrorView::Unknown(m) => CzscErrorView::Unknown(in_context(context, m)),
        }
    }
}

fn prefixed(context: &str, message: &String) -> (joined: String)
    ensures
        joined@ == in_context(context@, message@),
{
    let mut joined = String::from_str(context);
    joined.append(": ");
    joined.append(message.as_str());
    joined
}

impl CzscError {
    /// Puts a context in front of the error's message.
    pub fn with_context(self, context: &str) -> (framed: CzscError)
        ensures
            framed@ == self@.with_context(context@),
    {
        match self {
            CzscError::Validation(m) => CzscError::Validation(prefixed(context, &m)),
            CzscError::DataProcessing(m) => CzscError::DataProcessing(prefixed(context, &m)),
            CzscError::BacktestLogic(m) => CzscError::BacktestLogic(prefixed(context, &m)),
            CzscError::Performance(m) => CzscError::Performance(prefixed(context, &m)),
            CzscError::PythonInteraction(m) => CzscError::PythonInteraction(prefixed(context, &m)),
            CzscError::Serialization(m) => CzscError::Serialization(prefixed(context, &m)),
            CzscError::InvalidWeightType(w) => CzscError::InvalidWeightType(w),
            CzscError::ColumnNotFound(m) => CzscError::ColumnNotFound(prefixed(context, &m)),
            CzscError::Unknown(m) => CzscError::Unknown(prefixed(context, &m)),
        }
    }
}

/// Adds a context to the error of a result.
pub trait ErrorContext<T> {
    /// The result as it is when it is `Ok`; else its error with the context
    /// put in front of its message.
    fn context(self, context: &str) -> (framed: CzscResult<T>);
}

impl<T> ErrorContext<T> for Result<T, CzscError> {
    fn context(self, context: &str) -> (framed: CzscResult<T>)
        ensures
            match self {
                Ok(value) => framed == Ok::<T, CzscError>(value),
                Err(error) => framed matches Err(e) && e@ == error@.with_context(context@),
            },
    {
        match self {
            Ok(value) => Ok(value),
            Err(error) => Err(error.with_context(context)),
        }
    }
}

} // verus!
