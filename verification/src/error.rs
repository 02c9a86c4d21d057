//! The error that a failed translation reports.

use vstd::prelude::*;

verus! {

/// Why a compilation step failed.
#[derive(Debug, PartialEq, Clone)]
pub enum CompilerError {
    /// A failure described by its message.
    Custom(String),
}

/// The mathematical model of a [`CompilerError`].
pub enum CompilerErrorView {
    Custom(Seq<char>),
}

impl View for CompilerError {
    type V = CompilerErrorView;

    open spec fn view(&self) -> CompilerErrorView {
        match self {
            CompilerError::Custom(message) => CompilerErrorView::Custom(message@),
        }
    }
}

impl CompilerErrorView {
    /// The text that describes the failure.
    pub open spec fn message(self) -> Seq<char> {
        match self {
            CompilerErrorView::Custom(message) => message,
        }
    }
}

impl CompilerError {
    /// Returns the text that describes the failure.
    pub fn message(&self) -> (text: String)
        ensures
            text@ == self@.message(),
    {
        match self {
            CompilerError::Custom(message) => message.clone(),
        }
    }
}

} // verus!
