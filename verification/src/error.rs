//! The failures of a run.

use vstd::prelude::*;

verus! {

/// The search request failed: no connection, a timeout, or a response that
/// was no success. It ends the run.
#[derive(Debug, PartialEq, Eq)]
pub struct NetworkError {
    /// What went wrong, in words.
    pub cause: String,
}

/// One target page could not be fetched. The run goes on without it.
#[derive(Debug, PartialEq, Eq)]
pub struct FetchError {
    /// The destination that was asked for.
    pub url: String,
    /// What went wrong, in words.
    pub cause: String,
}

impl View for NetworkError {
    type V = Seq<char>;

    open spec fn view(&self) -> Seq<char> {
        self.cause@
    }
}

/// The mathematical model of a [`FetchError`].
pub struct FetchFailure {
    pub url: Seq<char>,
    pub cause: Seq<char>,
}

impl View for FetchError {
    type V = FetchFailure;

    open spec fn view(&self) -> FetchFailure {
        FetchFailure { url: self.url@, cause: self.cause@ }
    }
}

impl DeepView for FetchError {
    type V = FetchFailure;

    open spec fn deep_view(&self) -> FetchFailure {
        self.view()
    }
}

impl NetworkError {
    /// The failure in one line.
    pub fn message(&self) -> (text: String)
        ensures
            text@ == "search request failed: "@ + self.cause@,
    {
        String::from_str("search request failed: ").concat(self.cause.as_str())
    }
}

impl FetchError {
    /// The failure in one line.
    pub fn message(&self) -> (text: String)
        ensures
            text@ == "failed to fetch "@ + self.url@ + ": "@ + self.cause@,
    {
        String::from_str("failed to fetch ").concat(self.url.as_str()).concat(": ").concat(
            self.cause.as_str(),
        )
    }
}

} // verus!
