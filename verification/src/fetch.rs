//! What counts as a fetched document: the rule that turns what became of a
//! GET request into a document or a failure.

use vstd::prelude::*;

verus! {

/// The cause given for a response whose status is no success.
pub const STATUS_CAUSE: &'static str = "the response status was no success";

/// The cause given for a request that was not answered in time.
pub const TIMEOUT_CAUSE: &'static str = "timed out";

/// What became of one GET request, as its sender saw it.
#[derive(Debug, PartialEq, Eq)]
pub enum Exchange {
    /// A response came back.
    Answered {
        /// The status code of the response.
        status: u16,
        /// The body of the response.
        body: String,
    },
    /// No response came back.
    Failed {
        /// What went wrong, in words.
        cause: String,
    },
    /// No response came back within the deadline.
    TimedOut,
}

/// The mathematical model of an [`Exchange`].
pub enum ExchangeModel {
    Answered { status: u16, body: Seq<char> },
    Failed { cause: Seq<char> },
    TimedOut,
}

impl View for Exchange {
    type V = ExchangeModel;

    open spec fn view(&self) -> ExchangeModel {
        match self {
            Exchange::Answered { status, body } => ExchangeModel::Answered {
                status: *status,
                body: body@,
            },
            Exchange::Failed { cause } => ExchangeModel::Failed { cause: cause@ },
            Exchange::TimedOut => ExchangeModel::TimedOut,
        }
    }
}

/// The status code is one of success: from 200 to 299.
pub open spec fn is_success(status: u16) -> bool {
    200 <= status <= 299
}

/// The document that an exchange brought, or the cause for which it brought
/// none. Only a response with a status of success brings its body; a
/// deadline that passed is a failure like any other.
pub open spec fn outcome_of(exchange: ExchangeModel) -> Result<Seq<char>, Seq<char>> {
    match exchange {
        ExchangeModel::Answered { status, body } => if is_success(status) {
            Ok(body)
        } else {
            Err(STATUS_CAUSE@)
        },
        ExchangeModel::Failed { cause } => Err(cause),
        ExchangeModel::TimedOut => Err(TIMEOUT_CAUSE@),
    }
}

/// The views of a document or cause.
pub open spec fn outcome_view(outcome: Result<String, String>) -> Result<Seq<char>, Seq<char>> {
    match outcome {
        Ok(document) => Ok(document@),
        Err(cause) => Err(cause@),
    }
}

/// An exchange brings a document exactly where it was answered with a
/// status of success.
pub proof fn lemma_document_iff_success(exchange: ExchangeModel)
    ensures
        outcome_of(exchange) is Ok <==> (exchange matches ExchangeModel::Answered { status, .. }
            && is_success(status)),
{
}

/// Turns what became of a GET request into the document or the cause of
/// the failure.
pub fn into_outcome(exchange: Exchange) -> (outcome: Result<String, String>)
    ensures
        outcome_view(outcome) == outcome_of(exchange@),
{
    match exchange {
        Exchange::Answered { status, body } => {
            if 200 <= status && status <= 299 {
                Ok(body)
            } else {
                Err(String::from_str(STATUS_CAUSE))
            }
        },
        Exchange::Failed { cause } => Err(cause),
        Exchange::TimedOut => Err(String::from_str(TIMEOUT_CAUSE)),
    }
}

} // verus!
