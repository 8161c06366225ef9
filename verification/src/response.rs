//! What Slack answers to a form.

use crate::error::{Error, ErrorKind, Status};
use vstd::prelude::*;

verus! {

/// The body of an answer: what was asked for, an error of Slack's, or neither, of which the text
/// is kept.
#[derive(Debug)]
pub enum MaybeResponse<R> {
    Correct(R),
    Error { error: String },
    Broken(String),
}

/// Judges the head of an answer: only after the status for success its body is worth reading.
pub fn response_head(status: Status) -> (verdict: Result<(), Error>)
    ensures
        status.code() == 200 ==> verdict == Ok::<(), Error>(()),
        status.code() != 200 ==> verdict == Err::<(), Error>(
            Error::Kind(ErrorKind::HttpError(status)),
        ),
{
    if !status.is_ok() {
        return Err(Error::Kind(ErrorKind::HttpError(status)));
    }
    Ok(())
}

/// Judges the body of an answer, once it was read.
pub fn response_body<R>(body: Result<MaybeResponse<R>, Error>) -> (verdict: Result<R, Error>)
    ensures
        verdict == match body {
            Ok(MaybeResponse::Correct(response)) => Ok(response),
            Ok(MaybeResponse::Error { error }) => Err(Error::Kind(ErrorKind::SlackError(error))),
            Ok(MaybeResponse::Broken(value)) => Err(Error::Kind(ErrorKind::UnknownFormat(value))),
            Err(error) => Err(error),
        },
{
    match body {
        Ok(MaybeResponse::Correct(response)) => Ok(response),
        Ok(MaybeResponse::Error { error }) => Err(Error::Kind(ErrorKind::SlackError(error))),
        Ok(MaybeResponse::Broken(value)) => Err(Error::Kind(ErrorKind::UnknownFormat(value))),
        Err(error) => Err(error),
    }
}

/// An answer is read just after the status for success; any other status is the error.
pub proof fn law_response_head(status: Status, verdict: Result<(), Error>)
    requires
        call_ensures(response_head, (status,), verdict),
    ensures
        verdict is Ok <==> status.code() == 200,
        verdict matches Err(error) ==> error == Error::Kind(ErrorKind::HttpError(status)),
{
}

/// What was asked for is handed on as it came; an error of Slack's, an answer of another shape and
/// an answer that could not be read are each an error of their own, with all that came.
pub proof fn law_response_body<R>(
    response: R,
    text: String,
    unread: Error,
    verdict: Result<R, Error>,
)
    ensures
        call_ensures(response_body::<R>, (Ok(MaybeResponse::Correct(response)),), verdict)
            ==> verdict == Ok::<R, Error>(response),
        call_ensures(response_body::<R>, (Ok(MaybeResponse::Error { error: text }),), verdict)
            ==> verdict == Err::<R, Error>(Error::Kind(ErrorKind::SlackError(text))),
        call_ensures(response_body::<R>, (Ok(MaybeResponse::Broken(text)),), verdict) ==> verdict
            == Err::<R, Error>(Error::Kind(ErrorKind::UnknownFormat(text))),
        call_ensures(response_body::<R>, (Err(unread),), verdict) ==> verdict == Err::<R, Error>(
            unread,
        ),
{
}

} // verus!
