//! What can go wrong, and how it is told.

use vstd::prelude::*;
use vstd::string::StringExecFns;

verus! {

/// The status with which an HTTP response begins.
#[derive(Debug)]
pub struct Status {
    code: u16,
}

impl Status {
    /// The number of the status.
    pub closed spec fn code(self) -> u16 {
        self.code
    }

    #[verifier::type_invariant]
    spec fn in_range(self) -> bool {
        100 <= self.code < 600
    }

    /// The status of that number, if there is one.
    pub fn from_u16(code: u16) -> (status: Option<Status>)
        ensures
            status is Some <==> 100 <= code < 600,
            status is Some ==> status->0.code() == code,
    {
        if 100 <= code && code < 600 {
            Some(Status { code })
        } else {
            None
        }
    }

    /// Whether the request was carried out.
    pub fn is_ok(&self) -> (ok: bool)
        ensures
            ok == (self.code() == 200),
    {
        self.code == 200
    }

    /// The status as it is told: its number and the customary words for it.
    pub fn display(&self) -> (text: String)
        ensures
            text@ == status_text(self.code(), canonical_reason(self.code())),
    {
        proof {
            use_type_invariant(self);
        }
        status_line(self.code, reason_phrase(self.code))
    }
}

/// The customary words for an HTTP status, as `hyper` knows them.
pub uninterp spec fn canonical_reason(code: u16) -> Option<Seq<char>>;

/// Calls `canonical_reason` of `hyper::StatusCode`. Its contract claims only that the words are
/// settled by the number of the status.
#[verifier::external_body]
fn reason_phrase(code: u16) -> (reason: Option<&'static str>)
    requires
        100 <= code < 600,
    ensures
        reason is Some <==> canonical_reason(code) is Some,
        reason is Some ==> Some(reason->0@) == canonical_reason(code),
{
    hyper::StatusCode::from_u16(code).unwrap().canonical_reason()
}

/// The decimal digit of a number below ten.
pub open spec fn decimal_digit(n: nat) -> char {
    (0x30 + n) as char
}

/// A number in decimal notation.
pub open spec fn decimal(n: nat) -> Seq<char>
    decreases n,
{
    if n < 10 {
        seq![decimal_digit(n)]
    } else {
        decimal(n / 10).push(decimal_digit(n % 10))
    }
}

/// A status of the given number and words, as it is told.
pub open spec fn status_text(code: u16, reason: Option<Seq<char>>) -> Seq<char> {
    decimal(code as nat) + " "@ + match reason {
        Some(words) => words,
        None => "<unknown status code>"@,
    }
}

fn digit_str(n: u16) -> (s: &'static str)
    requires
        n < 10,
    ensures
        s@ == seq![decimal_digit(n as nat)],
{
    proof {
        reveal_strlit("0");
        reveal_strlit("1");
        reveal_strlit("2");
        reveal_strlit("3");
        reveal_strlit("4");
        reveal_strlit("5");
        reveal_strlit("6");
        reveal_strlit("7");
        reveal_strlit("8");
        reveal_strlit("9");
    }
    match n {
        0 => "0",
        1 => "1",
        2 => "2",
        3 => "3",
        4 => "4",
        5 => "5",
        6 => "6",
        7 => "7",
        8 => "8",
        _ => "9",
    }
}

fn decimal_string(n: u16) -> (text: String)
    ensures
        text@ == decimal(n as nat),
    decreases n,
{
    if n < 10 {
        digit_str(n).to_string()
    } else {
        let mut text = decimal_string(n / 10);
        text.append(digit_str(n % 10));
        text
    }
}

/// Writes down a status of the given number and words.
pub fn status_line(code: u16, reason: Option<&str>) -> (text: String)
    ensures
        text@ == status_text(
            code,
            match reason {
                Some(words) => Some(words@),
                None => None,
            },
        ),
{
    let mut text = decimal_string(code);
    text.append(" ");
    match reason {
        Some(words) => text.append(words),
        None => text.append("<unknown status code>"),
    }
    text
}

/// What the client itself objects to.
#[derive(Debug)]
pub enum ErrorKind {
    /// No token was given on the command line.
    MissingToken,
    /// There is no terminal to write to.
    MissingTerm,
    /// Slack answered with another status than the one for success.
    HttpError(Status),
    /// Slack answered with an error of its own.
    SlackError(String),
    /// Slack answered with a JSON value of another shape; this is its text.
    UnknownFormat(String),
    /// The connection failed too often.
    BadAttempts,
}

impl ErrorKind {
    /// The kind in a few fixed words.
    pub open spec fn spec_description(self) -> Seq<char> {
        match self {
            ErrorKind::MissingToken => "Missing the token parameter"@,
            ErrorKind::MissingTerm => "Missing the terminal"@,
            ErrorKind::HttpError(_) => "Unexpected HTTP response"@,
            ErrorKind::SlackError(_) => "Error from Slack"@,
            ErrorKind::UnknownFormat(_) => "Unknown response format"@,
            ErrorKind::BadAttempts => "Too many failed connection attempts"@,
        }
    }

    /// The particulars that follow the fixed words.
    pub open spec fn spec_details(self) -> Seq<char> {
        match self {
            ErrorKind::HttpError(status) => " "@ + status_text(
                status.code(),
                canonical_reason(status.code()),
            ),
            ErrorKind::SlackError(error) => ": "@ + error@,
            ErrorKind::UnknownFormat(value) => ": "@ + value@,
            _ => Seq::empty(),
        }
    }

    /// The kind as it is shown: the fixed words and the particulars.
    pub open spec fn spec_display(self) -> Seq<char> {
        self.spec_description() + self.spec_details()
    }

    /// Says in a few fixed words what is wrong.
    pub fn description(&self) -> (text: &'static str)
        ensures
            text@ == self.spec_description(),
    {
        match self {
            ErrorKind::MissingToken => "Missing the token parameter",
            ErrorKind::MissingTerm => "Missing the terminal",
            ErrorKind::HttpError(_) => "Unexpected HTTP response",
            ErrorKind::SlackError(_) => "Error from Slack",
            ErrorKind::UnknownFormat(_) => "Unknown response format",
            ErrorKind::BadAttempts => "Too many failed connection attempts",
        }
    }

    /// Says what is wrong, with the particulars.
    pub fn display(&self) -> (text: String)
        ensures
            text@ == self.spec_display(),
    {
        let mut text = self.description().to_string();
        match self {
            ErrorKind::HttpError(status) => {
                text.append(" ");
                text.append(status.display().as_str());
            },
            ErrorKind::SlackError(error) => {
                text.append(": ");
                text.append(error.as_str());
            },
            ErrorKind::UnknownFormat(value) => {
                text.append(": ");
                text.append(value.as_str());
            },
            _ => {},
        }
        assert(text@ =~= self.spec_display());
        text
    }
}

/// What is shown of an error begins with the fixed words for its kind.
pub proof fn law_display_begins_with_description(kind: ErrorKind)
    ensures
        kind.spec_description().is_prefix_of(kind.spec_display()),
{
    assert(kind.spec_display().subrange(0, kind.spec_description().len() as int)
        =~= kind.spec_description());
}

/// Where an error of somebody else comes from.
#[derive(Clone, Copy, Debug, PartialEq, Eq, Structural)]
pub enum Link {
    Hyper,
    Io,
    Json,
    NativeTls,
    Log,
    Uri,
    WsUri,
    Ws,
    Term,
    ParseFloat,
}

/// An error that ends the client.
#[derive(Debug)]
pub enum Error {
    /// One of the client's own.
    Kind(ErrorKind),
    /// One that was met underneath, with the text that it is told by.
    Foreign { link: Link, text: String },
}

impl Error {
    /// The error as it is shown.
    pub open spec fn spec_display(self) -> Seq<char> {
        match self {
            Error::Kind(kind) => kind.spec_display(),
            Error::Foreign { text, .. } => text@,
        }
    }

    /// Says what is wrong.
    pub fn display(&self) -> (shown: String)
        ensures
            shown@ == self.spec_display(),
    {
        match self {
            Error::Kind(kind) => kind.display(),
            Error::Foreign { text, .. } => text.clone(),
        }
    }
}

/// Finds the token that the client logs in with: the argument that follows the name of the
/// program.
pub fn token_argument(args: &Vec<String>) -> (token: Result<String, ErrorKind>)
    ensures
        token is Ok <==> args@.len() > 1,
        token is Ok ==> token->Ok_0@ == args@[1]@,
        token is Err ==> token->Err_0 is MissingToken,
{
    if args.len() > 1 {
        Ok(args[1].clone())
    } else {
        Err(ErrorKind::MissingToken)
    }
}

/// The number that a row of decimal digits stands for.
pub open spec fn value_of(digits: Seq<char>) -> int
    decreases digits.len(),
{
    if digits.len() == 0 {
        0
    } else {
        10 * value_of(digits.drop_last()) + (digits.last() as int - '0' as int)
    }
}

/// A number is written in decimal digits that stand for it, without zeros in front.
pub proof fn law_numbers_are_written_in_full(n: nat)
    ensures
        value_of(decimal(n)) == n,
        decimal(n).len() > 0,
        forall|i: int| 0 <= i < decimal(n).len() ==> '0' <= #[trigger] decimal(n)[i] <= '9',
        n > 0 ==> decimal(n)[0] != '0',
    decreases n,
{
    if n < 10 {
        assert(decimal(n).drop_last() =~= Seq::empty());
        assert(value_of(decimal(n).drop_last()) == 0);
    } else {
        law_numbers_are_written_in_full(n / 10);
        assert(decimal(n).drop_last() =~= decimal(n / 10));
    }
}

/// A status is told by its number, a space and all of the words for it, or by other words where
/// there are none.
pub proof fn law_statuses_are_told_whole(code: u16, words: Seq<char>)
    ensures
        status_text(code, Some(words)) == decimal(code as nat) + seq![' '] + words,
        status_text(code, None) == decimal(code as nat) + " <unknown status code>"@,
{
    reveal_strlit(" ");
    reveal_strlit("<unknown status code>");
    reveal_strlit(" <unknown status code>");
    assert(status_text(code, Some(words)) =~= decimal(code as nat) + seq![' '] + words);
    assert(status_text(code, None) =~= decimal(code as nat) + " <unknown status code>"@);
}

/// What is said of each kind of error: fixed words, and behind them all that is known of it.
pub proof fn law_errors_are_told_whole(status: Status, text: String, link: Link)
    ensures
        ErrorKind::MissingToken.spec_display() == "Missing the token parameter"@,
        ErrorKind::MissingTerm.spec_display() == "Missing the terminal"@,
        ErrorKind::BadAttempts.spec_display() == "Too many failed connection attempts"@,
        ErrorKind::SlackError(text).spec_display() == "Error from Slack: "@ + text@,
        ErrorKind::UnknownFormat(text).spec_display() == "Unknown response format: "@ + text@,
        ErrorKind::HttpError(status).spec_display() == "Unexpected HTTP response "@ + status_text(
            status.code(),
            canonical_reason(status.code()),
        ),
        ErrorKind::MissingToken.spec_description() == "Missing the token parameter"@,
        ErrorKind::MissingTerm.spec_description() == "Missing the terminal"@,
        ErrorKind::BadAttempts.spec_description() == "Too many failed connection attempts"@,
        ErrorKind::SlackError(text).spec_description() == "Error from Slack"@,
        ErrorKind::UnknownFormat(text).spec_description() == "Unknown response format"@,
        ErrorKind::HttpError(status).spec_description() == "Unexpected HTTP response"@,
        (Error::Foreign { link, text }).spec_display() == text@,
{
    reveal_strlit("Error from Slack");
    reveal_strlit("Error from Slack: ");
    reveal_strlit("Unknown response format");
    reveal_strlit("Unknown response format: ");
    reveal_strlit("Unexpected HTTP response");
    reveal_strlit("Unexpected HTTP response ");
    reveal_strlit(": ");
    reveal_strlit(" ");
    assert(ErrorKind::MissingToken.spec_display() =~= "Missing the token parameter"@);
    assert(ErrorKind::MissingTerm.spec_display() =~= "Missing the terminal"@);
    assert(ErrorKind::BadAttempts.spec_display() =~= "Too many failed connection attempts"@);
    assert(ErrorKind::SlackError(text).spec_display() =~= "Error from Slack: "@ + text@);
    assert(ErrorKind::UnknownFormat(text).spec_display() =~= "Unknown response format: "@ + text@);
    assert(ErrorKind::HttpError(status).spec_display() =~= "Unexpected HTTP response "@
        + status_text(status.code(), canonical_reason(status.code())));
}

/// An error of a kind is shown as the kind is.
pub proof fn law_kinds_are_shown_in_errors(kind: ErrorKind)
    ensures
        Error::Kind(kind).spec_display() == kind.spec_display(),
{
}

/// What is returned for an error is what is said of it.
pub proof fn law_display(
    status: &Status,
    kind: &ErrorKind,
    error: &Error,
    code: u16,
    reason: Option<&str>,
    text: String,
    words: &'static str,
)
    ensures
        call_ensures(Status::display, (status,), text) ==> text@ == status_text(
            status.code(),
            canonical_reason(status.code()),
        ),
        call_ensures(ErrorKind::description, (kind,), words) ==> words@ == kind.spec_description(),
        call_ensures(ErrorKind::display, (kind,), text) ==> text@ == kind.spec_display(),
        call_ensures(Error::display, (error,), text) ==> text@ == error.spec_display(),
        call_ensures(status_line, (code, reason), text) ==> text@ == status_text(
            code,
            match reason {
                Some(words) => Some(words@),
                None => None,
            },
        ),
{
}

/// There is a status for each number of three digits up to 599, and only 200 is the one for
/// success.
pub proof fn law_statuses(code: u16, given: Option<Status>, status: &Status, ok: bool)
    ensures
        call_ensures(Status::from_u16, (code,), given) ==> (given is Some <==> 100 <= code <= 599),
        call_ensures(Status::from_u16, (code,), given) && given is Some ==> given->0.code() == code,
        call_ensures(Status::is_ok, (status,), ok) ==> (ok <==> status.code() == 200),
{
}

/// The token is the whole argument behind the name of the program; without it there is none.
pub proof fn law_token_argument(args: &Vec<String>, token: Result<String, ErrorKind>)
    requires
        call_ensures(token_argument, (args,), token),
    ensures
        args@.len() >= 2 ==> (token matches Ok(given) && given@ == args@[1]@),
        args@.len() < 2 ==> (token matches Err(kind) && kind is MissingToken),
{
}

} // verus!
