use slack_log::error::{status_line, token_argument, Error, ErrorKind, Link, Status};
use slack_log::response::{response_body, response_head, MaybeResponse};

fn status(code: u16) -> Status {
    Status::from_u16(code).unwrap()
}

#[test]
fn statuses_have_three_digits() {
    assert!(Status::from_u16(99).is_none());
    assert!(Status::from_u16(100).is_some());
    assert!(Status::from_u16(599).is_some());
    assert!(Status::from_u16(600).is_none());
    assert!(status(200).is_ok());
    assert!(!status(201).is_ok());
}

#[test]
fn statuses_are_told_with_their_words() {
    assert_eq!(status(404).display(), "404 Not Found");
    assert_eq!(status(500).display(), "500 Internal Server Error");
    assert_eq!(status(299).display(), "299 <unknown status code>");
}

#[test]
fn status_lines_are_written_from_number_and_words() {
    assert_eq!(status_line(0, None), "0 <unknown status code>");
    assert_eq!(status_line(65535, Some("odd")), "65535 odd");
    assert_eq!(status_line(1209, Some("")), "1209 ");
}

#[test]
fn kinds_are_described_and_displayed() {
    let cases = vec![
        (ErrorKind::MissingToken, "Missing the token parameter", "Missing the token parameter"),
        (ErrorKind::MissingTerm, "Missing the terminal", "Missing the terminal"),
        (
            ErrorKind::HttpError(status(403)),
            "Unexpected HTTP response",
            "Unexpected HTTP response 403 Forbidden",
        ),
        (
            ErrorKind::SlackError("not_authed".to_string()),
            "Error from Slack",
            "Error from Slack: not_authed",
        ),
        (
            ErrorKind::UnknownFormat("[1,2]".to_string()),
            "Unknown response format",
            "Unknown response format: [1,2]",
        ),
        (
            ErrorKind::BadAttempts,
            "Too many failed connection attempts",
            "Too many failed connection attempts",
        ),
    ];
    for (kind, description, display) in cases {
        assert_eq!(kind.description(), description);
        assert_eq!(kind.display(), display);
        assert!(kind.display().starts_with(kind.description()));
        assert_eq!(Error::Kind(kind).display(), display);
    }
}

#[test]
fn errors_from_underneath_are_shown_as_they_are() {
    let error = Error::Foreign { link: Link::Io, text: "no such file".to_string() };
    assert_eq!(error.display(), "no such file");
}

#[test]
fn the_token_is_the_first_argument() {
    let args = |list: &[&str]| list.iter().map(|s| s.to_string()).collect::<Vec<String>>();
    assert_eq!(token_argument(&args(&["prog", "xoxp", "more"])).unwrap(), "xoxp");
    assert!(matches!(token_argument(&args(&["prog"])), Err(ErrorKind::MissingToken)));
    assert!(matches!(token_argument(&args(&[])), Err(ErrorKind::MissingToken)));
}

#[test]
fn only_success_is_worth_reading() {
    assert!(response_head(status(200)).is_ok());
    match response_head(status(204)) {
        Err(Error::Kind(ErrorKind::HttpError(s))) => assert_eq!(s.display(), "204 No Content"),
        other => panic!("{:?}", other),
    }
}

#[test]
fn bodies_are_judged() {
    assert!(matches!(response_body(Ok(MaybeResponse::Correct(7u8))), Ok(7)));
    match response_body::<u8>(Ok(MaybeResponse::Error { error: "invalid_auth".to_string() })) {
        Err(Error::Kind(ErrorKind::SlackError(error))) => assert_eq!(error, "invalid_auth"),
        other => panic!("{:?}", other),
    }
    match response_body::<u8>(Ok(MaybeResponse::Broken("{}".to_string()))) {
        Err(Error::Kind(ErrorKind::UnknownFormat(value))) => assert_eq!(value, "{}"),
        other => panic!("{:?}", other),
    }
    let json = Error::Foreign { link: Link::Json, text: "EOF".to_string() };
    match response_body::<u8>(Err(json)) {
        Err(Error::Foreign { link, text }) => {
            assert_eq!(link, Link::Json);
            assert_eq!(text, "EOF");
        }
        other => panic!("{:?}", other),
    }
}
