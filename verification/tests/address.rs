use slack_log::address::{address_verdict, is_readable, judge_address, ASCII_LIMIT, LIMIT};
use slack_log::error::{Error, Link};

fn assert_faulty(verdict: Result<(), Error>, words: &str) {
    match verdict {
        Err(Error::Foreign { link, text }) => {
            assert_eq!(link, Link::WsUri);
            assert_eq!(text, words);
        }
        other => panic!("{:?}", other),
    }
}

#[test]
fn an_address_without_a_scheme_is_faulty() {
    assert_faulty(judge_address("no address"), "relative URL without a base");
    assert_faulty(judge_address(""), "relative URL without a base");
}

#[test]
fn an_address_with_a_bad_port_is_faulty() {
    assert_faulty(judge_address("wss://a:99999/"), "invalid port number");
}

#[test]
fn an_address_of_a_socket_is_not_faulty() {
    assert!(judge_address("wss://cerberus-xxxx.lb.slack-msgs.com/websocket/abc").is_ok());
    assert!(judge_address("wss://a").is_ok());
}

#[test]
fn a_fault_is_passed_on() {
    assert_faulty(address_verdict(Some("empty host".to_string())), "empty host");
    assert!(address_verdict(None).is_ok());
}

#[test]
fn an_address_with_a_bad_name_is_faulty() {
    assert_faulty(judge_address("wss://"), "empty host");
    assert_faulty(judge_address("wss://a b/"), "invalid domain character");
    assert_faulty(judge_address("wss://[1]/"), "invalid IPv6 address");
}

#[test]
fn long_hosts_are_not_read() {
    let ascii = |letters: usize| format!("wss://{}", "a".repeat(letters));
    assert!(is_readable(&ascii(ASCII_LIMIT - 6)));
    assert!(!is_readable(&ascii(ASCII_LIMIT - 5)));
    let other = |letters: usize| format!("wss://{}", "\u{e1}".repeat(letters));
    assert!(is_readable(&other(LIMIT - 6)));
    assert!(!is_readable(&other(LIMIT - 5)));
    assert!(!is_readable(&format!("ws://{}\u{1062cd}", "a".repeat(3999))));
}

#[test]
fn long_paths_are_read() {
    for rest in vec!["/", "?ticket=", "#"] {
        let address = format!("wss://a{}{}", rest, "\u{e1}".repeat(5_000));
        assert!(is_readable(&address));
        assert!(judge_address(&address).is_ok());
    }
    // The slashes in front of a host are not its end.
    assert!(!is_readable(&format!("wss://{}{}", "/".repeat(5_000), "a")));
    assert!(!is_readable(&format!("{}://a/", "s".repeat(5_000))));
}

#[test]
fn the_longest_hosts_are_read() {
    assert!(judge_address(&format!("wss://{}/", "a".repeat(ASCII_LIMIT - 6))).is_ok());
    assert!(judge_address(&format!("wss://{}/", "\u{e1}".repeat(LIMIT - 6))).is_ok());
    // These become eighteen characters each.
    let each = "%EF%B7%BA";
    let host = each.repeat((ASCII_LIMIT - 6) / each.len());
    assert!(is_readable(&format!("wss://{}/", host)));
    assert_faulty(
        judge_address(&format!("wss://{}/", host)),
        "invalid international domain name",
    );
}
