use futures::unsync::mpsc::UnboundedReceiver;
use futures::Stream;
use slack_log::account::{Account, Cached};
use slack_log::clock::LocalTime;
use slack_log::error::{Error, ErrorKind, Link};
use slack_log::model::{Channel, Event, Notification, Presence, Profile, User};
use slack_log::state::{Action, Message, Reply};
use slack_log::streams::keep_marked;
use std::rc::Rc;

fn text(s: &str) -> String {
    s.to_string()
}

fn user(name: &str) -> User {
    User {
        id: text("the id in the answer"),
        team_id: text("T1"),
        profile: Profile {
            status_text: text(""),
            real_name_normalized: text(name),
            real_name: text(name),
            display_name_normalized: text(name),
            display_name: text(name),
        },
        name: text(name),
        real_name: text(name),
    }
}

fn channel(name: Option<&str>) -> Channel {
    Channel { id: text("the id in the answer"), name: name.map(text) }
}

fn foreign(link: Link) -> Error {
    Error::Foreign { link, text: text("boom") }
}

fn read(seconds: i64) -> Reply {
    Reply::Time(Ok(LocalTime { seconds, nanos: 0, offset: 0 }))
}

fn notified(notification: Notification) -> Reply {
    Reply::Message(Message::Text(Some(notification)))
}

fn presence(presence: Presence, id: &str) -> Reply {
    notified(Notification::PresenceChange { presence, user: text(id) })
}

fn said(user: &str, channel: &str, words: &str, ts: &str) -> Reply {
    notified(Notification::Message {
        channel: text(channel),
        user: text(user),
        text: text(words),
        ts: text(ts),
    })
}

fn step(account: &mut Account, reply: Reply) -> Action {
    assert!(account.expects(&reply), "{:?}", reply);
    account.step(reply)
}

fn connected() -> Account {
    let mut account = Account::new(text("to ken"));
    account.keep_running();
    step(&mut account, Reply::Address(Ok(text("wss://a"))));
    assert!(matches!(step(&mut account, Reply::Opened), Action::Receive));
    account
}

fn all_events(account: Account, receiver: UnboundedReceiver<Rc<Event>>) -> Vec<Rc<Event>> {
    drop(account);
    receiver.wait().map(|event| event.unwrap()).collect()
}

fn assert_stops(action: Action, link: Link) {
    match action {
        Action::Stop(Error::Foreign { link: l, text }) => {
            assert_eq!(l, link);
            assert_eq!(text, "boom");
        }
        other => panic!("{:?}", other),
    }
}

fn assert_asks_for_address(action: Action) {
    match action {
        Action::RequestAddress(post) => {
            assert_eq!(post.uri, "https://slack.com/api/rtm.start");
            assert_eq!(post.body, "token=to+ken");
            assert_eq!(post.content_length, 12);
        }
        other => panic!("{:?}", other),
    }
}

fn assert_connects(action: Action, uri: &str) {
    match action {
        Action::Connect(to) => assert_eq!(to, uri),
        other => panic!("{:?}", other),
    }
}

#[test]
fn an_address_is_asked_for_and_connected_to() {
    let mut account = Account::new(text("to ken"));
    assert_asks_for_address(account.keep_running());
    assert_connects(step(&mut account, Reply::Address(Ok(text("wss://a")))), "wss://a");
}

#[test]
fn an_address_is_used_again() {
    let mut account = connected();
    assert_connects(step(&mut account, Reply::Ended), "wss://a");
}

#[test]
fn a_redirect_is_followed() {
    let mut account = connected();
    let redirect = notified(Notification::ReconnectUrl { url: text("wss://b") });
    assert!(matches!(step(&mut account, redirect), Action::Receive));
    assert_connects(step(&mut account, Reply::Ended), "wss://b");
}

#[test]
fn a_failure_drops_the_address() {
    let mut account = connected();
    assert_connects(step(&mut account, Reply::Ended), "wss://a");
    assert_asks_for_address(step(&mut account, Reply::Unreachable));
}

#[test]
fn the_fourth_failure_is_the_end() {
    let mut account = Account::new(text("to ken"));
    account.keep_running();
    for _ in 0..2 {
        step(&mut account, Reply::Address(Ok(text("wss://a"))));
        assert_asks_for_address(step(&mut account, Reply::Unreachable));
    }
    step(&mut account, Reply::Address(Ok(text("wss://a"))));
    step(&mut account, Reply::Opened);
    let error = notified(Notification::Error { code: 1, msg: text("Socket URL has expired") });
    assert_asks_for_address(step(&mut account, error));
    step(&mut account, Reply::Address(Ok(text("wss://a"))));
    let last = step(&mut account, Reply::Unreachable);
    assert!(matches!(last, Action::Stop(Error::Kind(ErrorKind::BadAttempts))));
    assert!(!account.expects(&Reply::Address(Ok(text("wss://a")))));
}

#[test]
fn a_redirect_restores_the_patience() {
    let mut account = Account::new(text("to ken"));
    account.keep_running();
    for _ in 0..3 {
        step(&mut account, Reply::Address(Ok(text("wss://a"))));
        assert_asks_for_address(step(&mut account, Reply::Unreachable));
    }
    step(&mut account, Reply::Address(Ok(text("wss://a"))));
    step(&mut account, Reply::Opened);
    step(&mut account, notified(Notification::ReconnectUrl { url: text("wss://b") }));
    assert_connects(step(&mut account, Reply::Ended), "wss://b");
    assert_asks_for_address(step(&mut account, Reply::Unreachable));
}

#[test]
fn a_connection_that_opens_does_not_restore_the_patience() {
    let mut account = Account::new(text("to ken"));
    account.keep_running();
    let error = || notified(Notification::Error { code: 1, msg: text("") });
    for _ in 0..3 {
        step(&mut account, Reply::Address(Ok(text("wss://a"))));
        step(&mut account, Reply::Opened);
        assert_asks_for_address(step(&mut account, error()));
    }
    step(&mut account, Reply::Address(Ok(text("wss://a"))));
    step(&mut account, Reply::Opened);
    let last = step(&mut account, error());
    assert!(matches!(last, Action::Stop(Error::Kind(ErrorKind::BadAttempts))));
}

#[test]
fn a_ping_is_answered_with_its_data() {
    let mut account = connected();
    match step(&mut account, Reply::Message(Message::Ping(vec![1, 2, 3]))) {
        Action::Pong(data) => assert_eq!(data, vec![1, 2, 3]),
        other => panic!("{:?}", other),
    }
    assert!(matches!(step(&mut account, Reply::Ponged(Ok(()))), Action::Receive));
}

#[test]
fn the_rest_is_ignored() {
    let mut account = connected();
    let events = account.events();
    for message in vec![
        Message::Other,
        Message::Text(None),
        Message::Text(Some(Notification::Hello)),
    ] {
        assert!(matches!(step(&mut account, Reply::Message(message)), Action::Receive));
    }
    assert!(all_events(account, events).is_empty());
}

#[test]
fn errors_are_passed_on() {
    let mut account = Account::new(text("t"));
    account.keep_running();
    assert_stops(step(&mut account, Reply::Address(Err(foreign(Link::Hyper)))), Link::Hyper);

    let mut account = Account::new(text("t"));
    account.keep_running();
    step(&mut account, Reply::Address(Ok(text("no address"))));
    assert_stops(step(&mut account, Reply::Misaddressed(foreign(Link::WsUri))), Link::WsUri);

    let mut account = connected();
    assert_stops(step(&mut account, Reply::Broken(foreign(Link::Ws))), Link::Ws);

    let mut account = connected();
    step(&mut account, Reply::Message(Message::Ping(vec![])));
    assert_stops(step(&mut account, Reply::Ponged(Err(foreign(Link::Ws)))), Link::Ws);

    let mut account = connected();
    step(&mut account, presence(Presence::Away, "U1"));
    assert_stops(step(&mut account, Reply::User(Err(foreign(Link::Json)))), Link::Json);

    let mut account = connected();
    step(&mut account, said("U1", "C1", "hi", "1.0"));
    assert_stops(step(&mut account, Reply::Channel(Err(foreign(Link::Uri)))), Link::Uri);

    let mut account = connected();
    step(&mut account, said("U1", "C1", "hi", "x"));
    step(&mut account, Reply::Channel(Ok(channel(None))));
    step(&mut account, Reply::User(Ok(user("jane"))));
    let action = step(&mut account, Reply::Time(Err(foreign(Link::ParseFloat))));
    assert_stops(action, Link::ParseFloat);
}

#[test]
fn a_user_is_asked_about_once() {
    let mut account = connected();
    let events = account.events();
    match step(&mut account, presence(Presence::Active, "U/1")) {
        Action::LookUp { user: Some(post), channel: None } => {
            assert_eq!(post.uri, "https://slack.com/api/users.info");
            assert_eq!(post.body, "user=U%2F1&token=to+ken");
        }
        other => panic!("{:?}", other),
    }
    assert!(!account.expects(&Reply::Channel(Ok(channel(None)))));
    assert!(matches!(step(&mut account, Reply::User(Ok(user("jane")))), Action::Receive));
    assert!(matches!(step(&mut account, presence(Presence::Away, "U/1")), Action::Receive));
    let events = all_events(account, events);
    assert_eq!(events.len(), 2);
    for (event, wanted) in events.iter().zip(vec![Presence::Active, Presence::Away]) {
        match **event {
            Event::PresenceChange { ref user, presence } => {
                assert_eq!(user.name, "jane");
                assert_eq!(presence, wanted);
            }
            ref other => panic!("{:?}", other),
        }
    }
}

#[test]
fn a_new_connection_knows_nobody() {
    let mut account = connected();
    step(&mut account, presence(Presence::Active, "U1"));
    step(&mut account, Reply::User(Ok(user("jane"))));
    step(&mut account, Reply::Ended);
    step(&mut account, Reply::Opened);
    let again = step(&mut account, presence(Presence::Active, "U1"));
    assert!(matches!(again, Action::LookUp { user: Some(_), channel: None }));
}

#[test]
fn a_message_is_told_when_everything_is_known() {
    for user_first in vec![true, false] {
        let mut account = connected();
        let events = account.events();
        match step(&mut account, said("U1", "C1", "hi there", "1355517523.000005")) {
            Action::LookUp { user: Some(user), channel: Some(channel) } => {
                assert_eq!(user.body, "user=U1&token=to+ken");
                assert_eq!(channel.uri, "https://slack.com/api/conversations.info");
                assert_eq!(channel.body, "channel=C1&token=to+ken");
            }
            other => panic!("{:?}", other),
        }
        let jane = Reply::User(Ok(user("jane")));
        let general = Reply::Channel(Ok(channel(Some("general"))));
        let (first, second) = if user_first { (jane, general) } else { (general, jane) };
        assert!(matches!(step(&mut account, first), Action::Wait));
        match step(&mut account, second) {
            Action::ReadTime(ts) => assert_eq!(ts, "1355517523.000005"),
            other => panic!("{:?}", other),
        }
        assert!(!account.expects(&read(i64::MAX)));
        let time = LocalTime { seconds: 1_355_517_523, nanos: 5_000, offset: -19_800 };
        assert!(matches!(step(&mut account, Reply::Time(Ok(time))), Action::Receive));
        // The second time nobody has to be asked.
        let again = step(&mut account, said("U1", "C1", "bye", "2"));
        assert!(matches!(again, Action::ReadTime(_)));
        step(&mut account, read(2));
        let events = all_events(account, events);
        assert_eq!(events.len(), 2);
        match *events[0] {
            Event::Message { ref user, ref channel, ref text, time: told } => {
                assert_eq!(user.name, "jane");
                assert_eq!(channel.name, Some("general".to_string()));
                assert_eq!(text, "hi there");
                assert_eq!(told, time);
            }
            ref other => panic!("{:?}", other),
        }
    }
}

#[test]
fn only_the_unknown_is_asked_about() {
    let mut account = connected();
    step(&mut account, presence(Presence::Active, "U1"));
    step(&mut account, Reply::User(Ok(user("jane"))));
    let action = step(&mut account, said("U1", "C1", "hi", "1"));
    assert!(matches!(action, Action::LookUp { user: None, channel: Some(_) }));
    assert!(!account.expects(&Reply::User(Ok(user("jane")))));
    assert!(matches!(step(&mut account, Reply::Channel(Ok(channel(None)))), Action::ReadTime(_)));
    step(&mut account, read(1));
    let action = step(&mut account, said("U2", "C1", "hi", "1"));
    assert!(matches!(action, Action::LookUp { user: Some(_), channel: None }));
    assert!(matches!(step(&mut account, Reply::User(Ok(user("joe")))), Action::ReadTime(_)));
}

#[test]
fn events_reach_all_who_listen_in_order() {
    let mut account = Account::new(text("t"));
    let gone = account.events();
    let early = account.events();
    drop(gone);
    account.broadcast(Event::PresenceChange { user: user("a"), presence: Presence::Away });
    let late = account.events();
    account.broadcast(Event::PresenceChange { user: user("b"), presence: Presence::Active });
    drop(account);
    let names = |receiver: UnboundedReceiver<Rc<Event>>| {
        receiver
            .wait()
            .map(|event| match *event.unwrap() {
                Event::PresenceChange { ref user, .. } => user.name.clone(),
                ref other => panic!("{:?}", other),
            })
            .collect::<Vec<String>>()
    };
    assert_eq!(names(early), vec!["a", "b"]);
    assert_eq!(names(late), vec!["b"]);
}

#[test]
fn one_event_is_shared_by_all() {
    let mut account = Account::new(text("t"));
    let one = account.events();
    let two = account.events();
    account.broadcast(Event::PresenceChange { user: user("a"), presence: Presence::Away });
    drop(account);
    let one = one.wait().next().unwrap().unwrap();
    let two = two.wait().next().unwrap().unwrap();
    assert!(Rc::ptr_eq(&one, &two));
}

#[test]
fn marked_items_are_kept() {
    let mut items = vec!['a', 'b', 'c', 'd', 'e'];
    keep_marked(&mut items, &vec![false, true, false, false, true]);
    assert_eq!(items, vec!['b', 'e']);
    keep_marked(&mut items, &vec![true, true]);
    assert_eq!(items, vec!['b', 'e']);
    keep_marked(&mut items, &vec![false, false]);
    assert!(items.is_empty());
}

#[test]
fn nothing_is_expected_before_the_start() {
    let account = Account::new(text("t"));
    assert!(!account.expects(&Reply::Opened));
    assert!(!account.expects(&Reply::Ended));
    assert!(!account.expects(&Reply::Address(Ok(text("a")))));
}

fn redirect(url: &str) -> Reply {
    notified(Notification::ReconnectUrl { url: text(url) })
}

fn assert_asks_about_user(action: Action, body: &str) {
    match action {
        Action::LookUp { user: Some(post), .. } => assert_eq!(post.body, body),
        other => panic!("{:?}", other),
    }
}

fn broadcast(account: &mut Account, name: &str) {
    account.broadcast(Event::PresenceChange { user: user(name), presence: Presence::Away });
}

/// Who came, who went, and what was said.
fn summary(events: Vec<Rc<Event>>) -> Vec<String> {
    events
        .iter()
        .map(|event| match **event {
            Event::PresenceChange { ref user, presence } => {
                format!("{} is {:?}", user.name, presence)
            }
            Event::Message { ref user, ref text, time, .. } => {
                format!("{} at {}: {}", user.name, time.seconds, text)
            }
        })
        .collect()
}

#[test]
fn an_account_that_gave_up_can_be_started_again() {
    let mut account = Account::new(text("to ken"));
    account.keep_running();
    for _ in 0..4 {
        step(&mut account, Reply::Address(Ok(text("wss://a"))));
        step(&mut account, Reply::Unreachable);
    }
    // The failures are still counted, and one more is enough.
    assert_asks_for_address(account.keep_running());
    step(&mut account, Reply::Address(Ok(text("wss://a"))));
    let last = step(&mut account, Reply::Unreachable);
    assert!(matches!(last, Action::Stop(Error::Kind(ErrorKind::BadAttempts))));
    // A new address restores the patience.
    assert_asks_for_address(account.keep_running());
    step(&mut account, Reply::Address(Ok(text("wss://a"))));
    step(&mut account, Reply::Opened);
    step(&mut account, redirect("wss://b"));
    assert_connects(step(&mut account, Reply::Ended), "wss://b");
    assert_asks_for_address(step(&mut account, Reply::Unreachable));
}

#[test]
fn a_start_in_between_drops_what_was_waited_for() {
    let mut account = connected();
    step(&mut account, presence(Presence::Active, "U1"));
    assert_connects(account.keep_running(), "wss://a");
    assert!(!account.expects(&Reply::User(Ok(user("jane")))));
    assert!(matches!(step(&mut account, Reply::Opened), Action::Receive));
}

#[test]
fn connections_come_one_after_the_other_until_an_error() {
    let mut account = Account::new(text("to ken"));
    let mut begun = 1;
    assert_asks_for_address(account.keep_running());
    step(&mut account, Reply::Address(Ok(text("wss://a"))));
    for _ in 0..5 {
        step(&mut account, Reply::Opened);
        assert_connects(step(&mut account, Reply::Ended), "wss://a");
        begun += 1;
    }
    step(&mut account, Reply::Opened);
    assert_stops(step(&mut account, Reply::Broken(foreign(Link::Ws))), Link::Ws);
    assert_eq!(begun, 6);
}

#[test]
fn nothing_comes_of_a_notification_of_another_kind() {
    let mut account = connected();
    let events = account.events();
    for notification in vec![
        Notification::Hello,
        Notification::ReconnectUrl { url: text("wss://b") },
        Notification::Error { code: 1, msg: text("gone") },
    ] {
        assert!(matches!(account.into_event(notification), Action::Receive));
    }
    assert_connects(step(&mut account, Reply::Ended), "wss://a");
    assert!(all_events(account, events).is_empty());
}

#[test]
fn something_comes_of_a_presence_and_of_a_message() {
    let mut account = connected();
    let action = account.into_event(Notification::PresenceChange {
        presence: Presence::Active,
        user: text("U1"),
    });
    assert_asks_about_user(action, "user=U1&token=to+ken");
    step(&mut account, Reply::User(Ok(user("jane"))));
    let action = account.into_event(Notification::Message {
        channel: text("C1"),
        user: text("U1"),
        text: text("hi"),
        ts: text("1"),
    });
    assert!(matches!(action, Action::LookUp { user: None, channel: Some(_) }));
}

#[test]
fn the_fourth_bad_url_in_a_row_is_one_too_many() {
    let mut account = Account::new(text("t"));
    for _ in 0..3 {
        assert!(account.bad_url().is_ok());
    }
    assert!(matches!(account.bad_url(), Err(ErrorKind::BadAttempts)));
    assert!(matches!(account.bad_url(), Err(ErrorKind::BadAttempts)));
    account.update_connect_url(text("wss://b"));
    for _ in 0..3 {
        assert!(account.bad_url().is_ok());
    }
    assert!(account.bad_url().is_err());
}

#[test]
fn the_address_is_known_until_it_turns_out_bad() {
    let mut account = connected();
    account.invalidate();
    for _ in 0..2 {
        match account.connect_uri() {
            Cached::Known(uri) => assert_eq!(uri, "wss://a"),
            other => panic!("{:?}", other),
        }
    }
    assert!(account.bad_url().is_ok());
    match account.connect_uri() {
        Cached::Asked(post) => assert_eq!(post.body, "token=to+ken"),
        other => panic!("{:?}", other),
    }
}

#[test]
fn pings_are_answered_in_order_over_a_run() {
    let mut account = connected();
    let mut sent = Vec::new();
    for data in vec![vec![1], vec![], vec![2, 3]] {
        match step(&mut account, Reply::Message(Message::Ping(data))) {
            Action::Pong(data) => sent.push(data),
            other => panic!("{:?}", other),
        }
        step(&mut account, Reply::Ponged(Ok(())));
        step(&mut account, Reply::Message(Message::Other));
        step(&mut account, Reply::Ended);
        step(&mut account, Reply::Opened);
    }
    assert_eq!(sent, vec![vec![1], vec![], vec![2, 3]]);
}

#[test]
fn all_is_told_in_the_order_of_arrival() {
    let mut account = connected();
    let events = account.events();
    step(&mut account, notified(Notification::Hello));
    step(&mut account, presence(Presence::Active, "U1"));
    step(&mut account, Reply::User(Ok(user("jane"))));
    step(&mut account, redirect("wss://b"));
    step(&mut account, said("U2", "C1", "one", "7"));
    step(&mut account, Reply::Channel(Ok(channel(None))));
    step(&mut account, Reply::User(Ok(user("joe"))));
    step(&mut account, read(7));
    step(&mut account, Reply::Message(Message::Text(None)));
    step(&mut account, said("U1", "C1", "two", "8"));
    step(&mut account, read(8));
    step(&mut account, presence(Presence::Away, "U2"));
    step(&mut account, Reply::Ended);
    assert_eq!(
        summary(all_events(account, events)),
        vec!["jane is Active", "joe at 7: one", "jane at 8: two", "joe is Away"]
    );
}

#[test]
fn a_user_is_asked_about_once_in_each_of_two_connections() {
    let mut account = connected();
    let mut asked = 0;
    for _ in 0..2 {
        for _ in 0..2 {
            if let Action::LookUp { user: Some(post), .. } =
                step(&mut account, presence(Presence::Active, "U1"))
            {
                assert_eq!(post.body, "user=U1&token=to+ken");
                asked += 1;
                step(&mut account, Reply::User(Ok(user("jane"))));
            }
        }
        step(&mut account, Reply::Ended);
        step(&mut account, Reply::Opened);
    }
    assert_eq!(asked, 2);
}

#[test]
fn a_channel_is_asked_about_once_in_each_of_two_connections() {
    let mut account = connected();
    let mut asked = 0;
    for _ in 0..2 {
        for _ in 0..2 {
            let action = step(&mut account, said("U1", "C1", "hi", "1"));
            if let Action::LookUp { user: Some(_), channel: Some(_) } = action {
                asked += 1;
                step(&mut account, Reply::User(Ok(user("jane"))));
                step(&mut account, Reply::Channel(Ok(channel(None))));
            }
            step(&mut account, read(1));
        }
        step(&mut account, Reply::Ended);
        step(&mut account, Reply::Opened);
    }
    assert_eq!(asked, 2);
}

#[test]
fn the_last_redirect_counts() {
    let mut account = connected();
    step(&mut account, redirect("wss://b"));
    step(&mut account, redirect("wss://c"));
    step(&mut account, Reply::Message(Message::Other));
    assert_connects(step(&mut account, Reply::Ended), "wss://c");
    step(&mut account, Reply::Opened);
    assert_connects(step(&mut account, Reply::Ended), "wss://c");
}

#[test]
fn whoever_could_not_be_found_is_asked_about_anew() {
    let mut account = connected();
    step(&mut account, presence(Presence::Active, "U1"));
    step(&mut account, Reply::User(Err(foreign(Link::Json))));
    assert!(matches!(account.user(&text("U1")), Cached::Asked(_)));
    account.keep_running();
    step(&mut account, Reply::Opened);
    let again = step(&mut account, presence(Presence::Active, "U1"));
    assert_asks_about_user(again, "user=U1&token=to+ken");
    step(&mut account, Reply::User(Ok(user("jane"))));
    assert!(matches!(account.user(&text("U1")), Cached::Known(_)));

    step(&mut account, said("U1", "C1", "hi", "1"));
    step(&mut account, Reply::Channel(Err(foreign(Link::Json))));
    assert!(matches!(account.channel(&text("C1")), Cached::Asked(_)));
    assert!(matches!(account.user(&text("U1")), Cached::Known(_)));
}

#[test]
fn a_subscriber_hears_what_follows_and_nothing_else() {
    let mut account = Account::new(text("t"));
    broadcast(&mut account, "to nobody");
    let first = account.events();
    broadcast(&mut account, "a");
    let second = account.events();
    broadcast(&mut account, "b");
    drop(first);
    broadcast(&mut account, "c");
    let third = account.events();
    broadcast(&mut account, "d");
    drop(account);
    let names = |receiver: UnboundedReceiver<Rc<Event>>| {
        summary(receiver.wait().map(|event| event.unwrap()).collect())
    };
    assert_eq!(names(second), vec!["b is Away", "c is Away", "d is Away"]);
    assert_eq!(names(third), vec!["d is Away"]);
}

#[test]
fn nobody_hears_a_broadcast_from_before() {
    let mut account = connected();
    broadcast(&mut account, "to nobody");
    assert!(matches!(step(&mut account, Reply::Message(Message::Other)), Action::Receive));
    assert_connects(account.keep_running(), "wss://a");
    let late = account.events();
    assert!(all_events(account, late).is_empty());
}

#[test]
fn each_of_two_streams_takes_all_that_is_told_over_a_run() {
    let mut account = connected();
    let one = account.events();
    let two = account.events();
    step(&mut account, presence(Presence::Active, "U1"));
    step(&mut account, Reply::User(Ok(user("jane"))));
    step(&mut account, Reply::Ended);
    step(&mut account, Reply::Opened);
    step(&mut account, said("U1", "C1", "hi", "9"));
    step(&mut account, Reply::User(Ok(user("jane"))));
    step(&mut account, Reply::Channel(Ok(channel(None))));
    step(&mut account, read(9));
    drop(account);
    for stream in vec![one, two] {
        assert_eq!(
            summary(stream.wait().map(|event| event.unwrap()).collect()),
            vec!["jane is Active", "jane at 9: hi"]
        );
    }
}
