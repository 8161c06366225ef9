//! An account: the side of a conversation with Slack that decides what to do next.

use crate::clock::{is_representable, LocalTime};
use crate::error::{Error, ErrorKind};
use crate::form::{fields_of, request_build, FormPost};
use crate::model::{Channel, Event, News, Notification, Presence, User};
use crate::state::{
    address_post, channel_post, is_failure, known, user_post, AccountView, Action, Message,
    PhaseView, Reply, CHANNEL_INFO_REQ, CONNECT_URI, MAX_ATTEMPTS, USER_INFO_REQ,
};
use crate::streams::{ends_of_one_queue, EventStreams, StreamsView};
use futures::unsync::mpsc::UnboundedReceiver;
use std::rc::Rc;
use vstd::hash_map::StringHashMap;
use vstd::prelude::*;

verus! {

/// What an account is waiting for.
enum Phase {
    Idle,
    Addressing,
    Opening,
    Listening,
    Answering,
    FindingUser { presence: Presence, id: String },
    FindingBoth {
        user_id: String,
        channel_id: String,
        found_user: Option<User>,
        found_channel: Option<Channel>,
        text: String,
        ts: String,
    },
    Dating { user: User, channel: Channel, text: String },
    Stopped,
}

impl View for Phase {
    type V = PhaseView;

    closed spec fn view(&self) -> PhaseView {
        match *self {
            Phase::Idle => PhaseView::Idle,
            Phase::Addressing => PhaseView::Addressing,
            Phase::Opening => PhaseView::Opening,
            Phase::Listening => PhaseView::Listening,
            Phase::Answering => PhaseView::Answering,
            Phase::FindingUser { presence, id } => PhaseView::FindingUser { presence, id: id@ },
            Phase::FindingBoth { user_id, channel_id, found_user, found_channel, text, ts } =>
                PhaseView::FindingBoth {
                user_id: user_id@,
                channel_id: channel_id@,
                found_user,
                found_channel,
                text: text@,
                ts: ts@,
            },
            Phase::Dating { user, channel, text } => PhaseView::Dating {
                user,
                channel,
                text: text@,
            },
            Phase::Stopped => PhaseView::Stopped,
        }
    }
}

/// What is to be had from a cache: the value, or the form that asks for it.
#[derive(Debug)]
pub enum Cached<T> {
    Known(T),
    Asked(FormPost),
}

/// An account at Slack.
pub struct Account {
    token: String,
    connect_uri: Option<String>,
    bad_attempts: usize,
    user: StringHashMap<User>,
    channel: StringHashMap<Channel>,
    phase: Phase,
    event_streams: EventStreams,
}

impl View for Account {
    type V = AccountView;

    closed spec fn view(&self) -> AccountView {
        AccountView {
            token: self.token@,
            connect_uri: match self.connect_uri {
                Some(uri) => Some(uri@),
                None => None,
            },
            bad_attempts: self.bad_attempts as nat,
            user: self.user@,
            channel: self.channel@,
            phase: self.phase@,
        }
    }
}

impl Account {
    /// The streams of those who listen to the account.
    pub closed spec fn streams(self) -> StreamsView {
        self.event_streams@
    }

    /// An account that logs in with the token, and was not started yet.
    pub fn new(token: String) -> (account: Account)
        ensures
            account@ == (AccountView {
                token: token@,
                connect_uri: None,
                bad_attempts: 0,
                user: Map::empty(),
                channel: Map::empty(),
                phase: PhaseView::Idle,
            }),
            account@.in_order(),
            account.streams().open.len() == 0,
            account.streams().offers.len() == 0,
    {
        Account {
            token,
            connect_uri: None,
            bad_attempts: 0,
            user: StringHashMap::new(),
            channel: StringHashMap::new(),
            phase: Phase::Idle,
            event_streams: EventStreams::new(),
        }
    }

    /// Forgets the users and the channels.
    pub fn invalidate(&mut self)
        ensures
            final(self)@ == old(self)@.invalidated(),
            final(self).streams() == old(self).streams(),
    {
        self.user.clear();
        self.channel.clear();
    }

    /// Takes down that the address does not serve.
    pub fn bad_url(&mut self) -> (verdict: Result<(), ErrorKind>)
        requires
            old(self)@.bad_attempts < usize::MAX,
        ensures
            final(self)@ == old(self)@.failed(),
            final(self).streams() == old(self).streams(),
            verdict == if old(self)@.bad_attempts + 1 > MAX_ATTEMPTS {
                Err::<(), ErrorKind>(ErrorKind::BadAttempts)
            } else {
                Ok(())
            },
    {
        self.connect_uri = None;
        self.bad_attempts = self.bad_attempts + 1;
        if self.bad_attempts > MAX_ATTEMPTS {
            Err(ErrorKind::BadAttempts)
        } else {
            Ok(())
        }
    }

    /// Takes down a new address.
    pub fn update_connect_url(&mut self, url: String)
        ensures
            final(self)@ == old(self)@.redirected(url@),
            final(self).streams() == old(self).streams(),
    {
        self.connect_uri = Some(url);
        self.bad_attempts = 0;
    }

    /// The address to connect to, or the form that asks for one.
    pub fn connect_uri(&self) -> (uri: Cached<String>)
        ensures
            match uri {
                Cached::Known(uri) => self@.connect_uri == Some(uri@),
                Cached::Asked(post) => self@.connect_uri is None && post@ == address_post(
                    self@.token,
                ),
            },
    {
        match &self.connect_uri {
            Some(uri) => Cached::Known(uri.clone()),
            None => {
                let pairs = vec![("token".to_string(), self.token.clone())];
                assert(fields_of(pairs@) =~= seq![("token"@, self@.token)]);
                Cached::Asked(request_build(CONNECT_URI, &pairs))
            },
        }
    }

    /// The user of that id, or the form that asks about them.
    pub fn user(&self, id: &String) -> (user: Cached<User>)
        ensures
            match user {
                Cached::Known(user) => known(self@.user, id@) == Some(user),
                Cached::Asked(post) => known(self@.user, id@) is None && post@ == user_post(
                    id@,
                    self@.token,
                ),
            },
    {
        match self.user.get(id.as_str()) {
            Some(user) => Cached::Known(user.clone()),
            None => {
                let pairs = vec![
                    ("user".to_string(), id.clone()),
                    ("token".to_string(), self.token.clone()),
                ];
                assert(fields_of(pairs@) =~= seq![("user"@, id@), ("token"@, self@.token)]);
                Cached::Asked(request_build(USER_INFO_REQ, &pairs))
            },
        }
    }

    /// The channel of that id, or the form that asks about it.
    pub fn channel(&self, id: &String) -> (channel: Cached<Channel>)
        ensures
            match channel {
                Cached::Known(channel) => known(self@.channel, id@) == Some(channel),
                Cached::Asked(post) => known(self@.channel, id@) is None && post@ == channel_post(
                    id@,
                    self@.token,
                ),
            },
    {
        match self.channel.get(id.as_str()) {
            Some(channel) => Cached::Known(channel.clone()),
            None => {
                let pairs = vec![
                    ("channel".to_string(), id.clone()),
                    ("token".to_string(), self.token.clone()),
                ];
                assert(fields_of(pairs@) =~= seq![("channel"@, id@), ("token"@, self@.token)]);
                Cached::Asked(request_build(CHANNEL_INFO_REQ, &pairs))
            },
        }
    }

    /// Leaves the phase, and hands over what was kept in it.
    fn leave_phase(&mut self) -> (phase: Phase)
        ensures
            phase@ == old(self)@.phase,
            final(self)@ == old(self)@.waiting(PhaseView::Listening),
            final(self).streams() == old(self).streams(),
    {
        let mut phase = Phase::Listening;
        std::mem::swap(&mut phase, &mut self.phase);
        phase
    }

    /// Gives up.
    fn stop(&mut self, error: Error) -> (action: Action)
        ensures
            (final(self)@, action@) == old(self)@.stops(error),
            final(self).streams() == old(self).streams(),
    {
        self.phase = Phase::Stopped;
        Action::Stop(error)
    }

    /// Waits for the next message.
    fn listen(&mut self) -> (action: Action)
        ensures
            (final(self)@, action@) == old(self)@.listens(),
            final(self).streams() == old(self).streams(),
    {
        self.phase = Phase::Listening;
        Action::Receive
    }

    /// Begins a connection.
    pub fn connection(&mut self) -> (action: Action)
        ensures
            (final(self)@, action@) == old(self)@.connects(),
            final(self).streams() == old(self).streams(),
    {
        self.invalidate();
        match self.connect_uri() {
            Cached::Known(uri) => {
                self.phase = Phase::Opening;
                Action::Connect(uri)
            },
            Cached::Asked(post) => {
                self.phase = Phase::Addressing;
                Action::RequestAddress(post)
            },
        }
    }

    /// Takes down that a connection failed, and begins another one unless it failed too often.
    fn failure(&mut self) -> (action: Action)
        requires
            old(self)@.bad_attempts < usize::MAX,
        ensures
            (final(self)@, action@) == old(self)@.fails(),
            final(self).streams() == old(self).streams(),
    {
        match self.bad_url() {
            Ok(()) => self.connection(),
            Err(kind) => self.stop(Error::Kind(kind)),
        }
    }

    /// Tells that a user came or went, and waits for the next message.
    fn tell_presence(&mut self, user: User, presence: Presence) -> (action: Action)
        ensures
            (final(self)@, action@) == old(self)@.listens(),
            old(self).streams().told(
                Some(News::PresenceChange { user, presence }),
                final(self).streams(),
            ),
    {
        let event = Event::PresenceChange { user, presence };
        assert(event.tells(News::PresenceChange { user, presence }));
        self.broadcast(event);
        self.listen()
    }

    /// Tells what a user said, and waits for the next message.
    fn tell_message(
        &mut self,
        user: User,
        channel: Channel,
        text: String,
        time: LocalTime,
    ) -> (action: Action)
        ensures
            (final(self)@, action@) == old(self)@.listens(),
            old(self).streams().told(
                Some(News::Message { user, channel, text: text@, time }),
                final(self).streams(),
            ),
    {
        let event = Event::Message { user, channel, text, time };
        assert(event.tells(News::Message { user, channel, text: text@, time }));
        self.broadcast(event);
        self.listen()
    }

    /// Goes on with a message as far as its user and its channel are there.
    fn find(
        &mut self,
        user_id: String,
        channel_id: String,
        user: Option<User>,
        channel: Option<Channel>,
        text: String,
        ts: String,
        otherwise: Action,
    ) -> (action: Action)
        ensures
            (final(self)@, action@) == old(self)@.finds(
                user_id@,
                channel_id@,
                user,
                channel,
                text@,
                ts@,
                otherwise@,
            ),
            final(self).streams() == old(self).streams(),
    {
        match (user, channel) {
            (Some(user), Some(channel)) => {
                self.phase = Phase::Dating { user, channel, text };
                Action::ReadTime(ts)
            },
            (found_user, found_channel) => {
                self.phase = Phase::FindingBoth {
                    user_id,
                    channel_id,
                    found_user,
                    found_channel,
                    text,
                    ts,
                };
                otherwise
            },
        }
    }

    /// Begins to turn a notification into an event, as far as one is to come of it.
    pub fn into_event(&mut self, notification: Notification) -> (action: Action)
        ensures
            (final(self)@, action@) == old(self)@.converts(notification),
            old(self).streams().told(
                old(self)@.news_at_once(notification),
                final(self).streams(),
            ),
    {
        match notification {
            Notification::PresenceChange { presence, user: id } => match self.user(&id) {
                Cached::Known(user) => self.tell_presence(user, presence),
                Cached::Asked(post) => {
                    self.phase = Phase::FindingUser { presence, id };
                    Action::LookUp { user: Some(post), channel: None }
                },
            },
            Notification::Message { channel: channel_id, user: user_id, text, ts } => {
                let (user, user_post) = match self.user(&user_id) {
                    Cached::Known(user) => (Some(user), None),
                    Cached::Asked(post) => (None, Some(post)),
                };
                let (channel, channel_post) = match self.channel(&channel_id) {
                    Cached::Known(channel) => (Some(channel), None),
                    Cached::Asked(post) => (None, Some(post)),
                };
                let otherwise = Action::LookUp { user: user_post, channel: channel_post };
                self.find(user_id, channel_id, user, channel, text, ts, otherwise)
            },
            _ => self.listen(),
        }
    }

    /// Deals with a message of the connection.
    fn receive(&mut self, message: Message) -> (action: Action)
        requires
            old(self)@.phase is Listening,
            is_failure(Reply::Message(message)) ==> old(self)@.bad_attempts < usize::MAX,
        ensures
            (final(self)@, action@) == old(self)@.steps(Reply::Message(message)),
            old(self).streams().told(
                old(self)@.news(Reply::Message(message)),
                final(self).streams(),
            ),
    {
        match message {
            Message::Ping(data) => {
                self.phase = Phase::Answering;
                Action::Pong(data)
            },
            Message::Text(Some(Notification::ReconnectUrl { url })) => {
                self.update_connect_url(url);
                self.listen()
            },
            Message::Text(Some(Notification::Error { .. })) => self.failure(),
            Message::Text(Some(notification)) => self.into_event(notification),
            _ => self.listen(),
        }
    }

    /// Starts the account, or starts it again: it begins a connection, and waits no longer for
    /// what it may have been waiting for. From here on it asks for one action after the other, and
    /// is told by `step` what came of each, until it asks to stop.
    pub fn keep_running(&mut self) -> (action: Action)
        ensures
            (final(self)@, action@) == old(self)@.connects(),
            final(self)@.in_order(),
            final(self).streams() == old(self).streams(),
    {
        self.connection()
    }

    /// Tests whether the account is waiting for the reply, and can count one failure more if it is
    /// one.
    pub fn expects(&self, reply: &Reply) -> (expected: bool)
        ensures
            expected == (self@.awaits(*reply) && (is_failure(*reply) ==> self@.bad_attempts
                < usize::MAX)),
    {
        match (&self.phase, reply) {
            (Phase::Addressing, Reply::Address(_)) => true,
            (Phase::Opening, Reply::Opened) => true,
            (Phase::Opening, Reply::Unreachable) => self.bad_attempts < usize::MAX,
            (Phase::Opening, Reply::Misaddressed(_)) => true,
            (
                Phase::Listening,
                Reply::Message(Message::Text(Some(Notification::Error { .. }))),
            ) => self.bad_attempts < usize::MAX,
            (Phase::Listening, Reply::Message(_)) => true,
            (Phase::Listening, Reply::Ended) => true,
            (Phase::Listening, Reply::Broken(_)) => true,
            (Phase::Answering, Reply::Ponged(_)) => true,
            (Phase::FindingUser { .. }, Reply::User(_)) => true,
            (Phase::FindingBoth { found_user, .. }, Reply::User(_)) => found_user.is_none(),
            (
                Phase::FindingBoth { found_channel, .. },
                Reply::Channel(_),
            ) => found_channel.is_none(),
            (Phase::Dating { .. }, Reply::Time(Ok(time))) => is_representable(
                time.seconds,
                time.nanos,
            ),
            (Phase::Dating { .. }, Reply::Time(Err(_))) => true,
            _ => false,
        }
    }

    /// Takes in what came of the last action, and asks for the next one.
    pub fn step(&mut self, reply: Reply) -> (action: Action)
        requires
            old(self)@.awaits(reply),
            is_failure(reply) ==> old(self)@.bad_attempts < usize::MAX,
        ensures
            (final(self)@, action@) == old(self)@.steps(reply),
            old(self).streams().told(old(self)@.news(reply), final(self).streams()),
            old(self)@.in_order() ==> final(self)@.in_order(),
    {
        match reply {
            Reply::Address(Ok(url)) => {
                self.connect_uri = Some(url.clone());
                self.phase = Phase::Opening;
                Action::Connect(url)
            },
            Reply::Opened => self.listen(),
            Reply::Unreachable => self.failure(),
            Reply::Message(message) => self.receive(message),
            Reply::Ended => self.connection(),
            Reply::Ponged(Ok(())) => self.listen(),
            Reply::User(Ok(user)) => {
                match self.leave_phase() {
                    Phase::FindingUser { presence, id } => {
                        self.user.insert(id, user.clone());
                        self.tell_presence(user, presence)
                    },
                    Phase::FindingBoth { user_id, channel_id, found_channel, text, ts, .. } => {
                        self.user.insert(user_id.clone(), user.clone());
                        self.find(
                            user_id,
                            channel_id,
                            Some(user),
                            found_channel,
                            text,
                            ts,
                            Action::Wait,
                        )
                    },
                    _ => Action::Wait,
                }
            },
            Reply::Channel(Ok(channel)) => {
                match self.leave_phase() {
                    Phase::FindingBoth { user_id, channel_id, found_user, text, ts, .. } => {
                        self.channel.insert(channel_id.clone(), channel.clone());
                        self.find(
                            user_id,
                            channel_id,
                            found_user,
                            Some(channel),
                            text,
                            ts,
                            Action::Wait,
                        )
                    },
                    _ => Action::Wait,
                }
            },
            Reply::Time(Ok(time)) => {
                match self.leave_phase() {
                    Phase::Dating { user, channel, text } => self.tell_message(
                        user,
                        channel,
                        text,
                        time,
                    ),
                    _ => Action::Wait,
                }
            },
            Reply::Address(Err(error)) => self.stop(error),
            Reply::Misaddressed(error) => self.stop(error),
            Reply::Broken(error) => self.stop(error),
            Reply::Ponged(Err(error)) => self.stop(error),
            Reply::User(Err(error)) => self.stop(error),
            Reply::Channel(Err(error)) => self.stop(error),
            Reply::Time(Err(error)) => self.stop(error),
        }
    }

    /// Opens a stream of the events to come.
    pub fn events(&mut self) -> (receiver: UnboundedReceiver<Rc<Event>>)
        ensures
            final(self)@ == old(self)@,
            old(self).streams().opens(final(self).streams().open.last(), final(self).streams()),
            ends_of_one_queue(final(self).streams().open.last(), receiver),
    {
        self.event_streams.subscribe()
    }

    /// Offers an event to each open stream, and closes those that do not take it.
    pub fn broadcast(&mut self, event: Event)
        ensures
            final(self)@ == old(self)@,
            old(self).streams().broadcasts(event, final(self).streams()),
            old(self).streams().open.len() == 0 ==> final(self).streams() == old(self).streams(),
    {
        self.event_streams.broadcast(event);
    }
}

} // verus!
