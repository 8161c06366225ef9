//! The states that an account goes through, and the steps between them.

use crate::clock::{representable, LocalTime};
use crate::error::{Error, ErrorKind};
use crate::form::{form_post, FormPost, FormPostView};
use crate::model::{Channel, News, Notification, Presence, User};
use vstd::prelude::*;

verus! {

/// Where the address of a connection is asked for.
pub const CONNECT_URI: &'static str = "https://slack.com/api/rtm.start";

/// Where users are asked about.
pub const USER_INFO_REQ: &'static str = "https://slack.com/api/users.info";

/// Where channels are asked about.
pub const CHANNEL_INFO_REQ: &'static str = "https://slack.com/api/conversations.info";

/// How many failed connections in a row are borne with.
pub const MAX_ATTEMPTS: usize = 3;

/// What the account asks to be done next.
#[derive(Debug)]
pub enum Action {
    /// Post the form that asks for an address to connect to.
    RequestAddress(FormPost),
    /// Drop the connection, if there is one, and open a new one to that address.
    Connect(String),
    /// Wait for the next message of the connection.
    Receive,
    /// Send these data back over the connection.
    Pong(Vec<u8>),
    /// Post the forms that ask about a user and about a channel, side by side.
    LookUp { user: Option<FormPost>, channel: Option<FormPost> },
    /// Wait for the answer that is still to come.
    Wait,
    /// Read the local time in a time stamp.
    ReadTime(String),
    /// Give up.
    Stop(Error),
}

/// What an action asks for.
pub enum ActionView {
    RequestAddress(FormPostView),
    Connect(Seq<char>),
    Receive,
    Pong(Seq<u8>),
    LookUp { user: Option<FormPostView>, channel: Option<FormPostView> },
    Wait,
    ReadTime(Seq<char>),
    Stop(Error),
}

/// The view of what is there, if anything.
pub open spec fn view_option<T: View>(value: Option<T>) -> Option<T::V> {
    match value {
        Some(v) => Some(v@),
        None => None,
    }
}

impl View for Action {
    type V = ActionView;

    open spec fn view(&self) -> ActionView {
        match self {
            Action::RequestAddress(post) => ActionView::RequestAddress(post@),
            Action::Connect(uri) => ActionView::Connect(uri@),
            Action::Receive => ActionView::Receive,
            Action::Pong(data) => ActionView::Pong(data@),
            Action::LookUp { user, channel } => ActionView::LookUp {
                user: view_option(*user),
                channel: view_option(*channel),
            },
            Action::Wait => ActionView::Wait,
            Action::ReadTime(ts) => ActionView::ReadTime(ts@),
            Action::Stop(error) => ActionView::Stop(*error),
        }
    }
}

/// A message of the connection.
#[derive(Debug)]
pub enum Message {
    /// A sign of life that is to be answered.
    Ping(Vec<u8>),
    /// A text, and the notification in it, if it is one.
    Text(Option<Notification>),
    /// Anything else.
    Other,
}

/// What came of an action.
#[derive(Debug)]
pub enum Reply {
    /// The address to connect to, or why there is none.
    Address(Result<String, Error>),
    /// The connection is open.
    Opened,
    /// The connection could not be opened.
    Unreachable,
    /// The address is none that a connection can be opened to.
    Misaddressed(Error),
    /// A message arrived.
    Message(Message),
    /// The connection was closed.
    Ended,
    /// The connection broke.
    Broken(Error),
    /// The sign of life was answered, or could not be.
    Ponged(Result<(), Error>),
    /// The user who was asked about.
    User(Result<User, Error>),
    /// The channel that was asked about.
    Channel(Result<Channel, Error>),
    /// The local time in the time stamp.
    Time(Result<LocalTime, Error>),
}

/// Whether the reply tells that a connection failed.
pub open spec fn is_failure(reply: Reply) -> bool {
    ||| reply is Unreachable
    ||| reply matches Reply::Message(Message::Text(Some(notification))) && notification is Error
}

/// What the account is waiting for.
pub enum PhaseView {
    /// To be started.
    Idle,
    /// An address.
    Addressing,
    /// The connection to be opened.
    Opening,
    /// A message.
    Listening,
    /// A sign of life to be answered.
    Answering,
    /// The user of that id, who came or went.
    FindingUser { presence: Presence, id: Seq<char> },
    /// The user and the channel of those ids, or the one of them that is not there yet.
    FindingBoth {
        user_id: Seq<char>,
        channel_id: Seq<char>,
        found_user: Option<User>,
        found_channel: Option<Channel>,
        text: Seq<char>,
        ts: Seq<char>,
    },
    /// The time of a message.
    Dating { user: User, channel: Channel, text: Seq<char> },
    /// Nothing any more.
    Stopped,
}

/// What an account knows and what it is waiting for.
pub struct AccountView {
    pub token: Seq<char>,
    pub connect_uri: Option<Seq<char>>,
    pub bad_attempts: nat,
    pub user: Map<Seq<char>, User>,
    pub channel: Map<Seq<char>, Channel>,
    pub phase: PhaseView,
}

/// The form that asks for an address.
pub open spec fn address_post(token: Seq<char>) -> FormPostView {
    form_post(CONNECT_URI@, seq![("token"@, token)])
}

/// The form that asks about a user.
pub open spec fn user_post(id: Seq<char>, token: Seq<char>) -> FormPostView {
    form_post(USER_INFO_REQ@, seq![("user"@, id), ("token"@, token)])
}

/// The form that asks about a channel.
pub open spec fn channel_post(id: Seq<char>, token: Seq<char>) -> FormPostView {
    form_post(CHANNEL_INFO_REQ@, seq![("channel"@, id), ("token"@, token)])
}

/// What is known under a key.
pub open spec fn known<T>(cache: Map<Seq<char>, T>, id: Seq<char>) -> Option<T> {
    if cache.contains_key(id) {
        Some(cache[id])
    } else {
        None
    }
}

impl AccountView {
    /// What holds of an account that is driven by replies alone. While there is no connection,
    /// nobody and nothing is known. An address is asked for just if there is none. Nobody and
    /// nothing known is looked for.
    pub open spec fn in_order(self) -> bool {
        match self.phase {
            PhaseView::Idle => self == self.invalidated(),
            PhaseView::Addressing => self == self.invalidated() && self.connect_uri is None,
            PhaseView::Opening => self == self.invalidated() && self.connect_uri is Some,
            PhaseView::FindingUser { id, .. } => known(self.user, id) is None,
            PhaseView::FindingBoth { user_id, channel_id, found_user, found_channel, .. } => {
                &&& found_user == known(self.user, user_id)
                &&& found_channel == known(self.channel, channel_id)
                &&& found_user is None || found_channel is None
            },
            _ => true,
        }
    }

    /// In another phase.
    pub open spec fn waiting(self, phase: PhaseView) -> AccountView {
        AccountView { phase, ..self }
    }

    /// With nobody and nothing known.
    pub open spec fn invalidated(self) -> AccountView {
        AccountView { user: Map::empty(), channel: Map::empty(), ..self }
    }

    /// With the address dropped and one failure more.
    pub open spec fn failed(self) -> AccountView {
        AccountView { connect_uri: None, bad_attempts: self.bad_attempts + 1, ..self }
    }

    /// With a new address and the failures forgotten.
    pub open spec fn redirected(self, url: Seq<char>) -> AccountView {
        AccountView { connect_uri: Some(url), bad_attempts: 0, ..self }
    }

    /// With a user known.
    pub open spec fn with_user(self, id: Seq<char>, user: User) -> AccountView {
        AccountView { user: self.user.insert(id, user), ..self }
    }

    /// With a channel known.
    pub open spec fn with_channel(self, id: Seq<char>, channel: Channel) -> AccountView {
        AccountView { channel: self.channel.insert(id, channel), ..self }
    }

    /// Gives up.
    pub open spec fn stops(self, error: Error) -> (AccountView, ActionView) {
        (self.waiting(PhaseView::Stopped), ActionView::Stop(error))
    }

    /// Waits for the next message.
    pub open spec fn listens(self) -> (AccountView, ActionView) {
        (self.waiting(PhaseView::Listening), ActionView::Receive)
    }

    /// Begins a connection: nothing is known any more, and the address is used, if there is one,
    /// or asked for.
    pub open spec fn connects(self) -> (AccountView, ActionView) {
        match self.connect_uri {
            Some(uri) => (
                self.invalidated().waiting(PhaseView::Opening),
                ActionView::Connect(uri),
            ),
            None => (
                self.invalidated().waiting(PhaseView::Addressing),
                ActionView::RequestAddress(address_post(self.token)),
            ),
        }
    }

    /// Counts a failure, and gives up or begins again.
    pub open spec fn fails(self) -> (AccountView, ActionView) {
        if self.failed().bad_attempts > MAX_ATTEMPTS {
            self.failed().stops(Error::Kind(ErrorKind::BadAttempts))
        } else {
            self.failed().connects()
        }
    }

    /// Hears that a user came or went.
    pub open spec fn hears_presence(self, presence: Presence, id: Seq<char>) -> (
        AccountView,
        ActionView,
    ) {
        if self.user.contains_key(id) {
            self.listens()
        } else {
            (
                self.waiting(PhaseView::FindingUser { presence, id }),
                ActionView::LookUp { user: Some(user_post(id, self.token)), channel: None },
            )
        }
    }

    /// Goes on with a message as far as its user and its channel are there: reads its time if both
    /// are, and does as `otherwise` says if not.
    pub open spec fn finds(
        self,
        user_id: Seq<char>,
        channel_id: Seq<char>,
        user: Option<User>,
        channel: Option<Channel>,
        text: Seq<char>,
        ts: Seq<char>,
        otherwise: ActionView,
    ) -> (AccountView, ActionView) {
        if user is Some && channel is Some {
            (
                self.waiting(
                    PhaseView::Dating { user: user->0, channel: channel->0, text },
                ),
                ActionView::ReadTime(ts),
            )
        } else {
            (
                self.waiting(
                    PhaseView::FindingBoth {
                        user_id,
                        channel_id,
                        found_user: user,
                        found_channel: channel,
                        text,
                        ts,
                    },
                ),
                otherwise,
            )
        }
    }

    /// Hears that a user said something.
    pub open spec fn hears_message(
        self,
        user_id: Seq<char>,
        channel_id: Seq<char>,
        text: Seq<char>,
        ts: Seq<char>,
    ) -> (AccountView, ActionView) {
        self.finds(
            user_id,
            channel_id,
            known(self.user, user_id),
            known(self.channel, channel_id),
            text,
            ts,
            ActionView::LookUp {
                user: if self.user.contains_key(user_id) {
                    None
                } else {
                    Some(user_post(user_id, self.token))
                },
                channel: if self.channel.contains_key(channel_id) {
                    None
                } else {
                    Some(channel_post(channel_id, self.token))
                },
            },
        )
    }

    /// Begins to turn a notification into an event: only a user who came or went or who said
    /// something is worth one.
    pub open spec fn converts(self, notification: Notification) -> (AccountView, ActionView) {
        match notification {
            Notification::PresenceChange { presence, user } => self.hears_presence(presence, user@),
            Notification::Message { channel, user, text, ts } => self.hears_message(
                user@,
                channel@,
                text@,
                ts@,
            ),
            _ => self.listens(),
        }
    }

    /// What is told at once when a notification is turned into an event: that a user came or went,
    /// if it is known who that is.
    pub open spec fn news_at_once(self, notification: Notification) -> Option<News> {
        match notification {
            Notification::PresenceChange { presence, user } => match known(self.user, user@) {
                Some(user) => Some(News::PresenceChange { user, presence }),
                None => None,
            },
            _ => None,
        }
    }

    /// Hears a notification: a new address is taken down, an error is a failure, and anything else
    /// is turned into an event.
    pub open spec fn hears(self, notification: Notification) -> (AccountView, ActionView) {
        match notification {
            Notification::ReconnectUrl { url } => self.redirected(url@).listens(),
            Notification::Error { .. } => self.fails(),
            _ => self.converts(notification),
        }
    }

    /// Gets to know the user who was asked about.
    pub open spec fn meets(self, user: User) -> (AccountView, ActionView) {
        match self.phase {
            PhaseView::FindingUser { id, .. } => self.with_user(id, user).listens(),
            PhaseView::FindingBoth { user_id, channel_id, found_channel, text, ts, .. } =>
                self.with_user(user_id, user).finds(
                user_id,
                channel_id,
                Some(user),
                found_channel,
                text,
                ts,
                ActionView::Wait,
            ),
            _ => (self, ActionView::Wait),
        }
    }

    /// Gets to know the channel that was asked about.
    pub open spec fn visits(self, channel: Channel) -> (AccountView, ActionView) {
        match self.phase {
            PhaseView::FindingBoth { user_id, channel_id, found_user, text, ts, .. } =>
                self.with_channel(channel_id, channel).finds(
                user_id,
                channel_id,
                found_user,
                Some(channel),
                text,
                ts,
                ActionView::Wait,
            ),
            _ => (self, ActionView::Wait),
        }
    }

    /// Whether the account is waiting for the reply.
    pub open spec fn awaits(self, reply: Reply) -> bool {
        match self.phase {
            PhaseView::Idle => false,
            PhaseView::Addressing => reply is Address,
            PhaseView::Opening => reply is Opened || reply is Unreachable || reply is Misaddressed,
            PhaseView::Listening => reply is Message || reply is Ended || reply is Broken,
            PhaseView::Answering => reply is Ponged,
            PhaseView::FindingUser { .. } => reply is User,
            PhaseView::FindingBoth { found_user, found_channel, .. } => {
                ||| reply is User && found_user is None
                ||| reply is Channel && found_channel is None
            },
            PhaseView::Dating { .. } => {
                &&& reply is Time
                &&& reply->Time_0 matches Ok(time) ==> representable(time.seconds, time.nanos)
            },
            PhaseView::Stopped => false,
        }
    }

    /// What becomes of the account at a reply, and what it asks for next.
    pub open spec fn steps(self, reply: Reply) -> (AccountView, ActionView) {
        match reply {
            Reply::Address(Ok(url)) => (
                (AccountView { connect_uri: Some(url@), ..self }).waiting(PhaseView::Opening),
                ActionView::Connect(url@),
            ),
            Reply::Opened => self.listens(),
            Reply::Unreachable => self.fails(),
            Reply::Message(Message::Ping(data)) => (
                self.waiting(PhaseView::Answering),
                ActionView::Pong(data@),
            ),
            Reply::Message(Message::Text(Some(notification))) => self.hears(notification),
            Reply::Message(_) => self.listens(),
            Reply::Ended => self.connects(),
            Reply::Ponged(Ok(_)) => self.listens(),
            Reply::User(Ok(user)) => self.meets(user),
            Reply::Channel(Ok(channel)) => self.visits(channel),
            Reply::Time(Ok(_)) => self.listens(),
            Reply::Address(Err(error)) => self.stops(error),
            Reply::Misaddressed(error) => self.stops(error),
            Reply::Broken(error) => self.stops(error),
            Reply::Ponged(Err(error)) => self.stops(error),
            Reply::User(Err(error)) => self.stops(error),
            Reply::Channel(Err(error)) => self.stops(error),
            Reply::Time(Err(error)) => self.stops(error),
        }
    }

    /// What those who listen are told at a reply: that a user came or went, once it is known who;
    /// and what a user said, once its time is read.
    pub open spec fn news(self, reply: Reply) -> Option<News> {
        match (self.phase, reply) {
            (
                PhaseView::Listening,
                Reply::Message(Message::Text(Some(notification))),
            ) => self.news_at_once(notification),
            (PhaseView::FindingUser { presence, .. }, Reply::User(Ok(user))) => Some(
                News::PresenceChange { user, presence },
            ),
            (PhaseView::Dating { user, channel, text }, Reply::Time(Ok(time))) => Some(
                News::Message { user, channel, text, time },
            ),
            _ => None,
        }
    }
}

} // verus!
