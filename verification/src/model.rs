//! Who and what the client hears about.

use crate::clock::LocalTime;
use vstd::prelude::*;

verus! {

/// Whether a user is there.
#[derive(Clone, Copy, Debug, PartialEq, Eq, Structural)]
pub enum Presence {
    Active,
    Away,
}

/// How a user presents themselves.
#[derive(Debug)]
pub struct Profile {
    pub status_text: String,
    pub real_name_normalized: String,
    pub real_name: String,
    pub display_name_normalized: String,
    pub display_name: String,
}

impl Clone for Profile {
    fn clone(&self) -> (copy: Self)
        ensures
            copy == *self,
    {
        Profile {
            status_text: self.status_text.clone(),
            real_name_normalized: self.real_name_normalized.clone(),
            real_name: self.real_name.clone(),
            display_name_normalized: self.display_name_normalized.clone(),
            display_name: self.display_name.clone(),
        }
    }
}

/// A user of a team.
#[derive(Debug)]
pub struct User {
    pub id: String,
    pub team_id: String,
    pub profile: Profile,
    pub name: String,
    pub real_name: String,
}

impl Clone for User {
    fn clone(&self) -> (copy: Self)
        ensures
            copy == *self,
    {
        User {
            id: self.id.clone(),
            team_id: self.team_id.clone(),
            profile: self.profile.clone(),
            name: self.name.clone(),
            real_name: self.real_name.clone(),
        }
    }
}

/// A place to talk; a conversation between two has no name.
#[derive(Debug)]
pub struct Channel {
    pub id: String,
    pub name: Option<String>,
}

impl Clone for Channel {
    fn clone(&self) -> (copy: Self)
        ensures
            copy == *self,
    {
        Channel {
            id: self.id.clone(),
            name: match &self.name {
                Some(name) => Some(name.clone()),
                None => None,
            },
        }
    }
}

/// What those who listen to an account are told.
#[derive(Debug)]
pub enum Event {
    /// A user came or went.
    PresenceChange { user: User, presence: Presence },
    /// A user said something.
    Message { user: User, channel: Channel, text: String, time: LocalTime },
}

/// What an event is about.
pub enum News {
    PresenceChange { user: User, presence: Presence },
    Message { user: User, channel: Channel, text: Seq<char>, time: LocalTime },
}

impl Event {
    /// Whether the event tells the news.
    pub open spec fn tells(self, news: News) -> bool {
        match news {
            News::PresenceChange { user, presence } => self == (Event::PresenceChange {
                user,
                presence,
            }),
            News::Message { user, channel, text, time } => {
                &&& self matches Event::Message { user: u, channel: c, text: t, time: at }
                &&& u == user
                &&& c == channel
                &&& t@ == text
                &&& at == time
            },
        }
    }
}

/// What Slack tells over an open connection.
#[derive(Debug)]
pub enum Notification {
    /// The user of that id came or went.
    PresenceChange { presence: Presence, user: String },
    /// The user of that id said something in the channel of that id, at the time `ts`.
    Message { channel: String, user: String, text: String, ts: String },
    /// The next connection is to be made to that address.
    ReconnectUrl { url: String },
    /// The connection stands.
    Hello,
    /// Slack gives the connection up.
    Error { code: i64, msg: String },
}

} // verus!
