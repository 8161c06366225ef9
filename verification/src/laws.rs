//! What holds of an account from one step to the next.

use crate::clock::{representable, LocalTime};
use crate::error::{Error, ErrorKind};
use crate::form::{
    encoded_form, law_form_is_read_back, law_length_counts_characters, read_form, FormPost,
};
use crate::model::{Channel, Event, News, Notification, Presence, User};
use crate::state::{
    address_post, channel_post, is_failure, known, user_post, AccountView, Action, ActionView,
    Message, PhaseView, Reply, CHANNEL_INFO_REQ, CONNECT_URI, MAX_ATTEMPTS, USER_INFO_REQ,
};
use vstd::prelude::*;

verus! {

/// A step keeps an account in order.
pub proof fn law_steps_keep_order(account: AccountView, reply: Reply)
    requires
        account.in_order(),
        account.awaits(reply),
    ensures
        account.steps(reply).0.in_order(),
{
}

/// A start, the first one or another one, puts an account in order. It forgets who and what is
/// known and nothing else, and opens the connection to the address, if there is one.
pub proof fn law_start_puts_in_order(account: AccountView)
    ensures
        account.connects().0.in_order(),
        account.connects().0 == account.invalidated().waiting(account.connects().0.phase),
        account.connect_uri matches Some(uri) ==> account.connects().1 == ActionView::Connect(uri),
        account.connect_uri is None ==> account.connects().1 == ActionView::RequestAddress(
            address_post(account.token),
        ),
{
}

/// The action that an account asks for tells what it waits for afterwards.
pub proof fn law_action_tells_phase(account: AccountView, reply: Reply)
    requires
        account.awaits(reply),
    ensures
        ({
            let (after, action) = account.steps(reply);
            match action {
                ActionView::RequestAddress(_) => after.phase is Addressing,
                ActionView::Connect(uri) => after.phase is Opening && after.connect_uri == Some(
                    uri,
                ),
                ActionView::Receive => after.phase is Listening,
                ActionView::Pong(_) => after.phase is Answering,
                ActionView::LookUp { user, channel } => match after.phase {
                    PhaseView::FindingUser { .. } => user is Some && channel is None,
                    PhaseView::FindingBoth { found_user, found_channel, .. } => {
                        &&& user is Some <==> found_user is None
                        &&& channel is Some <==> found_channel is None
                    },
                    _ => false,
                },
                ActionView::Wait => after.phase is FindingBoth,
                ActionView::ReadTime(_) => after.phase is Dating,
                ActionView::Stop(_) => after.phase is Stopped,
            }
        }),
{
}

/// The token is never changed.
pub proof fn law_token_stays(account: AccountView, reply: Reply)
    requires
        account.awaits(reply),
    ensures
        account.steps(reply).0.token == account.token,
{
}

/// The error that a reply brings, if it brings one.
pub open spec fn error_in(reply: Reply) -> Option<Error> {
    match reply {
        Reply::Address(Err(error)) => Some(error),
        Reply::Misaddressed(error) => Some(error),
        Reply::Broken(error) => Some(error),
        Reply::Ponged(Err(error)) => Some(error),
        Reply::User(Err(error)) => Some(error),
        Reply::Channel(Err(error)) => Some(error),
        Reply::Time(Err(error)) => Some(error),
        _ => None,
    }
}

/// Whether the reply brings a new address for the next connection.
pub open spec fn is_redirect(reply: Reply) -> bool {
    reply matches Reply::Message(Message::Text(Some(notification))) && notification is ReconnectUrl
}

/// An account gives up just at an error, which it passes on as it is, or at a failure when the
/// patience is used up.
pub proof fn law_when_it_stops(account: AccountView, reply: Reply)
    requires
        account.awaits(reply),
    ensures
        account.steps(reply).0.phase is Stopped <==> error_in(reply) is Some || (is_failure(reply)
            && account.bad_attempts >= MAX_ATTEMPTS),
        error_in(reply) is Some ==> account.steps(reply).1 == ActionView::Stop(
            error_in(reply)->0,
        ),
        is_failure(reply) && account.bad_attempts >= MAX_ATTEMPTS ==> account.steps(reply).1
            == ActionView::Stop(Error::Kind(ErrorKind::BadAttempts)),
{
}

/// Whether the account begins another connection at the reply. To connect to an address that was
/// asked for is still the same connection.
pub open spec fn begins(account: AccountView, reply: Reply) -> bool {
    let action = account.steps(reply).1;
    action is RequestAddress || (action is Connect && !(reply is Address))
}

/// An account begins another connection just when one was closed, or failed and the patience is
/// not used up.
pub proof fn law_when_it_begins_again(account: AccountView, reply: Reply)
    requires
        account.awaits(reply),
    ensures
        begins(account, reply) <==> reply is Ended || (is_failure(reply) && account.bad_attempts
            < MAX_ATTEMPTS),
        reply is Ended ==> account.steps(reply) == account.connects(),
        is_failure(reply) && account.bad_attempts < MAX_ATTEMPTS ==> account.steps(reply)
            == account.failed().connects(),
{
}

/// After a failure the address does not serve any more: another one is asked for, unless this was
/// one failure too many.
pub proof fn law_failure_drops_address(account: AccountView, reply: Reply)
    requires
        account.awaits(reply),
        is_failure(reply),
        account.bad_attempts < MAX_ATTEMPTS,
    ensures
        account.steps(reply).0.connect_uri is None,
        account.steps(reply).1 == ActionView::RequestAddress(address_post(account.token)),
{
}

/// An address that Slack sends during a connection is the one that the next connection is opened
/// to, without asking.
pub proof fn law_redirect_is_followed(account: AccountView, url: String)
    requires
        account.phase is Listening,
    ensures
        ({
            let reply = Reply::Message(Message::Text(Some(Notification::ReconnectUrl { url })));
            let (redirected, action) = account.steps(reply);
            &&& action is Receive
            &&& redirected.bad_attempts == 0
            &&& redirected.steps(Reply::Ended).1 == ActionView::Connect(url@)
        }),
{
}

/// An address that was asked for is used again for the next connection, as long as no connection
/// fails and no other address comes.
pub proof fn law_address_is_kept(account: AccountView, reply: Reply)
    requires
        account.in_order(),
        account.awaits(reply),
        account.connect_uri is Some,
        !is_failure(reply),
        !is_redirect(reply),
    ensures
        account.steps(reply).0.connect_uri == account.connect_uri,
{
}

/// Each connection starts with nobody and nothing known.
pub proof fn law_connection_starts_afresh(account: AccountView, reply: Reply)
    requires
        account.in_order(),
        account.awaits(reply),
        account.steps(reply).1 is Connect || account.steps(reply).1 is RequestAddress,
    ensures
        account.steps(reply).0.user == Map::<Seq<char>, User>::empty(),
        account.steps(reply).0.channel == Map::<Seq<char>, Channel>::empty(),
{
}

/// Who and what is known stays known, and stays the same, for as long as the connection lasts.
pub proof fn law_known_stays_known(account: AccountView, reply: Reply)
    requires
        account.in_order(),
        account.awaits(reply),
        !(account.steps(reply).1 is Connect),
        !(account.steps(reply).1 is RequestAddress),
    ensures
        forall|id: Seq<char>|
            known(account.user, id) is Some ==> #[trigger] known(account.steps(reply).0.user, id)
                == known(account.user, id),
        forall|id: Seq<char>|
            known(account.channel, id) is Some ==> #[trigger] known(
                account.steps(reply).0.channel,
                id,
            ) == known(account.channel, id),
{
}

/// A user who was asked about once is not asked about again: the next time that they come or go,
/// this is told at once, with what was answered.
pub proof fn law_user_is_asked_about_once(
    account: AccountView,
    user: User,
    presence: Presence,
    id: String,
)
    requires
        account.phase matches PhaseView::FindingUser { id: wanted, .. } && wanted == id@,
    ensures
        ({
            let (met, action) = account.steps(Reply::User(Ok(user)));
            let again = Reply::Message(
                Message::Text(Some(Notification::PresenceChange { presence, user: id })),
            );
            &&& action is Receive
            &&& met.awaits(again)
            &&& met.steps(again) == (met, ActionView::Receive)
            &&& met.news(again) == Some(News::PresenceChange { user, presence })
        }),
{
}

/// Only what is not known is asked about, and both parties of a message at the same time.
pub proof fn law_only_the_unknown_is_asked_about(account: AccountView, reply: Reply)
    requires
        account.phase is Listening,
        account.awaits(reply),
    ensures
        account.steps(reply).1 matches ActionView::LookUp { user, channel } ==> {
            match reply {
                Reply::Message(
                    Message::Text(Some(Notification::PresenceChange { user: id, .. })),
                ) => known(account.user, id@) is None,
                Reply::Message(
                    Message::Text(Some(Notification::Message { user: u, channel: c, .. })),
                ) => {
                    &&& user is Some <==> known(account.user, u@) is None
                    &&& channel is Some <==> known(account.channel, c@) is None
                    &&& user is Some || channel is Some
                },
                _ => false,
            }
        },
{
}

/// It does not matter which of the two parties of a message is found first.
pub proof fn law_parties_come_in_any_order(account: AccountView, user: User, channel: Channel)
    requires
        account.phase matches PhaseView::FindingBoth { found_user: None, found_channel: None, .. },
    ensures
        ({
            let met = account.steps(Reply::User(Ok(user)));
            let visited = account.steps(Reply::Channel(Ok(channel)));
            &&& met.1 is Wait
            &&& visited.1 is Wait
            &&& met.0.awaits(Reply::Channel(Ok(channel)))
            &&& visited.0.awaits(Reply::User(Ok(user)))
            &&& met.0.steps(Reply::Channel(Ok(channel))) == visited.0.steps(Reply::User(Ok(user)))
        }),
{
}

/// What a user said is told with the text as it came, the user and the channel that were found,
/// and the time that was read, and with nothing else in between.
pub proof fn law_message_is_told(
    account: AccountView,
    user_id: String,
    channel_id: String,
    text: String,
    ts: String,
    user: User,
    channel: Channel,
    time: LocalTime,
)
    requires
        account.phase is Listening,
        known(account.user, user_id@) is None,
        known(account.channel, channel_id@) is None,
    ensures
        ({
            let said = Reply::Message(
                Message::Text(
                    Some(
                        Notification::Message { channel: channel_id, user: user_id, text, ts },
                    ),
                ),
            );
            let asked = account.steps(said).0;
            let met = asked.steps(Reply::User(Ok(user))).0;
            let (visited, action) = met.steps(Reply::Channel(Ok(channel)));
            let read = Reply::Time(Ok(time));
            &&& account.news(said) is None
            &&& asked.news(Reply::User(Ok(user))) is None
            &&& met.news(Reply::Channel(Ok(channel))) is None
            &&& action == ActionView::ReadTime(ts@)
            &&& visited.news(read) == Some(News::Message { user, channel, text: text@, time })
            &&& visited.steps(read).1 is Receive
        }),
{
}

/// A text that is no notification, a greeting and a message of another kind change nothing and
/// are told to nobody.
pub proof fn law_the_rest_is_ignored(account: AccountView, message: Message)
    requires
        account.phase is Listening,
        message is Other || message == Message::Text(None) || message == Message::Text(
            Some(Notification::Hello),
        ),
    ensures
        account.steps(Reply::Message(message)) == (account, ActionView::Receive),
        account.news(Reply::Message(message)) is None,
{
}

/// Nothing comes of a notification that is neither of a user who came or went nor of one who said
/// something: nobody is told, nobody is asked, and the account stays as it is. Of the others an
/// event comes: at once, or after somebody was asked about or the time was read.
pub proof fn law_what_comes_of_a_notification(account: AccountView, notification: Notification)
    requires
        account.phase is Listening,
    ensures
        !(notification is PresenceChange) && !(notification is Message) ==> account.converts(
            notification,
        ) == (account, ActionView::Receive) && account.news_at_once(notification) is None,
        notification is PresenceChange || notification is Message ==> {
            let action = account.converts(notification).1;
            account.news_at_once(notification) is Some || action is LookUp || action is ReadTime
        },
{
}

/// Who and what is known changes only by answers, and by a new connection.
pub proof fn law_only_answers_are_kept(account: AccountView, reply: Reply)
    requires
        account.awaits(reply),
        !(reply matches Reply::User(Ok(_))),
        !(reply matches Reply::Channel(Ok(_))),
        !begins(account, reply),
    ensures
        account.steps(reply).0.user == account.user,
        account.steps(reply).0.channel == account.channel,
{
}

/// The user who is being asked about, if there is one.
pub open spec fn wanted_user(account: AccountView) -> Option<Seq<char>> {
    match account.phase {
        PhaseView::FindingUser { id, .. } => Some(id),
        PhaseView::FindingBoth { user_id, found_user: None, .. } => Some(user_id),
        _ => None,
    }
}

/// The channel that is being asked about, if there is one.
pub open spec fn wanted_channel(account: AccountView) -> Option<Seq<char>> {
    match account.phase {
        PhaseView::FindingBoth { channel_id, found_channel: None, .. } => Some(channel_id),
        _ => None,
    }
}

/// That a user could not be found is not kept: who and what is known stays as it was, and the user
/// is asked about anew as soon as they are heard of again, at once or after another start.
pub proof fn law_failed_user_is_asked_about_anew(
    account: AccountView,
    error: Error,
    presence: Presence,
)
    requires
        account.in_order(),
        wanted_user(account) is Some,
    ensures
        account.awaits(Reply::User(Err(error))),
        ({
            let id = wanted_user(account)->0;
            let asks = ActionView::LookUp {
                user: Some(user_post(id, account.token)),
                channel: None,
            };
            let (after, action) = account.steps(Reply::User(Err(error)));
            &&& action == ActionView::Stop(error)
            &&& after.user == account.user
            &&& after.channel == account.channel
            &&& after.hears_presence(presence, id).1 == asks
            &&& after.connects().0.hears_presence(presence, id).1 == asks
        }),
{
}

/// That a channel could not be found is not kept: who and what is known stays as it was, and the
/// channel is asked about anew as soon as something is said in it again, at once or after another
/// start.
pub proof fn law_failed_channel_is_asked_about_anew(
    account: AccountView,
    error: Error,
    user_id: Seq<char>,
    text: Seq<char>,
    ts: Seq<char>,
)
    requires
        account.in_order(),
        wanted_channel(account) is Some,
    ensures
        account.awaits(Reply::Channel(Err(error))),
        ({
            let id = wanted_channel(account)->0;
            let asked = Some(channel_post(id, account.token));
            let (after, action) = account.steps(Reply::Channel(Err(error)));
            let at_once = after.hears_message(user_id, id, text, ts).1;
            let later = after.connects().0.hears_message(user_id, id, text, ts).1;
            &&& action == ActionView::Stop(error)
            &&& after.user == account.user
            &&& after.channel == account.channel
            &&& at_once matches ActionView::LookUp { channel, .. } && channel == asked
            &&& later matches ActionView::LookUp { channel, .. } && channel == asked
        }),
{
}

/// What asks for an address goes to `rtm.start`, and Slack reads in it one field: the whole token.
pub proof fn law_address_is_asked_for_with_the_token(token: Seq<char>)
    ensures
        address_post(token).uri == "https://slack.com/api/rtm.start"@,
        address_post(token).content_type == "application/x-www-form-urlencoded"@,
        address_post(token).content_length == address_post(token).body.len(),
        address_post(token).body == encoded_form(seq![("token"@, token)]),
        read_form(address_post(token).body) == seq![("token"@, token)],
{
    law_form_is_read_back(seq![("token"@, token)]);
    law_length_counts_characters(CONNECT_URI@, seq![("token"@, token)]);
}

/// What asks about a user goes to `users.info`, and Slack reads in it two fields: the whole id of
/// the user and the whole token.
pub proof fn law_user_is_asked_about_by_id(id: Seq<char>, token: Seq<char>)
    ensures
        user_post(id, token).uri == "https://slack.com/api/users.info"@,
        user_post(id, token).content_type == "application/x-www-form-urlencoded"@,
        user_post(id, token).content_length == user_post(id, token).body.len(),
        user_post(id, token).body == encoded_form(seq![("user"@, id), ("token"@, token)]),
        read_form(user_post(id, token).body) == seq![("user"@, id), ("token"@, token)],
{
    law_form_is_read_back(seq![("user"@, id), ("token"@, token)]);
    law_length_counts_characters(USER_INFO_REQ@, seq![("user"@, id), ("token"@, token)]);
}

/// What asks about a channel goes to `conversations.info`, and Slack reads in it two fields: the
/// whole id of the channel and the whole token.
pub proof fn law_channel_is_asked_about_by_id(id: Seq<char>, token: Seq<char>)
    ensures
        channel_post(id, token).uri == "https://slack.com/api/conversations.info"@,
        channel_post(id, token).content_type == "application/x-www-form-urlencoded"@,
        channel_post(id, token).content_length == channel_post(id, token).body.len(),
        channel_post(id, token).body == encoded_form(seq![("channel"@, id), ("token"@, token)]),
        read_form(channel_post(id, token).body) == seq![("channel"@, id), ("token"@, token)],
{
    law_form_is_read_back(seq![("channel"@, id), ("token"@, token)]);
    law_length_counts_characters(CHANNEL_INFO_REQ@, seq![("channel"@, id), ("token"@, token)]);
}

/// Other tokens and other ids make other posts.
pub proof fn law_posts_tell_apart(
    a: Seq<char>,
    b: Seq<char>,
    token: Seq<char>,
    other: Seq<char>,
)
    ensures
        address_post(token).body == address_post(other).body ==> token == other,
        user_post(a, token).body == user_post(b, other).body ==> a == b && token == other,
        channel_post(a, token).body == channel_post(b, other).body ==> a == b && token == other,
        address_post(token).uri != user_post(a, token).uri,
        address_post(token).uri != channel_post(a, token).uri,
        user_post(a, token).uri != channel_post(a, token).uri,
{
    law_address_is_asked_for_with_the_token(token);
    law_address_is_asked_for_with_the_token(other);
    law_user_is_asked_about_by_id(a, token);
    law_user_is_asked_about_by_id(b, other);
    law_channel_is_asked_about_by_id(a, token);
    law_channel_is_asked_about_by_id(b, other);
    assert(seq![("token"@, token)][0].1 == token && seq![("token"@, other)][0].1 == other);
    assert(seq![("user"@, a), ("token"@, token)][0].1 == a);
    assert(seq![("user"@, b), ("token"@, other)][0].1 == b);
    assert(seq![("user"@, a), ("token"@, token)][1].1 == token);
    assert(seq![("user"@, b), ("token"@, other)][1].1 == other);
    assert(seq![("channel"@, a), ("token"@, token)][0].1 == a);
    assert(seq![("channel"@, b), ("token"@, other)][0].1 == b);
    assert(seq![("channel"@, a), ("token"@, token)][1].1 == token);
    assert(seq![("channel"@, b), ("token"@, other)][1].1 == other);
    reveal_strlit("https://slack.com/api/rtm.start");
    reveal_strlit("https://slack.com/api/users.info");
    reveal_strlit("https://slack.com/api/conversations.info");
    assert("https://slack.com/api/rtm.start"@[22] == 'r');
    assert("https://slack.com/api/users.info"@[22] == 'u');
    assert("https://slack.com/api/conversations.info"@[22] == 'c');
}

/// The notification that the reply brings, if it brings one.
pub open spec fn notification_in(reply: Reply) -> Option<Notification> {
    match reply {
        Reply::Message(Message::Text(notification)) => notification,
        _ => None,
    }
}

/// Of whom and of what Slack is asked: for an address with the token of the account, and about
/// just those parties of the notification at hand who are not known, by the ids in it and with the
/// token. Where nobody has to be asked about for a message, its own time stamp is read.
pub proof fn law_what_is_asked_for(account: AccountView, reply: Reply)
    requires
        account.awaits(reply),
    ensures
        account.steps(reply).1 matches ActionView::RequestAddress(post) ==> post == address_post(
            account.token,
        ),
        account.connects().1 matches ActionView::RequestAddress(post) ==> post == address_post(
            account.token,
        ),
        match notification_in(reply) {
            Some(Notification::PresenceChange { user, .. }) => {
                if account.user.contains_key(user@) {
                    account.steps(reply).1 is Receive
                } else {
                    account.steps(reply).1 == ActionView::LookUp {
                        user: Some(user_post(user@, account.token)),
                        channel: None,
                    }
                }
            },
            Some(Notification::Message { user, channel, ts, .. }) => {
                let asked_user = if account.user.contains_key(user@) {
                    None
                } else {
                    Some(user_post(user@, account.token))
                };
                let asked_channel = if account.channel.contains_key(channel@) {
                    None
                } else {
                    Some(channel_post(channel@, account.token))
                };
                account.steps(reply).1 == if asked_user is None && asked_channel is None {
                    ActionView::ReadTime(ts@)
                } else {
                    ActionView::LookUp { user: asked_user, channel: asked_channel }
                }
            },
            _ => !(account.steps(reply).1 is LookUp),
        },
{
}

/// An answer is kept under the id that was asked about, as it came, and changes nothing else of
/// what is known.
pub proof fn law_answer_is_kept_as_it_came(account: AccountView, user: User, channel: Channel)
    requires
        account.in_order(),
    ensures
        wanted_user(account) matches Some(id) ==> {
            let after = account.steps(Reply::User(Ok(user))).0;
            &&& after.user == account.user.insert(id, user)
            &&& after.channel == account.channel
        },
        wanted_channel(account) matches Some(id) ==> {
            let after = account.steps(Reply::Channel(Ok(channel))).0;
            &&& after.channel == account.channel.insert(id, channel)
            &&& after.user == account.user
        },
{
}

/// A user of a presence change is told as they were answered, or as they are known, with the
/// presence that was heard.
pub proof fn law_presence_is_told_as_heard(account: AccountView, reply: Reply, user: User)
    requires
        account.awaits(reply),
    ensures
        notification_in(reply) matches Some(Notification::PresenceChange { presence, user: id })
            ==> account.news(reply) == if account.user.contains_key(id@) {
            Some(News::PresenceChange { user: account.user[id@], presence })
        } else {
            None
        },
        account.phase matches PhaseView::FindingUser { presence, .. } ==> account.news(
            Reply::User(Ok(user)),
        ) == Some(News::PresenceChange { user, presence }),
        account.news(reply) is Some ==> notification_in(reply) is Some || reply is User || reply
            is Time,
{
}

/// What a user said is told just when its time is read: with the user, the channel and the words at
/// hand, and that time. An error is not told, nor is anything while parties are asked about.
pub proof fn law_message_is_told_as_dated(account: AccountView, reply: Reply)
    requires
        account.awaits(reply),
    ensures
        account.phase matches PhaseView::Dating { user, channel, text } ==> account.news(reply)
            == match reply {
            Reply::Time(Ok(time)) => Some(News::Message { user, channel, text, time }),
            _ => None,
        },
        account.news(reply) matches Some(news) ==> (news is Message <==> reply is Time),
        account.phase is FindingBoth ==> account.news(reply) is None,
        error_in(reply) is Some ==> account.news(reply) is None,
{
}

/// What is known under an id is what is kept under it.
pub proof fn law_known_is_what_is_kept<T>(cache: Map<Seq<char>, T>, id: Seq<char>)
    ensures
        known(cache, id) is Some <==> cache.contains_key(id),
        cache.contains_key(id) ==> known(cache, id) == Some(cache[id]),
{
}

/// The third failure in a row is borne with, and each one after it is the end. Only a connection
/// that cannot be opened and an error that Slack sends are failures.
pub proof fn law_three_failures_are_borne_with(account: AccountView, reply: Reply)
    requires
        account.awaits(reply),
    ensures
        is_failure(reply) <==> reply is Unreachable || (notification_in(reply) matches Some(
            notification,
        ) && notification is Error),
        is_failure(reply) ==> {
            let (after, action) = account.steps(reply);
            &&& after.bad_attempts == account.bad_attempts + 1
            &&& after.connect_uri is None
            &&& account.bad_attempts >= 3 <==> after.phase is Stopped
            &&& account.bad_attempts < 3 <==> action is RequestAddress
        },
        !is_failure(reply) && !(notification_in(reply) matches Some(notification)
            && notification is ReconnectUrl) ==> account.steps(reply).0.bad_attempts
            == account.bad_attempts,
{
}

/// What the parts of a step change, and what they leave: a bad address costs the address and one
/// attempt, a new one is taken as it is and restores the patience, and a new connection forgets who
/// and what is known.
pub proof fn law_parts_of_a_step(account: AccountView, url: Seq<char>)
    ensures
        ({
            let after = account.failed();
            &&& after.connect_uri is None
            &&& after.bad_attempts == account.bad_attempts + 1
            &&& after.token == account.token
            &&& after.user == account.user
            &&& after.channel == account.channel
            &&& after.phase == account.phase
        }),
        ({
            let after = account.redirected(url);
            &&& after.connect_uri == Some(url)
            &&& after.bad_attempts == 0
            &&& after.token == account.token
            &&& after.user == account.user
            &&& after.channel == account.channel
            &&& after.phase == account.phase
        }),
        ({
            let after = account.invalidated();
            &&& after.user == Map::<Seq<char>, User>::empty()
            &&& after.channel == Map::<Seq<char>, Channel>::empty()
            &&& after.token == account.token
            &&& after.connect_uri == account.connect_uri
            &&& after.bad_attempts == account.bad_attempts
            &&& after.phase == account.phase
        }),
        ({
            let (after, action) = account.connects();
            &&& after.user == Map::<Seq<char>, User>::empty()
            &&& after.channel == Map::<Seq<char>, Channel>::empty()
            &&& after.token == account.token
            &&& after.connect_uri == account.connect_uri
            &&& after.bad_attempts == account.bad_attempts
            &&& account.connect_uri matches Some(uri) ==> after.phase is Opening && action
                == ActionView::Connect(uri)
            &&& account.connect_uri is None ==> after.phase is Addressing && action
                is RequestAddress
        }),
{
}

/// Whatever can come of an action is taken in: any answer to a question, any way in which the
/// opening of a connection can end, and anything that comes over an open one.
pub proof fn law_everything_is_taken_in(
    account: AccountView,
    address: Result<String, Error>,
    message: Message,
    user: Result<User, Error>,
    channel: Result<Channel, Error>,
    ponged: Result<(), Error>,
    time: Result<LocalTime, Error>,
    error: Error,
)
    ensures
        account.phase is Addressing ==> account.awaits(Reply::Address(address)),
        account.phase is Opening ==> account.awaits(Reply::Opened) && account.awaits(
            Reply::Unreachable,
        ) && account.awaits(Reply::Misaddressed(error)),
        account.phase is Listening ==> account.awaits(Reply::Message(message)) && account.awaits(
            Reply::Ended,
        ) && account.awaits(Reply::Broken(error)),
        account.phase is Answering ==> account.awaits(Reply::Ponged(ponged)),
        wanted_user(account) is Some ==> account.awaits(Reply::User(user)),
        wanted_channel(account) is Some ==> account.awaits(Reply::Channel(channel)),
        account.phase is Dating ==> (account.awaits(Reply::Time(time)) <==> (time matches Ok(read)
            ==> representable(read.seconds, read.nanos))),
        account.phase is Idle || account.phase is Stopped ==> !account.awaits(
            Reply::Message(message),
        ) && !account.awaits(Reply::Address(address)) && !account.awaits(Reply::User(user)),
{
}

/// What an event tells is just what is in it.
pub proof fn law_event_holds_the_news(
    event: Event,
    user: User,
    channel: Channel,
    presence: Presence,
    text: Seq<char>,
    time: LocalTime,
)
    ensures
        event.tells(News::PresenceChange { user, presence }) <==> (event
            matches Event::PresenceChange { user: u, presence: p } && u == user && p == presence),
        event.tells(News::Message { user, channel, text, time }) <==> (event
            matches Event::Message { user: u, channel: c, text: t, time: at } && u == user && c
            == channel && t@ == text && at == time),
{
}

/// An action is seen as what it is, with all that is in it.
pub proof fn law_actions_are_seen_whole(
    post: FormPost,
    other: FormPost,
    text: String,
    data: Vec<u8>,
    error: Error,
)
    ensures
        Action::RequestAddress(post)@ == ActionView::RequestAddress(post@),
        Action::Connect(text)@ == ActionView::Connect(text@),
        Action::Receive@ == ActionView::Receive,
        Action::Pong(data)@ == ActionView::Pong(data@),
        (Action::LookUp { user: Some(post), channel: Some(other) })@ == (ActionView::LookUp {
            user: Some(post@),
            channel: Some(other@),
        }),
        (Action::LookUp { user: Some(post), channel: None })@ == (ActionView::LookUp {
            user: Some(post@),
            channel: None,
        }),
        (Action::LookUp { user: None, channel: Some(other) })@ == (ActionView::LookUp {
            user: None,
            channel: Some(other@),
        }),
        Action::Wait@ == ActionView::Wait,
        Action::ReadTime(text)@ == ActionView::ReadTime(text@),
        Action::Stop(error)@ == ActionView::Stop(error),
        post@.uri == post.uri@,
        post@.content_type == post.content_type@,
        post@.content_length == post.content_length,
        post@.body == post.body@,
{
}

} // verus!
