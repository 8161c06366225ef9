//! What holds of an account over whole runs, whatever replies come.

use crate::clock::LocalTime;
use crate::error::{Error, ErrorKind};
use crate::form::law_form_determines_fields;
use crate::laws::{
    begins, error_in, is_redirect, law_address_is_kept, law_known_stays_known,
    law_steps_keep_order, law_when_it_begins_again, law_when_it_stops, wanted_channel, wanted_user,
};
use crate::model::{Channel, Event, News, Notification, User};
use crate::state::{
    address_post, channel_post, is_failure, known, user_post, AccountView, ActionView, Message,
    PhaseView, Reply, MAX_ATTEMPTS,
};
use crate::streams::{lemma_broadcast_is_taken, offers_to, StreamsView};
use futures::unsync::mpsc::UnboundedSender;
use std::rc::Rc;
use vstd::prelude::*;

verus! {

/// The account after a row of replies.
pub open spec fn run(account: AccountView, replies: Seq<Reply>) -> AccountView
    decreases replies.len(),
{
    if replies.len() == 0 {
        account
    } else {
        run(account, replies.drop_last()).steps(replies.last()).0
    }
}

/// Whether each of the replies comes when it is waited for.
pub open spec fn in_turn(account: AccountView, replies: Seq<Reply>) -> bool
    decreases replies.len(),
{
    replies.len() > 0 ==> {
        &&& in_turn(account, replies.drop_last())
        &&& run(account, replies.drop_last()).awaits(replies.last())
    }
}

/// What the account asked for at each of the replies.
pub open spec fn actions(account: AccountView, replies: Seq<Reply>) -> Seq<ActionView>
    decreases replies.len(),
{
    if replies.len() == 0 {
        Seq::empty()
    } else {
        actions(account, replies.drop_last()).push(
            run(account, replies.drop_last()).steps(replies.last()).1,
        )
    }
}

/// What those who listen were told over the replies.
pub open spec fn told(account: AccountView, replies: Seq<Reply>) -> Seq<News>
    decreases replies.len(),
{
    if replies.len() == 0 {
        Seq::empty()
    } else {
        let before = told(account, replies.drop_last());
        match run(account, replies.drop_last()).news(replies.last()) {
            Some(news) => before.push(news),
            None => before,
        }
    }
}

/// How many connections failed since the last new address, when `before` had failed at the start.
pub open spec fn failures(before: nat, replies: Seq<Reply>) -> nat
    decreases replies.len(),
{
    if replies.len() == 0 {
        before
    } else if is_redirect(replies.last()) {
        0
    } else if is_failure(replies.last()) {
        failures(before, replies.drop_last()) + 1
    } else {
        failures(before, replies.drop_last())
    }
}

/// Whatever happens, an account stays in order.
pub proof fn law_runs_keep_order(account: AccountView, replies: Seq<Reply>)
    requires
        account.in_order(),
        in_turn(account, replies),
    ensures
        run(account, replies).in_order(),
    decreases replies.len(),
{
    if replies.len() > 0 {
        law_runs_keep_order(account, replies.drop_last());
        law_steps_keep_order(run(account, replies.drop_last()), replies.last());
    }
}

/// An account counts just the connections that failed since the last new address. It bears with
/// `MAX_ATTEMPTS` of them, and at each one more it gives up.
pub proof fn law_patience(account: AccountView, replies: Seq<Reply>)
    requires
        in_turn(account, replies),
    ensures
        run(account, replies).bad_attempts == failures(account.bad_attempts, replies),
        replies.len() > 0 && is_failure(replies.last()) ==> (run(account, replies).phase
            is Stopped <==> failures(account.bad_attempts, replies) > MAX_ATTEMPTS),
        account.bad_attempts <= MAX_ATTEMPTS ==> failures(account.bad_attempts, replies)
            <= MAX_ATTEMPTS + 1,
        account.bad_attempts <= MAX_ATTEMPTS && failures(account.bad_attempts, replies)
            > MAX_ATTEMPTS ==> run(account, replies).phase is Stopped,
    decreases replies.len(),
{
    if replies.len() > 0 {
        let front = replies.drop_last();
        law_patience(account, front);
        law_when_it_stops(run(account, front), replies.last());
    }
}

/// An account goes on for ever unless it gives up, and it gives up at the last reply of a run or
/// not at all: at an error, which it passes on as it is, or at one failure too many.
pub proof fn law_how_a_run_ends(account: AccountView, replies: Seq<Reply>)
    requires
        replies.len() > 0,
        in_turn(account, replies),
    ensures
        !(run(account, replies.drop_last()).phase is Stopped),
        run(account, replies).phase is Stopped <==> error_in(replies.last()) is Some || (is_failure(
            replies.last(),
        ) && failures(account.bad_attempts, replies) > MAX_ATTEMPTS),
        error_in(replies.last()) matches Some(error) ==> actions(account, replies).last()
            == ActionView::Stop(error),
        is_failure(replies.last()) && failures(account.bad_attempts, replies) > MAX_ATTEMPTS
            ==> actions(account, replies).last() == ActionView::Stop(
            Error::Kind(ErrorKind::BadAttempts),
        ),
{
    let front = replies.drop_last();
    law_patience(account, replies);
    law_patience(account, front);
    law_when_it_stops(run(account, front), replies.last());
}

/// How many connections the account begins over the replies.
pub open spec fn begun(account: AccountView, replies: Seq<Reply>) -> nat
    decreases replies.len(),
{
    if replies.len() == 0 {
        0
    } else if begins(run(account, replies.drop_last()), replies.last()) {
        begun(account, replies.drop_last()) + 1
    } else {
        begun(account, replies.drop_last())
    }
}

/// Whether the reply is the end of a connection.
pub open spec fn is_end(reply: Reply) -> bool {
    reply is Ended || is_failure(reply) || error_in(reply) is Some
}

/// How many connections come to their end over the replies.
pub open spec fn ended(replies: Seq<Reply>) -> nat
    decreases replies.len(),
{
    if replies.len() == 0 {
        0
    } else if is_end(replies.last()) {
        ended(replies.drop_last()) + 1
    } else {
        ended(replies.drop_last())
    }
}

/// The connections come one at a time. Each one that comes to its end is followed by another one,
/// but for the one at whose end the account gives up.
pub proof fn law_one_connection_at_a_time(account: AccountView, replies: Seq<Reply>)
    requires
        !(account.phase is Stopped),
        in_turn(account, replies),
    ensures
        run(account, replies).phase is Stopped ==> ended(replies) == begun(account, replies) + 1,
        !(run(account, replies).phase is Stopped) ==> ended(replies) == begun(account, replies),
    decreases replies.len(),
{
    if replies.len() > 0 {
        let front = replies.drop_last();
        law_one_connection_at_a_time(account, front);
        law_when_it_stops(run(account, front), replies.last());
        law_when_it_begins_again(run(account, front), replies.last());
    }
}

/// The data of the signs of life that are to be answered.
pub open spec fn pings(replies: Seq<Reply>) -> Seq<Seq<u8>>
    decreases replies.len(),
{
    if replies.len() == 0 {
        Seq::empty()
    } else {
        match replies.last() {
            Reply::Message(Message::Ping(data)) => pings(replies.drop_last()).push(data@),
            _ => pings(replies.drop_last()),
        }
    }
}

/// The data that are sent over the connection.
pub open spec fn pongs(actions: Seq<ActionView>) -> Seq<Seq<u8>>
    decreases actions.len(),
{
    if actions.len() == 0 {
        Seq::empty()
    } else {
        match actions.last() {
            ActionView::Pong(data) => pongs(actions.drop_last()).push(data),
            _ => pongs(actions.drop_last()),
        }
    }
}

/// Each sign of life is answered once, with its own data and in the order of arrival, and nothing
/// else is sent over a connection.
pub proof fn law_pings_are_answered(account: AccountView, replies: Seq<Reply>)
    requires
        in_turn(account, replies),
    ensures
        pongs(actions(account, replies)) == pings(replies),
    decreases replies.len(),
{
    if replies.len() > 0 {
        let front = replies.drop_last();
        law_pings_are_answered(account, front);
        assert(actions(account, replies).drop_last() =~= actions(account, front));
    }
}

/// The address that the next connection is opened to, when it was `before` at the start: the one
/// that came last, asked for or not, unless a connection failed since.
pub open spec fn address(before: Option<Seq<char>>, replies: Seq<Reply>) -> Option<Seq<char>>
    decreases replies.len(),
{
    if replies.len() == 0 {
        before
    } else if is_failure(replies.last()) {
        None
    } else {
        match replies.last() {
            Reply::Address(Ok(url)) => Some(url@),
            Reply::Message(Message::Text(Some(Notification::ReconnectUrl { url }))) => Some(url@),
            _ => address(before, replies.drop_last()),
        }
    }
}

/// When a connection is closed, the next one is opened to the address that came last, without
/// asking; an address is asked for just if a connection failed since. It is the same at another
/// start.
pub proof fn law_address_that_came_last_serves(account: AccountView, replies: Seq<Reply>)
    requires
        in_turn(account, replies),
    ensures
        run(account, replies).connect_uri == address(account.connect_uri, replies),
        run(account, replies).steps(Reply::Ended) == run(account, replies).connects(),
        run(account, replies).connects().1 == match address(account.connect_uri, replies) {
            Some(url) => ActionView::Connect(url),
            None => ActionView::RequestAddress(address_post(account.token)),
        },
    decreases replies.len(),
{
    if replies.len() > 0 {
        law_address_that_came_last_serves(account, replies.drop_last());
    }
    lemma_token_stays(account, replies);
}

/// The token is never changed.
proof fn lemma_token_stays(account: AccountView, replies: Seq<Reply>)
    requires
        in_turn(account, replies),
    ensures
        run(account, replies).token == account.token,
    decreases replies.len(),
{
    if replies.len() > 0 {
        lemma_token_stays(account, replies.drop_last());
    }
}

/// An address serves for one connection after the other, and is not asked for again, as long as no
/// connection fails and no other address comes.
pub proof fn law_address_serves_again(account: AccountView, replies: Seq<Reply>)
    requires
        account.in_order(),
        account.connect_uri is Some,
        in_turn(account, replies),
        forall|i: int|
            0 <= i < replies.len() ==> !is_failure(#[trigger] replies[i]) && !is_redirect(
                replies[i],
            ),
    ensures
        run(account, replies).connect_uri == account.connect_uri,
        run(account, replies).connects().1 == ActionView::Connect(account.connect_uri->0),
        forall|i: int|
            0 <= i < replies.len() ==> !(#[trigger] actions(account, replies)[i] is RequestAddress),
    decreases replies.len(),
{
    if replies.len() > 0 {
        let front = replies.drop_last();
        assert(forall|i: int| 0 <= i < front.len() ==> front[i] == replies[i]);
        law_address_serves_again(account, front);
        law_runs_keep_order(account, front);
        assert(!is_failure(replies[replies.len() - 1]));
        law_address_is_kept(run(account, front), replies.last());
        lemma_actions_len(account, front);
        assert forall|i: int| 0 <= i < replies.len() implies !(#[trigger] actions(
            account,
            replies,
        )[i] is RequestAddress) by {
            if i < front.len() {
                assert(actions(account, replies)[i] == actions(account, front)[i]);
            }
        }
    }
}

/// There is one action for each reply.
proof fn lemma_actions_len(account: AccountView, replies: Seq<Reply>)
    ensures
        actions(account, replies).len() == replies.len(),
    decreases replies.len(),
{
    if replies.len() > 0 {
        lemma_actions_len(account, replies.drop_last());
    }
}

/// The notification of a user who came or went or who said something, if the reply brings one.
pub open spec fn note_in(reply: Reply) -> Option<Notification> {
    match reply {
        Reply::Message(Message::Text(Some(notification))) => {
            if notification is PresenceChange || notification is Message {
                Some(notification)
            } else {
                None
            }
        },
        _ => None,
    }
}

/// The notifications of users who came or went or who said something.
pub open spec fn notes(replies: Seq<Reply>) -> Seq<Notification>
    decreases replies.len(),
{
    if replies.len() == 0 {
        Seq::empty()
    } else {
        match note_in(replies.last()) {
            Some(note) => notes(replies.drop_last()).push(note),
            None => notes(replies.drop_last()),
        }
    }
}

/// The times that were read.
pub open spec fn readings(replies: Seq<Reply>) -> Seq<LocalTime>
    decreases replies.len(),
{
    if replies.len() == 0 {
        Seq::empty()
    } else {
        match replies.last() {
            Reply::Time(Ok(time)) => readings(replies.drop_last()).push(time),
            _ => readings(replies.drop_last()),
        }
    }
}

/// The times of the messages among the news.
pub open spec fn times(news: Seq<News>) -> Seq<LocalTime>
    decreases news.len(),
{
    if news.len() == 0 {
        Seq::empty()
    } else {
        match news.last() {
            News::Message { time, .. } => times(news.drop_last()).push(time),
            _ => times(news.drop_last()),
        }
    }
}

/// Whether the news are what is to be told of a notification: the same coming or going, or the
/// same words.
pub open spec fn about(news: News, note: Notification) -> bool {
    match (news, note) {
        (
            News::PresenceChange { presence, .. },
            Notification::PresenceChange { presence: noted, .. },
        ) => presence == noted,
        (News::Message { text, .. }, Notification::Message { text: noted, .. }) => text == noted@,
        _ => false,
    }
}

/// Whether the user, and the channel if there is one, of the news are those that the account knows
/// under the ids in the notification.
pub open spec fn of_those_known(account: AccountView, news: News, note: Notification) -> bool {
    match (news, note) {
        (
            News::PresenceChange { user, .. },
            Notification::PresenceChange { user: id, .. },
        ) => known(account.user, id@) == Some(user),
        (
            News::Message { user, channel, .. },
            Notification::Message { user: user_id, channel: channel_id, .. },
        ) => {
            &&& known(account.user, user_id@) == Some(user)
            &&& known(account.channel, channel_id@) == Some(channel)
        },
        _ => false,
    }
}

/// Whether the account is busy with a notification.
pub open spec fn is_busy(account: AccountView) -> bool {
    account.phase is FindingUser || account.phase is FindingBoth || account.phase is Dating
}

/// Whether the account is busy with just this notification.
pub open spec fn is_busy_with(account: AccountView, note: Notification) -> bool {
    match (account.phase, note) {
        (
            PhaseView::FindingUser { presence, id },
            Notification::PresenceChange { presence: noted, user },
        ) => presence == noted && id == user@,
        (
            PhaseView::FindingBoth { user_id, channel_id, text, ts, .. },
            Notification::Message { channel, user, text: noted, ts: noted_ts },
        ) => {
            &&& user_id == user@
            &&& channel_id == channel@
            &&& text == noted@
            &&& ts == noted_ts@
        },
        (
            PhaseView::Dating { user, channel, text },
            Notification::Message { channel: channel_id, user: user_id, text: noted, .. },
        ) => {
            &&& known(account.user, user_id@) == Some(user)
            &&& known(account.channel, channel_id@) == Some(channel)
            &&& text == noted@
        },
        _ => false,
    }
}

/// Each notification of a user who came or went or who said something is told once, and they are
/// told in the order of arrival. Nothing else is told. Only the last one may still be to come,
/// while the account is busy with it. The messages are told with the times that were read for
/// them. All this holds until an error comes.
pub proof fn law_all_is_told_in_order(account: AccountView, replies: Seq<Reply>)
    requires
        account.in_order(),
        !is_busy(account),
        in_turn(account, replies),
        forall|i: int| 0 <= i < replies.len() ==> error_in(#[trigger] replies[i]) is None,
    ensures
        notes(replies).len() == told(account, replies).len() + if is_busy(run(account, replies)) {
            1nat
        } else {
            0nat
        },
        is_busy(run(account, replies)) ==> is_busy_with(
            run(account, replies),
            notes(replies).last(),
        ),
        forall|i: int|
            0 <= i < told(account, replies).len() ==> about(
                #[trigger] told(account, replies)[i],
                notes(replies)[i],
            ),
        times(told(account, replies)) == readings(replies),
    decreases replies.len(),
{
    if replies.len() > 0 {
        let front = replies.drop_last();
        let before = run(account, front);
        let reply = replies.last();
        assert(forall|i: int| 0 <= i < front.len() ==> front[i] == replies[i]);
        law_all_is_told_in_order(account, front);
        law_runs_keep_order(account, front);
        assert(error_in(replies[replies.len() - 1]) is None);
        lemma_step_tells(before, reply);
        if before.news(reply) is Some {
            let all = told(account, replies);
            assert(all.drop_last() =~= told(account, front));
        }
    } else {
        assert(times(told(account, replies)) =~= readings(replies));
    }
}

/// What a step tells, and what the account is busy with afterwards.
proof fn lemma_step_tells(account: AccountView, reply: Reply)
    requires
        account.in_order(),
        account.awaits(reply),
        error_in(reply) is None,
    ensures
        is_busy(account) ==> note_in(reply) is None,
        ({
            let after = account.steps(reply).0;
            match (note_in(reply), account.news(reply)) {
                (Some(note), Some(news)) => {
                    &&& !is_busy(after)
                    &&& about(news, note)
                    &&& of_those_known(after, news, note)
                    &&& news is PresenceChange
                },
                (Some(note), None) => is_busy_with(after, note),
                (None, Some(news)) => {
                    &&& is_busy(account)
                    &&& !is_busy(after)
                    &&& news matches News::Message { time, .. } ==> reply == Reply::Time(Ok(time))
                    &&& news is PresenceChange ==> reply is User
                    &&& forall|note: Notification|
                        is_busy_with(account, note) ==> about(news, note) && of_those_known(
                            after,
                            news,
                            note,
                        )
                },
                (None, None) => {
                    &&& is_busy(account) <==> is_busy(after)
                    &&& !(reply is Time)
                    &&& forall|note: Notification|
                        is_busy_with(account, note) ==> is_busy_with(after, note)
                },
            }
        }),
{
}

/// The time stamps of the messages among the notifications.
pub open spec fn stamps(notes: Seq<Notification>) -> Seq<Seq<char>>
    decreases notes.len(),
{
    if notes.len() == 0 {
        Seq::empty()
    } else {
        match notes.last() {
            Notification::Message { ts, .. } => stamps(notes.drop_last()).push(ts@),
            _ => stamps(notes.drop_last()),
        }
    }
}

/// The texts in which a time is to be read.
pub open spec fn texts_to_read(actions: Seq<ActionView>) -> Seq<Seq<char>>
    decreases actions.len(),
{
    if actions.len() == 0 {
        Seq::empty()
    } else {
        match actions.last() {
            ActionView::ReadTime(text) => texts_to_read(actions.drop_last()).push(text),
            _ => texts_to_read(actions.drop_last()),
        }
    }
}

/// The time of each message is read once, in its own time stamp, in the order of arrival, whether
/// its parties were known or had to be asked about; and nothing else is read. Only for the last
/// message this may still be to come, while its parties are asked about. All this holds until an
/// error comes.
pub proof fn law_own_time_stamps_are_read(account: AccountView, replies: Seq<Reply>)
    requires
        account.in_order(),
        !is_busy(account),
        in_turn(account, replies),
        forall|i: int| 0 <= i < replies.len() ==> error_in(#[trigger] replies[i]) is None,
    ensures
        run(account, replies).phase is FindingBoth ==> stamps(notes(replies)).len() > 0,
        texts_to_read(actions(account, replies)) == if run(account, replies).phase is FindingBoth {
            stamps(notes(replies)).drop_last()
        } else {
            stamps(notes(replies))
        },
    decreases replies.len(),
{
    if replies.len() > 0 {
        let front = replies.drop_last();
        let before = run(account, front);
        let reply = replies.last();
        assert(forall|i: int| 0 <= i < front.len() ==> front[i] == replies[i]);
        law_own_time_stamps_are_read(account, front);
        law_all_is_told_in_order(account, front);
        law_runs_keep_order(account, front);
        assert(error_in(replies[replies.len() - 1]) is None);
        lemma_step_tells(before, reply);
        assert(actions(account, replies).drop_last() =~= actions(account, front));
        if let Some(note) = note_in(reply) {
            assert(notes(front).push(note).drop_last() =~= notes(front));
            if let Notification::Message { ts, .. } = note {
                assert(stamps(notes(front)).push(ts@).drop_last() =~= stamps(notes(front)));
            }
        } else if before.phase is FindingBoth {
            let all = stamps(notes(front));
            assert(all =~= all.drop_last().push(all.last()));
            assert(notes(front).last() is Message);
        }
    }
}

/// Whether the connection goes on after the reply.
pub open spec fn goes_on(reply: Reply) -> bool {
    !is_end(reply)
}

/// As long as a connection goes on, each notification is told with the user and the channel that
/// were found under the ids in it.
pub proof fn law_told_of_those_known(account: AccountView, replies: Seq<Reply>)
    requires
        account.in_order(),
        !is_busy(account),
        in_turn(account, replies),
        forall|i: int| 0 <= i < replies.len() ==> goes_on(#[trigger] replies[i]),
    ensures
        told(account, replies).len() <= notes(replies).len(),
        forall|i: int|
            0 <= i < told(account, replies).len() ==> of_those_known(
                run(account, replies),
                #[trigger] told(account, replies)[i],
                notes(replies)[i],
            ),
    decreases replies.len(),
{
    assert(forall|i: int|
        0 <= i < replies.len() ==> goes_on(#[trigger] replies[i]) ==> error_in(replies[i]) is None);
    law_all_is_told_in_order(account, replies);
    if replies.len() > 0 {
        let front = replies.drop_last();
        let before = run(account, front);
        let reply = replies.last();
        assert(forall|i: int| 0 <= i < front.len() ==> front[i] == replies[i]);
        law_told_of_those_known(account, front);
        law_all_is_told_in_order(account, front);
        law_runs_keep_order(account, front);
        assert(goes_on(replies[replies.len() - 1]));
        lemma_step_tells(before, reply);
        lemma_known_through(before, reply);
        assert forall|i: int| 0 <= i < told(account, replies).len() implies of_those_known(
            run(account, replies),
            #[trigger] told(account, replies)[i],
            notes(replies)[i],
        ) by {
            if i < told(account, front).len() {
                assert(told(account, replies)[i] == told(account, front)[i]);
                assert(notes(replies)[i] == notes(front)[i]);
                assert(of_those_known(before, told(account, front)[i], notes(front)[i]));
            }
        }
    }
}

/// Who and what is known stays known while the connection goes on.
proof fn lemma_known_through(account: AccountView, reply: Reply)
    requires
        account.in_order(),
        account.awaits(reply),
        goes_on(reply),
    ensures
        forall|id: Seq<char>|
            known(account.user, id) is Some ==> #[trigger] known(account.steps(reply).0.user, id)
                == known(account.user, id),
        forall|id: Seq<char>|
            known(account.channel, id) is Some ==> #[trigger] known(
                account.steps(reply).0.channel,
                id,
            ) == known(account.channel, id),
{
    if !(reply is Address) {
        law_known_stays_known(account, reply);
    }
}

/// Whether the action posts the form that asks about the user.
pub open spec fn asks_about_user(action: ActionView, id: Seq<char>, token: Seq<char>) -> bool {
    action matches ActionView::LookUp { user, .. } && user == Some(user_post(id, token))
}

/// Whether the action posts the form that asks about the channel.
pub open spec fn asks_about_channel(action: ActionView, id: Seq<char>, token: Seq<char>) -> bool {
    action matches ActionView::LookUp { channel, .. } && channel == Some(channel_post(id, token))
}

/// How many of the actions ask about the user.
pub open spec fn asked_about_user(
    actions: Seq<ActionView>,
    id: Seq<char>,
    token: Seq<char>,
) -> nat
    decreases actions.len(),
{
    if actions.len() == 0 {
        0
    } else if asks_about_user(actions.last(), id, token) {
        asked_about_user(actions.drop_last(), id, token) + 1
    } else {
        asked_about_user(actions.drop_last(), id, token)
    }
}

/// How many of the actions ask about the channel.
pub open spec fn asked_about_channel(
    actions: Seq<ActionView>,
    id: Seq<char>,
    token: Seq<char>,
) -> nat
    decreases actions.len(),
{
    if actions.len() == 0 {
        0
    } else if asks_about_channel(actions.last(), id, token) {
        asked_about_channel(actions.drop_last(), id, token) + 1
    } else {
        asked_about_channel(actions.drop_last(), id, token)
    }
}

/// Whether one of the notifications is of the user.
pub open spec fn names_user(notes: Seq<Notification>, id: Seq<char>) -> bool {
    exists|i: int|
        0 <= i < notes.len() && match #[trigger] notes[i] {
            Notification::PresenceChange { user, .. } => user@ == id,
            Notification::Message { user, .. } => user@ == id,
            _ => false,
        }
}

/// Whether one of the notifications is of something said in the channel.
pub open spec fn names_channel(notes: Seq<Notification>, id: Seq<char>) -> bool {
    exists|i: int|
        0 <= i < notes.len() && match #[trigger] notes[i] {
            Notification::Message { channel, .. } => channel@ == id,
            _ => false,
        }
}

/// Forms that ask about different users differ, and so do forms that ask about different channels.
proof fn lemma_posts_differ(a: Seq<char>, b: Seq<char>, token: Seq<char>)
    ensures
        user_post(a, token) == user_post(b, token) ==> a == b,
        channel_post(a, token) == channel_post(b, token) ==> a == b,
{
    if user_post(a, token) == user_post(b, token) {
        let first = seq![("user"@, a), ("token"@, token)];
        let second = seq![("user"@, b), ("token"@, token)];
        law_form_determines_fields(first, second);
        assert(first[0] == second[0]);
    }
    if channel_post(a, token) == channel_post(b, token) {
        let first = seq![("channel"@, a), ("token"@, token)];
        let second = seq![("channel"@, b), ("token"@, token)];
        law_form_determines_fields(first, second);
        assert(first[0] == second[0]);
    }
}

/// Whether the user is known or asked about.
spec fn user_on_file(account: AccountView, id: Seq<char>) -> bool {
    known(account.user, id) is Some || wanted_user(account) == Some(id)
}

/// Whether the channel is known or asked about.
spec fn channel_on_file(account: AccountView, id: Seq<char>) -> bool {
    known(account.channel, id) is Some || wanted_channel(account) == Some(id)
}

/// Who is on file stays there while the connection goes on. Somebody gets there just by being
/// named, and is asked about just then.
proof fn lemma_user_gets_on_file(account: AccountView, reply: Reply, id: Seq<char>)
    requires
        account.in_order(),
        account.awaits(reply),
        goes_on(reply),
    ensures
        ({
            let (after, action) = account.steps(reply);
            let named = note_in(reply) matches Some(note) && names_user(seq![note], id);
            &&& user_on_file(after, id) <==> user_on_file(account, id) || named
            &&& asks_about_user(action, id, account.token) <==> named && !user_on_file(account, id)
        }),
{
    if let Some(note) = note_in(reply) {
        assert(seq![note][0] == note);
        match note {
            Notification::PresenceChange { user, .. } => {
                lemma_posts_differ(id, user@, account.token);
            },
            Notification::Message { user, .. } => {
                lemma_posts_differ(id, user@, account.token);
            },
            _ => {},
        }
    }
}

/// What is on file stays there while the connection goes on. A channel gets there just by being
/// named, and is asked about just then.
proof fn lemma_channel_gets_on_file(account: AccountView, reply: Reply, id: Seq<char>)
    requires
        account.in_order(),
        account.awaits(reply),
        goes_on(reply),
    ensures
        ({
            let (after, action) = account.steps(reply);
            let named = note_in(reply) matches Some(note) && names_channel(seq![note], id);
            &&& channel_on_file(after, id) <==> channel_on_file(account, id) || named
            &&& asks_about_channel(action, id, account.token) <==> named && !channel_on_file(
                account,
                id,
            )
        }),
{
    if let Some(note) = note_in(reply) {
        assert(seq![note][0] == note);
        if let Notification::Message { channel, .. } = note {
            lemma_posts_differ(id, channel@, account.token);
        }
    }
}

/// A notification more names whom it names, and whom the others named.
proof fn lemma_names(notes: Seq<Notification>, note: Notification, id: Seq<char>)
    ensures
        names_user(notes.push(note), id) <==> names_user(notes, id) || names_user(seq![note], id),
        names_channel(notes.push(note), id) <==> names_channel(notes, id) || names_channel(
            seq![note],
            id,
        ),
{
    let all = notes.push(note);
    assert(all[notes.len() as int] == note);
    assert(seq![note][0] == note);
    assert(forall|i: int| 0 <= i < notes.len() ==> all[i] == notes[i]);
    if names_user(notes, id) {
        let i = choose|i: int|
            0 <= i < notes.len() && match #[trigger] notes[i] {
                Notification::PresenceChange { user, .. } => user@ == id,
                Notification::Message { user, .. } => user@ == id,
                _ => false,
            };
        assert(all[i] == notes[i]);
    }
    if names_channel(notes, id) {
        let i = choose|i: int|
            0 <= i < notes.len() && match #[trigger] notes[i] {
                Notification::Message { channel, .. } => channel@ == id,
                _ => false,
            };
        assert(all[i] == notes[i]);
    }
}

/// Who and what is on file after a row of replies, and how often they were asked about.
proof fn lemma_asked_once(account: AccountView, replies: Seq<Reply>, id: Seq<char>)
    requires
        account.in_order(),
        in_turn(account, replies),
        forall|i: int| 0 <= i < replies.len() ==> goes_on(#[trigger] replies[i]),
    ensures
        user_on_file(run(account, replies), id) <==> user_on_file(account, id) || names_user(
            notes(replies),
            id,
        ),
        asked_about_user(actions(account, replies), id, account.token) == if names_user(
            notes(replies),
            id,
        ) && !user_on_file(account, id) {
            1nat
        } else {
            0nat
        },
        channel_on_file(run(account, replies), id) <==> channel_on_file(account, id)
            || names_channel(notes(replies), id),
        asked_about_channel(actions(account, replies), id, account.token) == if names_channel(
            notes(replies),
            id,
        ) && !channel_on_file(account, id) {
            1nat
        } else {
            0nat
        },
    decreases replies.len(),
{
    if replies.len() > 0 {
        let front = replies.drop_last();
        let before = run(account, front);
        let reply = replies.last();
        assert(forall|i: int| 0 <= i < front.len() ==> front[i] == replies[i]);
        lemma_asked_once(account, front, id);
        law_runs_keep_order(account, front);
        lemma_token_stays(account, front);
        assert(goes_on(replies[replies.len() - 1]));
        lemma_user_gets_on_file(before, reply, id);
        lemma_channel_gets_on_file(before, reply, id);
        assert(actions(account, replies).drop_last() =~= actions(account, front));
        if let Some(note) = note_in(reply) {
            lemma_names(notes(front), note, id);
        }
    }
}

/// As long as a connection goes on, a user who is not known is asked about just once if they are
/// named, however often that is, and a user who is known or not named not at all.
pub proof fn law_user_is_asked_about_once_a_connection(
    account: AccountView,
    replies: Seq<Reply>,
    id: Seq<char>,
)
    requires
        account.in_order(),
        !is_busy(account),
        in_turn(account, replies),
        forall|i: int| 0 <= i < replies.len() ==> goes_on(#[trigger] replies[i]),
    ensures
        asked_about_user(actions(account, replies), id, account.token) == if names_user(
            notes(replies),
            id,
        ) && known(account.user, id) is None {
            1nat
        } else {
            0nat
        },
{
    lemma_asked_once(account, replies, id);
}

/// As long as a connection goes on, a channel that is not known is asked about just once if
/// something is said in it, however often that is, and a channel that is known or silent not at
/// all.
pub proof fn law_channel_is_asked_about_once_a_connection(
    account: AccountView,
    replies: Seq<Reply>,
    id: Seq<char>,
)
    requires
        account.in_order(),
        !is_busy(account),
        in_turn(account, replies),
        forall|i: int| 0 <= i < replies.len() ==> goes_on(#[trigger] replies[i]),
    ensures
        asked_about_channel(actions(account, replies), id, account.token) == if names_channel(
            notes(replies),
            id,
        ) && known(account.channel, id) is None {
            1nat
        } else {
            0nat
        },
{
    lemma_asked_once(account, replies, id);
}

/// The next connection knows nobody and nothing: after a connection was closed, whoever and
/// whatever is named is asked about once more, and once only, however often they were named
/// before.
pub proof fn law_next_connection_asks_anew(
    account: AccountView,
    first: Seq<Reply>,
    second: Seq<Reply>,
    id: Seq<char>,
)
    requires
        in_turn(account, first),
        run(account, first).phase is Listening,
        in_turn(run(account, first).steps(Reply::Ended).0, second),
        forall|i: int| 0 <= i < second.len() ==> goes_on(#[trigger] second[i]),
    ensures
        ({
            let next = run(account, first).steps(Reply::Ended).0;
            let asked = actions(next, second);
            &&& next.user == Map::<Seq<char>, User>::empty()
            &&& next.channel == Map::<Seq<char>, Channel>::empty()
            &&& asked_about_user(asked, id, account.token) == if names_user(notes(second), id) {
                1nat
            } else {
                0nat
            }
            &&& asked_about_channel(asked, id, account.token) == if names_channel(
                notes(second),
                id,
            ) {
                1nat
            } else {
                0nat
            }
        }),
{
    let next = run(account, first).steps(Reply::Ended).0;
    lemma_token_stays(account, first);
    law_user_is_asked_about_once_a_connection(next, second, id);
    law_channel_is_asked_about_once_a_connection(next, second, id);
}

/// Whether the streams go through these views over the replies: at each reply they are told the
/// news, if there are any.
pub open spec fn told_over(
    account: AccountView,
    replies: Seq<Reply>,
    views: Seq<StreamsView>,
) -> bool {
    &&& views.len() == replies.len() + 1
    &&& forall|i: int|
        0 <= i < replies.len() ==> views[i].told(
            run(account, replies.take(i)).news(#[trigger] replies[i]),
            views[i + 1],
        )
}

/// A stream that is open throughout a run takes just one event for each of the news that are told
/// over it, in the same order.
pub proof fn law_stream_takes_what_is_told(
    account: AccountView,
    replies: Seq<Reply>,
    views: Seq<StreamsView>,
    stream: UnboundedSender<Rc<Event>>,
)
    requires
        told_over(account, replies, views),
        views[0].distinct(),
        forall|i: int| 0 <= i < views.len() ==> (#[trigger] views[i]).open.contains(stream),
    ensures
        views.last().distinct(),
        views[0].offers.is_prefix_of(views.last().offers),
        ({
            let news = told(account, replies);
            let since = offers_to(views.last().offers.skip(views[0].offers.len() as int), stream);
            &&& since.len() == news.len()
            &&& forall|i: int|
                0 <= i < since.len() ==> (#[trigger] since[i]).taken && since[i].event.tells(
                    news[i],
                )
        }),
    decreases replies.len(),
{
    let start = views[0].offers;
    if replies.len() == 0 {
        assert(views.last().offers.skip(start.len() as int) =~= Seq::empty());
    } else {
        let n = replies.len() - 1;
        let front = replies.drop_last();
        let fewer = views.drop_last();
        let before = views[n];
        let after = views[n + 1];
        assert forall|i: int| 0 <= i < front.len() implies fewer[i].told(
            run(account, front.take(i)).news(#[trigger] front[i]),
            fewer[i + 1],
        ) by {
            assert(front.take(i) =~= replies.take(i));
            assert(views[i].told(run(account, replies.take(i)).news(replies[i]), views[i + 1]));
        }
        assert(forall|i: int| 0 <= i < fewer.len() ==> fewer[i] == views[i]);
        law_stream_takes_what_is_told(account, front, fewer, stream);
        assert(fewer.last() == before);
        assert(replies.take(n) =~= front);
        let news = run(account, front).news(replies[n]);
        assert(before.told(news, after));
        assert(after.open.contains(stream));
        if let Some(news) = news {
            let event = choose|event: Event|
                #[trigger] event.tells(news) && before.broadcasts(event, after);
            lemma_broadcast_is_taken(start, before, event, after, stream);
        }
    }
}

} // verus!
