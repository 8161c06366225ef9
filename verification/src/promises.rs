//! What the operations of an account promise to whoever calls them.

use crate::account::{Account, Cached};
use crate::error::ErrorKind;
use crate::form::read_form;
use crate::laws::{
    law_address_is_asked_for_with_the_token, law_channel_is_asked_about_by_id,
    law_user_is_asked_about_by_id,
};
use crate::model::{Channel, Event, Notification, User};
use crate::state::{is_failure, AccountView, Action, Message, PhaseView, Reply};
use crate::streams::{answers, ends_of_one_queue, marked};
use futures::unsync::mpsc::UnboundedReceiver;
use std::rc::Rc;
use vstd::prelude::*;

verus! {

/// A new account holds the whole token, knows no address, nobody and nothing, and nobody listens
/// to it.
pub proof fn law_new_account(token: String, account: Account)
    requires
        call_ensures(Account::new, (token,), account),
    ensures
        account@.token == token@,
        account@.connect_uri is None,
        account@.bad_attempts == 0,
        account@.user == Map::<Seq<char>, User>::empty(),
        account@.channel == Map::<Seq<char>, Channel>::empty(),
        account@.phase is Idle,
        account.streams().open.len() == 0,
        account.streams().offers.len() == 0,
{
}

/// The address is the one that is known; where none is, it is asked for at `rtm.start` with one
/// field, the whole token.
pub proof fn law_connect_uri(account: &Account, uri: Cached<String>)
    requires
        call_ensures(Account::connect_uri, (account,), uri),
    ensures
        account@.connect_uri matches Some(known) ==> (uri matches Cached::Known(given) && given@
            == known),
        account@.connect_uri is None ==> (uri matches Cached::Asked(post) && post.uri@
            == "https://slack.com/api/rtm.start"@ && read_form(post.body@) == seq![
            ("token"@, account@.token),
        ]),
{
    law_address_is_asked_for_with_the_token(account@.token);
}

/// A user is the one that is known under the id; where none is, they are asked about at
/// `users.info` with two fields, the whole id and the whole token.
pub proof fn law_user(account: &Account, id: &String, user: Cached<User>)
    requires
        call_ensures(Account::user, (account, id), user),
    ensures
        account@.user.contains_key(id@) ==> (user matches Cached::Known(given) && given
            == account@.user[id@]),
        !account@.user.contains_key(id@) ==> (user matches Cached::Asked(post) && post.uri@
            == "https://slack.com/api/users.info"@ && read_form(post.body@) == seq![
            ("user"@, id@),
            ("token"@, account@.token),
        ]),
{
    law_user_is_asked_about_by_id(id@, account@.token);
}

/// A channel is the one that is known under the id; where none is, it is asked about at
/// `conversations.info` with two fields, the whole id and the whole token.
pub proof fn law_channel(account: &Account, id: &String, channel: Cached<Channel>)
    requires
        call_ensures(Account::channel, (account, id), channel),
    ensures
        account@.channel.contains_key(id@) ==> (channel matches Cached::Known(given) && given
            == account@.channel[id@]),
        !account@.channel.contains_key(id@) ==> (channel matches Cached::Asked(post) && post.uri@
            == "https://slack.com/api/conversations.info"@ && read_form(post.body@) == seq![
            ("channel"@, id@),
            ("token"@, account@.token),
        ]),
{
    law_channel_is_asked_about_by_id(id@, account@.token);
}

/// What a bad address costs: the address is dropped and one more failure counted, and the verdict
/// is good as long as there are three at most.
pub proof fn law_bad_url(account: &mut Account, verdict: Result<(), ErrorKind>)
    requires
        call_ensures(Account::bad_url, (account,), verdict),
    ensures
        final(account)@ == (AccountView {
            connect_uri: None,
            bad_attempts: old(account)@.bad_attempts + 1,
            ..old(account)@
        }),
        final(account).streams() == old(account).streams(),
        verdict is Ok <==> old(account)@.bad_attempts < 3,
        verdict matches Err(kind) ==> kind is BadAttempts,
{
}

/// A new address is taken whole, and the failures are forgotten.
pub proof fn law_update_connect_url(account: &mut Account, url: String)
    requires
        call_ensures(Account::update_connect_url, (account, url), ()),
    ensures
        final(account)@ == (AccountView {
            connect_uri: Some(url@),
            bad_attempts: 0,
            ..old(account)@
        }),
        final(account).streams() == old(account).streams(),
{
}

/// All users and channels are forgotten, and nothing else.
pub proof fn law_invalidate(account: &mut Account)
    requires
        call_ensures(Account::invalidate, (account,), ()),
    ensures
        final(account)@ == (AccountView {
            user: Map::empty(),
            channel: Map::empty(),
            ..old(account)@
        }),
        final(account).streams() == old(account).streams(),
{
}

/// A connection begins with nobody and nothing known, at the address that is known, or with the
/// question for one.
pub proof fn law_connection(account: &mut Account, action: Action)
    requires
        call_ensures(Account::connection, (account,), action),
    ensures
        begins_connection(old(account)@, final(account)@, action),
        final(account).streams() == old(account).streams(),
{
    law_address_is_asked_for_with_the_token(old(account)@.token);
}

/// To keep running, an account begins a connection.
pub proof fn law_keep_running(account: &mut Account, action: Action)
    requires
        call_ensures(Account::keep_running, (account,), action),
    ensures
        begins_connection(old(account)@, final(account)@, action),
        final(account).streams() == old(account).streams(),
{
    law_address_is_asked_for_with_the_token(old(account)@.token);
}

/// Whether the account begins a connection by the action.
pub open spec fn begins_connection(
    before: AccountView,
    after: AccountView,
    action: Action,
) -> bool {
    let forgetful = AccountView { user: Map::empty(), channel: Map::empty(), ..before };
    match before.connect_uri {
        Some(uri) => {
            &&& after == (AccountView { phase: PhaseView::Opening, ..forgetful })
            &&& action matches Action::Connect(to) && to@ == uri
        },
        None => {
            &&& after == (AccountView { phase: PhaseView::Addressing, ..forgetful })
            &&& action matches Action::RequestAddress(post) && post.uri@
                == "https://slack.com/api/rtm.start"@ && read_form(post.body@) == seq![
                ("token"@, before.token),
            ]
        },
    }
}

/// Of a notification that is not of a presence or a message nothing comes; of the others what is
/// laid down for hearing them.
pub proof fn law_into_event(account: &mut Account, notification: Notification, action: Action)
    requires
        call_ensures(Account::into_event, (account, notification), action),
    ensures
        match notification {
            Notification::PresenceChange { .. } | Notification::Message { .. } => {
                let reply = Reply::Message(Message::Text(Some(notification)));
                let listening = AccountView { phase: PhaseView::Listening, ..old(account)@ };
                &&& (final(account)@, action@) == listening.steps(reply)
                &&& old(account).streams().told(listening.news(reply), final(account).streams())
            },
            _ => {
                &&& final(account)@ == (AccountView {
                    phase: PhaseView::Listening,
                    ..old(account)@
                })
                &&& action is Receive
                &&& final(account).streams() == old(account).streams()
            },
        },
{
}

/// A step does to the account what is laid down for the reply, and tells the news of it.
pub proof fn law_step(account: &mut Account, reply: Reply, action: Action)
    requires
        call_ensures(Account::step, (account, reply), action),
    ensures
        (final(account)@, action@) == old(account)@.steps(reply),
        old(account).streams().told(old(account)@.news(reply), final(account).streams()),
{
}

/// A reply is expected just if the account is waiting for it, and can still count it if it is a
/// failure.
pub proof fn law_expects(account: &Account, reply: &Reply, expected: bool)
    requires
        call_ensures(Account::expects, (account, reply), expected),
    ensures
        expected <==> account@.awaits(*reply) && (is_failure(*reply) ==> account@.bad_attempts
            < usize::MAX),
{
}

/// Whoever asks for the events gets the other end of a stream that is open from then on, beside all
/// that were open before.
pub proof fn law_events(account: &mut Account, receiver: UnboundedReceiver<Rc<Event>>)
    requires
        call_ensures(Account::events, (account,), receiver),
    ensures
        final(account)@ == old(account)@,
        final(account).streams().offers == old(account).streams().offers,
        final(account).streams().open.len() == old(account).streams().open.len() + 1,
        forall|i: int|
            0 <= i < old(account).streams().open.len() ==> final(account).streams().open[i]
                == #[trigger] old(account).streams().open[i],
        ends_of_one_queue(final(account).streams().open.last(), receiver),
{
}

/// A broadcast offers its event to each open stream, one after the other, and leaves those open
/// that take it; it changes nothing else of the account.
pub proof fn law_broadcast(account: &mut Account, event: Event)
    requires
        call_ensures(Account::broadcast, (account, event), ()),
    ensures
        final(account)@ == old(account)@,
        ({
            let before = old(account).streams();
            let after = final(account).streams();
            &&& after.offers.len() == before.offers.len() + before.open.len()
            &&& forall|i: int|
                0 <= i < before.offers.len() ==> #[trigger] after.offers[i] == before.offers[i]
            &&& forall|i: int|
                0 <= i < before.open.len() ==> {
                    let offer = after.offers[before.offers.len() + i];
                    offer.stream == #[trigger] before.open[i] && offer.event == event
                }
            &&& after.open == marked(
                before.open,
                Seq::new(
                    before.open.len(),
                    |i: int| after.offers[before.offers.len() + i].taken,
                ),
            )
        }),
{
    let before = old(account).streams();
    let after = final(account).streams();
    let round = after.offers.skip(before.offers.len() as int);
    assert forall|i: int| 0 <= i < before.offers.len() implies #[trigger] after.offers[i]
        == before.offers[i] by {
        assert(after.offers.take(before.offers.len() as int)[i] == after.offers[i]);
    }
    assert forall|i: int| 0 <= i < before.open.len() implies {
        let offer = after.offers[before.offers.len() + i];
        offer.stream == #[trigger] before.open[i] && offer.event == event
    } by {
        assert(round[i] == after.offers[before.offers.len() + i]);
    }
    assert(answers(round) =~= Seq::new(
        before.open.len(),
        |i: int| after.offers[before.offers.len() + i].taken,
    ));
}

} // verus!
