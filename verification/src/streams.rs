//! The streams over which events reach those who asked for them.

use crate::model::{Event, News};
use futures::unsync::mpsc::{UnboundedReceiver, UnboundedSender};
use std::rc::Rc;
use vstd::prelude::*;

verus! {

/// The sending end of an unbounded queue.
#[verifier::external_type_specification]
#[verifier::external_body]
#[verifier::reject_recursive_types(T)]
pub struct ExUnboundedSender<T>(futures::unsync::mpsc::UnboundedSender<T>);

/// The receiving end of an unbounded queue.
#[verifier::external_type_specification]
#[verifier::external_body]
#[verifier::reject_recursive_types(T)]
pub struct ExUnboundedReceiver<T>(futures::unsync::mpsc::UnboundedReceiver<T>);

/// Whether what goes in at one end comes out at the other.
pub uninterp spec fn ends_of_one_queue(
    sender: UnboundedSender<Rc<Event>>,
    receiver: UnboundedReceiver<Rc<Event>>,
) -> bool;

/// The items whose mark is set, in order.
pub open spec fn marked<T>(items: Seq<T>, marks: Seq<bool>) -> Seq<T>
    decreases items.len(),
{
    if items.len() == 0 {
        Seq::empty()
    } else {
        let front = marked(items.drop_last(), marks.drop_last());
        if marks.last() {
            front.push(items.last())
        } else {
            front
        }
    }
}

/// Drops the items whose mark is not set.
pub fn keep_marked<T>(items: &mut Vec<T>, marks: &Vec<bool>)
    requires
        old(items)@.len() == marks@.len(),
    ensures
        final(items)@ == marked(old(items)@, marks@),
{
    let ghost all = items@;
    let mut kept: usize = 0;
    let mut i: usize = 0;
    while i < marks.len()
        invariant
            i <= marks@.len(),
            all.len() == marks@.len(),
            kept <= i,
            kept == marked(all.take(i as int), marks@.take(i as int)).len(),
            items@ =~= marked(all.take(i as int), marks@.take(i as int)) + all.skip(i as int),
        decreases marks@.len() - i,
    {
        proof {
            let front = all.take(i as int + 1);
            assert(front.drop_last() =~= all.take(i as int));
            assert(marks@.take(i as int + 1).drop_last() =~= marks@.take(i as int));
            assert(items@[kept as int] == all[i as int]);
        }
        if marks[i] {
            kept = kept + 1;
        } else {
            items.remove(kept);
        }
        i = i + 1;
    }
    proof {
        assert(all.take(i as int) =~= all);
        assert(marks@.take(i as int) =~= marks@);
    }
}

/// An event that was put to a stream, and whether the stream took it.
pub struct Offer {
    pub stream: UnboundedSender<Rc<Event>>,
    pub event: Event,
    pub taken: bool,
}

/// The open streams, and all that was offered to streams so far.
pub struct StreamsView {
    pub open: Seq<UnboundedSender<Rc<Event>>>,
    pub offers: Seq<Offer>,
}

impl StreamsView {
    /// Whether no stream is open twice.
    pub open spec fn distinct(self) -> bool {
        self.open.no_duplicates()
    }

    /// Whether `after` comes from this by opening one more stream.
    pub open spec fn opens(
        self,
        stream: UnboundedSender<Rc<Event>>,
        after: StreamsView,
    ) -> bool {
        &&& after.open == self.open.push(stream)
        &&& !self.open.contains(stream)
        &&& after.offers == self.offers
    }

    /// Whether `after` comes from this by one broadcast of `event`: each open stream was offered
    /// the event once, in order, and those that took it stay open.
    pub open spec fn broadcasts(self, event: Event, after: StreamsView) -> bool {
        let round = after.offers.skip(self.offers.len() as int);
        &&& after.offers.len() == self.offers.len() + self.open.len()
        &&& after.offers.take(self.offers.len() as int) == self.offers
        &&& forall|i: int|
            0 <= i < round.len() ==> (#[trigger] round[i]).stream == self.open[i] && round[i].event
                == event
        &&& after.open == marked(self.open, answers(round))
    }

    /// Whether `after` comes from this by telling the news, if there are any: by one broadcast of
    /// an event that tells them.
    pub open spec fn told(self, news: Option<News>, after: StreamsView) -> bool {
        match news {
            Some(news) => exists|event: Event|
                #[trigger] event.tells(news) && self.broadcasts(event, after),
            None => after == self,
        }
    }
}

/// Which of the offers were taken.
pub open spec fn answers(offers: Seq<Offer>) -> Seq<bool> {
    Seq::new(offers.len(), |i: int| offers[i].taken)
}

/// The streams of those who listen.
pub struct EventStreams {
    open: Vec<UnboundedSender<Rc<Event>>>,
    offers: Ghost<Seq<Offer>>,
}

impl View for EventStreams {
    type V = StreamsView;

    closed spec fn view(&self) -> StreamsView {
        StreamsView { open: self.open@, offers: self.offers@ }
    }
}

impl EventStreams {
    /// Nobody listens yet.
    pub fn new() -> (streams: EventStreams)
        ensures
            streams@.open.len() == 0,
            streams@.offers.len() == 0,
    {
        EventStreams { open: Vec::new(), offers: Ghost(Seq::empty()) }
    }

    /// Calls `futures::unsync::mpsc::unbounded`. Its contract claims that the two ends belong to
    /// one queue, and that the sending end is none of the open ones: the queue is a new one, and
    /// each of those holds on to its own.
    #[verifier::external_body]
    fn new_queue(&self) -> (ends: (UnboundedSender<Rc<Event>>, UnboundedReceiver<Rc<Event>>))
        ensures
            ends_of_one_queue(ends.0, ends.1),
            !self@.open.contains(ends.0),
    {
        futures::unsync::mpsc::unbounded()
    }

    /// Calls `unbounded_send` of `futures::unsync::mpsc::UnboundedSender` with one more reference
    /// to the event. Its contract writes the call down among the offers, with the stream, the event
    /// and the answer, and claims that the sending ends stay as they are. The answer depends on
    /// whether the receiving end still exists, and is left open; so is the arrival of the event at
    /// that end, which is out of sight of the sending one.
    #[verifier::external_body]
    fn offer(&mut self, i: usize, event: &Rc<Event>) -> (taken: bool)
        requires
            i < old(self)@.open.len(),
        ensures
            final(self)@.open == old(self)@.open,
            final(self)@.offers == old(self)@.offers.push(
                (Offer { stream: old(self)@.open[i as int], event: **event, taken }),
            ),
    {
        self.open[i].unbounded_send(Rc::clone(event)).is_ok()
    }

    /// Opens one more stream, and hands out the end at which its events arrive.
    pub fn subscribe(&mut self) -> (receiver: UnboundedReceiver<Rc<Event>>)
        ensures
            old(self)@.opens(final(self)@.open.last(), final(self)@),
            ends_of_one_queue(final(self)@.open.last(), receiver),
    {
        let (sender, receiver) = self.new_queue();
        self.open.push(sender);
        receiver
    }

    /// Offers the event to each open stream, and closes those that do not take it.
    pub fn broadcast(&mut self, event: Event)
        ensures
            old(self)@.broadcasts(event, final(self)@),
            old(self)@.open.len() == 0 ==> final(self)@ == old(self)@,
    {
        let ghost told = event;
        let event = Rc::new(event);
        let mut taken: Vec<bool> = Vec::new();
        let mut i: usize = 0;
        while i < self.open.len()
            invariant
                i <= self@.open.len(),
                self@.open == old(self)@.open,
                self@.offers.len() == old(self)@.offers.len() + i,
                self@.offers.take(old(self)@.offers.len() as int) == old(self)@.offers,
                taken@ =~= answers(self@.offers.skip(old(self)@.offers.len() as int)),
                forall|k: int|
                    0 <= k < i ==> (#[trigger] self@.offers.skip(
                        old(self)@.offers.len() as int,
                    )[k]).stream == old(self)@.open[k] && self@.offers.skip(
                        old(self)@.offers.len() as int,
                    )[k].event == *event,
            decreases self@.open.len() - i,
        {
            let ghost before = self@.offers;
            let ghost start = old(self)@.offers.len() as int;
            let answer = self.offer(i, &event);
            proof {
                let round = self@.offers.skip(start);
                assert(round =~= before.skip(start).push(self@.offers.last()));
                assert(self@.offers.take(start) =~= before.take(start));
            }
            taken.push(answer);
            i = i + 1;
        }
        keep_marked(&mut self.open, &taken);
        proof {
            if old(self)@.open.len() == 0 {
                law_nobody_hears(old(self)@, told, self@);
            }
        }
    }
}

/// Whether `item` occurs among the items whose mark is set.
spec fn has_marked<T>(items: Seq<T>, marks: Seq<bool>, item: T) -> bool {
    exists|i: int| 0 <= i < items.len() && marks[i] && #[trigger] items[i] == item
}

/// The marked items are just those whose mark is set.
proof fn lemma_marked_members<T>(items: Seq<T>, marks: Seq<bool>)
    requires
        items.len() == marks.len(),
    ensures
        forall|i: int|
            0 <= i < items.len() && marks[i] ==> marked(items, marks).contains(
                #[trigger] items[i],
            ),
        forall|j: int|
            0 <= j < marked(items, marks).len() ==> has_marked(
                items,
                marks,
                #[trigger] marked(items, marks)[j],
            ),
    decreases items.len(),
{
    if items.len() > 0 {
        let front = marked(items.drop_last(), marks.drop_last());
        let all = marked(items, marks);
        lemma_marked_members(items.drop_last(), marks.drop_last());
        assert forall|i: int| 0 <= i < items.len() && marks[i] implies all.contains(
            #[trigger] items[i],
        ) by {
            if i < items.len() - 1 {
                assert(items.drop_last()[i] == items[i]);
                let j = choose|j: int| 0 <= j < front.len() && front[j] == items[i];
                assert(all[j] == items[i]);
            } else {
                assert(all[all.len() - 1] == items[i]);
            }
        }
        assert forall|j: int| 0 <= j < all.len() implies has_marked(
            items,
            marks,
            #[trigger] all[j],
        ) by {
            if j < front.len() {
                assert(has_marked(items.drop_last(), marks.drop_last(), front[j]));
                let i = choose|i: int|
                    0 <= i < items.len() - 1 && marks.drop_last()[i]
                        && #[trigger] items.drop_last()[i] == front[j];
                assert(items[i] == all[j]);
            } else {
                assert(items[items.len() - 1] == all[j]);
            }
        }
    }
}

/// Setting every mark keeps every item.
proof fn lemma_marked_all<T>(items: Seq<T>, marks: Seq<bool>)
    requires
        items.len() == marks.len(),
        forall|i: int| 0 <= i < marks.len() ==> marks[i],
    ensures
        marked(items, marks) == items,
    decreases items.len(),
{
    if items.len() > 0 {
        lemma_marked_all(items.drop_last(), marks.drop_last());
        assert(items =~= items.drop_last().push(items.last()));
    } else {
        assert(marked(items, marks) =~= items);
    }
}

/// Whether the stream took one of the offers from the number `start` on.
pub open spec fn took_one(
    offers: Seq<Offer>,
    start: int,
    stream: UnboundedSender<Rc<Event>>,
) -> bool {
    exists|i: int|
        start <= i < offers.len() && (#[trigger] offers[i]).taken && offers[i].stream == stream
}

/// A broadcast that every stream takes leaves all streams open.
pub proof fn law_all_listen_on(before: StreamsView, event: Event, after: StreamsView)
    requires
        before.broadcasts(event, after),
        forall|i: int| before.offers.len() <= i < after.offers.len() ==> after.offers[i].taken,
    ensures
        after.open == before.open,
{
    let round = after.offers.skip(before.offers.len() as int);
    assert forall|i: int| 0 <= i < round.len() implies answers(round)[i] by {
        assert(round[i] == after.offers[before.offers.len() + i]);
    }
    lemma_marked_all(before.open, answers(round));
}

/// A stream stays open through a broadcast just if it took the event.
pub proof fn law_takers_stay(before: StreamsView, event: Event, after: StreamsView)
    requires
        before.broadcasts(event, after),
    ensures
        forall|i: int|
            before.offers.len() <= i < after.offers.len() && (#[trigger] after.offers[i]).taken
                ==> after.open.contains(after.offers[i].stream),
        forall|j: int|
            0 <= j < after.open.len() ==> took_one(
                after.offers,
                before.offers.len() as int,
                #[trigger] after.open[j],
            ),
{
    let start = before.offers.len() as int;
    let round = after.offers.skip(start);
    let marks = answers(round);
    lemma_marked_members(before.open, marks);
    assert forall|i: int|
        start <= i < after.offers.len() && (
        #[trigger] after.offers[i]).taken implies after.open.contains(after.offers[i].stream) by {
        assert(round[i - start] == after.offers[i]);
        assert(marks[i - start]);
        assert(after.open.contains(before.open[i - start]));
    }
    assert forall|j: int| 0 <= j < after.open.len() implies took_one(
        after.offers,
        start,
        #[trigger] after.open[j],
    ) by {
        assert(has_marked(before.open, marks, after.open[j]));
        let k = choose|k: int|
            0 <= k < before.open.len() && marks[k] && #[trigger] before.open[k] == after.open[j];
        assert(round[k] == after.offers[start + k]);
        assert(after.offers[start + k].taken);
    }
}

/// Who did not take an event hears nothing more: each offer of the next broadcast goes to a stream
/// that took the one before.
pub proof fn law_refusers_hear_no_more(
    before: StreamsView,
    first: Event,
    between: StreamsView,
    second: Event,
    after: StreamsView,
)
    requires
        before.broadcasts(first, between),
        between.broadcasts(second, after),
    ensures
        forall|j: int|
            between.offers.len() <= j < after.offers.len() ==> took_one(
                between.offers,
                before.offers.len() as int,
                (#[trigger] after.offers[j]).stream,
            ),
{
    law_takers_stay(before, first, between);
    let start = between.offers.len() as int;
    let round = after.offers.skip(start);
    assert forall|j: int| start <= j < after.offers.len() implies took_one(
        between.offers,
        before.offers.len() as int,
        (#[trigger] after.offers[j]).stream,
    ) by {
        assert(round[j - start] == after.offers[j]);
        assert(between.open[j - start] == after.offers[j].stream);
    }
}

/// A broadcast while nobody listens leaves nothing behind: the event is offered to nobody, then or
/// later.
pub proof fn law_nobody_hears(before: StreamsView, event: Event, after: StreamsView)
    requires
        before.broadcasts(event, after),
        before.open.len() == 0,
    ensures
        after == before,
{
    assert(after.offers =~= before.offers);
    assert(after.open =~= before.open);
}

/// Of items that are all different, the marked ones are all different.
proof fn lemma_marked_distinct<T>(items: Seq<T>, marks: Seq<bool>)
    requires
        items.len() == marks.len(),
        items.no_duplicates(),
    ensures
        marked(items, marks).no_duplicates(),
    decreases items.len(),
{
    if items.len() > 0 {
        let front = marked(items.drop_last(), marks.drop_last());
        lemma_marked_distinct(items.drop_last(), marks.drop_last());
        lemma_marked_members(items.drop_last(), marks.drop_last());
        assert forall|j: int| 0 <= j < front.len() implies #[trigger] front[j] != items.last() by {
            assert(has_marked(items.drop_last(), marks.drop_last(), front[j]));
        }
    }
}

/// The offers that were made to the stream.
pub open spec fn offers_to(
    offers: Seq<Offer>,
    stream: UnboundedSender<Rc<Event>>,
) -> Seq<Offer>
    decreases offers.len(),
{
    if offers.len() == 0 {
        Seq::empty()
    } else if offers.last().stream == stream {
        offers_to(offers.drop_last(), stream).push(offers.last())
    } else {
        offers_to(offers.drop_last(), stream)
    }
}

/// A stream that occurs nowhere was offered nothing.
proof fn lemma_no_offers(offers: Seq<Offer>, stream: UnboundedSender<Rc<Event>>)
    requires
        forall|i: int| 0 <= i < offers.len() ==> (#[trigger] offers[i]).stream != stream,
    ensures
        offers_to(offers, stream) == Seq::<Offer>::empty(),
    decreases offers.len(),
{
    if offers.len() > 0 {
        assert(offers[offers.len() - 1].stream != stream);
        lemma_no_offers(offers.drop_last(), stream);
    }
}

/// A stream that occurs once was offered one thing.
proof fn lemma_one_offer(offers: Seq<Offer>, stream: UnboundedSender<Rc<Event>>, k: int)
    requires
        0 <= k < offers.len(),
        forall|i: int|
            0 <= i < offers.len() ==> ((#[trigger] offers[i]).stream == stream <==> i == k),
    ensures
        offers_to(offers, stream) == seq![offers[k]],
    decreases offers.len(),
{
    let front = offers.drop_last();
    if k == offers.len() - 1 {
        lemma_no_offers(front, stream);
    } else {
        assert(offers[offers.len() - 1].stream != stream);
        lemma_one_offer(front, stream, k);
    }
    assert(offers_to(offers, stream) =~= seq![offers[k]]);
}

/// What was offered later comes after what was offered before.
proof fn lemma_offers_in_a_row(a: Seq<Offer>, b: Seq<Offer>, stream: UnboundedSender<Rc<Event>>)
    ensures
        offers_to(a + b, stream) == offers_to(a, stream) + offers_to(b, stream),
    decreases b.len(),
{
    if b.len() == 0 {
        assert(a + b =~= a);
        assert(offers_to(a, stream) + offers_to(b, stream) =~= offers_to(a, stream));
    } else {
        lemma_offers_in_a_row(a, b.drop_last(), stream);
        assert((a + b).drop_last() =~= a + b.drop_last());
        assert(offers_to(a + b, stream) =~= offers_to(a, stream) + offers_to(b, stream));
    }
}

/// A broadcast offers its event once to a stream that is open, and nothing to any other. The stream
/// is open afterwards just if it was open before and took the event.
pub proof fn law_one_offer_each(
    before: StreamsView,
    event: Event,
    after: StreamsView,
    stream: UnboundedSender<Rc<Event>>,
)
    requires
        before.broadcasts(event, after),
        before.distinct(),
    ensures
        after.distinct(),
        offers_to(after.offers.skip(before.offers.len() as int), stream) == if before.open.contains(
            stream,
        ) {
            seq![Offer { stream, event, taken: after.open.contains(stream) }]
        } else {
            Seq::empty()
        },
        after.open.contains(stream) ==> before.open.contains(stream),
{
    let round = after.offers.skip(before.offers.len() as int);
    let marks = answers(round);
    lemma_marked_distinct(before.open, marks);
    lemma_marked_members(before.open, marks);
    if before.open.contains(stream) {
        let k = before.open.index_of(stream);
        assert(before.open[k] == stream);
        assert(round[k].stream == stream);
        lemma_one_offer(round, stream, k);
        if marks[k] {
            assert(after.open.contains(before.open[k]));
        } else if after.open.contains(stream) {
            let j = after.open.index_of(stream);
            assert(has_marked(before.open, marks, after.open[j]));
        }
    } else {
        assert forall|i: int| 0 <= i < round.len() implies (#[trigger] round[i]).stream
            != stream by {
            assert(before.open[i] == round[i].stream);
        }
        lemma_no_offers(round, stream);
        if after.open.contains(stream) {
            let j = after.open.index_of(stream);
            assert(has_marked(before.open, marks, after.open[j]));
        }
    }
}

/// A broadcast through which a stream stays open adds its event to what the stream took since
/// `start`.
pub(crate) proof fn lemma_broadcast_is_taken(
    start: Seq<Offer>,
    before: StreamsView,
    event: Event,
    after: StreamsView,
    stream: UnboundedSender<Rc<Event>>,
)
    requires
        start.is_prefix_of(before.offers),
        before.broadcasts(event, after),
        before.distinct(),
        after.open.contains(stream),
    ensures
        after.distinct(),
        start.is_prefix_of(after.offers),
        offers_to(after.offers.skip(start.len() as int), stream) == offers_to(
            before.offers.skip(start.len() as int),
            stream,
        ).push(Offer { stream, event, taken: true }),
{
    law_one_offer_each(before, event, after, stream);
    let round = after.offers.skip(before.offers.len() as int);
    let earlier = before.offers.skip(start.len() as int);
    assert(after.offers =~= before.offers + round);
    assert(after.offers.skip(start.len() as int) =~= earlier + round);
    lemma_offers_in_a_row(earlier, round, stream);
    assert(offers_to(after.offers.skip(start.len() as int), stream) =~= offers_to(
        earlier,
        stream,
    ).push(Offer { stream, event, taken: true }));
}

/// Opening one more stream leaves none open twice.
pub proof fn law_new_streams_are_distinct(
    before: StreamsView,
    stream: UnboundedSender<Rc<Event>>,
    after: StreamsView,
)
    requires
        before.opens(stream, after),
        before.distinct(),
    ensures
        after.distinct(),
{
}

/// What can happen to the streams.
pub enum Happening {
    /// One more stream is opened.
    Opening(UnboundedSender<Rc<Event>>),
    /// An event is broadcast.
    Broadcast(Event),
}

/// Whether the second comes from the first by what happens.
pub open spec fn happens(before: StreamsView, happening: Happening, after: StreamsView) -> bool {
    match happening {
        Happening::Opening(stream) => before.opens(stream, after),
        Happening::Broadcast(event) => before.broadcasts(event, after),
    }
}

/// Whether each of the views comes from the one before by what happens.
pub open spec fn history(views: Seq<StreamsView>, happenings: Seq<Happening>) -> bool {
    &&& views.len() == happenings.len() + 1
    &&& forall|i: int|
        0 <= i < happenings.len() ==> happens(views[i], #[trigger] happenings[i], views[i + 1])
}

/// The events that are broadcast.
pub open spec fn broadcasts_in(happenings: Seq<Happening>) -> Seq<Event>
    decreases happenings.len(),
{
    if happenings.len() == 0 {
        Seq::empty()
    } else {
        match happenings.last() {
            Happening::Broadcast(event) => broadcasts_in(happenings.drop_last()).push(event),
            _ => broadcasts_in(happenings.drop_last()),
        }
    }
}

/// From when it is opened on, and for as long as it stays open, a stream is offered each event that
/// is broadcast, once and in order, and it takes them all. It is offered nothing else, and nothing
/// from before.
pub proof fn law_subscriber_hears_what_follows(
    views: Seq<StreamsView>,
    happenings: Seq<Happening>,
    stream: UnboundedSender<Rc<Event>>,
)
    requires
        history(views, happenings),
        views[0].distinct(),
        forall|i: int| 0 <= i < views.len() ==> (#[trigger] views[i]).open.contains(stream),
    ensures
        views.last().distinct(),
        views[0].offers.is_prefix_of(views.last().offers),
        offers_to(views.last().offers.skip(views[0].offers.len() as int), stream)
            == broadcasts_in(happenings).map_values(
            |event: Event| Offer { stream, event, taken: true },
        ),
    decreases happenings.len(),
{
    let start = views[0].offers;
    let taking = |event: Event| Offer { stream, event, taken: true };
    if happenings.len() == 0 {
        assert(views.last().offers.skip(start.len() as int) =~= Seq::empty());
        assert(broadcasts_in(happenings).map_values(taking) =~= Seq::empty());
    } else {
        let n = happenings.len() - 1;
        let fewer = views.drop_last();
        let front = happenings.drop_last();
        let before = views[n];
        let after = views[n + 1];
        assert forall|i: int| 0 <= i < front.len() implies happens(
            fewer[i],
            #[trigger] front[i],
            fewer[i + 1],
        ) by {
            assert(happens(views[i], happenings[i], views[i + 1]));
        }
        assert(forall|i: int| 0 <= i < fewer.len() ==> fewer[i] == views[i]);
        law_subscriber_hears_what_follows(fewer, front, stream);
        assert(fewer.last() == before);
        assert(happens(before, happenings[n], after));
        assert(after.open.contains(stream));
        match happenings[n] {
            Happening::Opening(opened) => {
                law_new_streams_are_distinct(before, opened, after);
            },
            Happening::Broadcast(event) => {
                lemma_broadcast_is_taken(start, before, event, after, stream);
                assert(broadcasts_in(happenings).map_values(taking) =~= broadcasts_in(
                    front,
                ).map_values(taking).push(taking(event)));
            },
        }
    }
}

/// How many of the marks are set.
pub open spec fn set_marks(marks: Seq<bool>) -> nat
    decreases marks.len(),
{
    if marks.len() == 0 {
        0
    } else if marks.last() {
        set_marks(marks.drop_last()) + 1
    } else {
        set_marks(marks.drop_last())
    }
}

/// Whether the item at that place is kept, with as many in front of it as there are marks set
/// before its own.
pub open spec fn is_kept<T>(items: Seq<T>, marks: Seq<bool>, i: int) -> bool {
    let place = set_marks(marks.take(i)) as int;
    place < marked(items, marks).len() && marked(items, marks)[place] == items[i]
}

/// Of all items just those whose mark is set are kept, in the same order.
pub proof fn law_marked_items_are_kept_in_order<T>(items: Seq<T>, marks: Seq<bool>)
    requires
        items.len() == marks.len(),
    ensures
        marked(items, marks).len() == set_marks(marks),
        forall|i: int| 0 <= i < items.len() && marks[i] ==> #[trigger] is_kept(items, marks, i),
    decreases items.len(),
{
    if items.len() > 0 {
        let n = items.len() - 1;
        law_marked_items_are_kept_in_order(items.drop_last(), marks.drop_last());
        assert(marks.take(n) =~= marks.drop_last());
        assert forall|i: int| 0 <= i < items.len() && marks[i] implies #[trigger] is_kept(
            items,
            marks,
            i,
        ) by {
            if i < n {
                assert(is_kept(items.drop_last(), marks.drop_last(), i));
                assert(marks.drop_last().take(i) =~= marks.take(i));
            }
        }
    }
}

/// Dropping the items without a mark leaves the marked ones.
pub proof fn law_keep_marked<T>(items: &mut Vec<T>, marks: &Vec<bool>)
    requires
        call_ensures(keep_marked::<T>, (items, marks), ()),
    ensures
        final(items)@ == marked(old(items)@, marks@),
{
}

/// A stream that is opened is the last one of those that are open; all others stay, and nothing is
/// offered.
pub proof fn law_opened_stream_is_the_last(
    before: StreamsView,
    stream: UnboundedSender<Rc<Event>>,
    after: StreamsView,
)
    requires
        before.opens(stream, after),
    ensures
        after.open.len() == before.open.len() + 1,
        after.open.last() == stream,
        forall|i: int| 0 <= i < before.open.len() ==> after.open[i] == #[trigger] before.open[i],
        after.offers == before.offers,
{
}

/// News are told by one event that holds them, to all open streams; where there are none, nothing
/// is offered and nothing closed.
pub proof fn law_news_are_told_by_one_event(
    before: StreamsView,
    news: News,
    after: StreamsView,
)
    ensures
        before.told(None, after) ==> after == before,
        before.told(Some(news), after) ==> after.offers.len() == before.offers.len()
            + before.open.len(),
        before.told(Some(news), after) ==> forall|i: int|
            0 <= i < before.open.len() ==> after.offers[before.offers.len() + i].stream
                == #[trigger] before.open[i] && after.offers[before.offers.len() + i].event.tells(
                news,
            ),
{
    if before.told(Some(news), after) {
        let event = choose|event: Event|
            #[trigger] event.tells(news) && before.broadcasts(event, after);
        let round = after.offers.skip(before.offers.len() as int);
        assert forall|i: int| 0 <= i < before.open.len() implies after.offers[before.offers.len()
            + i].stream == #[trigger] before.open[i] && after.offers[before.offers.len()
            + i].event.tells(news) by {
            assert(round[i] == after.offers[before.offers.len() + i]);
        }
    }
}

} // verus!
