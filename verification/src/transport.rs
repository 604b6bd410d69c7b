//! The hand-off channel between the acquisition loop and the presentation
//! loop.
//!
//! A [`Transport`] never makes its producer wait and never grows: it keeps
//! only the newest value published since the last take. Its model is the
//! backlog a consumer would find in an unbounded queue, of which a take
//! delivers the newest entry and discards the rest.

use vstd::prelude::*;

verus! {

/// The newest entry of a backlog, if it has any.
pub open spec fn latest<T>(backlog: Seq<T>) -> Option<T> {
    if backlog.len() > 0 {
        Some(backlog.last())
    } else {
        None
    }
}

/// A single-producer, single-consumer channel on which the latest value wins.
pub struct Transport<T> {
    slot: Option<T>,
    backlog: Ghost<Seq<T>>,
}

impl<T> View for Transport<T> {
    type V = Seq<T>;

    /// The values published since the last take, oldest first.
    closed spec fn view(&self) -> Seq<T> {
        self.backlog@
    }
}

impl<T> Transport<T> {
    #[verifier::type_invariant]
    spec fn slot_holds_latest(self) -> bool {
        self.slot == latest(self.backlog@)
    }

    /// Creates a channel on which nothing has been published.
    pub fn new() -> (transport: Self)
        ensures
            transport@ == Seq::<T>::empty(),
    {
        Transport { slot: None, backlog: Ghost(Seq::empty()) }
    }

    /// Hands `value` over without waiting for the consumer. A value that was
    /// published earlier and not yet taken is superseded.
    pub fn publish(&mut self, value: T)
        ensures
            final(self)@ == old(self)@.push(value),
    {
        let ghost extended = self.backlog@.push(value);
        *self = Transport { slot: Some(value), backlog: Ghost(extended) };
    }

    /// Looks at the value the next take would deliver, without taking it.
    pub fn peek(&self) -> (pending: Option<&T>)
        ensures
            pending is Some <==> latest(self@) is Some,
            pending is Some ==> latest(self@) == Some(*pending->0),
    {
        proof {
            use_type_invariant(self);
        }
        self.slot.as_ref()
    }

    /// Takes the newest value published since the last take, or returns
    /// `None` when nothing new has arrived. Never waits.
    pub fn try_take(&mut self) -> (taken: Option<T>)
        ensures
            taken == latest(old(self)@),
            final(self)@ == Seq::<T>::empty(),
    {
        let mut previous = Transport::new();
        core::mem::swap(self, &mut previous);
        proof {
            use_type_invariant(&previous);
        }
        previous.slot
    }
}

/// The backlog after `values` are published one by one, in order.
pub open spec fn after_publishes<T>(backlog: Seq<T>, values: Seq<T>) -> Seq<T>
    decreases values.len(),
{
    if values.len() == 0 {
        backlog
    } else {
        after_publishes(backlog, values.drop_last()).push(values.last())
    }
}

/// What `count` takes in a row deliver, first take first, when nothing is
/// published between them.
pub open spec fn successive_takes<T>(backlog: Seq<T>, count: nat) -> Seq<Option<T>>
    decreases count,
{
    if count == 0 {
        Seq::empty()
    } else {
        seq![latest(backlog)] + successive_takes(Seq::<T>::empty(), (count - 1) as nat)
    }
}

/// Publishing one by one appends to the backlog, in publish order.
pub proof fn lemma_publishes_append<T>(backlog: Seq<T>, values: Seq<T>)
    ensures
        after_publishes(backlog, values) == backlog + values,
    decreases values.len(),
{
    if values.len() == 0 {
        assert(backlog + values =~= backlog);
    } else {
        lemma_publishes_append(backlog, values.drop_last());
        assert(backlog + values =~= (backlog + values.drop_last()).push(values.last()));
    }
}

/// However many values pile up unread, the next take delivers the most
/// recent of them: the consumer is never left with an older one.
pub proof fn lemma_take_delivers_most_recent<T>(backlog: Seq<T>, burst: Seq<T>)
    requires
        burst.len() > 0,
    ensures
        latest(after_publishes(backlog, burst)) == Some(burst.last()),
{
}

/// Each take delivers one outcome.
pub proof fn lemma_one_outcome_per_take<T>(backlog: Seq<T>, count: nat)
    ensures
        successive_takes(backlog, count).len() == count,
    decreases count,
{
    if count > 0 {
        lemma_one_outcome_per_take(Seq::<T>::empty(), (count - 1) as nat);
    }
}

/// A take that follows another with no publish in between delivers nothing:
/// no value is delivered twice.
pub proof fn lemma_drained_takes_deliver_nothing<T>(backlog: Seq<T>, count: nat, i: int)
    requires
        1 <= i < count,
    ensures
        successive_takes(backlog, count)[i] == None::<T>,
    decreases count,
{
    let rest = successive_takes(Seq::<T>::empty(), (count - 1) as nat);
    lemma_one_outcome_per_take(Seq::<T>::empty(), (count - 1) as nat);
    assert(successive_takes(backlog, count)[i] == rest[i - 1]);
    if i > 1 {
        lemma_drained_takes_deliver_nothing(Seq::<T>::empty(), (count - 1) as nat, i - 1);
    }
}

/// Takes on a channel on which nothing was published deliver nothing.
pub proof fn lemma_nothing_published_nothing_delivered<T>(count: nat, i: int)
    requires
        0 <= i < count,
    ensures
        successive_takes(Seq::<T>::empty(), count)[i] == None::<T>,
{
    if i > 0 {
        lemma_drained_takes_deliver_nothing(Seq::<T>::empty(), count, i);
    }
}

/// After a run of publishes, the takes that follow never go back in time: the
/// first delivers the last value published, and every later one delivers
/// nothing rather than an older value.
pub proof fn lemma_takes_never_regress<T>(backlog: Seq<T>, burst: Seq<T>, count: nat, i: int)
    requires
        burst.len() > 0,
        0 <= i < count,
    ensures
        successive_takes(after_publishes(backlog, burst), count)[i] == if i == 0 {
            Some(burst.last())
        } else {
            None::<T>
        },
{
    if i > 0 {
        lemma_drained_takes_deliver_nothing(after_publishes(backlog, burst), count, i);
    }
}

/// One operation on a channel.
pub enum Event<T> {
    Publish(T),
    Take,
}

/// The values published in the course of `run`, in publish order.
pub open spec fn published<T>(run: Seq<Event<T>>) -> Seq<T>
    decreases run.len(),
{
    if run.len() == 0 {
        Seq::empty()
    } else {
        match run.last() {
            Event::Publish(value) => published(run.drop_last()).push(value),
            Event::Take => published(run.drop_last()),
        }
    }
}

/// The backlog at the end of `run`, on a channel that was empty at its start.
pub open spec fn unread<T>(run: Seq<Event<T>>) -> Seq<T>
    decreases run.len(),
{
    if run.len() == 0 {
        Seq::empty()
    } else {
        match run.last() {
            Event::Publish(value) => unread(run.drop_last()).push(value),
            Event::Take => Seq::empty(),
        }
    }
}

/// Which of the published values the consumer has at the end of `run`: the
/// number of values that had been published when a take last delivered one,
/// or zero if no take has delivered anything. At position `n > 0` the
/// consumer has `published(run)[n - 1]`.
pub open spec fn position<T>(run: Seq<Event<T>>) -> nat
    decreases run.len(),
{
    if run.len() == 0 {
        0
    } else {
        match run.last() {
            Event::Publish(_) => position(run.drop_last()),
            Event::Take => if unread(run.drop_last()).len() > 0 {
                published(run.drop_last()).len()
            } else {
                position(run.drop_last())
            },
        }
    }
}

/// However publishes and takes interleave, a take that delivers anything
/// delivers the value published last.
pub proof fn lemma_take_delivers_newest_published<T>(run: Seq<Event<T>>)
    ensures
        unread(run).len() <= published(run).len(),
        unread(run).len() > 0 ==> latest(unread(run)) == Some(published(run).last()),
    decreases run.len(),
{
    if run.len() > 0 {
        lemma_take_delivers_newest_published(run.drop_last());
    }
}

/// The consumer never has a value that is yet to be published.
pub proof fn lemma_position_is_of_a_published_value<T>(run: Seq<Event<T>>)
    ensures
        position(run) <= published(run).len(),
    decreases run.len(),
{
    if run.len() > 0 {
        lemma_position_is_of_a_published_value(run.drop_last());
    }
}

/// What was published stays published, in the same order, as a run goes on.
pub proof fn lemma_published_grows<T>(earlier: Seq<Event<T>>, later: Seq<Event<T>>)
    ensures
        published(earlier + later) == published(earlier) + published(later),
    decreases later.len(),
{
    if later.len() == 0 {
        assert(earlier + later =~= earlier);
        assert(published(earlier) + published(later) =~= published(earlier));
    } else {
        lemma_published_grows(earlier, later.drop_last());
        assert((earlier + later).drop_last() =~= earlier + later.drop_last());
        assert((earlier + later).last() == later.last());
        match later.last() {
            Event::Publish(value) => {
                assert(published(earlier) + published(later) =~= (published(earlier) + published(
                    later.drop_last(),
                )).push(value));
            },
            Event::Take => {},
        }
    }
}

/// However publishes and takes interleave, the consumer never goes back: as
/// a run goes on, the value it has is replaced only by one published later.
pub proof fn lemma_position_never_regresses<T>(earlier: Seq<Event<T>>, later: Seq<Event<T>>)
    ensures
        position(earlier) <= position(earlier + later),
    decreases later.len(),
{
    if later.len() == 0 {
        assert(earlier + later =~= earlier);
    } else {
        lemma_position_never_regresses(earlier, later.drop_last());
        assert((earlier + later).drop_last() =~= earlier + later.drop_last());
        lemma_position_is_of_a_published_value(earlier + later.drop_last());
    }
}

} // verus!
