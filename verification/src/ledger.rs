//! The pool on paper: a sequential model of the counter, the reclamation
//! channel and the objects that are handed out, and the laws that hold of it.
//!
//! The model takes its decisions from the functions that the pool itself
//! runs (`step_of`, `within_limit`), one event at a time. It sees the channel
//! as a queue and the counter as a number, which is what they are to a
//! single thread.

use vstd::prelude::*;
use crate::arc_recycled::parting_message;
use crate::arc_recycled::parts_with;
use crate::arc_recycled::Parting;
use crate::arc_recycled::Recycle;
use crate::channel::Polled;
use crate::memory_pool::step_of;
use crate::memory_pool::within_limit;
use crate::memory_pool::Step;

verus! {

/// The books of a pool.
pub struct Ledger<T> {
    /// The limit on the number of objects.
    pub max: nat,
    /// The counter: objects counted as existing.
    pub count: nat,
    /// What waits in the reclamation channel, the next message first.
    pub waiting: Seq<Option<T>>,
    /// Objects in the hands of handles.
    pub out: nat,
    /// Calls of the factory so far.
    pub made: nat,
}

/// How an acquisition ends.
pub enum Outcome<T> {
    /// With an object that was waiting in the channel.
    Reused(T),
    /// With room under the limit for a new object from the factory.
    Created,
    /// With nothing: no object waits and the limit is reached.
    Exhausted,
}

/// What can happen to a pool.
pub enum Event<T> {
    /// An acquisition.
    Acquire,
    /// The last handle to an object is released and the object comes back.
    Return(T),
    /// A handle without an object is released and a marker comes in its
    /// place.
    Lose,
}

impl<T> Ledger<T> {
    /// The books right after construction with `stock` made by the factory.
    pub open spec fn fresh(stock: Seq<T>, max: nat) -> Ledger<T> {
        Ledger {
            max,
            count: stock.len(),
            waiting: stock.map_values(|object: T| Some(object)),
            out: 0,
            made: stock.len(),
        }
    }

    /// The number of objects that wait in the channel.
    pub open spec fn available(self) -> nat {
        self.waiting.filter(|message: Option<T>| message is Some).len()
    }

    /// What a poll brings: the message at the front, or nothing.
    pub open spec fn front(self) -> Polled<T> {
        if self.waiting.len() == 0 {
            Polled::Drained
        } else {
            Polled::Message(self.waiting[0])
        }
    }

    /// The books without the message at the front.
    pub open spec fn polled(self) -> Ledger<T> {
        Ledger { waiting: self.waiting.drop_first(), ..self }
    }

    /// One acquisition with `budget` markers still forgivable: the books
    /// afterwards and how it ended.
    ///
    /// The counter is a machine word in the pool and wraps; here it stops at
    /// zero. The two differ only where a marker arrives with nothing
    /// counted, which does not happen to consistent books. A marker is
    /// forgotten only where one is at the front; the branch for an empty
    /// channel under `Forget` is never taken.
    pub open spec fn acquire_with(self, budget: nat) -> (Ledger<T>, Outcome<T>)
        decreases self.waiting.len(),
    {
        match step_of(self.front(), budget) {
            Step::Hand(object) => (
                Ledger { out: self.out + 1, ..self.polled() },
                Outcome::Reused(object),
            ),
            Step::Forget => if self.waiting.len() > 0 {
                Ledger { count: (self.count - 1) as nat, ..self.polled() }.acquire_with(
                    (budget - 1) as nat,
                )
            } else {
                (self, Outcome::Exhausted)
            },
            Step::Grow => if within_limit(self.count, self.max) {
                (
                    Ledger {
                        count: self.count + 1,
                        out: self.out + 1,
                        made: self.made + 1,
                        ..self
                    },
                    Outcome::Created,
                )
            } else {
                (Ledger { count: self.count + 1, ..self }, Outcome::Exhausted)
            },
            Step::GiveUp => (self.polled(), Outcome::Exhausted),
        }
    }

    /// One acquisition: the books afterwards.
    pub open spec fn acquire(self) -> Ledger<T> {
        self.acquire_with(self.max).0
    }

    /// One acquisition: how it ends.
    pub open spec fn outcome(self) -> Outcome<T> {
        self.acquire_with(self.max).1
    }

    /// The books after `times` acquisitions in a row.
    pub open spec fn acquire_times(self, times: nat) -> Ledger<T>
        decreases times,
    {
        if times == 0 {
            self
        } else {
            self.acquire_times((times - 1) as nat).acquire()
        }
    }

    /// A handle is released and `message` enters the channel.
    pub open spec fn deliver(self, message: Option<T>) -> Ledger<T> {
        Ledger { waiting: self.waiting.push(message), out: (self.out - 1) as nat, ..self }
    }

    /// The books after each of `objects` came back from its last handle, in
    /// order.
    pub open spec fn give_back_all(self, objects: Seq<T>) -> Ledger<T>
        decreases objects.len(),
    {
        if objects.len() == 0 {
            self
        } else {
            self.give_back_all(objects.drop_last()).deliver(Some(objects.last()))
        }
    }

    /// The books after one round: `max` acquisitions in a row, the handles
    /// kept, and all of them gone afterwards, which brings `objects` back.
    pub open spec fn round(self, objects: Seq<T>) -> Ledger<T> {
        self.acquire_times(self.max).give_back_all(objects)
    }

    /// The books after one round for each entry of `batches`.
    pub open spec fn rounds(self, batches: Seq<Seq<T>>) -> Ledger<T>
        decreases batches.len(),
    {
        if batches.len() == 0 {
            self
        } else {
            self.rounds(batches.drop_last()).round(batches.last())
        }
    }

    /// The pool is at its limit and at rest: `max` objects exist, all made by
    /// the factory, all waiting.
    pub open spec fn replete(self) -> bool {
        &&& self.waiting.len() == self.max
        &&& forall|i: int| 0 <= i < self.waiting.len() ==> self.waiting[i] is Some
        &&& self.out == 0
        &&& self.count == self.max
        &&& self.made == self.max
    }

    /// The books after `event`.
    pub open spec fn step(self, event: Event<T>) -> Ledger<T> {
        match event {
            Event::Acquire => self.acquire(),
            Event::Return(object) => self.deliver(Some(object)),
            Event::Lose => self.deliver(None),
        }
    }

    /// The books after `events`, one after the other.
    pub open spec fn run(self, events: Seq<Event<T>>) -> Ledger<T>
        decreases events.len(),
    {
        if events.len() == 0 {
            self
        } else {
            self.step(events[0]).run(events.drop_first())
        }
    }

    /// Every handle that is released in `events` is one that was handed out.
    pub open spec fn orderly(self, events: Seq<Event<T>>) -> bool
        decreases events.len(),
    {
        events.len() == 0 || {
            &&& !(events[0] is Acquire) ==> self.out > 0
            &&& self.step(events[0]).orderly(events.drop_first())
        }
    }

    /// Every acquisition in `events` finds fewer than `max` objects handed
    /// out.
    pub open spec fn within_capacity(self, events: Seq<Event<T>>) -> bool
        decreases events.len(),
    {
        events.len() == 0 || {
            &&& events[0] is Acquire ==> self.out < self.max
            &&& self.step(events[0]).within_capacity(events.drop_first())
        }
    }

    /// No acquisition in `events` ends exhausted.
    pub open spec fn faultless(self, events: Seq<Event<T>>) -> bool
        decreases events.len(),
    {
        events.len() == 0 || {
            &&& events[0] is Acquire ==> !(self.outcome() is Exhausted)
            &&& self.step(events[0]).faultless(events.drop_first())
        }
    }

    /// The books balance: every counted object waits in the channel, as
    /// itself or as a marker, or is handed out; and the count is within the
    /// limit.
    pub open spec fn consistent(self) -> bool {
        &&& self.count == self.waiting.len() + self.out
        &&& self.count <= self.max
    }

    /// No object was ever lost: what the factory made is what waits or is
    /// handed out, the count does not lag behind it, and no marker waits.
    pub open spec fn intact(self) -> bool {
        &&& self.made == self.waiting.len() + self.out
        &&& self.made <= self.count
        &&& self.made <= self.max
        &&& forall|i: int| 0 <= i < self.waiting.len() ==> self.waiting[i] is Some
    }
}

/// No event in `events` loses an object.
pub open spec fn lossless<T>(events: Seq<Event<T>>) -> bool {
    forall|i: int| 0 <= i < events.len() ==> !(events[i] is Lose)
}

/// Construction leaves the books balanced and nothing lost: the stock waits
/// in the channel, nothing is handed out, and the factory was called once
/// for each object of the stock.
pub proof fn law_fresh_books_balance<T>(stock: Seq<T>, max: nat)
    requires
        stock.len() <= max,
    ensures
        Ledger::fresh(stock, max).consistent(),
        Ledger::fresh(stock, max).intact(),
        Ledger::fresh(stock, max).waiting.len() == stock.len(),
        Ledger::fresh(stock, max).out == 0,
        Ledger::fresh(stock, max).made == stock.len(),
{
}

/// Where no marker waits, every waiting message is an available object.
pub proof fn lemma_all_waiting_are_available<T>(books: Ledger<T>)
    requires
        forall|i: int| 0 <= i < books.waiting.len() ==> books.waiting[i] is Some,
    ensures
        books.available() == books.waiting.len(),
    decreases books.waiting.len(),
{
    let holds = |message: Option<T>| message is Some;
    if books.waiting.len() == 0 {
        assert(books.waiting.filter(holds) =~= Seq::empty()) by {
            reveal(Seq::filter);
        }
    } else {
        let front = books.waiting.drop_last();
        let shorter = Ledger { waiting: front, ..books };
        lemma_all_waiting_are_available(shorter);
        assert(books.waiting =~= front.push(books.waiting.last()));
        assert(books.waiting.filter(holds) =~= front.filter(holds).push(books.waiting.last()))
            by {
            reveal(Seq::filter);
        }
    }
}

/// Right after construction with `initial` objects, exactly `initial`
/// objects are available.
pub proof fn law_fresh_pool_offers_its_stock<T>(stock: Seq<T>, max: nat)
    requires
        stock.len() <= max,
    ensures
        Ledger::fresh(stock, max).available() == stock.len(),
{
    lemma_all_waiting_are_available(Ledger::fresh(stock, max));
}

/// An acquisition from balanced books with fewer than `max` objects handed
/// out does not end exhausted, hands out one object more, and leaves the
/// books balanced. The budget only has to cover what waits.
pub proof fn lemma_acquire_within_capacity<T>(books: Ledger<T>, budget: nat)
    requires
        books.consistent(),
        books.out < books.max,
        books.waiting.len() <= budget,
    ensures
        !(books.acquire_with(budget).1 is Exhausted),
        books.acquire_with(budget).0.consistent(),
        books.acquire_with(budget).0.out == books.out + 1,
        books.acquire_with(budget).0.max == books.max,
    decreases books.waiting.len(),
{
    if books.waiting.len() > 0 && step_of(books.front(), budget) is Forget {
        let rest = Ledger { count: (books.count - 1) as nat, ..books.polled() };
        lemma_acquire_within_capacity(rest, (budget - 1) as nat);
    }
}

/// For every run of acquisitions and of releases of handles in which no
/// acquisition finds `max` objects handed out already, no acquisition ends
/// exhausted, and the books stay balanced.
pub proof fn law_no_fault_within_capacity<T>(books: Ledger<T>, events: Seq<Event<T>>)
    requires
        books.consistent(),
        books.orderly(events),
        books.within_capacity(events),
    ensures
        books.faultless(events),
        books.run(events).consistent(),
    decreases events.len(),
{
    if events.len() > 0 {
        if events[0] is Acquire {
            lemma_acquire_within_capacity(books, books.max);
        }
        law_no_fault_within_capacity(books.step(events[0]), events.drop_first());
    }
}

/// An acquisition never loses an object, however it ends.
pub proof fn lemma_acquire_keeps_intact<T>(books: Ledger<T>, budget: nat)
    requires
        books.intact(),
    ensures
        books.acquire_with(budget).0.intact(),
        books.acquire_with(budget).0.max == books.max,
{
    if books.waiting.len() > 0 {
        assert(books.waiting[0] is Some);
        let rest = books.polled();
        assert forall|i: int| 0 <= i < rest.waiting.len() implies rest.waiting[i] is Some by {
            assert(rest.waiting[i] == books.waiting[i + 1]);
        }
    }
}

/// Over any run in which no object is lost, the factory is called at most
/// `max` times, construction counted: objects are used again, not made
/// again.
pub proof fn law_factory_calls_within_limit<T>(books: Ledger<T>, events: Seq<Event<T>>)
    requires
        books.intact(),
        books.orderly(events),
        lossless(events),
    ensures
        books.run(events).intact(),
        books.run(events).made <= books.max,
        books.run(events).max == books.max,
    decreases events.len(),
{
    if events.len() > 0 {
        let next = books.step(events[0]);
        assert(!(events[0] is Lose));
        match events[0] {
            Event::Acquire => {
                lemma_acquire_keeps_intact(books, books.max);
            },
            Event::Return(object) => {
                assert forall|i: int| 0 <= i < next.waiting.len() implies next.waiting[i]
                    is Some by {
                    if i < books.waiting.len() {
                        assert(next.waiting[i] == books.waiting[i]);
                    }
                }
            },
            Event::Lose => {},
        }
        let rest = events.drop_first();
        assert forall|i: int| 0 <= i < rest.len() implies !(rest[i] is Lose) by {
            assert(rest[i] == events[i + 1]);
        }
        law_factory_calls_within_limit(next, rest);
    }
}

/// What waits is served in the order in which it came: where no marker
/// waits, `taken` acquisitions in a row take the first `taken` objects off
/// the channel and change nothing else, and the next acquisition hands out
/// the object that is at the front by now.
pub proof fn law_waiting_objects_are_served_in_order<T>(books: Ledger<T>, taken: nat)
    requires
        forall|i: int| 0 <= i < books.waiting.len() ==> books.waiting[i] is Some,
        taken <= books.waiting.len(),
    ensures
        books.acquire_times(taken).waiting =~= books.waiting.skip(taken as int),
        books.acquire_times(taken).out == books.out + taken,
        books.acquire_times(taken).count == books.count,
        books.acquire_times(taken).made == books.made,
        books.acquire_times(taken).max == books.max,
        taken < books.waiting.len() ==> books.acquire_times(taken).outcome() == Outcome::Reused(
            books.waiting[taken as int]->Some_0,
        ),
    decreases taken,
{
    if taken > 0 {
        let before = books.acquire_times((taken - 1) as nat);
        law_waiting_objects_are_served_in_order(books, (taken - 1) as nat);
        assert(before.waiting[0] == books.waiting[taken - 1]);
        assert(before.waiting.drop_first() =~= books.waiting.skip(taken as int));
    }
    if taken < books.waiting.len() {
        assert(books.acquire_times(taken).waiting[0] == books.waiting[taken as int]);
    }
}

/// The round trip of an object: the last handle to `object` parts by giving
/// back what `recycle` makes of it; that waits behind the objects that came
/// back before it and is handed out by the acquisition that follows theirs,
/// without a call of the factory.
pub proof fn law_returned_object_comes_back_reset<T: Recycle>(
    books: Ledger<T>,
    object: T,
    parting: Parting<T>,
)
    requires
        forall|i: int| 0 <= i < books.waiting.len() ==> books.waiting[i] is Some,
        parts_with(Some(object), parting),
    ensures
        parting is GiveBack,
        object.resets_to(&parting->GiveBack_0),
        parting_message(parting) == Some(Some(parting->GiveBack_0)),
        books.deliver(Some(parting->GiveBack_0)).acquire_times(books.waiting.len()).outcome()
            == Outcome::Reused(parting->GiveBack_0),
        books.deliver(Some(parting->GiveBack_0)).acquire_times(books.waiting.len() + 1).made
            == books.made,
{
    let after = books.deliver(Some(parting->GiveBack_0));
    assert forall|i: int| 0 <= i < after.waiting.len() implies after.waiting[i] is Some by {
        if i < books.waiting.len() {
            assert(after.waiting[i] == books.waiting[i]);
        }
    }
    law_waiting_objects_are_served_in_order(after, books.waiting.len());
    law_waiting_objects_are_served_in_order(after, books.waiting.len() + 1);
}

/// The books of a fresh pool after `taken` acquisitions and no return: the
/// stock is handed out first, in the order in which it was made; the factory
/// makes what is asked for beyond the stock, up to the limit; beyond the
/// limit only the counter moves.
pub proof fn lemma_acquisitions_in_a_row<T>(stock: Seq<T>, max: nat, taken: nat)
    requires
        stock.len() <= max,
    ensures
        ({
            let books = Ledger::fresh(stock, max).acquire_times(taken);
            &&& books.max == max
            &&& taken <= stock.len() ==> {
                &&& books.waiting =~= stock.skip(taken as int).map_values(
                    |object: T| Some(object),
                )
                &&& books.out == taken
                &&& books.count == stock.len()
                &&& books.made == stock.len()
            }
            &&& stock.len() <= taken <= max ==> {
                &&& books.waiting.len() == 0
                &&& books.out == taken
                &&& books.count == taken
                &&& books.made == taken
            }
            &&& max <= taken ==> {
                &&& books.waiting.len() == 0
                &&& books.out == max
                &&& books.count == taken
                &&& books.made == max
            }
        }),
    decreases taken,
{
    if taken <= stock.len() {
        law_waiting_objects_are_served_in_order(Ledger::fresh(stock, max), taken);
    } else {
        lemma_acquisitions_in_a_row(stock, max, (taken - 1) as nat);
    }
}

/// Acquisitions in a row from a fresh pool, none of them returned: each of
/// the first `initial` hands out an object of the stock, each further one up
/// to the limit has the factory make an object, and every one beyond the
/// limit ends exhausted.
pub proof fn law_growth_up_to_the_limit<T>(stock: Seq<T>, max: nat, earlier: nat)
    requires
        stock.len() <= max,
    ensures
        ({
            let books = Ledger::fresh(stock, max).acquire_times(earlier);
            &&& earlier < stock.len() ==> books.outcome() == Outcome::Reused(stock[earlier as int])
            &&& stock.len() <= earlier < max ==> books.outcome() == Outcome::<T>::Created
            &&& max <= earlier ==> books.outcome() == Outcome::<T>::Exhausted
        }),
{
    lemma_acquisitions_in_a_row(stock, max, earlier);
    let books = Ledger::fresh(stock, max).acquire_times(earlier);
    if earlier < stock.len() {
        assert(books.waiting[0] == Some(stock[earlier as int]));
    }
}

/// From construction on, no acquisition ends exhausted as long as each finds
/// fewer than `max` objects handed out.
pub proof fn law_no_fault_from_construction<T>(stock: Seq<T>, max: nat, events: Seq<Event<T>>)
    requires
        stock.len() <= max,
        Ledger::fresh(stock, max).orderly(events),
        Ledger::fresh(stock, max).within_capacity(events),
    ensures
        Ledger::fresh(stock, max).faultless(events),
{
    law_fresh_books_balance(stock, max);
    law_no_fault_within_capacity(Ledger::fresh(stock, max), events);
}

/// From construction on, as long as no object is lost, the factory is called
/// at most `max` times in all, whatever is acquired and given back.
pub proof fn law_factory_calls_from_construction<T>(
    stock: Seq<T>,
    max: nat,
    events: Seq<Event<T>>,
)
    requires
        stock.len() <= max,
        Ledger::fresh(stock, max).orderly(events),
        lossless(events),
    ensures
        Ledger::fresh(stock, max).run(events).made <= max,
{
    law_fresh_books_balance(stock, max);
    law_factory_calls_within_limit(Ledger::fresh(stock, max), events);
}

/// Objects that come back from handles join the queue behind what waits,
/// and change nothing but the number of objects handed out.
pub proof fn lemma_give_back_all<T>(books: Ledger<T>, objects: Seq<T>)
    requires
        objects.len() <= books.out,
    ensures
        books.give_back_all(objects).waiting =~= books.waiting + objects.map_values(
            |object: T| Some(object),
        ),
        books.give_back_all(objects).out == books.out - objects.len(),
        books.give_back_all(objects).count == books.count,
        books.give_back_all(objects).made == books.made,
        books.give_back_all(objects).max == books.max,
    decreases objects.len(),
{
    if objects.len() > 0 {
        lemma_give_back_all(books, objects.drop_last());
        assert(objects.map_values(|object: T| Some(object)) =~= objects.drop_last().map_values(
            |object: T| Some(object),
        ).push(Some(objects.last())));
    }
}

/// A round leaves a pool replete if it starts from a fresh one or from a
/// replete one; in the second case the factory is not called in it and each
/// of its acquisitions hands out an object that waited.
pub proof fn lemma_round_leaves_replete<T>(books: Ledger<T>, stock: Seq<T>, objects: Seq<T>)
    requires
        objects.len() == books.max,
        books.replete() || (stock.len() <= books.max && books == Ledger::fresh(stock, books.max)),
    ensures
        books.round(objects).replete(),
        books.round(objects).max == books.max,
        books.replete() ==> forall|earlier: nat|
            earlier < books.max ==> #[trigger] books.acquire_times(earlier).outcome()
                is Reused && books.acquire_times(earlier).made == books.max,
{
    let taken = books.acquire_times(books.max);
    if books.replete() {
        law_waiting_objects_are_served_in_order(books, books.max);
        assert forall|earlier: nat| earlier < books.max implies #[trigger] books.acquire_times(
            earlier,
        ).outcome() is Reused && books.acquire_times(earlier).made == books.max by {
            law_waiting_objects_are_served_in_order(books, earlier);
        }
    } else {
        lemma_acquisitions_in_a_row(stock, books.max, books.max);
    }
    assert(taken.waiting.len() == 0 && taken.out == books.max && taken.count == books.max
        && taken.made == books.max && taken.max == books.max);
    lemma_give_back_all(taken, objects);
    let after = taken.give_back_all(objects);
    assert forall|i: int| 0 <= i < after.waiting.len() implies after.waiting[i] is Some by {
        assert(after.waiting[i] == Some(objects[i]));
    }
}

/// Rounds of `max` acquisitions, each followed by the return of all `max`
/// objects: from the first round on the factory has been called `max` times
/// in all, construction counted, and no later round calls it again.
pub proof fn law_rounds_make_max_objects<T>(stock: Seq<T>, max: nat, batches: Seq<Seq<T>>)
    requires
        stock.len() <= max,
        batches.len() >= 1,
        forall|i: int| 0 <= i < batches.len() ==> (#[trigger] batches[i]).len() == max,
    ensures
        Ledger::fresh(stock, max).rounds(batches).replete(),
        Ledger::fresh(stock, max).rounds(batches).made == max,
        Ledger::fresh(stock, max).rounds(batches).max == max,
    decreases batches.len(),
{
    let fresh = Ledger::fresh(stock, max);
    let before = fresh.rounds(batches.drop_last());
    if batches.len() == 1 {
        assert(before == fresh);
    } else {
        let earlier = batches.drop_last();
        assert forall|i: int| 0 <= i < earlier.len() implies (#[trigger] earlier[i]).len()
            == max by {
            assert(earlier[i] == batches[i]);
        }
        law_rounds_make_max_objects(stock, max, earlier);
    }
    lemma_round_leaves_replete(before, stock, batches.last());
}

} // verus!
