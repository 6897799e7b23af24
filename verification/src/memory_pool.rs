//! The pool: capacity accounting, creation on demand, and the protocol by
//! which an acquisition finds its object.
//!
//! One acquisition polls the reclamation channel until something settles it.
//! An object that comes back is handed out again. A marker stands for a
//! counted object that is lost: the count goes down by one and the poll is
//! repeated. An empty channel leaves growth: the count goes up by one, and
//! if it was below the limit before, the factory makes a new object.
//! Otherwise the pool is exhausted.

use vstd::prelude::*;
use std::sync::atomic::AtomicUsize;
use std::sync::atomic::Ordering;
use std::sync::mpsc::Receiver;
use std::sync::mpsc::Sender;
use crate::arc_recycled::ArcRecycled;
use crate::arc_recycled::Recycle;
use crate::channel::another;
use crate::channel::open;
use crate::channel::poll;
use crate::channel::send;
use crate::channel::Polled;
use crate::ledger::law_fresh_books_balance;
use crate::ledger::law_fresh_pool_offers_its_stock;
use crate::ledger::Ledger;

verus! {

/// What an acquisition does after one poll of the channel.
pub enum Step<T> {
    /// Hand out the object that came back.
    Hand(T),
    /// A marker came: take one off the count and poll again.
    Forget,
    /// Nothing is waiting: try to grow.
    Grow,
    /// A marker came that no counted object can stand behind: stop.
    GiveUp,
}

/// The pool was asked for an object when none was waiting and none could be
/// made without going over the limit.
#[derive(Debug, Clone, Copy, PartialEq, Eq)]
pub struct Exhausted;

impl Exhausted {
    /// The error in words.
    pub fn message(&self) -> (words: &'static str)
        ensures
            words@ == "Exceeded memory pool limit"@,
    {
        "Exceeded memory pool limit"
    }
}

/// The step that follows a poll, with `budget` markers still forgivable.
///
/// A pool with limit `max` never counts more than `max` objects, so one
/// acquisition starts with a budget of `max` and a marker beyond it is not
/// followed. A channel that has lost its senders is an empty channel; the
/// pool holds a sender itself, so this does not come while it lives.
pub open spec fn step_of<T>(polled: Polled<T>, budget: nat) -> Step<T> {
    match polled {
        Polled::Message(Some(object)) => Step::Hand(object),
        Polled::Message(None) => if budget > 0 {
            Step::Forget
        } else {
            Step::GiveUp
        },
        Polled::Drained => Step::Grow,
        Polled::Disconnected => Step::Grow,
    }
}

/// Growth is allowed while the count, as it was before this attempt added
/// one to it, is below the limit.
pub open spec fn within_limit(previous: nat, max: nat) -> bool {
    previous < max
}

/// Decides the step that follows a poll.
pub fn next_step<T>(polled: Polled<T>, budget: usize) -> (step: Step<T>)
    ensures
        step == step_of(polled, budget as nat),
{
    match polled {
        Polled::Message(Some(object)) => Step::Hand(object),
        Polled::Message(None) => if budget > 0 {
            Step::Forget
        } else {
            Step::GiveUp
        },
        Polled::Drained => Step::Grow,
        Polled::Disconnected => Step::Grow,
    }
}

/// Decides whether the pool may grow, given the count before the attempt.
pub fn may_grow(previous: usize, max: usize) -> (allowed: bool)
    ensures
        allowed == within_limit(previous as nat, max as nat),
{
    previous < max
}

/// Adds one to the count and returns what it was before.
fn claim_slot(count: &AtomicUsize) -> (previous: usize) {
    count.fetch_add(1, Ordering::Relaxed)
}

/// Takes one off the count.
fn forget_slot(count: &AtomicUsize) {
    let _previous = count.fetch_sub(1, Ordering::Relaxed);
}

/// A bounded pool of objects of one type.
///
/// The pool counts the objects that exist, waiting or handed out. An
/// acquisition that finds nothing waiting claims a place in the count first
/// and has the factory make an object only if the count was below `max`
/// before the claim.
#[verifier::reject_recursive_types(T)]
#[verifier::reject_recursive_types(F)]
pub struct MemoryPool<T, F: Fn() -> T> {
    /// Objects counted as existing.
    size: AtomicUsize,
    /// The limit on `size`.
    max: usize,
    /// The consuming end of the reclamation channel.
    receiver: Receiver<Option<T>>,
    /// A sender for the same channel; every handle gets a clone of it.
    sender: Sender<Option<T>>,
    /// The factory.
    creator: F,
    /// The objects that were put into the channel at construction.
    stocked: Ghost<Seq<T>>,
}

impl<T, F: Fn() -> T> MemoryPool<T, F> {
    #[verifier::type_invariant]
    spec fn factory_is_callable(self) -> bool {
        call_requires(self.creator, ())
    }
}

impl<T: Recycle, F: Fn() -> T> MemoryPool<T, F> {
    /// The limit on the number of objects.
    pub closed spec fn max(self) -> nat {
        self.max as nat
    }

    /// The factory that makes new objects.
    pub closed spec fn factory(self) -> F {
        self.creator
    }

    /// The sending end of the pool's reclamation channel, which every handle
    /// of the pool returns its object over.
    pub closed spec fn sender(self) -> Sender<Option<T>> {
        self.sender
    }

    /// The objects that construction made and put into the channel, in the
    /// order in which they went in.
    pub closed spec fn stocked(self) -> Seq<T> {
        self.stocked@
    }

    /// Makes a pool with `size` objects ready and room for `max` in all.
    ///
    /// The factory is called `size` times and each object goes into the
    /// channel, so the books of a fresh pool with this stock and this limit
    /// balance, with exactly `size` objects available.
    pub fn create_with(size: usize, max: usize, creator: F) -> (pool: MemoryPool<T, F>)
        requires
            size <= max,
            call_requires(creator, ()),
        ensures
            pool.max() == max,
            pool.factory() == creator,
            pool.stocked().len() == size,
            forall|i: int|
                0 <= i < size ==> call_ensures(creator, (), #[trigger] pool.stocked()[i]),
            Ledger::fresh(pool.stocked(), pool.max()).consistent(),
            Ledger::fresh(pool.stocked(), pool.max()).available() == size,
    {
        let (sender, receiver) = open();
        let ghost mut stocked: Seq<T> = Seq::empty();
        let mut made: usize = 0;
        while made < size
            invariant
                made <= size,
                call_requires(creator, ()),
                stocked.len() == made,
                forall|i: int| 0 <= i < made ==> call_ensures(creator, (), #[trigger] stocked[i]),
            decreases size - made,
        {
            let object = creator();
            proof {
                stocked = stocked.push(object);
            }
            let _taken = send(&sender, Some(object));
            made = made + 1;
        }
        proof {
            law_fresh_books_balance(stocked, max as nat);
            law_fresh_pool_offers_its_stock(stocked, max as nat);
        }
        MemoryPool {
            size: AtomicUsize::new(size),
            max,
            receiver,
            sender,
            creator,
            stocked: Ghost(stocked),
        }
    }

    /// Settles an attempt to grow, after the place in the count was claimed
    /// and `previous` was read as the count before the claim: below the
    /// limit the factory makes an object, which is handed out bound to the
    /// pool's channel; at the limit or beyond nothing is handed out. The
    /// count is not touched here: a call that does not follow a claim makes
    /// an object that the pool does not count.
    pub fn grow_with(&self, previous: usize) -> (handle: Option<ArcRecycled<T>>)
        ensures
            handle is Some <==> within_limit(previous as nat, self.max()),
            handle matches Some(made) ==> call_ensures(self.factory(), (), made.object()),
            handle matches Some(made) ==> made.owner() == self.sender(),
    {
        proof {
            use_type_invariant(self);
        }
        if may_grow(previous, self.max) {
            Some(ArcRecycled::new((self.creator)(), another(&self.sender)))
        } else {
            None
        }
    }

    /// Acquires an object, or reports that the pool is exhausted.
    ///
    /// Whether an object is handed out rests on what the channel brings and
    /// on what the count reads, which is not in the pool's hands: `next_step`
    /// says what follows each poll and `grow_with` what follows the count.
    /// A handle that is handed out returns its object to this pool.
    pub fn try_get(&self) -> (handle: Option<ArcRecycled<T>>)
        ensures
            handle matches Some(found) ==> found.owner() == self.sender(),
    {
        let mut budget: usize = self.max;
        loop
            invariant
                budget <= self.max,
            decreases budget,
        {
            match next_step(poll(&self.receiver), budget) {
                Step::Hand(object) => {
                    return Some(ArcRecycled::new(object, another(&self.sender)));
                },
                Step::Forget => {
                    forget_slot(&self.size);
                    budget = budget - 1;
                },
                Step::Grow => {
                    let previous = claim_slot(&self.size);
                    return self.grow_with(previous);
                },
                Step::GiveUp => {
                    return None;
                },
            }
        }
    }

    /// Acquires an object as `try_get` does. Exhaustion is an error here:
    /// the caller that cannot go on without an object stops on it.
    pub fn get(&self) -> (handle: Result<ArcRecycled<T>, Exhausted>)
        ensures
            handle matches Ok(found) ==> found.owner() == self.sender(),
    {
        match self.try_get() {
            Some(found) => Ok(found),
            None => Err(Exhausted),
        }
    }
}

} // verus!
