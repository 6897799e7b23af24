//! The recycling handle: shared access to one pooled object, and the walk
//! back to the pool when the last handle to the object is released.
//!
//! A handle ends with `release`. The library has no destructor of its own:
//! a handle that is dropped without `release` gives up its share of the
//! object and sends nothing, so a caller who wants the return to follow
//! from the end of a scope wraps the handle in a type whose destructor
//! calls `release`.

use vstd::prelude::*;
use std::ops::Deref;
use std::sync::Arc;
use std::sync::mpsc::Sender;
use crate::channel::another;
use crate::channel::send;
use crate::sharing::exclusive;
use crate::sharing::share;
use crate::sharing::unwrap_sole;

verus! {

/// The one thing a pooled type must be able to do: put itself back into the
/// state in which it can be handed out again.
pub trait Recycle {
    /// Says whether `after` is a state in which `recycle` may leave a value
    /// that was `self` before. A type that does not say what its reset state
    /// is accepts every state as one.
    open spec fn resets_to(&self, after: &Self) -> bool {
        true
    }

    /// Puts the value back into its reset state, keeping what is worth
    /// keeping (a buffer keeps its allocation and loses its contents).
    fn recycle(&mut self)
        ensures
            old(self).resets_to(final(self)),
    ;
}

impl<T> Recycle for Vec<T> {
    /// A vector is reset when it holds no element.
    open spec fn resets_to(&self, after: &Self) -> bool {
        after@.len() == 0
    }

    fn recycle(&mut self) {
        self.clear();
    }
}

/// What a handle that is released does about the object it held.
pub enum Parting<T> {
    /// It held the last reference: the object, reset, goes back to the pool.
    GiveBack(T),
    /// Another handle still shares the object: nothing goes to the pool.
    StillShared,
    /// It held nothing: the pool is told that a counted object is lost.
    Lost,
}

/// The message that a parting puts on the reclamation channel, if any.
pub open spec fn parting_message<T>(parting: Parting<T>) -> Option<Option<T>> {
    match parting {
        Parting::GiveBack(object) => Some(Some(object)),
        Parting::StillShared => None,
        Parting::Lost => Some(None),
    }
}

/// The parting of a reference once it is known whether it was the last:
/// `outcome` is the object if it was, and nothing if others still share it.
/// The last reference gives back the object as `recycle` leaves it.
pub open spec fn parts_with<T: Recycle>(outcome: Option<T>, parting: Parting<T>) -> bool {
    match outcome {
        Some(object) => parting is GiveBack && object.resets_to(&parting->GiveBack_0),
        None => parting is StillShared,
    }
}

impl<T> Parting<T> {
    /// The message that the parting owes the pool, if it owes one.
    pub fn settle(self) -> (message: Option<Option<T>>)
        ensures
            message == parting_message(self),
    {
        match self {
            Parting::GiveBack(object) => Some(Some(object)),
            Parting::StillShared => None,
            Parting::Lost => Some(None),
        }
    }
}

/// Write access to the object behind `content`, where there is one and no
/// other reference shares it. What `content` holds afterwards is what was
/// written through the reference; it is empty afterwards only if it was
/// empty before.
fn exclusive_in<T>(content: &mut Option<Arc<T>>) -> (access: Option<&mut T>)
    ensures
        *final(content) is Some <==> *old(content) is Some,
        access is Some ==> *old(content) is Some,
        access matches Some(inner) ==> *inner == *(*old(content))->Some_0,
        access matches Some(inner) ==> *(*final(content))->Some_0 == *final(inner),
        access is None ==> *final(content) == *old(content),
    no_unwind
{
    match content {
        Some(shared) => exclusive(shared),
        None => None,
    }
}

/// Says that `parting` is a way for a handle that held `held` to go: with
/// nothing held the object is reported lost; otherwise the reference parts
/// as the last one or as one of several.
pub open spec fn parts_as<T: Recycle>(held: Option<Arc<T>>, parting: Parting<T>) -> bool {
    match held {
        None => parting is Lost,
        Some(shared) => parts_with(Some(*shared), parting) || parts_with(None, parting),
    }
}

/// A handle to one pooled object.
///
/// Clones share the object for reading. Mutation needs a handle that shares
/// with nobody. When the last handle to an object is released, the object
/// is reset and sent back over the reclamation channel.
#[derive(Debug)]
#[verifier::reject_recursive_types(T)]
pub struct ArcRecycled<T: Recycle> {
    /// The object; present in every handle.
    content: Option<Arc<T>>,
    /// The sending end of the owning pool's reclamation channel.
    owner: Sender<Option<T>>,
}

impl<T: Recycle> ArcRecycled<T> {
    #[verifier::type_invariant]
    spec fn holds_content(self) -> bool {
        self.content is Some
    }

    /// The object that the handle gives access to.
    pub closed spec fn object(self) -> T {
        *self.content->Some_0
    }

    /// What the handle holds: always a reference to its object.
    pub closed spec fn held(self) -> Option<Arc<T>> {
        self.content
    }

    /// The channel end over which the object goes back.
    pub closed spec fn owner(self) -> Sender<Option<T>> {
        self.owner
    }

    /// Wraps `data` in a handle that returns it over `owner_channel`.
    pub fn new(data: T, owner_channel: Sender<Option<T>>) -> (handle: ArcRecycled<T>)
        ensures
            handle.object() == data,
            handle.owner() == owner_channel,
    {
        ArcRecycled { content: Some(Arc::new(data)), owner: owner_channel }
    }

    /// Read access to the object. Always granted.
    pub fn get_ref(&self) -> (object: &T)
        ensures
            *object == self.object(),
    {
        proof {
            use_type_invariant(self);
        }
        self.content.as_ref().unwrap()
    }

    /// Write access to the object, granted only to a handle that shares it
    /// with no other. Where it is granted, what is written through the
    /// reference is what the handle holds afterwards; where it is refused,
    /// the handle is unchanged.
    pub fn get_mut(&mut self) -> (access: Option<&mut T>)
        ensures
            final(self).owner() == old(self).owner(),
            access matches Some(inner) ==> *inner == old(self).object() && final(self).object()
                == *final(inner),
            access is None ==> final(self).object() == old(self).object(),
    {
        proof {
            use_type_invariant(&*self);
        }
        exclusive_in(&mut self.content)
    }

    /// Decides the parting of a reference of which `outcome` says whether
    /// it was the last: the last one resets its object and gives it back, any
    /// other leaves the object to those who still share it.
    pub fn part_with(outcome: Option<T>) -> (parting: Parting<T>)
        ensures
            parts_with(outcome, parting),
    {
        match outcome {
            Some(object) => {
                let mut object = object;
                object.recycle();
                Parting::GiveBack(object)
            },
            None => Parting::StillShared,
        }
    }

    /// Decides what a handle that held `held` owes its pool on its release.
    ///
    /// With nothing held the object is reported lost. Otherwise the
    /// reference is given up, and parts as `part_with` says for the answer
    /// to whether it was the last.
    pub fn part(held: Option<Arc<T>>) -> (parting: Parting<T>)
        ensures
            parts_as(held, parting),
    {
        match held {
            None => Parting::Lost,
            Some(shared) => Self::part_with(unwrap_sole(shared)),
        }
    }

    /// The end of a handle's life: parts with what `content` holds, leaving
    /// it empty, and sends the pool what it is owed over `owner`. The result
    /// records the message that went to the channel.
    pub fn teardown(content: &mut Option<Arc<T>>, owner: &Sender<Option<T>>) -> (sent: Ghost<
        Option<Option<T>>,
    >)
        ensures
            *final(content) is None,
            exists|parting: Parting<T>|
                {
                    &&& #[trigger] parts_as(*old(content), parting)
                    &&& sent@ == parting_message(parting)
                },
    {
        let parting = Self::part(content.take());
        let ghost decided = parting;
        let message = parting.settle();
        let ghost sent = message;
        match message {
            Some(message) => {
                let _taken = send(owner, message);
            },
            None => {},
        }
        proof {
            assert(parts_as(*old(content), decided));
        }
        Ghost(sent)
    }

    /// Ends the handle: its reference is given up, and if it was the last to
    /// the object, the object is reset and sent back to the pool. The result
    /// records the message that went to the channel.
    pub fn release(self) -> (sent: Ghost<Option<Option<T>>>)
        ensures
            self.held() is Some,
            exists|parting: Parting<T>|
                {
                    &&& #[trigger] parts_as(self.held(), parting)
                    &&& sent@ == parting_message(parting)
                },
    {
        proof {
            use_type_invariant(&self);
        }
        let ArcRecycled { content, owner } = self;
        let mut content = content;
        Self::teardown(&mut content, &owner)
    }
}

impl<T: Recycle> Clone for ArcRecycled<T> {
    /// Another handle to the same object, with a sender of its own for the
    /// same channel.
    fn clone(&self) -> (twin: ArcRecycled<T>)
        ensures
            twin.object() == self.object(),
            twin.owner() == self.owner(),
    {
        proof {
            use_type_invariant(self);
        }
        let shared = self.content.as_ref().unwrap();
        ArcRecycled { content: Some(share(shared)), owner: another(&self.owner) }
    }
}

impl<T: Recycle> Deref for ArcRecycled<T> {
    type Target = T;

    /// Read access to the object, as `get_ref` gives it.
    fn deref(&self) -> (object: &T)
        ensures
            *object == self.object(),
    {
        self.get_ref()
    }
}

} // verus!
