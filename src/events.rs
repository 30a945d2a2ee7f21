//! The two events that combat raises, and a queue that holds them for one
//! tick.
use vstd::prelude::*;
use crate::geometry::Point;

verus! {

/// Identifier of a game entity (an enemy, the player, a wall).
pub type EntityId = u64;

/// A weapon was discharged at this position.
#[derive(Clone, Copy, Debug, PartialEq, Eq, Structural)]
pub struct ShootEvent(pub Point);

/// A projectile or a point-blank shot connected with this entity.
#[derive(Clone, Copy, Debug, PartialEq, Eq, Structural)]
pub struct ShotEvent(pub EntityId);

/// A first-in first-out queue of the events raised during one tick.
pub struct EventQueue<T> {
    items: Vec<T>,
}

impl<T> EventQueue<T> {
    /// The events in the queue, oldest first.
    pub closed spec fn view(&self) -> Seq<T> {
        self.items@
    }

    pub fn new() -> (r: EventQueue<T>)
        ensures
            r.view() == Seq::<T>::empty(),
    {
        EventQueue { items: Vec::new() }
    }

    /// Appends an event.
    pub fn send(&mut self, event: T)
        ensures
            final(self).view() == old(self).view().push(event),
    {
        self.items.push(event);
    }

    pub fn len(&self) -> (r: usize)
        ensures
            r == self.view().len(),
    {
        self.items.len()
    }

    /// Hands out every event in the order it was sent and empties the queue.
    pub fn drain(&mut self) -> (r: Vec<T>)
        ensures
            r@ == old(self).view(),
            final(self).view() == Seq::<T>::empty(),
    {
        let mut out = Vec::new();
        std::mem::swap(&mut out, &mut self.items);
        out
    }
}

} // verus!
