//! Single-slot key-event mailbox: holds the most recent undelivered
//! character; a newer event silently overwrites an unconsumed older one.

use vstd::prelude::*;

verus! {

/// At most one pending decoded character.
pub struct Mailbox {
    slot: Option<char>,
}

/// What `publish` leaves in the slot: the new character, discarding any
/// unconsumed previous value.
pub open spec fn publish_spec(slot: Option<char>, c: char) -> Option<char> {
    Some(c)
}

/// What `take` returns and leaves: the pending value, and an empty slot.
pub open spec fn take_spec(slot: Option<char>) -> (Option<char>, Option<char>) {
    (slot, None)
}

impl Mailbox {
    /// The pending character, if any.
    pub closed spec fn view(&self) -> Option<char> {
        self.slot
    }

    /// An empty mailbox.
    pub fn new() -> (r: Self)
        ensures
            r@ == None::<char>,
    {
        Mailbox { slot: None }
    }

    /// Stores the character, discarding any unconsumed previous value.
    pub fn publish(&mut self, c: char)
        ensures
            final(self)@ == publish_spec(old(self)@, c),
    {
        self.slot = Some(c);
    }

    /// Reads and clears the slot.
    pub fn take(&mut self) -> (r: Option<char>)
        ensures
            r == take_spec(old(self)@).0,
            final(self)@ == take_spec(old(self)@).1,
    {
        let r = self.slot;
        self.slot = None;
        r
    }
}

/// Law: after two publishes with no intervening take, a take returns only the
/// second published character, and leaves the slot empty.
pub proof fn lemma_mailbox_overwrite(slot: Option<char>, a: char, b: char)
    ensures
        take_spec(publish_spec(publish_spec(slot, a), b)).0 == Some(b),
        take_spec(publish_spec(publish_spec(slot, a), b)).1 == None::<char>,
{
}

} // verus!
