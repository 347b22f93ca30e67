//! Line editor: consumes mailbox events, builds an input line with backspace
//! support, echoes through the console renderer, and recognizes two
//! deliberately asymmetric end codes: the terminator releases the accumulated
//! line, the cancel code discards it.

use vstd::prelude::*;

use crate::writer::{char_ok, step_char, FrameBufferInfo, FrameBufferWriter, Screen};
use crate::{BACKSPACE, CANCEL_CHAR, LINE_TERMINATOR};

verus! {

/// What one delivered event means for the polling loop.
#[derive(Clone, Copy, PartialEq, Eq, Structural, Debug)]
pub enum EditStatus {
    /// Keep polling: nothing was pending, or an editing key or an ordinary
    /// character was absorbed.
    Pending,
    /// The terminator arrived: the accumulated line is complete.
    Accepted,
    /// The cancel code arrived: the accumulated line is discarded.
    Cancelled,
}

/// The line contents after one event.
pub open spec fn ed_step(line: Seq<char>, event: Option<char>) -> Seq<char> {
    match event {
        None => line,
        Some(c) => if c == BACKSPACE {
            if line.len() > 0 {
                line.drop_last()
            } else {
                line
            }
        } else if c == CANCEL_CHAR || c == LINE_TERMINATOR {
            line
        } else {
            line.push(c)
        },
    }
}

/// The loop outcome of one event: it depends on the event alone.
pub open spec fn ed_status(event: Option<char>) -> EditStatus {
    match event {
        None => EditStatus::Pending,
        Some(c) => if c == CANCEL_CHAR {
            EditStatus::Cancelled
        } else if c == LINE_TERMINATOR {
            EditStatus::Accepted
        } else {
            EditStatus::Pending
        },
    }
}

/// What the echo of one event does to the console: an accepted character is
/// drawn, a backspace is echoed only when a character was there to erase,
/// everything else leaves the console untouched.
pub open spec fn echo_effect(
    info: FrameBufferInfo,
    s: Screen,
    line: Seq<char>,
    event: Option<char>,
) -> Screen {
    match event {
        None => s,
        Some(c) => if c == BACKSPACE {
            if line.len() > 0 {
                step_char(info, s, BACKSPACE)
            } else {
                s
            }
        } else if c == CANCEL_CHAR || c == LINE_TERMINATOR {
            s
        } else {
            step_char(info, s, c)
        },
    }
}

/// When the echo of one event can be drawn (see `char_ok`).
pub open spec fn event_ok(
    info: FrameBufferInfo,
    s: Screen,
    line: Seq<char>,
    event: Option<char>,
) -> bool {
    match event {
        None => true,
        Some(c) => if c == BACKSPACE {
            line.len() > 0 ==> char_ok(info, s, BACKSPACE)
        } else if c == CANCEL_CHAR || c == LINE_TERMINATOR {
            true
        } else {
            char_ok(info, s, c)
        },
    }
}

/// An in-progress input line: the accumulated characters, and the count of
/// accepted characters that bounds backspace.
pub struct LineEditor {
    line: Vec<char>,
    accepted: usize,
}

impl LineEditor {
    /// The accumulated characters.
    pub closed spec fn view(&self) -> Seq<char> {
        self.line@
    }

    /// The accepted-count always equals the line length.
    pub closed spec fn inv(&self) -> bool {
        self.accepted == self.line@.len()
    }

    /// An empty line.
    pub fn new() -> (r: Self)
        ensures
            r@ == Seq::<char>::empty(),
            r.inv(),
    {
        LineEditor { line: Vec::new(), accepted: 0 }
    }

    /// Handles one polled mailbox event: a backspace erases the last accepted
    /// character (echoed) if there is one; the cancel code and the terminator
    /// end the loop without touching the line; any other character is echoed
    /// and appended. Returns what the polling loop should do next.
    pub fn handle_event(&mut self, console: &mut FrameBufferWriter, event: Option<char>) -> (status:
        EditStatus)
        requires
            old(self).inv(),
            old(console).installed(),
            old(console).wf(),
            event_ok(old(console).spec_info(), old(console).screen(), old(self)@, event),
        ensures
            final(self).inv(),
            final(console).installed(),
            final(console).wf(),
            final(console).spec_info() == old(console).spec_info(),
            status == ed_status(event),
            final(self)@ == ed_step(old(self)@, event),
            final(console).screen() == echo_effect(
                old(console).spec_info(),
                old(console).screen(),
                old(self)@,
                event,
            ),
    {
        match event {
            None => EditStatus::Pending,
            Some(c) => {
                if c == BACKSPACE {
                    if self.accepted > 0 {
                        // visually move backwards, then forget the character
                        console.write_char(BACKSPACE);
                        self.line.pop();
                        self.accepted = self.accepted - 1;
                        proof {
                            assert(self.line@ =~= ed_step(old(self)@, event));
                        }
                    }
                    EditStatus::Pending
                } else if c == CANCEL_CHAR {
                    EditStatus::Cancelled
                } else if c == LINE_TERMINATOR {
                    EditStatus::Accepted
                } else {
                    console.write_char(c);
                    self.line.push(c);
                    proof {
                        vstd::std_specs::vec::axiom_spec_len(&self.line);
                    }
                    self.accepted = self.accepted + 1;
                    EditStatus::Pending
                }
            },
        }
    }

    /// The number of accepted characters.
    pub fn accepted_count(&self) -> (r: usize)
        requires
            self.inv(),
        ensures
            r == self@.len(),
    {
        self.accepted
    }

    /// Releases the accumulated line.
    pub fn into_line(self) -> (r: Vec<char>)
        ensures
            r@ == self@,
    {
        self.line
    }
}

/// Law: while neither the cancel code nor the terminator arrives, every event
/// leaves the polling loop pending, so line input never ends early.
pub proof fn lemma_no_terminator_keeps_polling(events: Seq<Option<char>>)
    requires
        forall|i: int|
            0 <= i < events.len() ==> events[i] != Some(CANCEL_CHAR) && events[i] != Some(
                LINE_TERMINATOR,
            ),
    ensures
        forall|i: int| 0 <= i < events.len() ==> ed_status(#[trigger] events[i]) == EditStatus::Pending,
{
}

/// Law: a backspace with nothing typed is a no-op: the line, the echo and the
/// loop outcome all stay as they were.
pub proof fn lemma_backspace_empty_is_noop(info: FrameBufferInfo, s: Screen)
    ensures
        ed_step(Seq::<char>::empty(), Some(BACKSPACE)) == Seq::<char>::empty(),
        echo_effect(info, s, Seq::<char>::empty(), Some(BACKSPACE)) == s,
        ed_status(Some(BACKSPACE)) == EditStatus::Pending,
{
}

} // verus!
