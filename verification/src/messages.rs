//! The message log: an append-only, insertion-ordered list of colored text
//! events. The log never deletes or reorders entries; any windowing is the
//! renderer's business.

use crate::color::Color;
use vstd::prelude::*;

verus! {

/// The game's log of `(text, color)` events, oldest first.
pub struct Messages {
    pub messages: Vec<(String, Color)>,
}

impl View for Messages {
    type V = Seq<(Seq<char>, Color)>;

    open spec fn view(&self) -> Seq<(Seq<char>, Color)> {
        self.messages@.map_values(|p: (String, Color)| (p.0@, p.1))
    }
}

impl Messages {
    pub fn new() -> (m: Messages)
        ensures
            m@ == Seq::<(Seq<char>, Color)>::empty(),
    {
        let m = Messages { messages: Vec::new() };
        proof {
            assert(m@ =~= Seq::<(Seq<char>, Color)>::empty());
        }
        m
    }

    /// Append one entry; everything already logged stays where it was.
    pub fn add(&mut self, message: String, color: Color)
        ensures
            final(self)@ == old(self)@.push((message@, color)),
    {
        let ghost before = self@;
        self.messages.push((message, color));
        proof {
            assert(self@ =~= before.push((message@, color)));
        }
    }
}

} // verus!
