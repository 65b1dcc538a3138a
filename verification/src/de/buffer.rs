//! A buffer for the text that the deserializer collects.

use vstd::prelude::*;

use crate::event::push_text;

verus! {

/// A string builder that consumes its inputs.
#[derive(Clone, Debug)]
pub struct CowBuffer(pub String);

impl View for CowBuffer {
    type V = Seq<char>;

    open spec fn view(&self) -> Seq<char> {
        self.0@
    }
}

impl CowBuffer {
    /// An empty buffer.
    pub fn new() -> (buffer: CowBuffer)
        ensures
            buffer@ == Seq::<char>::empty(),
    {
        CowBuffer(String::new())
    }

    /// Appends the text `data` to the buffer. The text is consumed: `data`
    /// is left empty.
    pub fn push_cow(&mut self, data: &mut String)
        ensures
            final(self)@ == old(self)@ + old(data)@,
            final(data)@ == Seq::<char>::empty(),
    {
        push_text(&mut self.0, data.as_str());
        *data = String::new();
    }

    /// The text that the buffer holds.
    pub fn as_str(&self) -> (s: &str)
        ensures
            s@ == self@,
    {
        self.0.as_str()
    }

    /// The text that the buffer holds, as a string of its own.
    pub fn into_cow(self) -> (s: String)
        ensures
            s@ == self@,
    {
        self.0
    }
}

} // verus!
