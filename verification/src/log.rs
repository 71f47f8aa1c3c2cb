//! The message log that combat and item handling report to.

use vstd::prelude::*;

verus! {

/// An append-only list of human-readable event messages, oldest first.
pub struct GameLog {
    entries: Vec<String>,
}

impl GameLog {
    /// The messages recorded so far, oldest first, each as its characters.
    pub closed spec fn view(&self) -> Seq<Seq<char>> {
        Seq::new(self.entries@.len(), |i: int| self.entries@[i]@)
    }

    /// An empty log.
    pub fn new() -> (log: Self)
        ensures
            log@ == Seq::<Seq<char>>::empty(),
    {
        Self { entries: Vec::new() }
    }

    /// Appends one message, given as anything that converts into a `String`.
    /// The entry recorded is what that conversion returns.
    pub fn push<T: Into<String>>(&mut self, entry: T)
        ensures
            exists|text: String| #[trigger]
                call_ensures(T::into, (entry,), text) && final(self)@ == old(self)@.push(text@),
    {
        let text: String = entry.into();
        self.push_line(text);
    }

    /// Appends one message at the end of the log.
    pub fn push_line(&mut self, entry: String)
        ensures
            final(self)@ == old(self)@.push(entry@),
    {
        self.entries.push(entry);
        assert(self@ =~= old(self)@.push(entry@));
    }

    /// The recorded messages, oldest first.
    pub fn entries(&self) -> (entries: &Vec<String>)
        ensures
            entries@.len() == self@.len(),
            forall|i: int| 0 <= i < entries@.len() ==> (#[trigger] entries@[i])@ == self@[i],
    {
        &self.entries
    }
}

impl Default for GameLog {
    fn default() -> (log: Self)
        ensures
            log@ == Seq::<Seq<char>>::empty(),
    {
        Self::new()
    }
}

} // verus!
