//! The texts that were read so far, oldest first.
use vstd::prelude::*;

verus! {

pub struct History {
    entries: Vec<String>,
}

/// The characters of each text.
pub open spec fn texts(entries: Seq<String>) -> Seq<Seq<char>> {
    Seq::new(entries.len(), |i: int| entries[i]@)
}

/// The entry with the given number, counted from the newest.
pub open spec fn recent(history: Seq<Seq<char>>, index: int) -> Option<Seq<char>> {
    if 0 <= index < history.len() {
        Some(history[history.len() - 1 - index])
    } else {
        None
    }
}

impl View for History {
    type V = Seq<Seq<char>>;

    closed spec fn view(&self) -> Seq<Seq<char>> {
        texts(self.entries@)
    }
}

impl History {
    /// A history without entries.
    pub fn new() -> (history: History)
        ensures
            history@ == Seq::<Seq<char>>::empty(),
    {
        let history = History { entries: Vec::new() };
        assert(history@ =~= Seq::<Seq<char>>::empty());
        history
    }

    /// The number of entries.
    pub fn len(&self) -> (count: usize)
        ensures
            count == self@.len(),
    {
        self.entries.len()
    }

    /// Adds the newest entry.
    pub fn push(&mut self, content: String)
        ensures
            final(self)@ == old(self)@.push(content@),
    {
        self.entries.push(content);
        assert(self@ =~= old(self)@.push(content@));
    }

    /// Removes all entries.
    pub fn clear(&mut self)
        ensures
            final(self)@ == Seq::<Seq<char>>::empty(),
    {
        self.entries.clear();
        assert(self@ =~= Seq::<Seq<char>>::empty());
    }

    /// The entry with the given number, counted from the newest.
    pub fn recent(&self, index: usize) -> (entry: Option<&String>)
        ensures
            entry is Some <==> recent(self@, index as int) is Some,
            entry matches Some(text) ==> text@ == recent(self@, index as int)->0,
    {
        let count: usize = self.entries.len();
        if index < count {
            Some(&self.entries[count - 1 - index])
        } else {
            None
        }
    }
}

/// After a text was added it is the newest entry, and every older one has
/// moved on by one.
pub proof fn law_push_is_newest(history: Seq<Seq<char>>, content: Seq<char>, index: int)
    ensures
        recent(history.push(content), 0) == Some(content),
        index >= 0 ==> recent(history.push(content), index + 1) == recent(history, index),
{
}

/// The entries are counted back from the newest: the last one has number 0, and
/// every entry has one number.
pub proof fn law_recent_counts_back(history: Seq<Seq<char>>, index: int)
    ensures
        recent(history, index) is Some <==> 0 <= index < history.len(),
        0 <= index < history.len() ==> recent(history, history.len() - 1 - index) == Some(history[index]),
{
}

/// A history holds the characters of its entries, in their order.
pub proof fn law_texts(entries: Seq<String>, i: int)
    ensures
        texts(entries).len() == entries.len(),
        0 <= i < entries.len() ==> texts(entries)[i] == entries[i]@,
{
}

}
