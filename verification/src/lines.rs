//! Texts while they are put together line by line.
use crate::pieces;
use crate::pieces::join;
use vstd::prelude::*;

verus! {

/// A row of texts.
pub struct Lines {
    pub list: Vec<String>,
}

impl View for Lines {
    type V = Seq<Seq<char>>;

    open spec fn view(&self) -> Seq<Seq<char>> {
        pieces::texts(self.list@)
    }
}

/// A line if it says something.
pub open spec fn line_if(said: bool, line: Seq<char>) -> Seq<Seq<char>> {
    if said {
        seq![line]
    } else {
        Seq::empty()
    }
}

impl Lines {
    /// No lines.
    pub fn new() -> (lines: Self)
        ensures
            lines@ == Seq::<Seq<char>>::empty(),
    {
        let lines = Lines { list: Vec::new() };
        assert(lines@ =~= Seq::<Seq<char>>::empty());
        lines
    }

    /// Adds a line.
    pub fn push(&mut self, line: String)
        ensures
            final(self)@ == old(self)@.push(line@),
    {
        proof {
            pieces::lemma_texts_push(self.list@, line);
        }
        self.list.push(line);
    }

    /// Adds a line.
    pub fn add_text(&mut self, line: &str)
        ensures
            final(self)@ == old(self)@.push(line@),
    {
        self.push(line.to_owned());
    }

    /// Adds a line if it says something.
    pub fn add_if(&mut self, said: bool, line: String)
        ensures
            final(self)@ == old(self)@ + line_if(said, line@),
    {
        let ghost before = self@;
        if said {
            self.push(line);
        }
        assert(self@ =~= before + line_if(said, line@));
    }

    /// The number of lines.
    pub fn count(&self) -> (count: usize)
        ensures
            count == self@.len(),
    {
        self.list.len()
    }

    /// The lines with `separator` between them.
    pub fn join(&self, separator: &str) -> (text: String)
        ensures
            text@ == pieces::joined(self@, separator@),
    {
        join(&self.list, separator)
    }
}

} // verus!
