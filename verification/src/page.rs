//! A run of output lines.

use crate::text::texts;
use vstd::prelude::*;

verus! {

/// Lines of output, in order, each without its line feed.
pub struct Page {
    pub lines: Vec<String>,
}

impl View for Page {
    type V = Seq<Seq<char>>;

    open spec fn view(&self) -> Seq<Seq<char>> {
        texts(self.lines@)
    }
}

impl Page {
    /// A page without lines.
    pub fn new() -> (r: Page)
        ensures
            r@ == Seq::<Seq<char>>::empty(),
    {
        let r = Page { lines: Vec::new() };
        assert(r@ =~= Seq::<Seq<char>>::empty());
        r
    }

    /// Adds a line.
    pub fn line(&mut self, text: String)
        ensures
            final(self)@ == old(self)@.push(text@),
    {
        let ghost before = self@;
        self.lines.push(text);
        assert(self@ =~= before.push(text@));
    }

    /// Adds an empty line.
    pub fn blank_line(&mut self)
        ensures
            final(self)@ == old(self)@.push(Seq::<char>::empty()),
    {
        self.line(String::new());
    }

    /// Adds the lines of `more`.
    pub fn append(&mut self, more: Page)
        ensures
            final(self)@ == old(self)@ + more@,
    {
        let ghost before = self@;
        let ghost added = more@;
        let mut more = more;
        self.lines.append(&mut more.lines);
        assert(self@ =~= before + added);
    }
}

} // verus!
