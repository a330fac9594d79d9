use vstd::prelude::*;

verus! {

/// A cursor over the lines of the body of an article, each with its line
/// terminator.
#[derive(Clone, Debug)]
pub struct Lines<'a> {
    pub(crate) inner: crate::raw::response::Lines<'a>,
}

impl<'a> Lines<'a> {
    /// The lines that the cursor has yet to hand out.
    pub open(crate) spec fn remaining(&self) -> Seq<Seq<u8>> {
        self.inner.remaining()
    }

    /// Hands out the next line, with its line terminator, or `None` when all
    /// lines have been handed out.
    pub fn next(&mut self) -> (line: Option<&'a [u8]>)
        ensures
            match line {
                Some(l) => {
                    &&& old(self).remaining().len() > 0
                    &&& l@ == old(self).remaining()[0]
                    &&& final(self).remaining() == old(self).remaining().drop_first()
                },
                None => {
                    &&& old(self).remaining().len() == 0
                    &&& final(self).remaining() == old(self).remaining()
                },
            },
    {
        self.inner.next()
    }
}

/// A cursor over the content lines of the body of an article: its lines
/// without their line terminators, and without the terminator line.
#[derive(Clone, Debug)]
pub struct Unterminated<'a> {
    pub(crate) inner: crate::raw::response::Unterminated<'a>,
}

impl<'a> Unterminated<'a> {
    /// The content lines that the cursor has yet to hand out.
    pub open(crate) spec fn remaining(&self) -> Seq<Seq<u8>> {
        self.inner.remaining()
    }

    /// Hands out the next content line, without its line terminator, or `None`
    /// when the terminator line is reached.
    pub fn next(&mut self) -> (line: Option<&'a [u8]>)
        ensures
            match line {
                Some(l) => {
                    &&& old(self).remaining().len() > 0
                    &&& l@ == old(self).remaining()[0]
                    &&& final(self).remaining() == old(self).remaining().drop_first()
                },
                None => {
                    &&& old(self).remaining().len() == 0
                    &&& final(self).remaining().len() == 0
                },
            },
    {
        self.inner.next()
    }
}

} // verus!
