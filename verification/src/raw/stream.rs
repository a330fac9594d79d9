use vstd::prelude::*;
use vstd::slice::slice_subrange;

verus! {

/// The number of bytes that reading up to `delim` takes from `s`: all bytes up
/// to and including the first `delim`, or all of `s` where it holds none.
pub open spec fn until_len(s: Seq<u8>, delim: u8) -> int
    decreases s.len(),
{
    if s.len() == 0 {
        0
    } else if s[0] == delim {
        1
    } else {
        1 + until_len(s.drop_first(), delim)
    }
}

/// What `until_len` counts: it stops behind the first `delim`, or at the end.
pub proof fn lemma_until_len(s: Seq<u8>, delim: u8)
    ensures
        0 <= until_len(s, delim) <= s.len(),
        s.len() > 0 ==> until_len(s, delim) > 0,
        forall|i: int| 0 <= i < until_len(s, delim) - 1 ==> s[i] != delim,
        until_len(s, delim) < s.len() ==> s[until_len(s, delim) - 1] == delim,
        until_len(s, delim) > 0 && s[until_len(s, delim) - 1] != delim ==> until_len(s, delim)
            == s.len(),
    decreases s.len(),
{
    if s.len() > 0 && s[0] != delim {
        let t = s.drop_first();
        lemma_until_len(t, delim);
        assert forall|i: int| 0 <= i < until_len(s, delim) - 1 implies s[i] != delim by {
            if i > 0 {
                assert(s[i] == t[i - 1]);
            }
        }
    }
}

/// If no byte before index `n - 1` is `delim` and the byte there is, or `n` is
/// the length of `s`, then reading up to `delim` takes `n` bytes.
pub proof fn lemma_until_len_is(s: Seq<u8>, delim: u8, n: int)
    requires
        0 <= n <= s.len(),
        forall|i: int| 0 <= i < n - 1 ==> s[i] != delim,
        n > 0 || s.len() == 0,
        n == s.len() && (n == 0 || s[n - 1] != delim) || (n > 0 && s[n - 1] == delim),
        n > 0 && s[n - 1] != delim ==> n == s.len(),
    ensures
        until_len(s, delim) == n,
    decreases s.len(),
{
    if s.len() > 0 && s[0] != delim {
        let t = s.drop_first();
        assert forall|i: int| 0 <= i < n - 2 implies t[i] != delim by {
            assert(t[i] == s[i + 1]);
        }
        lemma_until_len_is(t, delim, n - 1);
    }
}

/// A readable stream of bytes held in memory.
#[derive(Debug)]
pub struct ByteStream<'a> {
    data: &'a [u8],
    pos: usize,
}

impl<'a> ByteStream<'a> {
    #[verifier::type_invariant]
    spec fn inv(&self) -> bool {
        self.pos <= self.data@.len()
    }

    /// The bytes that have not been read yet.
    pub closed spec fn remaining(&self) -> Seq<u8> {
        self.data@.subrange(self.pos as int, self.data@.len() as int)
    }

    /// A stream that will hand out `data`.
    pub fn new(data: &'a [u8]) -> (stream: Self)
        ensures
            stream.remaining() == data@,
    {
        let stream = ByteStream { data, pos: 0 };
        stream
    }

    /// The bytes that have not been read yet.
    pub fn rest(&self) -> (bytes: &'a [u8])
        ensures
            bytes@ == self.remaining(),
    {
        proof {
            use_type_invariant(self);
        }
        let data: &'a [u8] = self.data;
        slice_subrange(data, self.pos, data.len())
    }

    /// Skips `n` bytes, or all that are left where fewer are.
    pub fn consume(&mut self, n: usize)
        ensures
            n <= old(self).remaining().len() ==> final(self).remaining() == old(
                self,
            ).remaining().subrange(n as int, old(self).remaining().len() as int),
            n > old(self).remaining().len() ==> final(self).remaining().len() == 0,
    {
        proof {
            use_type_invariant(&*self);
        }
        let left: usize = self.data.len() - self.pos;
        if n <= left {
            self.pos = self.pos + n;
        } else {
            self.pos = self.data.len();
        }
    }

    /// Takes all bytes up to and including the first `delim`, or all that are
    /// left where none is `delim`, and hands them out as a slice of the data.
    pub fn take_until(&mut self, delim: u8) -> (line: &'a [u8])
        ensures
            line@ == old(self).remaining().subrange(
                0,
                until_len(old(self).remaining(), delim),
            ),
            final(self).remaining() == old(self).remaining().subrange(
                until_len(old(self).remaining(), delim),
                old(self).remaining().len() as int,
            ),
    {
        proof {
            use_type_invariant(&*self);
        }
        let data: &'a [u8] = self.data;
        let start: usize = self.pos;
        let n: usize = data.len();
        let ghost rem = self.remaining();
        let mut i: usize = start;
        let mut found: bool = false;
        while i < n && !found
            invariant
                start <= i <= n,
                n == data@.len(),
                rem == data@.subrange(start as int, n as int),
                forall|j: int| 0 <= j < i - start - (if found { 1int } else { 0int }) ==> rem[j] != delim,
                found ==> i > start && rem[i - start - 1] == delim,
            decreases n - i + (if found { 0int } else { 1int }),
        {
            if data[i] == delim {
                found = true;
            }
            i = i + 1;
        }
        proof {
            lemma_until_len_is(rem, delim, i - start);
        }
        self.pos = i;
        let line = slice_subrange(data, start, i);
        line
    }

    /// Reads all bytes up to and including the first `delim`, or all that are
    /// left where none is `delim`, appends them to `buf` and returns how many
    /// they were.
    pub fn read_until(&mut self, delim: u8, buf: &mut Vec<u8>) -> (n: usize)
        ensures
            n == until_len(old(self).remaining(), delim),
            final(buf)@ == old(buf)@ + old(self).remaining().subrange(0, n as int),
            final(self).remaining() == old(self).remaining().subrange(
                n as int,
                old(self).remaining().len() as int,
            ),
    {
        proof {
            lemma_until_len(self.remaining(), delim);
        }
        let line = self.take_until(delim);
        buf.extend_from_slice(line);
        line.len()
    }
}

} // verus!
