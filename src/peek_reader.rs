//! A sequential byte source, and a reader over it that can look one byte ahead.
use vstd::prelude::*;

use crate::error::PcapError;

verus! {

/// An in-memory sequential byte source: the bytes of a capture, handed out in order.
pub struct ByteSource {
    data: Vec<u8>,
    pos: usize,
}

impl ByteSource {
    #[verifier::type_invariant]
    spec fn inv(&self) -> bool {
        self.pos <= self.data@.len()
    }

    /// The bytes not yet handed out.
    pub closed spec fn view(&self) -> Seq<u8> {
        self.data@.skip(self.pos as int)
    }

    /// A source that hands out `data` from its first byte.
    pub fn new(data: Vec<u8>) -> (s: ByteSource)
        ensures
            s.view() == data@,
    {
        let s = ByteSource { data, pos: 0 };
        assert(s.view() =~= s.data@);
        s
    }

    /// Hands out the next byte, or `None` once every byte has been handed out.
    pub fn read_byte(&mut self) -> (r: Option<u8>)
        ensures
            old(self).view().len() == 0 ==> r is None && final(self).view() == old(self).view(),
            old(self).view().len() > 0 ==> r == Some(old(self).view()[0]) && final(self).view()
                == old(self).view().skip(1),
    {
        proof {
            use_type_invariant(&*self);
        }
        if self.pos < self.data.len() {
            let b = self.data[self.pos];
            self.pos = self.pos + 1;
            assert(self.view() =~= old(self).view().skip(1));
            Some(b)
        } else {
            None
        }
    }

    /// The number of bytes not yet handed out.
    pub fn remaining(&self) -> (n: usize)
        ensures
            n == self.view().len(),
    {
        proof {
            use_type_invariant(self);
        }
        self.data.len() - self.pos
    }
}

/// A reader that holds at most one byte it has looked at but not yet consumed.
pub struct PeekReader {
    inner: ByteSource,
    peeked: Option<u8>,
}

impl PeekReader {
    /// The byte held back, if any, as a sequence of zero or one bytes.
    pub closed spec fn held(&self) -> Seq<u8> {
        match self.peeked {
            Some(b) => seq![b],
            None => Seq::empty(),
        }
    }

    /// The source underneath.
    pub closed spec fn source(&self) -> ByteSource {
        self.inner
    }

    /// The bytes not yet consumed: the held byte, then what the source has left.
    pub open spec fn view(&self) -> Seq<u8> {
        self.held() + self.source().view()
    }

    /// A reader that holds nothing back yet.
    pub fn new(inner: ByteSource) -> (r: PeekReader)
        ensures
            r.source() == inner,
            r.held() == Seq::<u8>::empty(),
            r.view() == inner.view(),
    {
        let r = PeekReader { inner, peeked: None };
        assert(r.view() =~= inner.view());
        r
    }

    /// Consumes the reader, returning the source; a held byte is dropped with it.
    pub fn into_inner(self) -> (r: ByteSource)
        ensures
            r == self.source(),
            self.held() == Seq::<u8>::empty() ==> r.view() == self.view(),
    {
        assert(self.held() == Seq::<u8>::empty() ==> self.view() =~= self.inner.view());
        self.inner
    }

    /// The source underneath.
    pub fn get_ref(&self) -> (r: &ByteSource)
        ensures
            *r == self.source(),
    {
        &self.inner
    }

    /// The source underneath, mutably; the held byte stays.
    pub fn get_mut(&mut self) -> (r: &mut ByteSource)
        ensures
            *r == old(self).source(),
            final(self).source() == *final(r),
            final(self).held() == old(self).held(),
    {
        &mut self.inner
    }

    /// The next byte, without consuming it; `None` when the stream is exhausted.
    pub fn peek(&mut self) -> (r: Option<u8>)
        ensures
            final(self).view() == old(self).view(),
            old(self).view().len() == 0 ==> r is None,
            old(self).view().len() > 0 ==> r == Some(old(self).view()[0]),
            old(self).view().len() == 0 ==> final(self).held() == Seq::<u8>::empty(),
    {
        match self.peeked {
            Some(b) => Some(b),
            None => {
                let r = self.inner.read_byte();
                self.peeked = r;
                assert(self.view() =~= old(self).view());
                r
            },
        }
    }

    /// Whether every byte has been consumed.
    pub fn is_empty(&mut self) -> (r: bool)
        ensures
            final(self).view() == old(self).view(),
            r == (old(self).view().len() == 0),
            r ==> final(self).held() == Seq::<u8>::empty(),
    {
        self.peek().is_none()
    }

    /// Consumes the next byte, or returns `None` when the stream is exhausted.
    pub fn read_byte(&mut self) -> (r: Option<u8>)
        ensures
            old(self).view().len() == 0 ==> r is None && final(self).view() == old(self).view(),
            old(self).view().len() > 0 ==> r == Some(old(self).view()[0]) && final(self).view()
                == old(self).view().skip(1),
            final(self).held() == Seq::<u8>::empty(),
    {
        match self.peeked {
            Some(b) => {
                self.peeked = None;
                assert(self.view() =~= old(self).view().skip(1));
                Some(b)
            },
            None => {
                let r = self.inner.read_byte();
                assert(self.view() =~= self.inner.view());
                assert(old(self).view() =~= old(self).inner.view());
                r
            },
        }
    }

    /// Consumes exactly `n` bytes; fails with `Truncated`, having consumed everything,
    /// when fewer than `n` are left.
    pub fn read_exact(&mut self, n: usize) -> (r: Result<Vec<u8>, PcapError>)
        ensures
            old(self).view().len() >= n ==> (r matches Ok(v) && v@ == old(self).view().take(
                n as int,
            ) && final(self).view() == old(self).view().skip(n as int)),
            old(self).view().len() < n ==> r == Err::<Vec<u8>, PcapError>(PcapError::Truncated)
                && final(self).view().len() == 0,
            n > 0 || old(self).held() == Seq::<u8>::empty() ==> final(self).held() == Seq::<
                u8,
            >::empty(),
    {
        let mut out: Vec<u8> = Vec::new();
        let mut i: usize = 0;
        while i < n
            invariant
                i <= n,
                out@.len() == i,
                out@ + self.view() == old(self).view(),
                i > 0 || old(self).held() == Seq::<u8>::empty() ==> self.held() == Seq::<
                    u8,
                >::empty(),
            decreases n - i,
        {
            let ghost before = self.view();
            match self.read_byte() {
                Some(b) => {
                    assert(out@.push(b) + self.view() =~= out@ + before);
                    out.push(b);
                    i = i + 1;
                },
                None => {
                    assert(old(self).view() =~= out@ + self.view());
                    assert(self.held() =~= Seq::<u8>::empty());
                    return Err(PcapError::Truncated);
                },
            }
        }
        assert(out@ =~= old(self).view().take(n as int));
        assert(self.view() =~= old(self).view().skip(n as int));
        Ok(out)
    }
}

} // verus!
