//! A growable byte buffer with a position, from which values are read and
//! into which they are written.

use vstd::prelude::*;

verus! {

/// What a cursor is to a contract: its bytes and a position within them.
pub struct CursorView {
    pub bytes: Seq<u8>,
    pub position: nat,
}

impl CursorView {
    /// The position lies within the bytes, or just behind them.
    pub open spec fn wf(self) -> bool {
        self.position <= self.bytes.len()
    }

    /// The bytes from the position to the end.
    pub open spec fn remaining(self) -> Seq<u8> {
        self.bytes.skip(self.position as int)
    }

    /// The same bytes, with the position `count` further on.
    pub open spec fn advance(self, count: nat) -> CursorView {
        CursorView { bytes: self.bytes, position: self.position + count }
    }

    /// The same bytes, with the position at `position`.
    pub open spec fn at(self, position: nat) -> CursorView {
        CursorView { bytes: self.bytes, position }
    }

    /// The cursor after `written` went in at the position: bytes there are
    /// overwritten, what reaches past the end extends the buffer, and the
    /// position ends up behind the last byte written.
    pub open spec fn put(self, written: Seq<u8>) -> CursorView {
        let end = self.position + written.len();
        CursorView {
            bytes: self.bytes.take(self.position as int) + written + (if end
                < self.bytes.len() {
                self.bytes.skip(end as int)
            } else {
                Seq::empty()
            }),
            position: end,
        }
    }
}

/// A byte buffer and a position in it.
pub struct Cursor {
    data: Vec<u8>,
    position: usize,
}

impl View for Cursor {
    type V = CursorView;

    /// The bytes and the position. A position beyond the bytes would count
    /// as the end; no cursor has one.
    closed spec fn view(&self) -> CursorView {
        CursorView {
            bytes: self.data@,
            position: if self.position <= self.data@.len() {
                self.position as nat
            } else {
                self.data@.len()
            },
        }
    }
}

impl Cursor {
    #[verifier::type_invariant]
    spec fn inv(self) -> bool {
        self.position <= self.data@.len()
    }

    /// The position of a cursor lies within its bytes, or just behind them,
    /// and the bytes are no more than a `usize` counts.
    pub proof fn lemma_wf(&self)
        ensures
            self@.wf(),
            self@.bytes.len() <= usize::MAX,
    {
        assert(self.data.len() == self.data@.len());
    }

    /// A cursor at the start of `data`.
    pub fn new(data: Vec<u8>) -> (cursor: Cursor)
        ensures
            cursor@ == (CursorView { bytes: data@, position: 0 }),
    {
        Cursor { data, position: 0 }
    }

    /// The position, counted in bytes from the start.
    pub fn position(&self) -> (position: usize)
        ensures
            position == self@.position,
    {
        proof {
            use_type_invariant(self);
        }
        self.position
    }

    /// The number of bytes in the buffer.
    pub fn len(&self) -> (len: usize)
        ensures
            len == self@.bytes.len(),
    {
        proof {
            use_type_invariant(self);
        }
        self.data.len()
    }

    /// Moves the position to `position`, or to the end of the buffer if
    /// `position` lies beyond it.
    pub fn set_position(&mut self, position: usize)
        ensures
            final(self)@ == old(self)@.at(
                if position <= old(self)@.bytes.len() {
                    position as nat
                } else {
                    old(self)@.bytes.len()
                },
            ),
    {
        proof {
            use_type_invariant(&*self);
        }
        if position <= self.data.len() {
            self.position = position;
        } else {
            self.position = self.data.len();
        }
    }

    /// The whole buffer.
    pub fn get_ref(&self) -> (data: &Vec<u8>)
        ensures
            data@ == self@.bytes,
    {
        &self.data
    }

    /// The next `count` bytes, if that many are left.
    pub fn peek(&self, count: usize) -> (window: Option<&[u8]>)
        ensures
            match window {
                Some(bytes) => count <= self@.remaining().len() && bytes@
                    == self@.remaining().take(count as int),
                None => count > self@.remaining().len(),
            },
    {
        proof {
            use_type_invariant(self);
        }
        if count <= self.data.len() - self.position {
            let window = vstd::slice::slice_subrange(
                self.data.as_slice(),
                self.position,
                self.position + count,
            );
            assert(window@ =~= self@.remaining().take(count as int));
            Some(window)
        } else {
            None
        }
    }

    /// Moves the position `count` bytes on, if that many are left, and says
    /// whether it did.
    pub fn advance(&mut self, count: usize) -> (moved: bool)
        ensures
            moved == (count <= old(self)@.remaining().len()),
            final(self)@ == (if moved {
                old(self)@.advance(count as nat)
            } else {
                old(self)@
            }),
    {
        proof {
            use_type_invariant(&*self);
        }
        if count <= self.data.len() - self.position {
            self.position = self.position + count;
            true
        } else {
            false
        }
    }

    /// Writes `bytes` at the position: over the bytes that are there, and on
    /// past the end of the buffer.
    pub fn put(&mut self, bytes: &[u8])
        ensures
            final(self)@ == old(self)@.put(bytes@),
    {
        proof {
            use_type_invariant(&*self);
        }
        let ghost before = self@;
        // The buffer is worked on outside the cursor, which stays valid
        // (empty, at its start) until the buffer is back.
        let mut position = self.position;
        let mut data: Vec<u8> = Vec::new();
        self.position = 0;
        std::mem::swap(&mut self.data, &mut data);
        let mut i: usize = 0;
        proof {
            assert(data@ =~= before.put(bytes@.take(0)).bytes);
        }
        while i < bytes.len()
            invariant
                i <= bytes.len(),
                before.wf(),
                position <= data@.len(),
                (CursorView { bytes: data@, position: position as nat }) == before.put(
                    bytes@.take(i as int),
                ),
            decreases bytes.len() - i,
        {
            if position < data.len() {
                data[position] = bytes[i];
            } else {
                data.push(bytes[i]);
            }
            assert(position < data.len());
            position = position + 1;
            i = i + 1;
            proof {
                assert(bytes@.take(i as int) =~= bytes@.take(i - 1).push(bytes@[i - 1]));
                assert(data@ =~= before.put(bytes@.take(i as int)).bytes);
            }
        }
        proof {
            assert(bytes@.take(i as int) =~= bytes@);
        }
        self.data = data;
        self.position = position;
    }
}

} // verus!
