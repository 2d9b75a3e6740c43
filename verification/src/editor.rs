//! A fixed-capacity editable line of bytes with a cursor: what the
//! calculator edits while the user types an equation.
//!
//! The buffer never grows: insertion at a full line pushes the last byte
//! out, and every operation keeps `cursor <= len <= N`.

use vstd::prelude::*;
use vstd::string::StringSliceAdditionalSpecFns;

verus! {

/// A line of at most `N` bytes, a length, and a cursor inside it.
#[derive(Clone, Copy)]
pub struct LineBuffer<const N: usize> {
    pub data: [u8; N],
    pub len: usize,
    pub cursor: usize,
}

impl<const N: usize> LineBuffer<N> {
    /// The operations below keep this: the cursor sits inside the line, and
    /// the line fits the buffer.
    pub open spec fn wf(self) -> bool {
        self.cursor <= self.len && self.len <= N
    }

    /// The line's bytes: the filled prefix of the buffer.
    pub open spec fn content(self) -> Seq<u8> {
        self.data@.subrange(0, self.len as int)
    }


    /// How `insert_char(c)` relates the line after (`post`) to the line
    /// before (`self`).
    pub open spec fn insert_rel(self, post: Self, c: u8) -> bool {
        if self.cursor < N {
            &&& post.len == if self.len < N {
                self.len + 1
            } else {
                self.len as int
            }
            &&& post.cursor == self.cursor + 1
            &&& post.content() =~= self.content().insert(self.cursor as int, c).take(
                post.len as int,
            )
        } else {
            post == self
        }
    }

    /// How `move_cursor(right)` relates the line after to the line before.
    pub open spec fn move_rel(self, post: Self, right: bool) -> bool {
        &&& post.data == self.data
        &&& post.len == self.len
        &&& post.cursor == if right {
            if self.cursor < self.len {
                self.cursor + 1
            } else {
                self.cursor as int
            }
        } else {
            if self.cursor > 0 {
                self.cursor - 1
            } else {
                self.cursor as int
            }
        }
    }

    /// How `backspace()` relates the line after to the line before.
    pub open spec fn backspace_rel(self, post: Self) -> bool {
        if self.cursor > 0 {
            &&& post.len == self.len - 1
            &&& post.cursor == self.cursor - 1
            &&& post.content() =~= self.content().remove(self.cursor - 1)
        } else {
            post == self
        }
    }

    /// How `backspace_del()` relates the line after to the line before.
    pub open spec fn delete_rel(self, post: Self) -> bool {
        if self.cursor < self.len {
            &&& post.len == self.len - 1
            &&& post.cursor == self.cursor
            &&& post.content() =~= self.content().remove(self.cursor as int)
        } else if self.cursor > 0 {
            &&& post.len == self.len - 1
            &&& post.cursor == self.cursor - 1
            &&& post.content() =~= self.content().remove(self.cursor - 1)
        } else {
            post == self
        }
    }

    /// How `clear()` leaves the line.
    pub open spec fn cleared(self) -> bool {
        self.len == 0 && self.cursor == 0 && self.content() =~= Seq::<u8>::empty()
    }

    /// An empty line.
    pub fn default() -> (r: Self)
        ensures
            r.wf(),
            r.content() =~= Seq::<u8>::empty(),
            r.cursor == 0,
            r.len == 0,
    {
        LineBuffer { data: [0; N], len: 0, cursor: 0 }
    }

    /// Inserts one byte at the cursor, shifting the tail right; the shift
    /// stops at the buffer's last cell, so inserting into a full line drops
    /// its last byte. A cursor at the very end of a full buffer inserts
    /// nothing.
    pub fn insert_char(&mut self, char_code: u8)
        requires
            old(self).wf(),
        ensures
            final(self).wf(),
            old(self).insert_rel(*final(self), char_code),
    {
        if self.cursor < N {
            let ghost orig = *self;
            let hi: usize = if self.len < N - 1 {
                self.len
            } else {
                N - 1
            };
            let mut i: usize = hi;
            while i > self.cursor
                invariant
                    orig.wf(),
                    orig.cursor < N,
                    orig.cursor <= i <= hi,
                    hi == if orig.len < N - 1 {
                        orig.len as int
                    } else {
                        N - 1
                    },
                    self.len == orig.len,
                    self.cursor == orig.cursor,
                    self.data@.len() == N,
                    forall|j: int| 0 <= j <= i ==> self.data@[j] == orig.data@[j],
                    forall|j: int| i < j <= hi ==> self.data@[j] == orig.data@[j - 1],
                    forall|j: int| hi < j < N ==> self.data@[j] == orig.data@[j],
                decreases i,
            {
                let b = self.data[i - 1];
                self.data[i] = b;
                i = i - 1;
            }
            self.data[self.cursor] = char_code;
            self.cursor = self.cursor + 1;
            if self.len < N {
                self.len = self.len + 1;
            }
            proof {
                let target = orig.content().insert(orig.cursor as int, char_code).take(
                    self.len as int,
                );
                assert forall|j: int| 0 <= j < self.len implies self.data@[j] == target[j] by {
                    if j < orig.cursor {
                        assert(self.data@[j] == orig.data@[j]);
                    } else if j == orig.cursor {
                    } else {
                        assert(self.data@[j] == orig.data@[j - 1]);
                    }
                }
                assert(self.content() =~= target);
            }
        }
    }

    /// Moves the cursor one place right or left, clamped to the line.
    pub fn move_cursor(&mut self, right: bool)
        requires
            old(self).wf(),
        ensures
            final(self).wf(),
            old(self).move_rel(*final(self), right),
    {
        if right {
            if self.cursor < self.len {
                self.cursor = self.cursor + 1;
            }
        } else {
            if self.cursor > 0 {
                self.cursor = self.cursor - 1;
            }
        }
    }

    /// Removes the byte before the cursor, shifting the tail left.
    pub fn backspace(&mut self)
        requires
            old(self).wf(),
        ensures
            final(self).wf(),
            old(self).backspace_rel(*final(self)),
    {
        if self.cursor > 0 {
            let ghost orig = *self;
            let mut i: usize = self.cursor;
            while i < self.len
                invariant
                    orig.wf(),
                    0 < orig.cursor <= i <= orig.len,
                    self.len == orig.len,
                    self.cursor == orig.cursor,
                    self.data@.len() == N,
                    forall|j: int| 0 <= j < orig.cursor - 1 ==> self.data@[j] == orig.data@[j],
                    forall|j: int| orig.cursor - 1 <= j < i - 1 ==> self.data@[j] == orig.data@[j
                        + 1],
                    forall|j: int| i - 1 <= j < N ==> self.data@[j] == orig.data@[j],
                decreases self.len - i,
            {
                let b = self.data[i];
                self.data[i - 1] = b;
                i = i + 1;
            }
            self.cursor = self.cursor - 1;
            self.len = self.len - 1;
            self.data[self.len] = 0;
            proof {
                let target = orig.content().remove(orig.cursor - 1);
                assert forall|j: int| 0 <= j < self.len implies self.data@[j] == target[j] by {
                    if j < orig.cursor - 1 {
                        assert(self.data@[j] == orig.data@[j]);
                    } else {
                        assert(self.data@[j] == orig.data@[j + 1]);
                    }
                }
                assert(self.content() =~= target);
            }
        }
    }

    /// Deletes the byte at the cursor: the same thing as moving right once
    /// and then backspacing.
    pub fn backspace_del(&mut self)
        requires
            old(self).wf(),
        ensures
            final(self).wf(),
            old(self).delete_rel(*final(self)),
    {
        self.move_cursor(true);
        self.backspace();
    }

    /// Replaces the line with a copy of `content`, truncated to the buffer's
    /// capacity; the cursor moves to the end.
    pub fn set_content(&mut self, content: &[u8])
        ensures
            final(self).wf(),
            final(self).len == if content@.len() < N {
                content@.len() as int
            } else {
                N as int
            },
            final(self).cursor == final(self).len,
            final(self).content() =~= content@.take(final(self).len as int),
    {
        let copy_len: usize = if content.len() < N {
            content.len()
        } else {
            N
        };
        let mut m: usize = 0;
        while m < copy_len
            invariant
                m <= copy_len,
                copy_len <= N,
                copy_len <= content@.len(),
                self.data@.len() == N,
                forall|j: int| 0 <= j < m ==> self.data@[j] == content@[j],
            decreases copy_len - m,
        {
            let b = content[m];
            self.data[m] = b;
            m = m + 1;
        }
        self.len = copy_len;
        self.cursor = copy_len;
        proof {
            assert(self.content() =~= content@.take(copy_len as int));
        }
    }

    /// Empties the line and zeroes the buffer.
    pub fn clear(&mut self)
        ensures
            final(self).wf(),
            final(self).cleared(),
    {
        self.data = [0; N];
        self.len = 0;
        self.cursor = 0;
    }

    /// The line's bytes, as a borrowed slice.
    pub fn as_bytes(&self) -> (r: &[u8])
        requires
            self.wf(),
        ensures
            r@ == self.content(),
    {
        vstd::slice::slice_subrange(self.data.as_slice(), 0, self.len)
    }

    /// The line as text. Relies on `core::str::from_utf8`: for ASCII bytes
    /// it returns the string with exactly those bytes; malformed content
    /// falls back to a fixed marker.
    #[verifier::external_body]
    pub fn as_str(&self) -> (r: &str)
        requires
            self.wf(),
        ensures
            (forall|i: int|
                0 <= i < self.content().len() ==> self.content()[i] < 128) ==> r.spec_bytes()
                == self.content(),
    {
        core::str::from_utf8(&self.data[..self.len]).unwrap_or("Invalid UTF-8")
    }
}

} // verus!
