//! The calculator's history: a small ring of past calculations, a write
//! position, and an optional selection that the user moves through it.

use vstd::prelude::*;

use crate::editor::LineBuffer;

verus! {

/// The longest equation or result text an entry can hold.
pub const EQUATION_MAX_SIZE: usize = 24;

/// How many calculations the ring remembers before overwriting the oldest.
pub const EQ_HISTORY_MAX: usize = 4;

/// One remembered calculation: the equation text and its result text.
#[derive(Clone, Copy)]
pub struct EqEntry {
    pub equation: [u8; EQUATION_MAX_SIZE],
    pub equation_len: usize,
    pub result: [u8; EQUATION_MAX_SIZE],
    pub result_len: usize,
}

impl EqEntry {
    /// The lengths describe filled prefixes of the two buffers.
    pub open spec fn wf(self) -> bool {
        self.equation_len <= EQUATION_MAX_SIZE && self.result_len <= EQUATION_MAX_SIZE
    }

    /// The equation text: the filled prefix of its buffer.
    pub open spec fn equation_text(self) -> Seq<u8> {
        self.equation@.subrange(0, self.equation_len as int)
    }

    /// The result text: the filled prefix of its buffer.
    pub open spec fn result_text(self) -> Seq<u8> {
        self.result@.subrange(0, self.result_len as int)
    }

    /// An empty entry.
    pub fn default() -> (r: EqEntry)
        ensures
            r.wf(),
            r.equation_len == 0,
            r.result_len == 0,
    {
        EqEntry {
            equation: [0; EQUATION_MAX_SIZE],
            equation_len: 0,
            result: [0; EQUATION_MAX_SIZE],
            result_len: 0,
        }
    }
}

/// Where the selection lands after one navigation step: moving up from no
/// selection enters the history at its last slot; moving down past the last
/// slot leaves the history again.
pub open spec fn spec_history_nav(sel: Option<usize>, len: usize, up: bool) -> Option<usize> {
    if len == 0 {
        None
    } else {
        match sel {
            None => if up {
                Some((len - 1) as usize)
            } else {
                None
            },
            Some(i) => if up {
                if i > 0 {
                    Some((i - 1) as usize)
                } else {
                    Some(i)
                }
            } else {
                if i + 1 < len {
                    Some((i + 1) as usize)
                } else {
                    None
                }
            },
        }
    }
}

/// A ring of the last `EQ_HISTORY_MAX` calculations. `write_idx` is the slot
/// the next calculation lands in; `selection` is the slot the user is
/// looking at, if any.
pub struct EqHistory {
    pub entries: [EqEntry; EQ_HISTORY_MAX],
    pub len: usize,
    pub write_idx: usize,
    pub selection: Option<usize>,
}

impl EqHistory {
    /// The operations below keep this: the ring is never over-full, the
    /// write position stays inside it, and a selection points at a stored
    /// entry.
    pub open spec fn wf(self) -> bool {
        &&& self.len <= EQ_HISTORY_MAX
        &&& self.write_idx < EQ_HISTORY_MAX
        &&& match self.selection {
            Some(i) => i < self.len,
            None => true,
        }
    }

    /// An empty history.
    pub fn new() -> (r: EqHistory)
        ensures
            r.wf(),
            r.len == 0,
            r.write_idx == 0,
            r.selection is None,
    {
        EqHistory {
            entries: [EqEntry::default(); EQ_HISTORY_MAX],
            len: 0,
            write_idx: 0,
            selection: None,
        }
    }

    /// Stores one calculation in the next slot, overwriting the oldest once
    /// the ring is full.
    pub fn history_append(&mut self, new_entry: &EqEntry)
        requires
            old(self).wf(),
        ensures
            final(self).wf(),
            final(self).entries@ == old(self).entries@.update(
                old(self).write_idx as int,
                *new_entry,
            ),
            final(self).write_idx == (old(self).write_idx + 1) % (EQ_HISTORY_MAX as int),
            final(self).len == if old(self).len < EQ_HISTORY_MAX {
                old(self).len + 1
            } else {
                old(self).len as int
            },
            final(self).selection == old(self).selection,
    {
        self.entries[self.write_idx] = *new_entry;
        self.write_idx = (self.write_idx + 1) % EQ_HISTORY_MAX;
        if self.len < EQ_HISTORY_MAX {
            self.len = self.len + 1;
        }
    }

    /// Moves the selection one step up (older) or down (newer).
    pub fn history_nav(&mut self, up: bool)
        requires
            old(self).wf(),
        ensures
            final(self).wf(),
            final(self).entries == old(self).entries,
            final(self).len == old(self).len,
            final(self).write_idx == old(self).write_idx,
            final(self).selection == spec_history_nav(old(self).selection, old(self).len, up),
    {
        if self.len == 0 {
            self.selection = None;
            return ;
        }
        match self.selection {
            None => {
                if up {
                    self.selection = Some(self.len - 1);
                }
            },
            Some(i) => {
                if up {
                    if i > 0 {
                        self.selection = Some(i - 1);
                    }
                } else {
                    if i + 1 < self.len {
                        self.selection = Some(i + 1);
                    } else {
                        self.selection = None;
                    }
                }
            },
        }
    }

    /// How `delete_current_history_entry` relates the history after
    /// (`post`) to the history before (`self`).
    pub open spec fn delete_rel(self, post: Self) -> bool {
        match self.selection {
            None => post == self,
            Some(p0) => {
                let m = EQ_HISTORY_MAX as int;
                let mr = (self.write_idx + m - 1) % m;
                let d = (mr - p0 + m) % m;
                &&& post.len == self.len - 1
                &&& post.write_idx == mr
                &&& post.selection == (if self.len == 1 {
                    None
                } else if p0 == 0 {
                    Some(0usize)
                } else {
                    Some((p0 - 1) as usize)
                })
                &&& forall|q: int|
                    0 <= q < m ==> #[trigger] post.entries@[q] == (if (q - p0 + m) % m < d {
                        self.entries@[(q + 1) % m]
                    } else if q == mr {
                        post.entries@[q]
                    } else {
                        self.entries@[q]
                    })
                &&& post.entries@[mr].equation_len == 0
                &&& post.entries@[mr].result_len == 0
            },
        }
    }

    /// How `copy_from_history` relates the history and the equation line
    /// after to those before.
    pub open spec fn copy_rel(
        self,
        post: Self,
        eq0: LineBuffer<EQUATION_MAX_SIZE>,
        eq1: LineBuffer<EQUATION_MAX_SIZE>,
    ) -> bool {
        &&& post.entries == self.entries
        &&& post.len == self.len
        &&& post.write_idx == self.write_idx
        &&& match self.selection {
            Some(idx) => {
                &&& post.selection is None
                &&& self.entries@[idx as int].wf() ==> eq1.content() =~= self.entries@[
                    idx as int].equation_text() && eq1.cursor == eq1.len
            },
            None => post == self && eq1 == eq0,
        }
    }

    /// Removes the selected entry by shifting every entry between it and the
    /// most recently written slot one place back along the ring; the freed
    /// slot is cleared and becomes the next write position. The selection
    /// moves one step toward older entries, or leaves the history when it
    /// empties.
    pub fn delete_current_history_entry(&mut self)
        requires
            old(self).wf(),
        ensures
            final(self).wf(),
            old(self).delete_rel(*final(self)),
    {
        let p0 = match self.selection {
            Some(i) => i,
            None => {
                return ;
            },
        };
        let ghost orig = *self;
        let ghost m = EQ_HISTORY_MAX as int;
        let most_recent = (self.write_idx + EQ_HISTORY_MAX - 1) % EQ_HISTORY_MAX;
        let ghost d = (most_recent - p0 + m) % m;
        let mut p = p0;
        while p != most_recent
            invariant
                orig.wf(),
                orig.selection == Some(p0),
                p0 < EQ_HISTORY_MAX,
                p < EQ_HISTORY_MAX,
                most_recent < EQ_HISTORY_MAX,
                m == EQ_HISTORY_MAX as int,
                most_recent == (orig.write_idx + m - 1) % m,
                d == (most_recent - p0 + m) % m,
                (p - p0 + m) % m <= d,
                p == most_recent <==> (p - p0 + m) % m == d,
                self.len == orig.len,
                self.write_idx == orig.write_idx,
                self.selection == orig.selection,
                self.entries@.len() == m,
                forall|q: int|
                    0 <= q < m ==> #[trigger] self.entries@[q] == (if (q - p0 + m) % m < (p - p0
                        + m) % m {
                        orig.entries@[(q + 1) % m]
                    } else {
                        orig.entries@[q]
                    }),
            decreases d - (p - p0 + m) % m,
        {
            let next = (p + 1) % EQ_HISTORY_MAX;
            proof {
                let k = (p as int - p0 + m) % m;
                assert(k < d);
                assert(d < m);
                assert((next as int - p0 + m) % m == k + 1);
            }
            let moved = self.entries[next];
            self.entries[p] = moved;
            p = next;
        }
        self.entries[most_recent] = EqEntry::default();
        self.write_idx = most_recent;
        self.len = self.len - 1;
        if self.len == 0 {
            self.selection = None;
        } else {
            self.selection = if p0 == 0 {
                Some(0)
            } else {
                Some(p0 - 1)
            };
        }
    }

    /// Copies the selected entry's equation into the line editor and leaves
    /// the history view.
    pub fn copy_from_history(&mut self, eq: &mut LineBuffer<EQUATION_MAX_SIZE>)
        requires
            old(self).wf(),
            old(eq).wf(),
        ensures
            final(self).wf(),
            final(eq).wf(),
            old(self).copy_rel(*final(self), *old(eq), *final(eq)),
    {
        match self.selection {
            Some(idx) => {
                let entry = self.entries[idx];
                let n = if entry.equation_len < EQUATION_MAX_SIZE {
                    entry.equation_len
                } else {
                    EQUATION_MAX_SIZE
                };
                let text = vstd::slice::slice_subrange(entry.equation.as_slice(), 0, n);
                eq.set_content(text);
                self.selection = None;
            },
            None => {},
        }
    }
}

} // verus!
