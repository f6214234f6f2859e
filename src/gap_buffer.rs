use vstd::prelude::*;

verus! {

broadcast use vstd::string::group_string_axioms;

/// A character sequence stored in one backing vector with a movable hole
/// (the gap) at the edit point.
///
/// Physical slots `[gap_pos, gap_pos + gap_len)` of `buffer` hold no content;
/// the slots before and after them hold the text in order.
#[derive(Debug)]
pub struct GapBuffer {
    buffer: Vec<char>,
    gap_pos: usize,
    gap_len: usize,
}

impl View for GapBuffer {
    type V = Seq<char>;

    /// The logical content: the storage with the gap cut out.
    closed spec fn view(&self) -> Seq<char> {
        self.buffer@.subrange(0, self.gap_pos as int) + self.buffer@.subrange(
            self.gap_pos + self.gap_len,
            self.buffer@.len() as int,
        )
    }
}

/// `c` with `t` put in at position `pos`.
pub open spec fn inserted(c: Seq<char>, pos: int, t: Seq<char>) -> Seq<char> {
    c.take(pos) + t + c.skip(pos)
}

/// `c` without the `count` characters that start at position `pos`.
pub open spec fn deleted(c: Seq<char>, pos: int, count: int) -> Seq<char> {
    c.take(pos) + c.skip(pos + count)
}

/// Value written into storage slots that belong to the gap.
const GAP_FILLER: char = '\0';

/// The characters of `s`, in order.
fn chars_of(s: &str) -> (r: Vec<char>)
    ensures
        r@ == s@,
{
    let mut r: Vec<char> = Vec::new();
    for c in it: s.chars()
        invariant
            r@ == it.seq().take(it.index() as int),
    {
        r.push(c);
    }
    r
}

impl GapBuffer {
    /// The gap lies inside the allocated storage.
    pub closed spec fn wf(&self) -> bool {
        &&& self.gap_pos + self.gap_len <= self.buffer@.len()
        &&& self.buffer@.len() <= usize::MAX
    }

    /// Logical position at which the gap starts.
    pub closed spec fn gap_start(&self) -> nat {
        self.gap_pos as nat
    }

    /// Number of allocated storage slots, content and gap together.
    pub closed spec fn capacity(&self) -> nat {
        self.buffer@.len()
    }

    /// Number of unused storage slots in the gap.
    pub closed spec fn gap_length(&self) -> nat {
        self.gap_len as nat
    }

    /// In a well-formed buffer the gap starts within the content, and the
    /// content and the gap together fill the storage exactly.
    pub proof fn lemma_layout(&self)
        requires
            self.wf(),
        ensures
            self.gap_start() <= self@.len(),
            self@.len() + self.gap_length() == self.capacity(),
    {
    }

    /// A buffer holding the characters of `s`, with the gap after them.
    pub fn from_string(s: String) -> (r: Self)
        ensures
            r.wf(),
            r@ == s@,
            r.gap_start() == s@.len(),
            r.capacity() >= r@.len(),
            r@.len() + r.gap_length() == r.capacity(),
    {
        let buffer = chars_of(s.as_str());
        let len = buffer.len();
        let r = GapBuffer { buffer, gap_pos: len, gap_len: 0 };
        assert(r@ =~= s@);
        r
    }

    /// Replaces the whole content by the characters of `s`, as if the buffer
    /// were built anew from it.
    pub fn load_string(&mut self, s: String)
        ensures
            final(self).wf(),
            final(self)@ == s@,
            final(self).gap_start() == s@.len(),
    {
        *self = Self::from_string(s);
    }

    /// A fresh walk over the content, from its first character.
    pub fn iter(&self) -> (r: GapBufferIterator<'_>)
        requires
            self.wf(),
        ensures
            r.wf(),
            r.content() == self@,
            r.position() == 0,
    {
        GapBufferIterator { current_index: 0, gap_buffer: self }
    }

    /// Number of characters a reader perceives.
    pub fn content_len(&self) -> (r: usize)
        requires
            self.wf(),
        ensures
            r == self@.len(),
    {
        self.buffer.len() - self.gap_len
    }

    /// The character at logical position `index`.
    pub fn get(&self, index: usize) -> (r: char)
        requires
            self.wf(),
            index < self@.len(),
        ensures
            r == self@[index as int],
    {
        let capacity = self.buffer.len();
        assert(self@.len() == capacity - self.gap_len);
        if index < self.gap_pos {
            self.buffer[index]
        } else {
            self.buffer[index + self.gap_len]
        }
    }

    /// Moves the gap so that it starts at logical position
    /// `min(pos, content length)`. The content and the capacity stay as they are.
    pub fn move_gap_to(&mut self, pos: usize)
        requires
            old(self).wf(),
        ensures
            final(self).wf(),
            final(self)@ == old(self)@,
            final(self).gap_start() == if pos <= old(self)@.len() {
                pos as nat
            } else {
                old(self)@.len()
            },
            final(self).capacity() == old(self).capacity(),
    {
        let max_gap_pos = self.buffer.len() - self.gap_len;
        let target_pos = if pos < max_gap_pos {
            pos
        } else {
            max_gap_pos
        };
        if target_pos == self.gap_pos {
            return;
        }
        self.really_move_gap_to(target_pos);
    }

    /// Shifts the run of text between the current and the new gap position
    /// across the gap, in the order that reads each slot before it is written.
    fn really_move_gap_to(&mut self, target_pos: usize)
        requires
            old(self).wf(),
            target_pos + old(self).gap_len <= old(self).buffer@.len(),
        ensures
            final(self).wf(),
            final(self)@ == old(self)@,
            final(self).gap_pos == target_pos,
            final(self).gap_len == old(self).gap_len,
            final(self).buffer@.len() == old(self).buffer@.len(),
    {
        let ghost old_buf = self.buffer@;
        let gap_len = self.gap_len;
        let gap_pos = self.gap_pos;
        let capacity = self.buffer.len();
        if target_pos < gap_pos {
            // Gap moves backward: the run [target_pos, gap_pos) moves right by
            // gap_len, last character first.
            let mut i: usize = gap_pos;
            while i > target_pos
                invariant
                    target_pos <= i <= gap_pos,
                    gap_pos + gap_len <= capacity,
                    self.buffer@.len() == capacity,
                    self.gap_len == gap_len,
                    old_buf.len() == capacity,
                    forall|k: int| 0 <= k < i ==> self.buffer@[k] == old_buf[k],
                    forall|k: int| i <= k < gap_pos ==> self.buffer@[k + gap_len] == old_buf[k],
                    forall|k: int| gap_pos + gap_len <= k < capacity ==> self.buffer@[k] == old_buf[k],
                decreases i,
            {
                i = i - 1;
                let c = self.buffer[i];
                self.buffer.set(i + gap_len, c);
            }
        } else {
            // Gap moves forward: the run [gap_pos + gap_len, target_pos + gap_len)
            // moves left by gap_len, first character first.
            let mut i: usize = gap_pos;
            while i < target_pos
                invariant
                    gap_pos <= i <= target_pos,
                    target_pos + gap_len <= capacity,
                    self.buffer@.len() == capacity,
                    self.gap_len == gap_len,
                    old_buf.len() == capacity,
                    forall|k: int| 0 <= k < gap_pos ==> self.buffer@[k] == old_buf[k],
                    forall|k: int| gap_pos <= k < i ==> self.buffer@[k] == old_buf[k + gap_len],
                    forall|k: int| i <= k < capacity ==> self.buffer@[k] == old_buf[k],
                decreases target_pos - i,
            {
                let c = self.buffer[i + gap_len];
                self.buffer.set(i, c);
                i = i + 1;
            }
        }
        self.gap_pos = target_pos;
        proof {
            let old_view = old_buf.subrange(0, gap_pos as int) + old_buf.subrange(
                gap_pos + gap_len,
                capacity as int,
            );
            assert(self@.len() == old_view.len());
            assert forall|k: int| 0 <= k < self@.len() implies self@[k] == old_view[k] by {
                if k < target_pos {
                    if k >= gap_pos {
                        assert(old_view[k] == old_buf[k + gap_len]);
                    }
                } else {
                    if k < gap_pos {
                        assert(self@[k] == self.buffer@[k + gap_len]);
                    }
                }
            }
            assert(self@ =~= old_view);
        }
    }

    /// Puts the characters of `text` in at logical position `pos`; the gap
    /// ends up right after them.
    pub fn insert(&mut self, pos: usize, text: &str)
        requires
            old(self).wf(),
            pos <= old(self)@.len(),
            old(self)@.len() + text@.len() <= usize::MAX,
        ensures
            final(self).wf(),
            final(self)@ == inserted(old(self)@, pos as int, text@),
            final(self)@.len() == old(self)@.len() + text@.len(),
            final(self).gap_start() == pos + text@.len(),
    {
        let chars = chars_of(text);
        let n = chars.len();
        self.move_gap_to(pos);
        if self.gap_len < n {
            self.grow(n);
        }
        let mut i: usize = 0;
        while i < n
            invariant
                self.wf(),
                n == chars@.len(),
                pos <= old(self)@.len(),
                i <= n,
                self.gap_pos == pos + i,
                self.gap_len + i >= n,
                self@ == old(self)@.take(pos as int) + chars@.take(i as int) + old(self)@.skip(
                    pos as int,
                ),
            decreases n - i,
        {
            let ghost before = self@;
            let ghost before_buf = self.buffer@;
            let ghost before_take = chars@.take(i as int);
            let gap_pos = self.gap_pos;
            self.buffer.set(gap_pos, chars[i]);
            self.gap_pos = gap_pos + 1;
            self.gap_len = self.gap_len - 1;
            i = i + 1;
            proof {
                let expected = old(self)@.take(pos as int) + chars@.take(i as int) + old(
                    self,
                )@.skip(pos as int);
                assert(self@.len() == before.len() + 1);
                assert forall|k: int| 0 <= k < self@.len() implies self@[k] == expected[k] by {
                    if k < gap_pos {
                        assert(self@[k] == before_buf[k]);
                        assert(self@[k] == before[k]);
                        if k >= pos {
                            assert(before_take[k - pos] == chars@.take(i as int)[k - pos]);
                            assert(expected[k] == chars@.take(i as int)[k - pos]);
                            assert(before[k] == before_take[k - pos]);
                        } else {
                            assert(expected[k] == old(self)@[k]);
                            assert(before[k] == old(self)@[k]);
                        }
                        assert(expected[k] == before[k]);
                    } else if k > gap_pos {
                        assert(self@[k] == before_buf[k - 1 + before_buf.len() - before.len()]);
                        assert(self@[k] == before[k - 1]);
                        assert(expected[k] == old(self)@.skip(pos as int)[k - pos - i]);
                        assert(before[k - 1] == old(self)@.skip(pos as int)[k - pos - i]);
                    } else {
                        assert(expected[k] == chars@[i - 1]);
                    }
                }
                assert(self@ =~= expected);
            }
        }
        assert(chars@.take(n as int) =~= text@);
    }

    /// Removes the `count` characters that start at logical position `pos`;
    /// their slots join the gap, which then starts at `pos`.
    pub fn delete(&mut self, pos: usize, count: usize)
        requires
            old(self).wf(),
            pos + count <= old(self)@.len(),
        ensures
            final(self).wf(),
            final(self)@ == deleted(old(self)@, pos as int, count as int),
            final(self)@.len() == old(self)@.len() - count,
            final(self).gap_start() == pos,
    {
        self.move_gap_to(pos);
        let ghost before = self@;
        self.gap_len = self.gap_len + count;
        assert forall|k: int| 0 <= k < self@.len() implies self@[k] == deleted(
            before,
            pos as int,
            count as int,
        )[k] by {
            if k >= pos {
                assert(self@[k] == before[k + count]);
            }
        }
        assert(self@ =~= deleted(before, pos as int, count as int));
    }

    /// Reallocates the storage so that the gap holds at least `min_gap` slots:
    /// twice the space that the content and `min_gap` need, where that fits.
    fn grow(&mut self, min_gap: usize)
        requires
            old(self).wf(),
            old(self).buffer@.len() - old(self).gap_len + min_gap <= usize::MAX,
        ensures
            final(self).wf(),
            final(self)@ == old(self)@,
            final(self).gap_pos == old(self).gap_pos,
            final(self).gap_len >= min_gap,
    {
        let capacity = self.buffer.len();
        let gap_pos = self.gap_pos;
        let gap_len = self.gap_len;
        let content = capacity - gap_len;
        let needed = content + min_gap;
        let new_capacity = if needed <= usize::MAX / 2 {
            needed * 2
        } else {
            needed
        };
        let new_gap_len = new_capacity - content;
        let mut buffer: Vec<char> = Vec::new();
        let mut i: usize = 0;
        while i < gap_pos
            invariant
                i <= gap_pos,
                gap_pos + gap_len <= capacity,
                self.buffer@.len() == capacity,
                buffer@ == self.buffer@.take(i as int),
            decreases gap_pos - i,
        {
            buffer.push(self.buffer[i]);
            i = i + 1;
            assert(buffer@ =~= self.buffer@.take(i as int));
        }
        let mut j: usize = 0;
        while j < new_gap_len
            invariant
                j <= new_gap_len,
                buffer@.len() == gap_pos + j,
                forall|k: int| 0 <= k < gap_pos ==> buffer@[k] == self.buffer@[k],
            decreases new_gap_len - j,
        {
            buffer.push(GAP_FILLER);
            j = j + 1;
        }
        let mut i: usize = gap_pos + gap_len;
        while i < capacity
            invariant
                gap_pos + gap_len <= i <= capacity,
                self.buffer@.len() == capacity,
                content == capacity - gap_len,
                new_gap_len == new_capacity - content,
                content + new_gap_len <= usize::MAX,
                buffer@.len() == i - gap_len + new_gap_len,
                forall|k: int| 0 <= k < gap_pos ==> buffer@[k] == self.buffer@[k],
                forall|k: int|
                    gap_pos + gap_len <= k < i ==> buffer@[k - gap_len + new_gap_len]
                        == self.buffer@[k],
            decreases capacity - i,
        {
            buffer.push(self.buffer[i]);
            i = i + 1;
        }
        let ghost old_view = self@;
        self.buffer = buffer;
        self.gap_len = new_gap_len;
        assert forall|k: int| 0 <= k < self@.len() implies self@[k] == old_view[k] by {
            if k >= gap_pos {
                assert(self@[k] == self.buffer@[k + new_gap_len]);
            }
        }
        assert(self@ =~= old_view);
    }
}

impl Default for GapBuffer {
    /// An empty buffer with no storage.
    fn default() -> (r: Self)
        ensures
            r.wf(),
            r@ == Seq::<char>::empty(),
            r.capacity() == 0,
            r.gap_start() == 0,
            r.gap_length() == 0,
    {
        let r = GapBuffer { buffer: Vec::new(), gap_pos: 0, gap_len: 0 };
        assert(r@ =~= Seq::<char>::empty());
        r
    }
}

/// A forward walk over the content of a borrowed buffer.
pub struct GapBufferIterator<'b> {
    current_index: usize,
    gap_buffer: &'b GapBuffer,
}

impl<'b> GapBufferIterator<'b> {
    /// The walk stands within the content of a well-formed buffer.
    pub closed spec fn wf(&self) -> bool {
        &&& self.gap_buffer.wf()
        &&& self.current_index <= self.gap_buffer@.len()
    }

    /// The content being walked over.
    pub closed spec fn content(&self) -> Seq<char> {
        self.gap_buffer@
    }

    /// How many characters the walk has handed out.
    pub closed spec fn position(&self) -> nat {
        self.current_index as nat
    }

    /// The characters still to come.
    pub open spec fn remaining(&self) -> Seq<char> {
        self.content().skip(self.position() as int)
    }

    /// The next character of the content, or `None` once all were handed out.
    pub fn next(&mut self) -> (r: Option<char>)
        requires
            old(self).wf(),
        ensures
            final(self).wf(),
            final(self).content() == old(self).content(),
            old(self).position() < old(self).content().len() ==> {
                &&& r == Some(old(self).content()[old(self).position() as int])
                &&& final(self).position() == old(self).position() + 1
            },
            old(self).position() >= old(self).content().len() ==> {
                &&& r is None
                &&& final(self).position() == old(self).position()
            },
            old(self).remaining().len() > 0 ==> {
                &&& r == Some(old(self).remaining()[0])
                &&& final(self).remaining() == old(self).remaining().drop_first()
            },
            old(self).remaining().len() == 0 ==> r is None && final(self).remaining().len() == 0,
    {
        if self.current_index < self.gap_buffer.content_len() {
            let result = Some(self.gap_buffer.get(self.current_index));
            self.current_index = self.current_index + 1;
            assert(self.remaining() =~= old(self).remaining().drop_first());
            result
        } else {
            None
        }
    }
}

} // verus!
