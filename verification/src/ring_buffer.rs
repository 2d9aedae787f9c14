//! The bounded, volatile context of recent keystrokes.

use vstd::prelude::*;
use crate::text::push_char;

verus! {

/// How many characters the daemon keeps as typing context.
pub const RING_BUFFER_CAPACITY: usize = 32;

/// One typed character.
#[derive(Clone, Copy, Debug, PartialEq, Eq)]
pub struct Token {
    ch: char,
}

impl View for Token {
    type V = char;

    closed spec fn view(&self) -> char {
        self.ch
    }
}

impl Token {
    /// A token holding `ch`.
    pub fn new(ch: char) -> (t: Self)
        ensures
            t@ == ch,
    {
        Self { ch }
    }

    /// The character of this token.
    pub fn ch(&self) -> (c: char)
        ensures
            c == self@,
    {
        self.ch
    }
}

/// What a buffer of capacity `n` holds after `c` is pushed onto `v`: the
/// newest character is appended and, once `n` are held, the oldest is dropped.
pub open spec fn push_spec(v: Seq<char>, c: char, n: nat) -> Seq<char> {
    if v.len() < n {
        v.push(c)
    } else {
        v.push(c).drop_first()
    }
}

/// What a buffer of capacity `n` holds after every character of `s` is
/// pushed, in order, onto the contents `v`.
pub open spec fn push_all_spec(v: Seq<char>, s: Seq<char>, n: nat) -> Seq<char>
    decreases s.len(),
{
    if s.len() == 0 {
        v
    } else {
        push_spec(push_all_spec(v, s.drop_last(), n), s.last(), n)
    }
}

/// A fixed-capacity buffer of the `N` most recently pushed characters.
#[derive(Clone, Debug)]
pub struct RingBuffer<const N: usize> {
    data: Vec<Option<char>>,
    len: usize,
    head: usize,
}

impl<const N: usize> RingBuffer<N> {
    /// The slot that holds the `k`-th oldest character.
    spec fn slot(&self, k: int) -> int {
        let start = if self.head >= self.len {
            self.head - self.len
        } else {
            self.head + N - self.len
        };
        if start + k < N {
            start + k
        } else {
            start + k - N
        }
    }

    /// The buffer's internal invariant: `N` slots, at most `N` characters
    /// held, and every logical position filled.
    pub closed spec fn wf(&self) -> bool {
        &&& self.data.len() == N
        &&& self.len <= N
        &&& (self.head < N || (N == 0 && self.head == 0))
        &&& forall|k: int| 0 <= k < self.len ==> (#[trigger] self.data@[self.slot(k)]) is Some
    }

    /// The characters held, oldest first.
    pub closed spec fn contents(&self) -> Seq<char> {
        Seq::new(self.len as nat, |k: int| self.data@[self.slot(k)]->0)
    }
}

impl<const N: usize> View for RingBuffer<N> {
    type V = Seq<char>;

    closed spec fn view(&self) -> Seq<char> {
        self.contents()
    }
}

impl<const N: usize> RingBuffer<N> {
    /// An empty buffer.
    pub fn new() -> (b: Self)
        ensures
            b.wf(),
            b@ == Seq::<char>::empty(),
    {
        let mut data: Vec<Option<char>> = Vec::new();
        let mut i: usize = 0;
        while i < N
            invariant
                i <= N,
                data.len() == i,
            decreases N - i,
        {
            data.push(None);
            i = i + 1;
        }
        let b = Self { data, len: 0, head: 0 };
        assert(b.contents() =~= Seq::<char>::empty());
        b
    }

    /// Appends `token`, dropping the oldest character once `N` are held.
    pub fn push(&mut self, token: char)
        requires
            old(self).wf(),
            N > 0,
        ensures
            final(self).wf(),
            final(self)@ == push_spec(old(self)@, token, N as nat),
            final(self)@.len() <= N,
    {
        let ghost before = self.contents();
        let ghost old_len = self.len;
        let h = self.head;
        self.data.set(h, Some(token));
        self.head = if h + 1 == N { 0 } else { h + 1 };
        if self.len < N {
            self.len = self.len + 1;
            assert forall|k: int| 0 <= k < self.len implies (#[trigger] self.data@[self.slot(k)]) is Some
                && self.slot(k) == (if k < old_len { old(self).slot(k) } else { h as int }) by {
                if k < old_len {
                    assert(old(self).data@[old(self).slot(k)] is Some);
                }
            }
            assert(self.contents() =~= before.push(token));
        } else {
            assert forall|k: int| 0 <= k < self.len implies (#[trigger] self.data@[self.slot(k)]) is Some
                && self.slot(k) == (if k + 1 < old_len { old(self).slot(k + 1) } else { h as int }) by {
                if k + 1 < old_len {
                    assert(old(self).data@[old(self).slot(k + 1)] is Some);
                }
            }
            assert(self.contents() =~= before.push(token).drop_first());
        }
    }

    /// How many characters are held.
    pub fn len(&self) -> (n: usize)
        requires
            self.wf(),
        ensures
            n == self@.len(),
    {
        self.len
    }

    /// Whether no character is held.
    pub fn is_empty(&self) -> (b: bool)
        requires
            self.wf(),
        ensures
            b == (self@.len() == 0),
    {
        self.len == 0
    }

    /// The held characters as a string, oldest first.
    pub fn as_string(&self) -> (s: String)
        requires
            self.wf(),
        ensures
            s@ == self@,
    {
        let mut out = String::new();
        let start = if self.head >= self.len {
            self.head - self.len
        } else {
            self.head + (N - self.len)
        };
        let mut offset: usize = 0;
        while offset < self.len
            invariant
                self.data.len() == N,
                self.len <= N,
                offset <= self.len,
                start == (if self.head >= self.len { self.head - self.len } else { self.head + N - self.len }),
                start < N || self.len == 0,
                forall|k: int| 0 <= k < self.len ==> (#[trigger] self.data@[self.slot(k)]) is Some,
                out@ == self.contents().take(offset as int),
            decreases self.len - offset,
        {
            let idx = if offset >= N - start { offset - (N - start) } else { start + offset };
            assert(idx == self.slot(offset as int));
            assert(self.data@[self.slot(offset as int)] is Some);
            if let Some(ch) = self.data[idx] {
                push_char(&mut out, ch);
            }
            offset = offset + 1;
            assert(out@ =~= self.contents().take(offset as int));
        }
        assert(self.contents().take(self.len as int) =~= self.contents());
        out
    }
}

impl<const N: usize> Default for RingBuffer<N> {
    fn default() -> (b: Self)
        ensures
            b.wf(),
            b@ == Seq::<char>::empty(),
    {
        Self::new()
    }
}

/// Pushing the characters of `s` one by one into an empty buffer of
/// capacity `n` leaves exactly the last `n` of them (all of them if there are
/// fewer), in the order they were pushed.
pub proof fn lemma_ring_buffer_keeps_latest(s: Seq<char>, n: nat)
    requires
        n > 0,
    ensures
        push_all_spec(Seq::<char>::empty(), s, n) == s.subrange(
            if s.len() > n { s.len() - n } else { 0 },
            s.len() as int,
        ),
    decreases s.len(),
{
    if s.len() == 0 {
        assert(s.subrange(0, 0) =~= Seq::<char>::empty());
    } else {
        lemma_ring_buffer_keeps_latest(s.drop_last(), n);
        let p = s.drop_last();
        let a = if p.len() > n { p.len() - n } else { 0 };
        let b = if s.len() > n { s.len() - n } else { 0 };
        if p.len() < n {
            assert(p.subrange(a, p.len() as int).push(s.last()) =~= s.subrange(b, s.len() as int));
        } else {
            assert(p.subrange(a, p.len() as int).push(s.last()).drop_first() =~= s.subrange(
                b,
                s.len() as int,
            ));
        }
    }
}

} // verus!
