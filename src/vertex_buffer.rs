use vstd::prelude::*;
use crate::geometry::Vertex;

verus! {

/// Capacity, in vertices, of a freshly created buffer.
pub const INITIAL_CAPACITY: usize = 512;

/// What the device must do to take an upload.
#[derive(Clone, Copy, Debug, PartialEq, Eq, Structural)]
pub enum BufferAction {
    /// Write `count` vertices into the current buffer.
    Write { count: usize },
    /// Replace the buffer by one of `capacity` vertices, then write `count`.
    Reallocate { capacity: usize, count: usize },
}

/// Capacity after asking for room for `n` vertices: unchanged when they fit,
/// else the larger of `n` and twice the old capacity (as far as `usize` goes).
pub open spec fn next_capacity(cap: int, n: int) -> int {
    if n <= cap {
        cap
    } else if 2 * cap <= usize::MAX && 2 * cap >= n {
        2 * cap
    } else {
        n
    }
}

/// The action for an upload of `n` vertices into a buffer of capacity `cap`.
pub open spec fn action_for(cap: int, n: int) -> BufferAction {
    if n <= cap {
        BufferAction::Write { count: n as usize }
    } else {
        BufferAction::Reallocate { capacity: next_capacity(cap, n) as usize, count: n as usize }
    }
}

/// Book-keeping for the device vertex buffer that is reused across frames.
pub struct VertexBufferManager {
    capacity: usize,
    used: usize,
}

impl VertexBufferManager {
    pub closed spec fn cap(&self) -> int {
        self.capacity as int
    }

    /// Vertices in the last upload.
    pub closed spec fn last_len(&self) -> int {
        self.used as int
    }

    /// The buffer holds at least the last upload.
    pub open spec fn wf(&self) -> bool {
        self.last_len() <= self.cap()
    }

    /// An empty buffer of `INITIAL_CAPACITY` vertices.
    pub fn new() -> (r: VertexBufferManager)
        ensures
            r.wf(),
            r.cap() == INITIAL_CAPACITY,
            r.last_len() == 0,
    {
        VertexBufferManager { capacity: INITIAL_CAPACITY, used: 0 }
    }

    pub fn capacity(&self) -> (r: usize)
        ensures
            r == self.cap(),
    {
        self.capacity
    }

    /// Takes a vertex list for upload: grows the capacity when it does not
    /// fit, and says what the device has to do.
    pub fn upload(&mut self, vertices: &Vec<Vertex>) -> (r: BufferAction)
        requires
            old(self).wf(),
        ensures
            final(self).wf(),
            final(self).cap() == next_capacity(old(self).cap(), vertices@.len() as int),
            final(self).last_len() == vertices@.len(),
            r == action_for(old(self).cap(), vertices@.len() as int),
    {
        let n = vertices.len();
        if n <= self.capacity {
            self.used = n;
            BufferAction::Write { count: n }
        } else {
            let cap = if self.capacity <= usize::MAX / 2 && 2 * self.capacity >= n {
                2 * self.capacity
            } else {
                n
            };
            self.capacity = cap;
            self.used = n;
            BufferAction::Reallocate { capacity: cap, count: n }
        }
    }
}

/// After an upload of `n` vertices the capacity is at least `n`, and an upload
/// of the same size or smaller right after it writes in place.
pub proof fn lemma_capacity_law(cap: int, n: int, m: int)
    requires
        0 <= cap <= usize::MAX,
        0 <= m <= n <= usize::MAX,
    ensures
        next_capacity(cap, n) >= n,
        next_capacity(cap, n) <= usize::MAX,
        n > cap ==> action_for(cap, n) is Reallocate,
        next_capacity(next_capacity(cap, n), m) == next_capacity(cap, n),
        action_for(next_capacity(cap, n), m) == (BufferAction::Write { count: m as usize }),
{
}

} // verus!
