use crate::components::{InputSet, COMMAND_BUFFER_SIZE};
use vstd::prelude::*;

verus! {

/// Ring buffer of the last `COMMAND_BUFFER_SIZE` input sets. Pushing overwrites
/// the oldest set; index 0 is always the newest. Where a producer and the
/// simulation run on different threads, share it behind a lock: each method is
/// then one critical section, and `get_all` a consistent snapshot.
#[derive(Debug)]
pub struct InputBuffer {
    buffer: Vec<InputSet>,
    oldest_index: usize,
}

impl View for InputBuffer {
    type V = Seq<InputSet>;

    /// The held sets, newest first.
    closed spec fn view(&self) -> Seq<InputSet> {
        Seq::new(
            COMMAND_BUFFER_SIZE as nat,
            |i: int|
                self.buffer@[(self.oldest_index + COMMAND_BUFFER_SIZE - i - 1) as int
                    % COMMAND_BUFFER_SIZE as int],
        )
    }
}

impl InputBuffer {
    /// The ring holds exactly `COMMAND_BUFFER_SIZE` sets and the cursor points into it.
    pub closed spec fn wf(&self) -> bool {
        self.buffer@.len() == COMMAND_BUFFER_SIZE && self.oldest_index < COMMAND_BUFFER_SIZE
    }

    /// The history always holds `COMMAND_BUFFER_SIZE` sets.
    pub proof fn lemma_view_len(&self)
        ensures
            self@.len() == COMMAND_BUFFER_SIZE,
    {
    }

    /// Tells whether the buffer is well formed.
    pub fn is_wf(&self) -> (r: bool)
        ensures
            r == self.wf(),
    {
        self.buffer.len() == COMMAND_BUFFER_SIZE && self.oldest_index < COMMAND_BUFFER_SIZE
    }

    /// A buffer whose every set is empty.
    pub fn new() -> (r: InputBuffer)
        ensures
            r.wf(),
            r@.len() == COMMAND_BUFFER_SIZE,
            forall|i: int| 0 <= i < COMMAND_BUFFER_SIZE ==> (#[trigger] r@[i]).empty_spec(),
    {
        let mut buffer: Vec<InputSet> = Vec::new();
        let mut k: usize = 0;
        while k < COMMAND_BUFFER_SIZE
            invariant
                k <= COMMAND_BUFFER_SIZE,
                buffer@.len() == k,
                forall|j: int| 0 <= j < k ==> (#[trigger] buffer@[j]).empty_spec(),
            decreases COMMAND_BUFFER_SIZE - k,
        {
            buffer.push(InputSet::new());
            k = k + 1;
        }
        InputBuffer { buffer, oldest_index: 0 }
    }

    /// Overwrites the oldest set with `input`, which becomes the newest.
    pub fn push(&mut self, input: InputSet)
        requires
            old(self).wf(),
        ensures
            final(self).wf(),
            final(self)@ == seq![input] + old(self)@.subrange(0, COMMAND_BUFFER_SIZE - 1),
    {
        let oldest_index = self.oldest_index;
        self.buffer.set(oldest_index, input);
        self.oldest_index = (self.oldest_index + 1) % COMMAND_BUFFER_SIZE;
        proof {
            assert(self@ =~= seq![input] + old(self)@.subrange(0, COMMAND_BUFFER_SIZE - 1));
        }
    }

    /// The set pushed `i` pushes ago; 0 is the newest.
    pub fn get(&self, i: usize) -> (r: InputSet)
        requires
            self.wf(),
            i < COMMAND_BUFFER_SIZE,
        ensures
            r == self@[i as int],
    {
        self.buffer[(self.oldest_index + COMMAND_BUFFER_SIZE - i - 1) % COMMAND_BUFFER_SIZE]
    }

    /// Every held set, newest first.
    pub fn get_all(&self) -> (r: Vec<InputSet>)
        requires
            self.wf(),
        ensures
            r@ == self@,
            r@.len() == COMMAND_BUFFER_SIZE,
    {
        let mut r: Vec<InputSet> = Vec::new();
        let mut i: usize = 0;
        while i < COMMAND_BUFFER_SIZE
            invariant
                self.wf(),
                i <= COMMAND_BUFFER_SIZE,
                r@ == self@.subrange(0, i as int),
            decreases COMMAND_BUFFER_SIZE - i,
        {
            r.push(self.get(i));
            i = i + 1;
            assert(r@ =~= self@.subrange(0, i as int));
        }
        assert(r@ =~= self@);
        r
    }

    /// The newest set.
    pub fn most_recent(&self) -> (r: InputSet)
        requires
            self.wf(),
        ensures
            r == self@[0],
    {
        self.get(0)
    }
}

impl Default for InputBuffer {
    fn default() -> (r: InputBuffer)
        ensures
            r.wf(),
            r@.len() == COMMAND_BUFFER_SIZE,
            forall|i: int| 0 <= i < COMMAND_BUFFER_SIZE ==> (#[trigger] r@[i]).empty_spec(),
    {
        InputBuffer::new()
    }
}

} // verus!
