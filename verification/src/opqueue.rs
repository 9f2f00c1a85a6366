//! Operations that wait for their frame.

use vstd::prelude::*;

verus! {

struct OpqueueEntry<T> {
    target_frame: u32,
    entry: T,
}

impl<T> OpqueueEntry<T> {
    fn new(op: T, target_frame: u32) -> (made: Self)
        ensures
            made.target_frame == target_frame,
            made.entry == op,
    {
        OpqueueEntry { target_frame, entry: op }
    }
}

/// Operations, each due a number of frames from now.
pub struct Opqueue<T> {
    opqueue: Vec<OpqueueEntry<T>>,
}

/// The operations of `waiting`, in order, that are due at the next frame:
/// those with at most one frame to wait.
pub open spec fn due<T>(waiting: Seq<(T, u32)>) -> Seq<T>
    decreases waiting.len(),
{
    if waiting.len() == 0 {
        Seq::empty()
    } else if waiting.last().1 <= 1 {
        due(waiting.drop_last()).push(waiting.last().0)
    } else {
        due(waiting.drop_last())
    }
}

/// The operations of `waiting`, in order, that are not due at the next
/// frame, each with one frame less to wait.
pub open spec fn still_waiting<T>(waiting: Seq<(T, u32)>) -> Seq<(T, u32)>
    decreases waiting.len(),
{
    if waiting.len() == 0 {
        Seq::empty()
    } else if waiting.last().1 <= 1 {
        still_waiting(waiting.drop_last())
    } else {
        still_waiting(waiting.drop_last()).push(
            (waiting.last().0, (waiting.last().1 - 1) as u32),
        )
    }
}

impl<T> Opqueue<T> {
    /// The operations that wait, in the order they were added, each with the
    /// number of frames it has to wait.
    pub closed spec fn waiting(&self) -> Seq<(T, u32)> {
        self.opqueue@.map_values(|e: OpqueueEntry<T>| (e.entry, e.target_frame))
    }

    /// A queue without operations.
    pub fn new() -> (queue: Self)
        ensures
            queue.waiting() == Seq::<(T, u32)>::empty(),
    {
        let queue = Opqueue { opqueue: Vec::new() };
        assert(queue.waiting() =~= Seq::<(T, u32)>::empty());
        queue
    }

    /// Adds `op`, due `target_frame` frames from now.
    pub fn add_op(&mut self, op: T, target_frame: u32)
        ensures
            final(self).waiting() == old(self).waiting().push((op, target_frame)),
    {
        self.opqueue.push(OpqueueEntry::new(op, target_frame));
        assert(self.waiting() =~= old(self).waiting().push((op, target_frame)));
    }

    /// Moves on by one frame and hands out the operations that are due, in
    /// the order they were added. An operation is due when it has no frame
    /// left to wait; one added with no frame to wait is due at once.
    pub fn get_frame_ops(&mut self) -> (active: Vec<T>)
        ensures
            active@ == due(old(self).waiting()),
            final(self).waiting() == still_waiting(old(self).waiting()),
    {
        let ghost all = self.waiting();
        let mut backwards: Vec<OpqueueEntry<T>> = Vec::new();
        let n = self.opqueue.len();
        let mut taken: usize = 0;
        while taken < n
            invariant
                n == all.len(),
                taken <= n,
                self.opqueue@.len() == n - taken,
                backwards@.len() == taken,
                forall|i: int|
                    0 <= i < n - taken ==> (self.opqueue@[i].entry, self.opqueue@[i].target_frame)
                        == #[trigger] all[i],
                forall|i: int|
                    0 <= i < taken ==> (backwards@[i].entry, backwards@[i].target_frame)
                        == #[trigger] all[n - 1 - i],
            decreases n - taken,
        {
            match self.opqueue.pop() {
                Some(entry) => {
                    backwards.push(entry);
                },
                None => {},
            }
            taken += 1;
        }
        let mut active: Vec<T> = Vec::new();
        let mut done: usize = 0;
        assert(all.subrange(0, 0) =~= Seq::<(T, u32)>::empty());
        assert(self.waiting() =~= Seq::<(T, u32)>::empty());
        while done < n
            invariant
                n == all.len(),
                done <= n,
                backwards@.len() == n - done,
                forall|i: int|
                    0 <= i < n - done ==> (backwards@[i].entry, backwards@[i].target_frame)
                        == #[trigger] all[n - 1 - i],
                active@ == due(all.subrange(0, done as int)),
                self.waiting() == still_waiting(all.subrange(0, done as int)),
            decreases n - done,
        {
            let ghost kept = self.waiting();
            proof {
                assert(all.subrange(0, done + 1).drop_last() =~= all.subrange(0, done as int));
                assert(all.subrange(0, done + 1).last() == all[done as int]);
                let last = n - done - 1;
                assert(all[n - 1 - last] == all[done as int]);
                assert((backwards@[last].entry, backwards@[last].target_frame) == all[n - 1
                    - last]);
            }
            match backwards.pop() {
                Some(entry) => {
                    assert((entry.entry, entry.target_frame) == all[done as int]);
                    if entry.target_frame <= 1 {
                        active.push(entry.entry);
                    } else {
                        let ghost moved = (entry.entry, (entry.target_frame - 1) as u32);
                        self.opqueue.push(
                            OpqueueEntry { target_frame: entry.target_frame - 1, entry: entry.entry },
                        );
                        assert(self.waiting() =~= kept.push(moved));
                    }
                },
                None => {},
            }
            done += 1;
        }
        assert(all.subrange(0, n as int) =~= all);
        active
    }
}

} // verus!
