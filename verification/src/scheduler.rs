//! A queue of timed events that fire once the cycle counter reaches them.
use vstd::prelude::*;

verus! {

#[derive(Debug, Clone, Copy, PartialEq, Eq, Structural)]
pub enum EventKind {
    VBlank,
}

#[derive(Debug, Clone, Copy, PartialEq, Eq, Structural)]
pub struct Event {
    pub fire_time: u64,
    pub kind: EventKind,
}

/// `e` comes first among the events of `q`: none fires strictly earlier.
pub open spec fn is_earliest(q: Seq<Event>, e: Event) -> bool {
    forall|j: int| 0 <= j < q.len() ==> e.fire_time <= #[trigger] q[j].fire_time
}

#[derive(Debug, Clone)]
pub struct Scheduler {
    pub timestamp: u64,
    pub queue: Vec<Event>,
}

impl Scheduler {
    pub fn new() -> (r: Self)
        ensures
            r.timestamp == 0,
            r.queue@ == Seq::<Event>::empty(),
    {
        Self { timestamp: 0, queue: Vec::new() }
    }

    pub fn timestamp(&self) -> (r: u64)
        ensures
            r == self.timestamp,
    {
        self.timestamp
    }

    /// Advances the clock; it saturates rather than wrapping.
    pub fn add_cycles(&mut self, cycles: u64)
        ensures
            final(self).timestamp as int == if old(self).timestamp + cycles > u64::MAX {
                u64::MAX as int
            } else {
                old(self).timestamp + cycles
            },
            final(self).queue@ == old(self).queue@,
    {
        self.timestamp = self.timestamp.saturating_add(cycles);
    }

    pub fn schedule(&mut self, event: Event)
        ensures
            final(self).queue@ == old(self).queue@.push(event),
            final(self).timestamp == old(self).timestamp,
    {
        self.queue.push(event);
    }

    /// Index of an event that fires no later than any other one.
    fn earliest_index(&self) -> (r: usize)
        requires
            self.queue.len() > 0,
        ensures
            r < self.queue.len(),
            is_earliest(self.queue@, self.queue@[r as int]),
    {
        let mut best: usize = 0;
        let mut i: usize = 1;
        while i < self.queue.len()
            invariant
                0 < self.queue.len(),
                best < i <= self.queue.len(),
                forall|j: int| 0 <= j < i ==> self.queue@[best as int].fire_time <= #[trigger] self.queue@[j].fire_time,
            decreases self.queue.len() - i,
        {
            if self.queue[i].fire_time < self.queue[best].fire_time {
                best = i;
            }
            i += 1;
        }
        best
    }

    /// Removes and returns the earliest event once its time has come.
    pub fn pop_if_ready(&mut self) -> (r: Option<Event>)
        ensures
            final(self).timestamp == old(self).timestamp,
            match r {
                Some(e) => {
                    &&& e.fire_time <= old(self).timestamp
                    &&& is_earliest(old(self).queue@, e)
                    &&& exists|i: int|
                        0 <= i < old(self).queue@.len() && old(self).queue@[i] == e
                            && final(self).queue@ == old(self).queue@.remove(i)
                },
                None => {
                    &&& final(self).queue@ == old(self).queue@
                    &&& forall|j: int|
                        0 <= j < old(self).queue@.len() ==> old(self).timestamp < #[trigger] old(self).queue@[j].fire_time
                },
            },
    {
        if self.queue.len() == 0 {
            return None;
        }
        let best = self.earliest_index();
        if self.queue[best].fire_time <= self.timestamp {
            let e = self.queue.remove(best);
            Some(e)
        } else {
            None
        }
    }
}

impl Default for Scheduler {
    fn default() -> (r: Self)
        ensures
            r.timestamp == 0,
            r.queue@ == Seq::<Event>::empty(),
    {
        Self::new()
    }
}

} // verus!
