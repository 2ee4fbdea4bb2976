use vstd::prelude::*;

use std::collections::VecDeque;

verus! {

broadcast use vstd::std_specs::vecdeque::group_vec_dequeue_axioms;

/// What happened. The library never looks inside pointer coordinates,
/// buttons or keys; it only tells the kinds apart.
#[derive(Clone, Copy, Debug)]
pub enum InputKind<C, B, K> {
    MouseMove { x: C, y: C },
    MouseClick { button: B },
    KeyPress { key: K },
    KeyRelease { key: K },
}

/// An input event with the time it was observed, in nanoseconds on the
/// caller's monotonic clock.
#[derive(Clone, Copy, Debug)]
pub struct InputEvent<C, B, K> {
    pub timestamp: u64,
    pub kind: InputKind<C, B, K>,
}

/// `now - duration`, or `now` when that would fall before the clock's origin.
pub open spec fn cutoff(now: u64, duration: u64) -> u64 {
    if duration <= now {
        (now - duration) as u64
    } else {
        now
    }
}

/// The events left after dropping, from the front, every event older than
/// `cut`; the first event at or after `cut` stops the dropping.
pub open spec fn drop_older<C, B, K>(events: Seq<InputEvent<C, B, K>>, cut: u64) -> Seq<
    InputEvent<C, B, K>,
>
    decreases events.len(),
{
    if events.len() > 0 && events[0].timestamp < cut {
        drop_older(events.drop_first(), cut)
    } else {
        events
    }
}

/// The events observed at or after `cut`, in order.
pub open spec fn at_or_after<C, B, K>(events: Seq<InputEvent<C, B, K>>, cut: u64) -> Seq<
    InputEvent<C, B, K>,
> {
    events.filter(|e: InputEvent<C, B, K>| e.timestamp >= cut)
}

/// Every event is no older than the ones before it.
pub open spec fn chronological_events<C, B, K>(events: Seq<InputEvent<C, B, K>>) -> bool {
    forall|i: int, j: int| 0 <= i < j < events.len() ==> events[i].timestamp <= events[j].timestamp
}

proof fn lemma_drop_older_in_order<C, B, K>(events: Seq<InputEvent<C, B, K>>, cut: u64)
    requires
        chronological_events(events),
    ensures
        chronological_events(drop_older(events, cut)),
        forall|i: int|
            0 <= i < drop_older(events, cut).len() ==> #[trigger] drop_older(
                events,
                cut,
            )[i].timestamp >= cut,
        drop_older(events, cut).is_suffix_of(events),
    decreases events.len(),
{
    if events.len() > 0 && events[0].timestamp < cut {
        let rest = events.drop_first();
        assert forall|i: int, j: int| 0 <= i < j < rest.len() implies rest[i].timestamp
            <= rest[j].timestamp by {
            assert(rest[i] == events[i + 1] && rest[j] == events[j + 1]);
        }
        lemma_drop_older_in_order(rest, cut);
        let d = drop_older(rest, cut);
        assert(d =~= events.subrange(events.len() - d.len(), events.len() as int));
    } else {
        if events.len() > 0 {
            assert forall|i: int| 0 <= i < events.len() implies #[trigger] events[i].timestamp
                >= cut by {
                assert(events[0].timestamp <= events[i].timestamp || i == 0);
            }
        }
        assert(events =~= events.subrange(0, events.len() as int));
    }
}

/// Events pushed in time order stay in time order, and after a push the
/// buffer holds exactly the newest events that are no older than
/// `max_duration` before `now`: older ones are all gone, newer ones all kept.
pub proof fn lemma_push_keeps_recent_history<C, B, K>(
    events: Seq<InputEvent<C, B, K>>,
    event: InputEvent<C, B, K>,
    now: u64,
    max_duration: u64,
)
    requires
        chronological_events(events),
        events.len() > 0 ==> events.last().timestamp <= event.timestamp,
    ensures
        chronological_events(drop_older(events.push(event), cutoff(now, max_duration))),
        forall|i: int|
            0 <= i < drop_older(events.push(event), cutoff(now, max_duration)).len()
                ==> #[trigger] drop_older(events.push(event), cutoff(now, max_duration))[i].timestamp
                >= cutoff(now, max_duration),
        drop_older(events.push(event), cutoff(now, max_duration)).is_suffix_of(events.push(event)),
{
    let pushed = events.push(event);
    assert forall|i: int, j: int| 0 <= i < j < pushed.len() implies pushed[i].timestamp
        <= pushed[j].timestamp by {
        if j == pushed.len() - 1 && i < events.len() {
            assert(events[i].timestamp <= events.last().timestamp || i == events.len() - 1);
        }
    }
    lemma_drop_older_in_order(pushed, cutoff(now, max_duration));
}

/// The recent input events, oldest first, holding at most `max_duration`
/// nanoseconds of history (counted from the last push).
pub struct EventBuffer<C, B, K> {
    events: VecDeque<InputEvent<C, B, K>>,
    max_duration: u64,
}

impl<C: Copy, B: Copy, K: Copy> EventBuffer<C, B, K> {
    pub closed spec fn events(&self) -> Seq<InputEvent<C, B, K>> {
        self.events@
    }

    pub closed spec fn max_duration(&self) -> u64 {
        self.max_duration
    }

    /// An empty buffer keeping `max_duration` nanoseconds of history.
    pub fn new(max_duration: u64) -> (b: Self)
        ensures
            b.events() == Seq::<InputEvent<C, B, K>>::empty(),
            b.max_duration() == max_duration,
    {
        EventBuffer { events: VecDeque::new(), max_duration }
    }

    /// Appends `event`, then drops the events older than `max_duration`
    /// before `now`.
    pub fn push(&mut self, event: InputEvent<C, B, K>, now: u64)
        ensures
            final(self).max_duration() == old(self).max_duration(),
            final(self).events() == drop_older(
                old(self).events().push(event),
                cutoff(now, old(self).max_duration()),
            ),
    {
        self.events.push_back(event);
        self.trim_old(now);
    }

    fn trim_old(&mut self, now: u64)
        ensures
            final(self).max_duration == old(self).max_duration,
            final(self).events@ == drop_older(
                old(self).events@,
                cutoff(now, old(self).max_duration),
            ),
    {
        let cut = if self.max_duration <= now {
            now - self.max_duration
        } else {
            now
        };
        while self.events.len() > 0 && self.events[0].timestamp < cut
            invariant
                self.max_duration == old(self).max_duration,
                cut == cutoff(now, old(self).max_duration),
                drop_older(self.events@, cut) == drop_older(old(self).events@, cut),
            decreases self.events@.len(),
        {
            let ghost before = self.events@;
            self.events.pop_front();
            assert(self.events@ == before.drop_first());
        }
    }

    /// The events observed in the last `duration` nanoseconds before `now`,
    /// oldest first.
    pub fn window(&self, duration: u64, now: u64) -> (w: Vec<InputEvent<C, B, K>>)
        ensures
            w@ == at_or_after(self.events(), cutoff(now, duration)),
    {
        let cut = if duration <= now {
            now - duration
        } else {
            now
        };
        let mut out: Vec<InputEvent<C, B, K>> = Vec::new();
        let n = self.events.len();
        let mut i: usize = 0;
        while i < n
            invariant
                n == self.events@.len(),
                i <= n,
                out@ == at_or_after(self.events@.take(i as int), cut),
            decreases n - i,
        {
            let e = self.events[i];
            proof {
                reveal(Seq::filter);
                let t = self.events@.take(i + 1);
                assert(t.drop_last() =~= self.events@.take(i as int));
                assert(t.last() == e);
            }
            if e.timestamp >= cut {
                out.push(e);
            }
            i = i + 1;
        }
        assert(self.events@.take(n as int) =~= self.events@);
        out
    }

    /// The number of buffered events.
    pub fn len(&self) -> (n: usize)
        ensures
            n == self.events().len(),
    {
        self.events.len()
    }
}

} // verus!
