use vstd::prelude::*;

use vstd::relations::{sorted_by, total_ordering};

use crate::focus::monitor::{InputEvent, InputKind};

verus! {

broadcast use vstd::seq_lib::group_to_multiset_ensures;

/// The order timestamps are sorted in.
pub open spec fn earlier_or_same(a: u64, b: u64) -> bool {
    a <= b
}

/// `later - earlier`, or zero when `later` is the earlier one (as
/// `Instant::duration_since` saturates).
pub open spec fn elapsed(earlier: u64, later: u64) -> int {
    if earlier <= later { later - earlier } else { 0 }
}

/// Every timestamp is at most every later one.
pub open spec fn ascending(s: Seq<u64>) -> bool {
    forall|i: int, j: int| 0 <= i < j < s.len() ==> s[i] <= s[j]
}

/// Sorts timestamps in ascending order.
fn sort_ascending(v: &mut Vec<u64>)
    ensures
        final(v)@.to_multiset() == old(v)@.to_multiset(),
        ascending(final(v)@),
{
    let n = v.len();
    let mut i: usize = 1;
    if n == 0 {
        return;
    }
    while i < n
        invariant
            n == v.len(),
            1 <= i <= n,
            v@.to_multiset() == old(v)@.to_multiset(),
            forall|a: int, b: int| 0 <= a < b < i ==> v@[a] <= v@[b],
        decreases n - i,
    {
        let mut j: usize = i;
        while j > 0 && v[j - 1] > v[j]
            invariant
                n == v.len(),
                1 <= i < n,
                j <= i,
                v@.to_multiset() == old(v)@.to_multiset(),
                forall|a: int, b: int| 0 <= a < b < j ==> v@[a] <= v@[b],
                forall|a: int, b: int| j <= a < b <= i ==> v@[a] <= v@[b],
                forall|a: int, b: int| 0 <= a < j && j < b <= i ==> v@[a] <= v@[b],
            decreases j,
        {
            let x = v[j - 1];
            let y = v[j];
            let ghost before = v@;
            v.set(j - 1, y);
            v.set(j, x);
            proof {
                assert(v@ == before.update(j - 1, y).update(j as int, x));
                assert(before.update(j - 1, y).to_multiset() == before.to_multiset().insert(
                    y,
                ).remove(x));
                assert(v@.to_multiset() =~= before.to_multiset());
            }
            j = j - 1;
        }
        i = i + 1;
    }
}

/// One second in the nanoseconds timestamps are counted in.
pub open spec fn nanos(secs: u64) -> int {
    secs * 1_000_000_000
}

/// The timestamps of the key presses among `events`, in event order.
pub open spec fn key_press_times<C, B, K>(events: Seq<InputEvent<C, B, K>>) -> Seq<u64>
    decreases events.len(),
{
    if events.len() == 0 {
        Seq::empty()
    } else {
        let rest = key_press_times(events.drop_last());
        match events.last().kind {
            InputKind::KeyPress { .. } => rest.push(events.last().timestamp),
            _ => rest,
        }
    }
}

/// The event is a key press.
pub open spec fn is_key_press<C, B, K>(e: InputEvent<C, B, K>) -> bool {
    e.kind is KeyPress
}

proof fn lemma_key_press_times_filter<C, B, K>(events: Seq<InputEvent<C, B, K>>)
    ensures
        key_press_times(events) == events.filter(|e: InputEvent<C, B, K>| is_key_press(e)).map_values(
            |e: InputEvent<C, B, K>| e.timestamp,
        ),
    decreases events.len(),
{
    reveal(Seq::filter);
    if events.len() > 0 {
        lemma_key_press_times_filter(events.drop_last());
        let f = events.drop_last().filter(|e: InputEvent<C, B, K>| is_key_press(e));
        assert(f.push(events.last()).map_values(|e: InputEvent<C, B, K>| e.timestamp) =~= f.map_values(
            |e: InputEvent<C, B, K>| e.timestamp,
        ).push(events.last().timestamp));
    }
}

/// The typing-burst total (`typing_burst_nanos`) reads the key presses and
/// nothing else: the timestamps it is computed from are exactly those of the
/// key presses, in event order, one per key press; and an event of any other
/// kind (a click, a move, a key release), wherever it stands, changes none
/// of them.
pub proof fn lemma_typing_reads_only_key_presses<C, B, K>(
    before: Seq<InputEvent<C, B, K>>,
    e: InputEvent<C, B, K>,
    after: Seq<InputEvent<C, B, K>>,
)
    ensures
        key_press_times(before) == before.filter(|x: InputEvent<C, B, K>| is_key_press(x)).map_values(
            |x: InputEvent<C, B, K>| x.timestamp,
        ),
        key_press_times(before).len() == before.filter(|x: InputEvent<C, B, K>| is_key_press(x)).len(),
        !is_key_press(e) ==> key_press_times(before + seq![e] + after) == key_press_times(
            before + after,
        ),
{
    let p = |x: InputEvent<C, B, K>| is_key_press(x);
    let t = |x: InputEvent<C, B, K>| x.timestamp;
    lemma_key_press_times_filter(before);
    lemma_key_press_times_filter(before + seq![e] + after);
    lemma_key_press_times_filter(before + after);
    if !is_key_press(e) {
        Seq::filter_distributes_over_add(before + seq![e], after, p);
        Seq::filter_distributes_over_add(before, seq![e], p);
        Seq::filter_distributes_over_add(before, after, p);
        reveal(Seq::filter);
        assert(seq![e].drop_last() =~= Seq::<InputEvent<C, B, K>>::empty());
        assert(Seq::<InputEvent<C, B, K>>::empty().filter(p) =~= Seq::<InputEvent<C, B, K>>::empty());
        assert(seq![e].last() == e);
        assert(!p(e));
        assert(seq![e].filter(p) =~= Seq::<InputEvent<C, B, K>>::empty());
        assert((before + seq![e]).filter(p) =~= before.filter(p));
    }
}

/// The timestamps of all `events`, in event order.
pub open spec fn event_times<C, B, K>(events: Seq<InputEvent<C, B, K>>) -> Seq<u64> {
    events.map_values(|e: InputEvent<C, B, K>| e.timestamp)
}

/// `times` in ascending order.
pub open spec fn chronological(times: Seq<u64>) -> Seq<u64> {
    times.sort_by(|a: u64, b: u64| earlier_or_same(a, b))
}

/// The sum of the gaps between consecutive timestamps that are at most
/// `limit` nanoseconds long.
pub open spec fn short_gap_total(times: Seq<u64>, limit: int) -> int
    decreases times.len(),
{
    if times.len() < 2 {
        0
    } else {
        let gap = elapsed(times[times.len() - 2], times.last());
        short_gap_total(times.drop_last(), limit) + if gap <= limit { gap } else { 0 }
    }
}

/// The sum of the gaps between consecutive timestamps that are longer than
/// `limit` nanoseconds.
pub open spec fn long_gap_total(times: Seq<u64>, limit: int) -> int
    decreases times.len(),
{
    if times.len() < 2 {
        0
    } else {
        let gap = elapsed(times[times.len() - 2], times.last());
        long_gap_total(times.drop_last(), limit) + if gap > limit { gap } else { 0 }
    }
}

/// Between the first and the last of a run of timestamps in time order,
/// every moment lies in a gap that is either short or long: the short gaps
/// (typing bursts) and the long gaps (idle time) add up to the whole span.
pub proof fn lemma_gaps_span(times: Seq<u64>, limit: int)
    requires
        ascending(times),
        times.len() >= 1,
    ensures
        short_gap_total(times, limit) + long_gap_total(times, limit) == times.last() - times[0],
    decreases times.len(),
{
    if times.len() >= 2 {
        let prefix = times.drop_last();
        assert forall|i: int, j: int| 0 <= i < j < prefix.len() implies prefix[i] <= prefix[j] by {
            assert(prefix[i] == times[i] && prefix[j] == times[j]);
        }
        lemma_gaps_span(prefix, limit);
        assert(times[times.len() - 2] <= times.last());
    }
}

proof fn lemma_leq_total()
    ensures
        total_ordering(|a: u64, b: u64| earlier_or_same(a, b)),
{
}

/// A sorted rearrangement of `times` is `chronological(times)`.
proof fn lemma_is_chronological(sorted: Seq<u64>, times: Seq<u64>)
    requires
        ascending(sorted),
        sorted.to_multiset() == times.to_multiset(),
    ensures
        sorted == chronological(times),
        sorted.len() == times.len(),
{
    let leq = |a: u64, b: u64| earlier_or_same(a, b);
    assert forall|i: int, j: int| 0 <= i < j < sorted.len() implies #[trigger] leq(
        sorted[i],
        sorted[j],
    ) by {}
    assert(sorted_by(sorted, leq));
    vstd::seq_lib::to_multiset_len(sorted);
    vstd::seq_lib::to_multiset_len(times);
    lemma_leq_total();
    times.lemma_sort_by_ensures(|a: u64, b: u64| earlier_or_same(a, b));
    vstd::seq_lib::lemma_sorted_unique(
        sorted,
        chronological(times),
        |a: u64, b: u64| earlier_or_same(a, b),
    );
}

/// Whether a gap of `gap` nanoseconds is longer than `secs` seconds.
fn longer_than(gap: u64, secs: u64) -> (r: bool)
    ensures
        r == (gap > nanos(secs)),
{
    match secs.checked_mul(1_000_000_000) {
        Some(limit) => gap > limit,
        None => false,
    }
}

/// The gap totals of a sorted run of timestamps: short gaps and long gaps
/// together span from the first timestamp to the last.
fn gap_totals(times: &Vec<u64>, limit_secs: u64) -> (r: (u64, u64))
    requires
        ascending(times@),
    ensures
        r.0 == short_gap_total(times@, nanos(limit_secs)),
        r.1 == long_gap_total(times@, nanos(limit_secs)),
{
    let n = times.len();
    if n < 2 {
        return (0, 0);
    }
    let mut short: u64 = 0;
    let mut long: u64 = 0;
    let mut i: usize = 1;
    while i < n
        invariant
            n == times@.len(),
            2 <= n,
            1 <= i <= n,
            ascending(times@),
            short == short_gap_total(times@.take(i as int), nanos(limit_secs)),
            long == long_gap_total(times@.take(i as int), nanos(limit_secs)),
            short + long == times@[i - 1] - times@[0],
        decreases n - i,
    {
        assert(times@[i - 1] <= times@[i as int]);
        let gap = times[i] - times[i - 1];
        proof {
            let t = times@.take(i + 1);
            assert(t.drop_last() =~= times@.take(i as int));
            assert(t.last() == times@[i as int]);
            assert(t[t.len() - 2] == times@[i - 1]);
        }
        if longer_than(gap, limit_secs) {
            long = long + gap;
        } else {
            short = short + gap;
        }
        i = i + 1;
    }
    assert(times@.take(n as int) =~= times@);
    (short, long)
}

/// Total time spent in typing bursts: the key presses in time order, with a
/// burst broken wherever two presses are more than `burst_gap_secs` apart;
/// that is, the sum of the gaps between consecutive presses that do not
/// exceed `burst_gap_secs`. `None` when there are fewer than three presses.
pub fn typing_burst_nanos<C: Copy, B: Copy, K: Copy>(
    events: &[InputEvent<C, B, K>],
    burst_gap_secs: u64,
) -> (r: Option<u64>)
    ensures
        key_press_times(events@).len() < 3 ==> r is None,
        key_press_times(events@).len() >= 3 ==> r is Some && r->0 == short_gap_total(
            chronological(key_press_times(events@)),
            nanos(burst_gap_secs),
        ),
{
    let mut keys: Vec<u64> = Vec::new();
    let n = events.len();
    let mut i: usize = 0;
    while i < n
        invariant
            n == events@.len(),
            i <= n,
            keys@ == key_press_times(events@.take(i as int)),
        decreases n - i,
    {
        proof {
            assert(events@.take(i + 1).drop_last() =~= events@.take(i as int));
            assert(events@.take(i + 1).last() == events@[i as int]);
        }
        match events[i].kind {
            InputKind::KeyPress { .. } => keys.push(events[i].timestamp),
            _ => {},
        }
        i = i + 1;
    }
    assert(events@.take(n as int) =~= events@);
    let ghost unsorted = keys@;
    sort_ascending(&mut keys);
    proof {
        lemma_is_chronological(keys@, unsorted);
    }
    if keys.len() < 3 {
        return None;
    }
    let (short, _) = gap_totals(&keys, burst_gap_secs);
    Some(short)
}

/// Total idle time: the sum of the gaps between consecutive events (in
/// time order) that are longer than `idle_gap_secs`. `None` when there are
/// no events at all.
pub fn idle_gap_nanos<C: Copy, B: Copy, K: Copy>(
    events: &[InputEvent<C, B, K>],
    idle_gap_secs: u64,
) -> (r: Option<u64>)
    ensures
        events@.len() == 0 ==> r is None,
        events@.len() > 0 ==> r is Some && r->0 == long_gap_total(
            chronological(event_times(events@)),
            nanos(idle_gap_secs),
        ),
{
    if events.len() == 0 {
        return None;
    }
    let mut times: Vec<u64> = Vec::new();
    let n = events.len();
    let mut i: usize = 0;
    while i < n
        invariant
            n == events@.len(),
            i <= n,
            times@ == event_times(events@.take(i as int)),
        decreases n - i,
    {
        proof {
            assert(event_times(events@.take(i + 1)) =~= event_times(events@.take(i as int)).push(
                events@[i as int].timestamp,
            ));
        }
        times.push(events[i].timestamp);
        i = i + 1;
    }
    assert(events@.take(n as int) =~= events@);
    let ghost unsorted = times@;
    sort_ascending(&mut times);
    proof {
        lemma_is_chronological(times@, unsorted);
    }
    let (_, long) = gap_totals(&times, idle_gap_secs);
    Some(long)
}

/// The number of bins the activity window is divided into.
pub const ACTIVITY_BINS: usize = 30;

/// The start of the activity window: `window_secs` before `now`, or `now`
/// when that would fall before the clock's origin.
pub open spec fn activity_window_start(now: u64, window_secs: u64) -> int {
    if nanos(window_secs) <= now {
        now - nanos(window_secs)
    } else {
        now as int
    }
}

/// The bin an event at `ts` falls in: whole seconds since `start`, divided by
/// the bin width; -1 for events before `start`.
pub open spec fn activity_bin(ts: u64, start: int, bin_secs: u64) -> int {
    if ts < start {
        -1
    } else {
        ((ts - start) / 1_000_000_000) / (bin_secs as int)
    }
}

/// How many of `events` fall in each of the bins.
pub open spec fn bin_counts<C, B, K>(
    events: Seq<InputEvent<C, B, K>>,
    start: int,
    bin_secs: u64,
) -> Seq<int>
    decreases events.len(),
{
    if events.len() == 0 {
        Seq::new(ACTIVITY_BINS as nat, |i: int| 0int)
    } else {
        let counts = bin_counts(events.drop_last(), start, bin_secs);
        let b = activity_bin(events.last().timestamp, start, bin_secs);
        if 0 <= b < ACTIVITY_BINS {
            counts.update(b, counts[b] + 1)
        } else {
            counts
        }
    }
}

/// How many of `events` fall in one of the bins.
pub open spec fn binned_count<C, B, K>(
    events: Seq<InputEvent<C, B, K>>,
    start: int,
    bin_secs: u64,
) -> int
    decreases events.len(),
{
    if events.len() == 0 {
        0
    } else {
        let b = activity_bin(events.last().timestamp, start, bin_secs);
        binned_count(events.drop_last(), start, bin_secs) + if 0 <= b < ACTIVITY_BINS {
            1int
        } else {
            0int
        }
    }
}

/// The sum of a sequence of counts.
pub open spec fn total(counts: Seq<int>) -> int
    decreases counts.len(),
{
    if counts.len() == 0 {
        0
    } else {
        total(counts.drop_last()) + counts.last()
    }
}

proof fn lemma_bin_counts_shape<C, B, K>(
    events: Seq<InputEvent<C, B, K>>,
    start: int,
    bin_secs: u64,
)
    ensures
        bin_counts(events, start, bin_secs).len() == ACTIVITY_BINS,
        forall|j: int|
            0 <= j < ACTIVITY_BINS ==> 0 <= #[trigger] bin_counts(events, start, bin_secs)[j]
                <= events.len(),
    decreases events.len(),
{
    if events.len() > 0 {
        lemma_bin_counts_shape(events.drop_last(), start, bin_secs);
    }
}

proof fn lemma_total_update(counts: Seq<int>, b: int, v: int)
    requires
        0 <= b < counts.len(),
    ensures
        total(counts.update(b, v)) == total(counts) - counts[b] + v,
    decreases counts.len(),
{
    let u = counts.update(b, v);
    if b == counts.len() - 1 {
        assert(u.drop_last() =~= counts.drop_last());
    } else {
        lemma_total_update(counts.drop_last(), b, v);
        assert(u.drop_last() =~= counts.drop_last().update(b, v));
    }
}

proof fn lemma_total_zero(n: nat)
    ensures
        total(Seq::new(n, |i: int| 0int)) == 0,
    decreases n,
{
    if n > 0 {
        lemma_total_zero((n - 1) as nat);
        assert(Seq::new(n, |i: int| 0int).drop_last() =~= Seq::new((n - 1) as nat, |i: int| 0int));
    }
}

/// Every event in the activity window is counted in exactly one bin: the
/// bins add up to the number of events that fall in one.
pub proof fn lemma_bins_count_each_event_once<C, B, K>(
    events: Seq<InputEvent<C, B, K>>,
    start: int,
    bin_secs: u64,
)
    ensures
        total(bin_counts(events, start, bin_secs)) == binned_count(events, start, bin_secs),
    decreases events.len(),
{
    if events.len() == 0 {
        lemma_total_zero(ACTIVITY_BINS as nat);
    } else {
        lemma_bins_count_each_event_once(events.drop_last(), start, bin_secs);
        lemma_bin_counts_shape(events.drop_last(), start, bin_secs);
        let counts = bin_counts(events.drop_last(), start, bin_secs);
        let b = activity_bin(events.last().timestamp, start, bin_secs);
        if 0 <= b < ACTIVITY_BINS {
            lemma_total_update(counts, b, counts[b] + 1);
        }
    }
}

/// The activity histogram: the window of `window_secs` before `now` is cut
/// into `ACTIVITY_BINS` bins of `window_secs / ACTIVITY_BINS` whole seconds,
/// and the events are counted per bin (events before the window, or past
/// the last bin, are not counted). `None` when the bins would be shorter
/// than a second.
pub fn activity_bins<C: Copy, B: Copy, K: Copy>(
    events: &[InputEvent<C, B, K>],
    window_secs: u64,
    now: u64,
) -> (r: Option<Vec<u32>>)
    requires
        events@.len() <= u32::MAX,
    ensures
        window_secs / (ACTIVITY_BINS as u64) == 0 ==> r is None,
        window_secs / (ACTIVITY_BINS as u64) > 0 ==> r is Some && r->0@.len() == ACTIVITY_BINS
            && forall|j: int|
            0 <= j < ACTIVITY_BINS ==> r->0@[j] == #[trigger] bin_counts(
                events@,
                activity_window_start(now, window_secs),
                window_secs / (ACTIVITY_BINS as u64),
            )[j],
{
    let bin_secs = window_secs / (ACTIVITY_BINS as u64);
    if bin_secs == 0 {
        return None;
    }
    let start: u64 = match window_secs.checked_mul(1_000_000_000) {
        Some(w) => if w <= now {
            now - w
        } else {
            now
        },
        None => now,
    };
    assert(start == activity_window_start(now, window_secs));
    let mut bins: Vec<u32> = Vec::new();
    let mut k: usize = 0;
    while k < ACTIVITY_BINS
        invariant
            k <= ACTIVITY_BINS,
            bins@.len() == k,
            forall|j: int| 0 <= j < k ==> bins@[j] == 0,
        decreases ACTIVITY_BINS - k,
    {
        bins.push(0);
        k = k + 1;
    }
    let n = events.len();
    let mut i: usize = 0;
    proof {
        lemma_bin_counts_shape(events@.take(0), start as int, bin_secs);
        assert(events@.take(0) =~= Seq::<InputEvent<C, B, K>>::empty());
    }
    while i < n
        invariant
            n == events@.len(),
            n <= u32::MAX,
            i <= n,
            bin_secs > 0,
            bins@.len() == ACTIVITY_BINS,
            forall|j: int|
                0 <= j < ACTIVITY_BINS ==> bins@[j] == #[trigger] bin_counts(
                    events@.take(i as int),
                    start as int,
                    bin_secs,
                )[j],
        decreases n - i,
    {
        let ghost before = events@.take(i as int);
        proof {
            lemma_bin_counts_shape(before, start as int, bin_secs);
            assert(events@.take(i + 1).drop_last() =~= before);
            assert(events@.take(i + 1).last() == events@[i as int]);
        }
        let ts = events[i].timestamp;
        if ts >= start {
            let bin = ((ts - start) / 1_000_000_000) / bin_secs;
            if bin < ACTIVITY_BINS as u64 {
                let idx = bin as usize;
                assert(bins@[idx as int] == bin_counts(before, start as int, bin_secs)[idx as int]);
                assert(bins@[idx as int] <= i);
                let c = bins[idx] + 1;
                bins.set(idx, c);
            }
        }
        i = i + 1;
    }
    assert(events@.take(n as int) =~= events@);
    Some(bins)
}

/// The pointer positions of the mouse moves among `events`, in order.
pub open spec fn mouse_positions<C, B, K>(events: Seq<InputEvent<C, B, K>>) -> Seq<(C, C)>
    decreases events.len(),
{
    if events.len() == 0 {
        Seq::empty()
    } else {
        let rest = mouse_positions(events.drop_last());
        match events.last().kind {
            InputKind::MouseMove { x, y } => rest.push((x, y)),
            _ => rest,
        }
    }
}

/// Scanning `events` for mouse segments: the segments closed so far, the
/// segment being built and the time of the last mouse move. A move more than
/// `gap` nanoseconds after the previous one closes the current segment.
pub open spec fn segment_scan<C, B, K>(events: Seq<InputEvent<C, B, K>>, gap: int) -> (
    Seq<Seq<(C, C)>>,
    Seq<(C, C)>,
    Option<u64>,
)
    decreases events.len(),
{
    if events.len() == 0 {
        (Seq::empty(), Seq::empty(), None)
    } else {
        let (closed, current, last_move) = segment_scan(events.drop_last(), gap);
        let e = events.last();
        match e.kind {
            InputKind::MouseMove { x, y } => {
                let breaks = match last_move {
                    Some(prev) => elapsed(prev, e.timestamp) > gap,
                    None => false,
                };
                if breaks && current.len() > 0 {
                    (closed.push(current), seq![(x, y)], Some(e.timestamp))
                } else {
                    (closed, current.push((x, y)), Some(e.timestamp))
                }
            },
            _ => (closed, current, last_move),
        }
    }
}

/// The mouse moves of `events`, split into segments wherever two
/// consecutive moves are more than `gap` nanoseconds apart.
pub open spec fn mouse_segments<C, B, K>(events: Seq<InputEvent<C, B, K>>, gap: int) -> Seq<
    Seq<(C, C)>,
> {
    let (closed, current, _) = segment_scan(events, gap);
    if current.len() > 0 {
        closed.push(current)
    } else {
        closed
    }
}

proof fn lemma_segment_scan_covers<C, B, K>(events: Seq<InputEvent<C, B, K>>, gap: int)
    ensures
        segment_scan(events, gap).0.flatten() + segment_scan(events, gap).1 == mouse_positions(
            events,
        ),
        forall|i: int|
            0 <= i < segment_scan(events, gap).0.len() ==> #[trigger] segment_scan(
                events,
                gap,
            ).0[i].len() > 0,
    decreases events.len(),
{
    broadcast use Seq::lemma_flatten_push;

    if events.len() > 0 {
        lemma_segment_scan_covers(events.drop_last(), gap);
        let (closed, current, _) = segment_scan(events.drop_last(), gap);
        let e = events.last();
        match e.kind {
            InputKind::MouseMove { x, y } => {
                assert(closed.push(current).flatten() =~= closed.flatten() + current);
                assert(closed.flatten() + current.push((x, y)) =~= (closed.flatten()
                    + current).push((x, y)));
                assert(closed.flatten() + current + seq![(x, y)] =~= (closed.flatten()
                    + current).push((x, y)));
            },
            _ => {},
        }
    }
}

/// Splitting loses and adds nothing: the segments, laid end to end, are the
/// mouse positions in order, and no segment is empty.
pub proof fn lemma_segments_partition_moves<C, B, K>(events: Seq<InputEvent<C, B, K>>, gap: int)
    ensures
        mouse_segments(events, gap).flatten() == mouse_positions(events),
        forall|i: int|
            0 <= i < mouse_segments(events, gap).len() ==> #[trigger] mouse_segments(
                events,
                gap,
            )[i].len() > 0,
{
    broadcast use Seq::lemma_flatten_push;

    lemma_segment_scan_covers(events, gap);
    let (closed, current, _) = segment_scan(events, gap);
    if current.len() == 0 {
        assert(closed.flatten() + current =~= closed.flatten());
    }
}

/// The event is a mouse move.
pub open spec fn is_mouse_move<C, B, K>(e: InputEvent<C, B, K>) -> bool {
    e.kind is MouseMove
}

/// The mouse moves among `events`, in order.
pub open spec fn mouse_moves<C, B, K>(events: Seq<InputEvent<C, B, K>>) -> Seq<InputEvent<C, B, K>> {
    events.filter(|e: InputEvent<C, B, K>| is_mouse_move(e))
}

proof fn lemma_segment_scan_state<C, B, K>(events: Seq<InputEvent<C, B, K>>, gap: int)
    ensures
        segment_scan(events, gap).2 == (if mouse_moves(events).len() > 0 {
            Some(mouse_moves(events).last().timestamp)
        } else {
            None::<u64>
        }),
        segment_scan(events, gap).1.len() > 0 <==> mouse_moves(events).len() > 0,
        mouse_moves(events).len() == 0 ==> segment_scan(events, gap).0.len() == 0,
    decreases events.len(),
{
    reveal(Seq::filter);
    if events.len() > 0 {
        lemma_segment_scan_state(events.drop_last(), gap);
    }
}

/// Events other than mouse moves leave the mouse segments as they are.
pub proof fn lemma_segments_ignore_other_events<C, B, K>(
    events: Seq<InputEvent<C, B, K>>,
    e: InputEvent<C, B, K>,
    gap: int,
)
    requires
        !is_mouse_move(e),
    ensures
        mouse_segments(events.push(e), gap) == mouse_segments(events, gap),
        mouse_moves(events.push(e)) == mouse_moves(events),
{
    reveal(Seq::filter);
    assert(events.push(e).drop_last() =~= events);
}

/// How a mouse move at position (`x`, `y`) extends the segments: the first
/// move of all starts the first segment; a move more than `gap` nanoseconds
/// after the previous mouse move (whatever other events came in between)
/// starts a new segment; a move at most `gap` after it joins the last
/// segment.
pub proof fn lemma_segments_split_at_pauses<C, B, K>(
    events: Seq<InputEvent<C, B, K>>,
    e: InputEvent<C, B, K>,
    x: C,
    y: C,
    gap: int,
)
    requires
        e.kind == (InputKind::<C, B, K>::MouseMove { x, y }),
    ensures
        mouse_moves(events).len() == 0 ==> mouse_segments(events.push(e), gap) == seq![seq![(x, y)]],
        mouse_moves(events).len() > 0 && elapsed(mouse_moves(events).last().timestamp, e.timestamp)
            > gap ==> mouse_segments(events.push(e), gap) == mouse_segments(events, gap).push(
            seq![(x, y)],
        ),
        mouse_moves(events).len() > 0 && elapsed(mouse_moves(events).last().timestamp, e.timestamp)
            <= gap ==> mouse_segments(events.push(e), gap) == mouse_segments(
            events,
            gap,
        ).drop_last().push(mouse_segments(events, gap).last().push((x, y))),
        mouse_moves(events.push(e)) == mouse_moves(events).push(e),
{
    reveal(Seq::filter);
    lemma_segment_scan_state(events, gap);
    assert(events.push(e).drop_last() =~= events);
    let (closed, current, last_move) = segment_scan(events, gap);
    if mouse_moves(events).len() == 0 {
        assert(closed.push(seq![(x, y)]) =~= seq![seq![(x, y)]]);
        assert(current.push((x, y)) =~= seq![(x, y)]);
    } else {
        assert(closed.push(current).drop_last() =~= closed);
    }
}

/// The number of mouse moves among `events`.
pub fn mouse_move_count<C: Copy, B: Copy, K: Copy>(events: &[InputEvent<C, B, K>]) -> (n: usize)
    ensures
        n == mouse_positions(events@).len(),
{
    let len = events.len();
    let mut n: usize = 0;
    let mut i: usize = 0;
    while i < len
        invariant
            len == events@.len(),
            i <= len,
            n == mouse_positions(events@.take(i as int)).len(),
            n <= i,
        decreases len - i,
    {
        proof {
            assert(events@.take(i + 1).drop_last() =~= events@.take(i as int));
            assert(events@.take(i + 1).last() == events@[i as int]);
        }
        match events[i].kind {
            InputKind::MouseMove { .. } => {
                n = n + 1;
            },
            _ => {},
        }
        i = i + 1;
    }
    assert(events@.take(len as int) =~= events@);
    n
}

/// Splits the mouse moves of `events` into segments, a new segment starting
/// wherever a move comes more than `gap_nanos` after the previous move.
pub fn split_mouse_segments<C: Copy, B: Copy, K: Copy>(
    events: &[InputEvent<C, B, K>],
    gap_nanos: u64,
) -> (segments: Vec<Vec<(C, C)>>)
    ensures
        segments@.map_values(|v: Vec<(C, C)>| v@) == mouse_segments(events@, gap_nanos as int),
{
    let mut segments: Vec<Vec<(C, C)>> = Vec::new();
    let mut current: Vec<(C, C)> = Vec::new();
    let mut prev_ts: Option<u64> = None;
    let n = events.len();
    let mut i: usize = 0;
    while i < n
        invariant
            n == events@.len(),
            i <= n,
            segment_scan(events@.take(i as int), gap_nanos as int) == (
                segments@.map_values(|v: Vec<(C, C)>| v@),
                current@,
                prev_ts,
            ),
        decreases n - i,
    {
        proof {
            assert(events@.take(i + 1).drop_last() =~= events@.take(i as int));
            assert(events@.take(i + 1).last() == events@[i as int]);
        }
        let event = events[i];
        match event.kind {
            InputKind::MouseMove { x, y } => {
                let breaks = match prev_ts {
                    Some(prev) => (if prev <= event.timestamp {
                        event.timestamp - prev
                    } else {
                        0
                    }) > gap_nanos,
                    None => false,
                };
                if breaks && current.len() > 0 {
                    let done = current;
                    let ghost before = segments@;
                    segments.push(done);
                    assert(segments@.map_values(|v: Vec<(C, C)>| v@) =~= before.map_values(
                        |v: Vec<(C, C)>| v@,
                    ).push(done@));
                    current = Vec::new();
                    current.push((x, y));
                    assert(current@ =~= seq![(x, y)]);
                } else {
                    current.push((x, y));
                }
                prev_ts = Some(event.timestamp);
            },
            _ => {},
        }
        i = i + 1;
    }
    assert(events@.take(n as int) =~= events@);
    if current.len() > 0 {
        let ghost before = segments@;
        segments.push(current);
        assert(segments@.map_values(|v: Vec<(C, C)>| v@) =~= before.map_values(
            |v: Vec<(C, C)>| v@,
        ).push(current@));
    }
    segments
}

} // verus!
