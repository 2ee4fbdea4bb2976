use vstd::prelude::*;

verus! {

/// The size images are generated at when neither the command line nor the
/// monitors say otherwise.
pub const DEFAULT_WIDTH: u32 = 3840;

pub const DEFAULT_HEIGHT: u32 = 2160;

/// A monitor's logical size and its size in physical pixels (the logical
/// size times the monitor's scale, rounded up).
#[derive(Clone, Copy, Debug, PartialEq, Eq, Structural)]
pub struct MonitorSize {
    pub width: u32,
    pub height: u32,
    pub physical_width: u32,
    pub physical_height: u32,
}

pub open spec fn area(m: MonitorSize) -> int {
    m.width * m.height
}

/// The monitor with the largest logical area; the last one among equals
/// (`Iterator::max_by_key`).
pub open spec fn largest_monitor(monitors: Seq<MonitorSize>) -> MonitorSize
    decreases monitors.len(),
{
    if monitors.len() <= 1 {
        monitors[0]
    } else {
        let best = largest_monitor(monitors.drop_last());
        if area(monitors.last()) >= area(best) {
            monitors.last()
        } else {
            best
        }
    }
}

/// The resolution to generate at: the width and height asked for; where one
/// is missing, that of the largest monitor in physical pixels, when the
/// monitors are known; otherwise 3840 x 2160.
pub open spec fn chosen_resolution(
    width: Option<u32>,
    height: Option<u32>,
    monitors: Option<Seq<MonitorSize>>,
) -> (u32, u32) {
    match (width, height) {
        (Some(w), Some(h)) => (w, h),
        _ => match monitors {
            Some(ms) if ms.len() > 0 => {
                let m = largest_monitor(ms);
                (width.unwrap_or(m.physical_width), height.unwrap_or(m.physical_height))
            },
            _ => (width.unwrap_or(DEFAULT_WIDTH), height.unwrap_or(DEFAULT_HEIGHT)),
        },
    }
}

proof fn lemma_largest_monitor(monitors: Seq<MonitorSize>)
    requires
        monitors.len() > 0,
    ensures
        exists|i: int|
            0 <= i < monitors.len() && monitors[i] == largest_monitor(monitors) && (forall|j: int|
                0 <= j < monitors.len() ==> area(#[trigger] monitors[j]) <= area(monitors[i]))
                && (forall|j: int| i < j < monitors.len() ==> area(#[trigger] monitors[j]) < area(
                monitors[i],
            )),
    decreases monitors.len(),
{
    if monitors.len() > 1 {
        let prefix = monitors.drop_last();
        lemma_largest_monitor(prefix);
        let i = choose|i: int|
            0 <= i < prefix.len() && prefix[i] == largest_monitor(prefix) && (forall|j: int|
                0 <= j < prefix.len() ==> area(#[trigger] prefix[j]) <= area(prefix[i])) && (forall|
                j: int,
            |
                i < j < prefix.len() ==> area(#[trigger] prefix[j]) < area(prefix[i]));
        let last = monitors.len() - 1;
        if area(monitors.last()) >= area(largest_monitor(prefix)) {
            assert(monitors[last] == largest_monitor(monitors));
            assert forall|j: int| 0 <= j < monitors.len() implies area(#[trigger] monitors[j])
                <= area(monitors[last]) by {
                if j < last {
                    assert(monitors[j] == prefix[j]);
                }
            }
        } else {
            assert(monitors[i] == prefix[i]);
            assert forall|j: int| 0 <= j < monitors.len() implies area(#[trigger] monitors[j])
                <= area(monitors[i]) by {
                if j < last {
                    assert(monitors[j] == prefix[j]);
                }
            }
            assert forall|j: int| i < j < monitors.len() implies area(#[trigger] monitors[j])
                < area(monitors[i]) by {
                if j < last {
                    assert(monitors[j] == prefix[j]);
                }
            }
        }
    } else {
        assert(monitors[0] == largest_monitor(monitors));
    }
}

/// What the resolution is made of: a width or height given is used as it
/// is; one that is missing, when the monitors are known, is the physical
/// size of the monitor with the largest logical area (the last one among
/// monitors of equal area), whether or not the other is given; when the
/// monitors are not known, or there are none, it is 3840 x 2160.
pub proof fn lemma_resolution_comes_from_largest_monitor(
    width: Option<u32>,
    height: Option<u32>,
    monitors: Option<Seq<MonitorSize>>,
)
    ensures
        width matches Some(w) ==> chosen_resolution(width, height, monitors).0 == w,
        height matches Some(h) ==> chosen_resolution(width, height, monitors).1 == h,
        (width is None || height is None) ==> match monitors {
            Some(ms) if ms.len() > 0 => exists|i: int|
                {
                    &&& 0 <= i < ms.len()
                    &&& forall|j: int| 0 <= j < ms.len() ==> area(#[trigger] ms[j]) <= area(ms[i])
                    &&& forall|j: int| i < j < ms.len() ==> area(#[trigger] ms[j]) < area(ms[i])
                    &&& width is None ==> chosen_resolution(width, height, monitors).0
                        == ms[i].physical_width
                    &&& height is None ==> chosen_resolution(width, height, monitors).1
                        == ms[i].physical_height
                },
            _ => (width is None ==> chosen_resolution(width, height, monitors).0 == DEFAULT_WIDTH)
                && (height is None ==> chosen_resolution(width, height, monitors).1
                == DEFAULT_HEIGHT),
        },
{
    match monitors {
        Some(ms) => {
            if ms.len() > 0 {
                lemma_largest_monitor(ms);
            }
        },
        None => {},
    }
}

/// Chooses the resolution (see `chosen_resolution`); `monitors` is `None`
/// when the monitors could not be queried.
pub fn resolve_resolution(
    width: Option<u32>,
    height: Option<u32>,
    monitors: Option<&Vec<MonitorSize>>,
) -> (r: (u32, u32))
    requires
        (width is None || height is None) ==> (monitors matches Some(ms) ==> forall|i: int|
            0 <= i < ms@.len() ==> #[trigger] area(ms@[i]) <= u32::MAX),
    ensures
        r == chosen_resolution(
            width,
            height,
            match monitors {
                Some(ms) => Some(ms@),
                None => None,
            },
        ),
{
    if let (Some(w), Some(h)) = (width, height) {
        return (w, h);
    }
    if let Some(ms) = monitors {
        let n = ms.len();
        if n > 0 {
            assert(area(ms@[0]) <= u32::MAX);
            assert(ms@.take(1) =~= seq![ms@[0]]);
            let mut best = ms[0];
            let mut best_area: u32 = ms[0].width * ms[0].height;
            let mut i: usize = 1;
            while i < n
                invariant
                    n == ms@.len(),
                    1 <= i <= n,
                    forall|k: int| 0 <= k < ms@.len() ==> #[trigger] area(ms@[k]) <= u32::MAX,
                    best == largest_monitor(ms@.take(i as int)),
                    best_area == area(best),
                decreases n - i,
            {
                proof {
                    assert(ms@.take(i + 1).drop_last() =~= ms@.take(i as int));
                    assert(ms@.take(i + 1).last() == ms@[i as int]);
                    assert(area(ms@[i as int]) <= u32::MAX);
                }
                let a = ms[i].width * ms[i].height;
                if a >= best_area {
                    best = ms[i];
                    best_area = a;
                }
                i = i + 1;
            }
            assert(ms@.take(n as int) =~= ms@);
            let pw = match width {
                Some(w) => w,
                None => best.physical_width,
            };
            let ph = match height {
                Some(h) => h,
                None => best.physical_height,
            };
            return (pw, ph);
        }
    }
    (
        match width {
            Some(w) => w,
            None => DEFAULT_WIDTH,
        },
        match height {
            Some(h) => h,
            None => DEFAULT_HEIGHT,
        },
    )
}

} // verus!
