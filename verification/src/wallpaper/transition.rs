use vstd::prelude::*;

use vstd::string::StringExecFns;

use std::path::Path;

use crate::config::TransitionConfig;
use crate::text::{has_prefix, has_suffix, push_char};
use crate::wallpaper::setter::WallpaperSetter;

verus! {

/// The decimal digit for `d` (0 to 9).
pub open spec fn digit_char(d: int) -> char {
    ('0' as int + d) as char
}

/// The decimal digits of `n`, most significant first, without leading zeros.
pub open spec fn decimal(n: nat) -> Seq<char>
    decreases n,
{
    if n < 10 {
        seq![digit_char(n as int)]
    } else {
        decimal(n / 10).push(digit_char((n % 10) as int))
    }
}

/// The decimal digits of `n`, padded with zeros to at least four digits
/// (`{:04}`).
pub open spec fn four_digits(n: nat) -> Seq<char> {
    let d = decimal(n);
    if d.len() < 4 {
        Seq::new((4 - d.len()) as nat, |i: int| '0') + d
    } else {
        d
    }
}

/// The file the frame of step `step` is shown from: `frame_NNNN.png`.
pub open spec fn frame_name(step: nat) -> Seq<char> {
    "frame_"@ + four_digits(step) + ".png"@
}

/// The file the frame of step `step` is written to before it is renamed
/// into place: `frame_NNNN.tmp.png`.
pub open spec fn temporary_frame_name(step: nat) -> Seq<char> {
    "frame_"@ + four_digits(step) + ".tmp.png"@
}

/// A file the transition writes its frames to.
pub open spec fn is_frame_name(name: Seq<char>) -> bool {
    "frame_"@.is_prefix_of(name) && ".png"@.is_suffix_of(name)
}

/// A file a transition that was cut short may have left behind.
pub open spec fn is_stale_frame_name(name: Seq<char>) -> bool {
    ("frame_"@.is_prefix_of(name) || ".tmp.png"@.is_suffix_of(name)) && ".png"@.is_suffix_of(name)
}

fn push_str(s: &mut String, t: &str)
    ensures
        final(s)@ == old(s)@ + t@,
{
    s.append(t);
}

fn digit(d: u32) -> (c: char)
    requires
        d < 10,
    ensures
        c == digit_char(d as int),
{
    let b = d as u8;
    (48u8 + b) as char
}

/// The decimal digits of `n`.
fn decimal_digits(n: u32) -> (s: Vec<char>)
    ensures
        s@ == decimal(n as nat),
    decreases n,
{
    if n < 10 {
        let mut s = Vec::new();
        s.push(digit(n));
        assert(s@ =~= seq![digit_char(n as int)]);
        s
    } else {
        let mut s = decimal_digits(n / 10);
        s.push(digit(n % 10));
        s
    }
}

proof fn lemma_decimal_len(n: nat)
    ensures
        1 <= decimal(n).len(),
    decreases n,
{
    if n >= 10 {
        lemma_decimal_len(n / 10);
    }
}

/// `name` followed by the step number padded to four digits.
fn append_step(name: &mut String, step: u32)
    ensures
        final(name)@ == old(name)@ + four_digits(step as nat),
{
    let digits = decimal_digits(step);
    let ghost start = name@;
    if digits.len() < 4 {
        let zeros = 4 - digits.len();
        let mut k: usize = 0;
        while k < zeros
            invariant
                k <= zeros,
                name@ == start + Seq::new(k as nat, |i: int| '0'),
            decreases zeros - k,
        {
            push_char(name, '0');
            assert(Seq::new((k + 1) as nat, |i: int| '0') =~= Seq::new(k as nat, |i: int| '0').push(
                '0',
            ));
            k = k + 1;
        }
    }
    let ghost padded = name@;
    let n = digits.len();
    let mut i: usize = 0;
    while i < n
        invariant
            n == digits@.len(),
            i <= n,
            name@ == padded + digits@.take(i as int),
        decreases n - i,
    {
        push_char(name, digits[i]);
        assert(digits@.take(i + 1) =~= digits@.take(i as int).push(digits@[i as int]));
        i = i + 1;
    }
    assert(digits@.take(n as int) =~= digits@);
    if digits.len() < 4 {
        assert(name@ =~= start + four_digits(step as nat));
    } else {
        assert(name@ =~= start + four_digits(step as nat));
    }
}

/// `frame_NNNN.png` for `step`.
pub fn frame_file_name(step: u32) -> (name: String)
    ensures
        name@ == frame_name(step as nat),
{
    let mut name = String::from_str("frame_");
    append_step(&mut name, step);
    push_str(&mut name, ".png");
    name
}

/// `frame_NNNN.tmp.png` for `step`.
pub fn temporary_frame_file_name(step: u32) -> (name: String)
    ensures
        name@ == temporary_frame_name(step as nat),
{
    let mut name = String::from_str("frame_");
    append_step(&mut name, step);
    push_str(&mut name, ".tmp.png");
    name
}

/// The number a run of decimal digits stands for.
pub open spec fn digits_value(s: Seq<char>) -> int
    decreases s.len(),
{
    if s.len() == 0 {
        0
    } else {
        digits_value(s.drop_last()) * 10 + (s.last() as int - '0' as int)
    }
}

proof fn lemma_decimal_value(n: nat)
    ensures
        digits_value(decimal(n)) == n,
    decreases n,
{
    if n >= 10 {
        lemma_decimal_value(n / 10);
        let d = decimal(n);
        assert(d.drop_last() =~= decimal(n / 10));
        assert(d.last() == digit_char((n % 10) as int));
        assert(digit_char((n % 10) as int) as int == '0' as int + n % 10);
        assert(digits_value(d) == digits_value(d.drop_last()) * 10 + (n % 10));
        assert((n / 10) * 10 + n % 10 == n);
        assert(digits_value(decimal(n)) == n);
    } else {
        assert(digit_char(n as int) as int == '0' as int + n);
        assert(decimal(n).drop_last() =~= Seq::<char>::empty());
        assert(digits_value(Seq::<char>::empty()) == 0);
        assert(decimal(n).last() == digit_char(n as int));
        assert(digits_value(decimal(n)) == n);
    }
}

proof fn lemma_leading_zeros_value(k: nat, s: Seq<char>)
    ensures
        digits_value(Seq::new(k, |i: int| '0') + s) == digits_value(s),
    decreases k + s.len(),
{
    let z = Seq::new(k, |i: int| '0');
    if s.len() > 0 {
        lemma_leading_zeros_value(k, s.drop_last());
        assert((z + s).drop_last() =~= z + s.drop_last());
    } else if k > 0 {
        lemma_leading_zeros_value((k - 1) as nat, s);
        assert(z + s =~= Seq::new((k - 1) as nat, |i: int| '0').push('0'));
        assert((z + s).drop_last() =~= Seq::new((k - 1) as nat, |i: int| '0') + s);
    } else {
        assert(z + s =~= s);
    }
}

/// Different steps write different files: a frame never overwrites another
/// one, in particular not the one on screen.
pub proof fn lemma_frame_names_distinct(a: nat, b: nat)
    requires
        a != b,
    ensures
        frame_name(a) != frame_name(b),
        temporary_frame_name(a) != temporary_frame_name(b),
        frame_name(a) != temporary_frame_name(b),
{
    reveal_strlit("frame_");
    reveal_strlit(".png");
    reveal_strlit(".tmp.png");
    lemma_decimal_value(a);
    lemma_decimal_value(b);
    lemma_decimal_len(a);
    lemma_decimal_len(b);
    let da = four_digits(a);
    let db = four_digits(b);
    if decimal(a).len() < 4 {
        lemma_leading_zeros_value((4 - decimal(a).len()) as nat, decimal(a));
    }
    if decimal(b).len() < 4 {
        lemma_leading_zeros_value((4 - decimal(b).len()) as nat, decimal(b));
    }
    assert(digits_value(da) == a);
    assert(digits_value(db) == b);
    if frame_name(a) == frame_name(b) {
        assert(da =~= frame_name(a).subrange(6, frame_name(a).len() - 4));
        assert(db =~= frame_name(b).subrange(6, frame_name(b).len() - 4));
    }
    if temporary_frame_name(a) == temporary_frame_name(b) {
        assert(da =~= temporary_frame_name(a).subrange(6, temporary_frame_name(a).len() - 8));
        assert(db =~= temporary_frame_name(b).subrange(6, temporary_frame_name(b).len() - 8));
    }
    if frame_name(a) == temporary_frame_name(b) {
        let f = frame_name(a);
        let t = temporary_frame_name(b);
        assert(f[f.len() - 5] == da.last());
        assert(t[t.len() - 5] == 'p');
        assert(da.last() == decimal(a).last());
    }
}

/// The pauses of a transition add up to its duration, to within less than a
/// millisecond per step: `steps` pauses of `pause_ms`.
pub proof fn lemma_pauses_fill_duration(config: TransitionConfig)
    requires
        config.steps > 0,
    ensures
        config.steps * ((config.duration_secs * 1000) / (config.steps as int)) <= config.duration_secs
            * 1000,
        config.duration_secs * 1000 < config.steps * ((config.duration_secs * 1000) / (
        config.steps as int)) + config.steps,
{
    let total = config.duration_secs * 1000;
    let n = config.steps as int;
    vstd::arithmetic::div_mod::lemma_fundamental_div_mod(total, n);
    assert(0 <= total % n < n) by {
        vstd::arithmetic::div_mod::lemma_mod_bound(total, n);
    }
}

/// Whether `name` is a frame file of a transition (what a finished
/// transition removes).
pub fn is_frame_file_name(name: &str) -> (r: bool)
    ensures
        r == is_frame_name(name@),
{
    has_prefix(name, "frame_") && has_suffix(name, ".png")
}

/// Whether `name` is a frame file, or the temporary file of one, that an
/// interrupted transition may have left (what start-up and shut-down
/// remove).
pub fn is_stale_frame_file_name(name: &str) -> (r: bool)
    ensures
        r == is_stale_frame_name(name@),
{
    (has_prefix(name, "frame_") || has_suffix(name, ".tmp.png")) && has_suffix(name, ".png")
}

/// Every file a transition writes is one that the clean-up after it, and the
/// clean-up at start-up, remove: nothing is left behind.
pub proof fn lemma_frame_files_are_cleaned_up(step: nat)
    ensures
        is_frame_name(frame_name(step)),
        is_stale_frame_name(frame_name(step)),
        is_stale_frame_name(temporary_frame_name(step)),
        is_frame_name(temporary_frame_name(step)),
{
    reveal_strlit("frame_");
    reveal_strlit(".png");
    reveal_strlit(".tmp.png");
    let f = frame_name(step);
    let t = temporary_frame_name(step);
    let d = four_digits(step);
    assert(f.subrange(0, 6) =~= "frame_"@);
    assert(t.subrange(0, 6) =~= "frame_"@);
    assert(f.subrange(f.len() - 4, f.len() as int) =~= ".png"@);
    assert(t.subrange(t.len() - 4, t.len() as int) =~= ".png"@);
    assert(t.subrange(t.len() - 8, t.len() as int) =~= ".tmp.png"@);
}

/// What one step of a transition does: write the blended frame to
/// `temporary_name`, rename it to `frame_name` and show it; then, if there
/// is one, remove the previous step's frame; then pause for `pause_ms`
/// milliseconds.
pub struct FrameStep {
    pub frame_name: String,
    pub temporary_name: String,
    pub previous_frame: Option<String>,
    pub pause_ms: u64,
}

/// `s` is what step `step` of a transition made with `config` does: its
/// frame files, the previous frame to remove (none at step 0) and the pause
/// that follows (none after the last step).
pub open spec fn is_frame_step(s: FrameStep, step: nat, config: TransitionConfig) -> bool {
    &&& s.frame_name@ == frame_name(step)
    &&& s.temporary_name@ == temporary_frame_name(step)
    &&& step == 0 ==> s.previous_frame is None
    &&& step > 0 ==> (s.previous_frame matches Some(p) && p@ == frame_name((step - 1) as nat))
    &&& step < config.steps ==> s.pause_ms == (config.duration_secs * 1000) / (config.steps as int)
    &&& step == config.steps ==> s.pause_ms == 0
}

/// The file the finished transition leaves on screen: `current.png`.
pub fn final_frame_file_name() -> (name: String)
    ensures
        name@ == "current.png"@,
{
    String::from_str("current.png")
}

/// Runs a wallpaper transition through `setter`, writing frames to
/// `output_dir`.
pub struct TransitionRunner<'a> {
    setter: &'a WallpaperSetter,
    config: &'a TransitionConfig,
    output_dir: &'a Path,
}

impl<'a> TransitionRunner<'a> {
    pub closed spec fn setter_spec(&self) -> &'a WallpaperSetter {
        self.setter
    }

    pub closed spec fn config_spec(&self) -> TransitionConfig {
        *self.config
    }

    pub closed spec fn output_dir_spec(&self) -> &'a Path {
        self.output_dir
    }

    pub fn new(setter: &'a WallpaperSetter, config: &'a TransitionConfig, output_dir: &'a Path) -> (r: Self)
        ensures
            r.setter_spec() == setter,
            r.config_spec() == *config,
            r.output_dir_spec() == output_dir,
    {
        TransitionRunner { setter, config, output_dir }
    }

    pub fn setter(&self) -> (s: &'a WallpaperSetter)
        ensures
            s == self.setter_spec(),
    {
        self.setter
    }

    pub fn config(&self) -> (c: &'a TransitionConfig)
        ensures
            *c == self.config_spec(),
    {
        self.config
    }

    pub fn output_dir(&self) -> (d: &'a Path)
        ensures
            d == self.output_dir_spec(),
    {
        self.output_dir
    }

    /// The pause between two steps: the transition's duration, in
    /// milliseconds, divided by the number of steps (rounded down).
    pub fn step_pause_ms(&self) -> (ms: u64)
        requires
            self.config_spec().steps > 0,
            self.config_spec().duration_secs * 1000 <= u64::MAX,
        ensures
            ms == (self.config_spec().duration_secs * 1000) / (self.config_spec().steps as int),
    {
        self.config.duration_secs * 1000 / (self.config.steps as u64)
    }

    /// What step `step` (of `0..=steps`) of the transition does (see
    /// `is_frame_step`).
    pub fn frame_step(&self, step: u32) -> (s: FrameStep)
        requires
            step <= self.config_spec().steps,
            self.config_spec().steps > 0,
            self.config_spec().duration_secs * 1000 <= u64::MAX,
        ensures
            is_frame_step(s, step as nat, self.config_spec()),
    {
        let previous_frame = if step == 0 {
            None
        } else {
            Some(frame_file_name(step - 1))
        };
        let pause_ms = if step < self.config.steps {
            self.step_pause_ms()
        } else {
            0
        };
        FrameStep {
            frame_name: frame_file_name(step),
            temporary_name: temporary_frame_file_name(step),
            previous_frame,
            pause_ms,
        }
    }

    /// The steps of the transition, in order: steps `0` to `steps`, both
    /// included, each as `frame_step` gives it. After the last one, the new
    /// wallpaper is shown from `final_frame_file_name()`.
    pub fn frame_steps(&self) -> (plan: Vec<FrameStep>)
        requires
            self.config_spec().steps > 0,
            self.config_spec().duration_secs * 1000 <= u64::MAX,
        ensures
            plan@.len() == self.config_spec().steps + 1,
            forall|i: int|
                0 <= i < plan@.len() ==> is_frame_step(#[trigger] plan@[i], i as nat, self.config_spec()),
    {
        let steps = self.config.steps;
        let mut plan: Vec<FrameStep> = Vec::new();
        let mut k: u64 = 0;
        while k <= steps as u64
            invariant
                steps == self.config_spec().steps,
                self.config_spec().steps > 0,
                self.config_spec().duration_secs * 1000 <= u64::MAX,
                k <= steps + 1,
                plan@.len() == k,
                forall|i: int|
                    0 <= i < k ==> is_frame_step(#[trigger] plan@[i], i as nat, self.config_spec()),
            decreases steps + 1 - k,
        {
            let step = self.frame_step(k as u32);
            plan.push(step);
            k = k + 1;
        }
        plan
    }
}

} // verus!
