use vstd::prelude::*;

use vstd::string::{StrSliceExecFns, StringExecFns};
use vstd::utf8::{decode_utf8, valid_utf8};

use crate::text::{
    chars_of, contains, contains_str, find, find_chars, lemma_find, occurs_at,
    lemma_find_skip, str_equals, substring,
};

verus! {

/// How the wallpaper is set.
#[derive(Clone, Copy, Debug, PartialEq, Eq, Structural)]
pub enum WallpaperBackend {
    /// Hyprland + hyprpaper: rewrite hyprpaper.conf and restart hyprpaper.
    Hyprpaper,
    /// Sway and other Wayland compositors: restart swaybg.
    Swaybg,
    /// GNOME (X11/Wayland): gsettings.
    Gsettings,
    /// Generic X11: feh.
    Feh,
    /// macOS: osascript.
    Macos,
    /// Windows: SystemParametersInfoW.
    Windows,
}

/// Why no backend could be chosen, or why a wallpaper cannot be set.
#[derive(Clone, Copy, Debug, PartialEq, Eq, Structural)]
pub enum SetterError {
    /// On Linux, nothing in the environment points to a usable backend.
    BackendNotDetected,
    /// The platform is neither Linux, macOS nor Windows.
    UnsupportedPlatform,
    /// Hyprland reported no monitor to show the wallpaper on.
    NoMonitors,
}

/// The platform the program runs on.
#[derive(Clone, Copy, Debug, PartialEq, Eq, Structural)]
pub enum TargetOs {
    Linux,
    Macos,
    Windows,
    Other,
}

/// What backend detection looks at: the platform, which environment
/// variables are set, the desktop name and whether hyprctl is installed.
pub struct DesktopProbe {
    pub os: TargetOs,
    /// `HYPRLAND_INSTANCE_SIGNATURE` is set.
    pub hyprland_instance_signature: bool,
    /// `hyprctl` is installed.
    pub hyprctl_available: bool,
    /// `WAYLAND_DISPLAY` is set.
    pub wayland_display: bool,
    /// `SWAYSOCK` is set.
    pub swaysock: bool,
    /// The value of `XDG_CURRENT_DESKTOP`, when it is set.
    pub current_desktop: Option<String>,
    /// `DISPLAY` is set.
    pub display: bool,
}

/// The backend a name given on the command line or in the configuration
/// stands for; `None` for `"auto"` and for every other name.
pub open spec fn backend_named(name: Seq<char>) -> Option<WallpaperBackend> {
    if name == "hyprpaper"@ {
        Some(WallpaperBackend::Hyprpaper)
    } else if name == "swaybg"@ {
        Some(WallpaperBackend::Swaybg)
    } else if name == "gsettings"@ {
        Some(WallpaperBackend::Gsettings)
    } else if name == "feh"@ {
        Some(WallpaperBackend::Feh)
    } else if name == "macos"@ {
        Some(WallpaperBackend::Macos)
    } else if name == "windows"@ {
        Some(WallpaperBackend::Windows)
    } else {
        None
    }
}

/// The desktop is GNOME or Unity: its name contains "GNOME" or "Unity"
/// (letter case counts).
pub open spec fn gnome_like(desktop: Option<String>) -> bool {
    match desktop {
        Some(d) => contains(d@, "GNOME"@) || contains(d@, "Unity"@),
        None => false,
    }
}

/// Backend detection, in order of preference: macOS and Windows have one
/// backend each; on Linux, Hyprland (its instance signature set and hyprctl
/// installed) comes first; then on Wayland swaybg under Sway and gsettings
/// otherwise; then on X11 gsettings on GNOME or Unity and feh otherwise;
/// with neither display, no backend.
pub open spec fn detected_backend(p: DesktopProbe) -> Result<WallpaperBackend, SetterError> {
    match p.os {
        TargetOs::Macos => Ok(WallpaperBackend::Macos),
        TargetOs::Windows => Ok(WallpaperBackend::Windows),
        TargetOs::Other => Err(SetterError::UnsupportedPlatform),
        TargetOs::Linux => {
            if p.hyprland_instance_signature && p.hyprctl_available {
                Ok(WallpaperBackend::Hyprpaper)
            } else if p.wayland_display {
                if p.swaysock {
                    Ok(WallpaperBackend::Swaybg)
                } else {
                    Ok(WallpaperBackend::Gsettings)
                }
            } else if p.display {
                if gnome_like(p.current_desktop) {
                    Ok(WallpaperBackend::Gsettings)
                } else {
                    Ok(WallpaperBackend::Feh)
                }
            } else {
                Err(SetterError::BackendNotDetected)
            }
        },
    }
}

/// The backend `name` stands for (see `backend_named`).
pub fn backend_from_name(name: &str) -> (r: Option<WallpaperBackend>)
    ensures
        r == backend_named(name@),
{
    if str_equals(name, "hyprpaper") {
        Some(WallpaperBackend::Hyprpaper)
    } else if str_equals(name, "swaybg") {
        Some(WallpaperBackend::Swaybg)
    } else if str_equals(name, "gsettings") {
        Some(WallpaperBackend::Gsettings)
    } else if str_equals(name, "feh") {
        Some(WallpaperBackend::Feh)
    } else if str_equals(name, "macos") {
        Some(WallpaperBackend::Macos)
    } else if str_equals(name, "windows") {
        Some(WallpaperBackend::Windows)
    } else {
        None
    }
}

fn is_gnome_like(desktop: &Option<String>) -> (r: bool)
    ensures
        r == gnome_like(*desktop),
{
    match desktop {
        Some(d) => contains_str(d.as_str(), "GNOME") || contains_str(d.as_str(), "Unity"),
        None => false,
    }
}

/// Chooses the backend for the environment described by `probe`.
pub fn detect_backend(probe: &DesktopProbe) -> (r: Result<WallpaperBackend, SetterError>)
    ensures
        r == detected_backend(*probe),
{
    match probe.os {
        TargetOs::Macos => Ok(WallpaperBackend::Macos),
        TargetOs::Windows => Ok(WallpaperBackend::Windows),
        TargetOs::Other => Err(SetterError::UnsupportedPlatform),
        TargetOs::Linux => {
            if probe.hyprland_instance_signature && probe.hyprctl_available {
                return Ok(WallpaperBackend::Hyprpaper);
            }
            if probe.wayland_display {
                if probe.swaysock {
                    return Ok(WallpaperBackend::Swaybg);
                }
                return Ok(WallpaperBackend::Gsettings);
            }
            if probe.display {
                if is_gnome_like(&probe.current_desktop) {
                    return Ok(WallpaperBackend::Gsettings);
                }
                return Ok(WallpaperBackend::Feh);
            }
            Err(SetterError::BackendNotDetected)
        },
    }
}

/// Sets wallpapers through one backend.
pub struct WallpaperSetter {
    backend: WallpaperBackend,
}

impl View for WallpaperSetter {
    type V = WallpaperBackend;

    closed spec fn view(&self) -> WallpaperBackend {
        self.backend
    }
}

impl WallpaperSetter {
    /// A setter for the backend named `backend_str`, or, for `"auto"` and any
    /// name that is not a backend's, for the backend detected from `probe`.
    pub fn new(backend_str: &str, probe: &DesktopProbe) -> (r: Result<WallpaperSetter, SetterError>)
        ensures
            backend_named(backend_str@) matches Some(b) ==> r matches Ok(s) && s@ == b,
            backend_named(backend_str@) is None ==> match detected_backend(*probe) {
                Ok(b) => r matches Ok(s) && s@ == b,
                Err(e) => r == Err::<WallpaperSetter, SetterError>(e),
            },
    {
        let backend = match backend_from_name(backend_str) {
            Some(b) => b,
            None => detect_backend(probe)?,
        };
        Ok(WallpaperSetter { backend })
    }

    /// A setter for `backend`.
    pub fn with_backend(backend: WallpaperBackend) -> (s: WallpaperSetter)
        ensures
            s@ == backend,
    {
        WallpaperSetter { backend }
    }

    /// The backend this setter uses.
    pub fn backend(&self) -> (b: WallpaperBackend)
        ensures
            b == self@,
    {
        self.backend
    }
}

/// A character with the Unicode White_Space property (`char::is_whitespace`).
pub open spec fn is_white_space(c: char) -> bool {
    let u = c as u32;
    ||| 0x9 <= u <= 0xd
    ||| u == 0x20
    ||| u == 0x85
    ||| u == 0xa0
    ||| u == 0x1680
    ||| 0x2000 <= u <= 0x200a
    ||| u == 0x2028
    ||| u == 0x2029
    ||| u == 0x202f
    ||| u == 0x205f
    ||| u == 0x3000
}

/// The number of white-space characters at the start of `s`.
pub open spec fn leading_white_space(s: Seq<char>) -> int
    decreases s.len(),
{
    if s.len() > 0 && is_white_space(s[0]) {
        1 + leading_white_space(s.drop_first())
    } else {
        0
    }
}

/// `s` without its leading white space (`str::trim_start`).
pub open spec fn trim_start(s: Seq<char>) -> Seq<char> {
    s.skip(leading_white_space(s))
}

/// A character that can be part of a number in hyprctl's output: an ASCII
/// digit, `.` or `-`.
pub open spec fn is_number_char(c: char) -> bool {
    ('0' <= c && c <= '9') || c == '.' || c == '-'
}

/// The position of the first character of `s` that cannot be part of a
/// number, if any.
pub open spec fn number_end_from(s: Seq<char>, i: int) -> Option<int>
    decreases s.len() - i,
{
    if i < 0 || i >= s.len() {
        None
    } else if !is_number_char(s[i]) {
        Some(i)
    } else {
        number_end_from(s, i + 1)
    }
}

/// The value of the string field `key` of a JSON object written the way
/// hyprctl writes it: the text between the first two double quotes after the
/// first `"key":`.
pub open spec fn json_string_field(obj: Seq<char>, key: Seq<char>) -> Option<Seq<char>> {
    let search = seq!['"'] + key + seq!['"', ':'];
    match find(obj, search) {
        None => None,
        Some(pos) => {
            let rest = obj.skip(pos + search.len());
            match find(rest, seq!['"']) {
                None => None,
                Some(q) => match find(rest.skip(q + 1), seq!['"']) {
                    None => None,
                    Some(end) => Some(rest.subrange(q + 1, q + 1 + end)),
                },
            }
        },
    }
}

/// The first occurrence of `needle` in `hay` is at `k`: it occurs there and
/// nowhere before.
proof fn lemma_find_at(hay: Seq<char>, needle: Seq<char>, k: int)
    requires
        occurs_at(hay, needle, k),
        forall|j: int| 0 <= j < k ==> !occurs_at(hay, needle, j),
    ensures
        find(hay, needle) == Some(k),
{
    lemma_find(hay, needle);
    match find(hay, needle) {
        Some(i) => {
            if i < k {
                assert(!occurs_at(hay, needle, i));
            }
            if i > k {
                assert(!occurs_at(hay, needle, k));
            }
        },
        None => {
            assert(occurs_at(hay, needle, k));
        },
    }
}

/// The position of the first `"` of `s`, given that the part before `k`
/// holds none and `s[k]` is one.
proof fn lemma_first_quote(s: Seq<char>, k: int)
    requires
        0 <= k < s.len(),
        s[k] == '"',
        forall|j: int| 0 <= j < k ==> s[j] != '"',
    ensures
        find(s, seq!['"']) == Some(k),
{
    assert(s.subrange(k, k + 1) =~= seq!['"']);
    assert forall|j: int| 0 <= j < k implies !occurs_at(s, seq!['"'], j) by {
        if occurs_at(s, seq!['"'], j) {
            assert(s.subrange(j, j + 1)[0] == s[j]);
        }
    }
    lemma_find_at(s, seq!['"'], k);
}

/// A string field is read from the first `"key":` of the object: when the
/// object is `pre`, then `"key":`, then text without a double quote, then
/// `"v"` with `v` free of double quotes, then anything at all (further
/// `"key":` fields of nested objects included), and `"key":` does not occur
/// before that point, the field's value is `v`. In particular an object that
/// begins with `"key": "v"` has the value `v`.
pub proof fn lemma_string_field_is_first(
    pre: Seq<char>,
    key: Seq<char>,
    gap: Seq<char>,
    v: Seq<char>,
    rest: Seq<char>,
)
    requires
        forall|i: int| 0 <= i < gap.len() ==> gap[i] != '"',
        forall|i: int| 0 <= i < v.len() ==> v[i] != '"',
        forall|j: int|
            0 <= j < pre.len() ==> !occurs_at(
                pre + seq!['"'] + key + seq!['"', ':'] + gap + seq!['"'] + v + seq!['"'] + rest,
                seq!['"'] + key + seq!['"', ':'],
                j,
            ),
    ensures
        json_string_field(
            pre + seq!['"'] + key + seq!['"', ':'] + gap + seq!['"'] + v + seq!['"'] + rest,
            key,
        ) == Some(v),
{
    let search = seq!['"'] + key + seq!['"', ':'];
    let tail = gap + seq!['"'] + v + seq!['"'] + rest;
    let obj = pre + seq!['"'] + key + seq!['"', ':'] + gap + seq!['"'] + v + seq!['"'] + rest;
    assert(obj =~= pre + search + tail);
    assert(obj.subrange(pre.len() as int, (pre.len() + search.len()) as int) =~= search);
    lemma_find_at(obj, search, pre.len() as int);
    let r = obj.skip((pre.len() + search.len()) as int);
    assert(r =~= tail);
    lemma_first_quote(r, gap.len() as int);
    let r2 = r.skip((gap.len() + 1) as int);
    assert(r2 =~= v + seq!['"'] + rest);
    lemma_first_quote(r2, v.len() as int);
    assert(r.subrange((gap.len() + 1) as int, (gap.len() + 1 + v.len()) as int) =~= v);
}

/// The text of the number that follows the first occurrence of `key`: after
/// the key and any white space, the characters up to the first one that
/// cannot be part of a number. `None` when the key does not occur or the
/// number runs to the end of the object.
pub open spec fn json_number_text(obj: Seq<char>, key: Seq<char>) -> Option<Seq<char>> {
    match find(obj, key) {
        None => None,
        Some(pos) => {
            let rest = trim_start(obj.skip(pos + key.len()));
            match number_end_from(rest, 0) {
                None => None,
                Some(end) => Some(rest.take(end)),
            }
        },
    }
}

fn white_space(c: char) -> (r: bool)
    ensures
        r == is_white_space(c),
{
    let u = c as u32;
    (0x9 <= u && u <= 0xd) || u == 0x20 || u == 0x85 || u == 0xa0 || u == 0x1680 || (0x2000 <= u
        && u <= 0x200a) || u == 0x2028 || u == 0x2029 || u == 0x202f || u == 0x205f || u == 0x3000
}

fn number_char(c: char) -> (r: bool)
    ensures
        r == is_number_char(c),
{
    ('0' <= c && c <= '9') || c == '.' || c == '-'
}

/// The string field `key` of a monitor object in hyprctl's JSON output.
pub fn extract_json_str(obj: &str, key: &str) -> (r: Option<String>)
    ensures
        r matches Some(v) ==> json_string_field(obj@, key@) == Some(v@),
        r is None ==> json_string_field(obj@, key@) is None,
{
    let text = chars_of(obj);
    let mut search: Vec<char> = Vec::new();
    search.push('"');
    let k = chars_of(key);
    let mut i: usize = 0;
    while i < k.len()
        invariant
            i <= k@.len(),
            search@ == seq!['"'] + k@.take(i as int),
        decreases k@.len() - i,
    {
        search.push(k[i]);
        proof {
            assert(k@.take(i + 1) == k@.take(i as int).push(k@[i as int]));
            assert(seq!['"'] + k@.take(i + 1) =~= (seq!['"'] + k@.take(i as int)).push(k@[i as int]));
        }
        i = i + 1;
    }
    search.push('"');
    search.push(':');
    assert(k@.take(k@.len() as int) =~= k@);
    assert(search@ =~= seq!['"'] + key@ + seq!['"', ':']);
    proof {
        lemma_find(text@, search@);
    }
    let pos = match find_chars(&text, &search, 0) {
        Some(p) => p,
        None => return None,
    };
    assert(find(text@, search@) == Some(pos as int));
    let n = text.len();
    assert(pos + search@.len() <= n);
    let base = pos + search.len();
    let mut quote: Vec<char> = Vec::new();
    quote.push('"');
    assert(quote@ =~= seq!['"']);
    let rest = Ghost(text@.skip(base as int));
    proof {
        lemma_find_skip(text@, quote@, base as int, 0);
        lemma_find(rest@, quote@);
    }
    let q = match find_chars(&text, &quote, base) {
        Some(q) => q,
        None => return None,
    };
    assert(find(rest@, quote@) == Some(q - base));
    assert(q + 1 <= n);
    let start = q + 1;
    proof {
        assert(rest@.skip(q - base + 1) =~= text@.skip(start as int));
        lemma_find_skip(text@, quote@, start as int, 0);
    }
    let end = match find_chars(&text, &quote, start) {
        Some(e) => e,
        None => return None,
    };
    proof {
        lemma_find(text@.skip(start as int), quote@);
        assert(rest@.subrange(q - base + 1, q - base + 1 + (end - start)) =~= text@.subrange(
            start as int,
            end as int,
        ));
    }
    Some(substring(obj, start, end))
}

/// The number text of field `key` (written with its quotes and colon, as
/// `"\"width\":"`) of a monitor object in hyprctl's JSON output.
pub fn extract_json_number_text(obj: &str, key: &str) -> (r: Option<String>)
    ensures
        r matches Some(v) ==> json_number_text(obj@, key@) == Some(v@),
        r is None ==> json_number_text(obj@, key@) is None,
{
    let text = chars_of(obj);
    let k = chars_of(key);
    let n = text.len();
    proof {
        lemma_find(text@, k@);
    }
    let pos = match find_chars(&text, &k, 0) {
        Some(p) => p,
        None => return None,
    };
    assert(find(text@, k@) == Some(pos as int));
    assert(pos + k@.len() <= n);
    let base = pos + k.len();
    let mut j = base;
    while j < n && white_space(text[j])
        invariant
            n == text@.len(),
            base <= j <= n,
            leading_white_space(text@.skip(base as int)) == (j - base) + leading_white_space(
                text@.skip(j as int),
            ),
        decreases n - j,
    {
        assert(text@.skip(j as int).drop_first() =~= text@.skip(j + 1));
        assert(text@.skip(j as int)[0] == text@[j as int]);
        j = j + 1;
    }
    assert(leading_white_space(text@.skip(j as int)) == 0) by {
        if j < n {
            assert(text@.skip(j as int)[0] == text@[j as int]);
        }
    }
    let ghost trimmed = text@.skip(j as int);
    assert(trim_start(text@.skip(base as int)) =~= trimmed);
    let mut e = j;
    while e < n && number_char(text[e])
        invariant
            n == text@.len(),
            j <= e <= n,
            trimmed == text@.skip(j as int),
            number_end_from(trimmed, 0) == number_end_from(trimmed, e - j),
        decreases n - e,
    {
        assert(trimmed[e - j] == text@[e as int]);
        e = e + 1;
    }
    if e == n {
        return None;
    }
    assert(trimmed[e - j] == text@[e as int]);
    assert(trimmed.take(e - j) =~= text@.subrange(j as int, e as int));
    Some(substring(obj, j, e))
}

/// Scanning hyprctl's output for top-level `{ ... }` objects: the brace depth,
/// where the current top-level object started, and the objects found. A
/// `}` that brings the depth to zero closes the object opened at depth one.
pub open spec fn object_scan(text: Seq<char>) -> (int, Option<int>, Seq<Seq<char>>)
    decreases text.len(),
{
    if text.len() == 0 {
        (0, None, Seq::empty())
    } else {
        let (depth, start, objects) = object_scan(text.drop_last());
        let i = text.len() - 1;
        let c = text.last();
        if c == '{' {
            (depth + 1, if depth + 1 == 1 { Some(i) } else { start }, objects)
        } else if c == '}' {
            if depth - 1 == 0 {
                (
                    0,
                    None,
                    match start {
                        Some(s) => objects.push(text.subrange(s, i + 1)),
                        None => objects,
                    },
                )
            } else {
                (depth - 1, start, objects)
            }
        } else {
            (depth, start, objects)
        }
    }
}

/// The brace depth never leaves the range of an `i32` while `text` is
/// scanned.
pub open spec fn depth_fits(text: Seq<char>) -> bool {
    forall|k: int|
        0 <= k <= text.len() ==> i32::MIN <= #[trigger] object_scan(text.take(k)).0 <= i32::MAX
}

/// The texts of the fields of one monitor.
pub struct MonitorText {
    pub name: Seq<char>,
    pub width: Seq<char>,
    pub height: Seq<char>,
    pub scale: Seq<char>,
}

/// A monitor object's name and the texts of its width, height and scale;
/// `None` when one of them is missing.
pub open spec fn monitor_text(obj: Seq<char>) -> Option<MonitorText> {
    match (
        json_string_field(obj, "name"@),
        json_number_text(obj, "\"width\":"@),
        json_number_text(obj, "\"height\":"@),
        json_number_text(obj, "\"scale\":"@),
    ) {
        (Some(name), Some(width), Some(height), Some(scale)) => Some(
            MonitorText { name, width, height, scale },
        ),
        _ => None,
    }
}

/// The monitors of `objects` that have all four fields, in order.
pub open spec fn monitor_texts(objects: Seq<Seq<char>>) -> Seq<MonitorText>
    decreases objects.len(),
{
    if objects.len() == 0 {
        Seq::empty()
    } else {
        let rest = monitor_texts(objects.drop_last());
        match monitor_text(objects.last()) {
            Some(m) => rest.push(m),
            None => rest,
        }
    }
}

/// One monitor as hyprctl describes it: its name and the texts of its
/// width, height and scale (converted to numbers by the caller).
pub struct MonitorFields {
    pub name: String,
    pub width: String,
    pub height: String,
    pub scale: String,
}

impl View for MonitorFields {
    type V = MonitorText;

    open spec fn view(&self) -> MonitorText {
        MonitorText { name: self.name@, width: self.width@, height: self.height@, scale: self.scale@ }
    }
}

/// Reads one monitor object.
pub fn parse_monitor_object(obj: &str) -> (r: Option<MonitorFields>)
    ensures
        r matches Some(m) ==> monitor_text(obj@) == Some(m@),
        r is None ==> monitor_text(obj@) is None,
{
    let name = extract_json_str(obj, "name");
    let width = extract_json_number_text(obj, "\"width\":");
    let height = extract_json_number_text(obj, "\"height\":");
    let scale = extract_json_number_text(obj, "\"scale\":");
    match (name, width, height, scale) {
        (Some(name), Some(width), Some(height), Some(scale)) => Some(
            MonitorFields { name, width, height, scale },
        ),
        _ => None,
    }
}

/// The top-level objects of hyprctl's JSON output, in order.
pub fn split_top_level_objects(text: &str) -> (objects: Vec<String>)
    requires
        depth_fits(text@),
    ensures
        objects@.map_values(|o: String| o@) == object_scan(text@).2,
{
    let chars = chars_of(text);
    let n = chars.len();
    let mut depth: i32 = 0;
    let mut start: Option<usize> = None;
    let mut objects: Vec<String> = Vec::new();
    let mut i: usize = 0;
    assert(chars@.take(0) =~= Seq::<char>::empty());
    while i < n
        invariant
            n == chars@.len(),
            chars@ == text@,
            depth_fits(text@),
            i <= n,
            object_scan(chars@.take(i as int)) == (
                depth as int,
                match start {
                    Some(s) => Some(s as int),
                    None => None,
                },
                objects@.map_values(|o: String| o@),
            ),
            start matches Some(s) ==> s < i,
        decreases n - i,
    {
        let ghost prefix = chars@.take(i + 1);
        proof {
            assert(prefix.drop_last() =~= chars@.take(i as int));
            assert(prefix.last() == chars@[i as int]);
            assert(i32::MIN <= object_scan(chars@.take(i + 1)).0 <= i32::MAX);
        }
        let c = chars[i];
        if c == '{' {
            depth = depth + 1;
            if depth == 1 {
                start = Some(i);
            }
        } else if c == '}' {
            depth = depth - 1;
            if depth == 0 {
                match start {
                    Some(s) => {
                        let ghost before = objects@;
                        let obj = substring(text, s, i + 1);
                        assert(obj@ =~= prefix.subrange(s as int, i + 1));
                        objects.push(obj);
                        assert(objects@.map_values(|o: String| o@) =~= before.map_values(
                            |o: String| o@,
                        ).push(obj@));
                    },
                    None => {},
                }
                start = None;
            }
        }
        i = i + 1;
    }
    assert(chars@.take(n as int) =~= chars@);
    objects
}

/// The monitors described in hyprctl's JSON output (`hyprctl monitors -j`):
/// every top-level object that has a name, a width, a height and a scale.
pub fn parse_monitor_list(text: &str) -> (monitors: Vec<MonitorFields>)
    requires
        depth_fits(text@),
    ensures
        monitors@.map_values(|m: MonitorFields| m@) == monitor_texts(object_scan(text@).2),
{
    let objects = split_top_level_objects(text);
    let ghost objs = object_scan(text@).2;
    let mut monitors: Vec<MonitorFields> = Vec::new();
    let n = objects.len();
    let mut i: usize = 0;
    while i < n
        invariant
            n == objects@.len(),
            objects@.map_values(|o: String| o@) == objs,
            i <= n,
            monitors@.map_values(|m: MonitorFields| m@) == monitor_texts(objs.take(i as int)),
        decreases n - i,
    {
        proof {
            assert(objs.take(i + 1).drop_last() =~= objs.take(i as int));
            assert(objs.take(i + 1).last() == objects@[i as int]@);
        }
        match parse_monitor_object(objects[i].as_str()) {
            Some(m) => {
                let ghost before = monitors@;
                monitors.push(m);
                assert(monitors@.map_values(|m: MonitorFields| m@) =~= before.map_values(
                    |m: MonitorFields| m@,
                ).push(m@));
            },
            None => {},
        }
        i = i + 1;
    }
    assert(objs.take(n as int) =~= objs);
    monitors
}

/// The position of the first NUL byte of `data` at or after `from`.
pub open spec fn first_nul_from(data: Seq<u8>, from: int) -> Option<int>
    decreases data.len() - from,
{
    if from < 0 || from >= data.len() {
        None
    } else if data[from] == 0 {
        Some(from)
    } else {
        first_nul_from(data, from + 1)
    }
}

/// The entries of a `/proc/<pid>/environ` file: the runs of bytes between
/// NUL bytes (`<[u8]>::split`, so a trailing NUL yields a last, empty entry).
pub open spec fn nul_separated(data: Seq<u8>) -> Seq<Seq<u8>>
    decreases data.len(),
{
    match first_nul_from(data, 0) {
        None => seq![data],
        Some(k) => {
            if 0 <= k < data.len() {
                seq![data.take(k)] + nul_separated(data.skip(k + 1))
            } else {
                seq![data]
            }
        },
    }
}

proof fn lemma_first_nul_from(data: Seq<u8>, from: int)
    requires
        0 <= from,
    ensures
        first_nul_from(data, from) matches Some(k) ==> from <= k < data.len() && data[k] == 0
            && forall|j: int| from <= j < k ==> data[j] != 0,
        first_nul_from(data, from) is None ==> forall|j: int| from <= j < data.len() ==> data[j] != 0,
    decreases data.len() - from,
{
    if from < data.len() && data[from] != 0 {
        lemma_first_nul_from(data, from + 1);
    }
}

/// The first NUL of `data.skip(start)`, given that `data[start..i]` holds no
/// NUL: what `data[i]` says.
proof fn lemma_first_nul_shift(data: Seq<u8>, start: int, i: int)
    requires
        0 <= start <= i <= data.len(),
        forall|j: int| start <= j < i ==> data[j] != 0,
    ensures
        i < data.len() && data[i] == 0 ==> first_nul_from(data.skip(start), 0) == Some(i - start),
        i == data.len() ==> first_nul_from(data.skip(start), 0) is None,
{
    let rest = data.skip(start);
    lemma_first_nul_from(rest, 0);
    if i < data.len() && data[i] == 0 {
        assert(rest[i - start] == 0);
        match first_nul_from(rest, 0) {
            Some(k) => {
                assert(rest[k] == data[start + k]);
                if k < i - start {
                    assert(data[start + k] != 0);
                }
                if k > i - start {
                    assert(rest[i - start] != 0);
                }
            },
            None => {
                assert(rest[i - start] != 0);
            },
        }
    }
    if i == data.len() {
        match first_nul_from(rest, 0) {
            Some(k) => {
                assert(rest[k] == data[start + k]);
            },
            None => {},
        }
    }
}

/// The value of the first `HYPRLAND_INSTANCE_SIGNATURE=` entry among
/// `entries` that is valid UTF-8.
pub open spec fn signature_among(entries: Seq<Seq<u8>>) -> Option<Seq<char>>
    decreases entries.len(),
{
    if entries.len() == 0 {
        None
    } else {
        let e = entries[0];
        if valid_utf8(e) && "HYPRLAND_INSTANCE_SIGNATURE="@.is_prefix_of(decode_utf8(e)) {
            Some(decode_utf8(e).skip("HYPRLAND_INSTANCE_SIGNATURE="@.len() as int))
        } else {
            signature_among(entries.drop_first())
        }
    }
}

/// `std::str::from_utf8`: succeeds exactly when `bytes` are valid UTF-8,
/// and then gives the text they encode (as std documents it); its error is
/// dropped.
#[verifier::external_body]
fn utf8_text(bytes: &[u8]) -> (r: Option<&str>)
    ensures
        r is Some <==> valid_utf8(bytes@),
        r matches Some(t) ==> t@ == decode_utf8(bytes@),
{
    std::str::from_utf8(bytes).ok()
}

/// The Hyprland instance signature if `entry` is the
/// `HYPRLAND_INSTANCE_SIGNATURE=` entry of an environment.
fn signature_in_entry(entry: &Vec<u8>) -> (r: Option<String>)
    ensures
        r matches Some(v) ==> valid_utf8(entry@) && "HYPRLAND_INSTANCE_SIGNATURE="@.is_prefix_of(
            decode_utf8(entry@),
        ) && v@ == decode_utf8(entry@).skip("HYPRLAND_INSTANCE_SIGNATURE="@.len() as int),
        r is None ==> !(valid_utf8(entry@) && "HYPRLAND_INSTANCE_SIGNATURE="@.is_prefix_of(
            decode_utf8(entry@),
        )),
{
    let text = match utf8_text(entry.as_slice()) {
        Some(t) => t,
        None => return None,
    };
    let prefix = chars_of("HYPRLAND_INSTANCE_SIGNATURE=");
    let chars = chars_of(text);
    let m = prefix.len();
    if m > chars.len() {
        return None;
    }
    let mut k: usize = 0;
    while k < m
        invariant
            m == prefix@.len(),
            m <= chars@.len(),
            prefix@ == "HYPRLAND_INSTANCE_SIGNATURE="@,
            chars@ == decode_utf8(entry@),
            valid_utf8(entry@),
            k <= m,
            forall|t: int| 0 <= t < k ==> chars@[t] == prefix@[t],
        decreases m - k,
    {
        if chars[k] != prefix[k] {
            assert(chars@.subrange(0, m as int)[k as int] != prefix@[k as int]);
            return None;
        }
        k = k + 1;
    }
    assert(chars@.subrange(0, m as int) =~= prefix@);
    Some(substring(text, m, chars.len()))
}

/// The Hyprland instance signature recorded in the contents of a
/// `/proc/<pid>/environ` file: the value of its first
/// `HYPRLAND_INSTANCE_SIGNATURE=` entry that is valid UTF-8.
pub fn signature_from_environ(data: &[u8]) -> (r: Option<String>)
    ensures
        r matches Some(v) ==> signature_among(nul_separated(data@)) == Some(v@),
        r is None ==> signature_among(nul_separated(data@)) is None,
{
    let n = data.len();
    let mut entry: Vec<u8> = Vec::new();
    let mut start: usize = 0;
    let mut i: usize = 0;
    assert(data@.skip(0) =~= data@);
    while i < n
        invariant
            n == data@.len(),
            start <= i <= n,
            entry@ == data@.subrange(start as int, i as int),
            forall|j: int| start <= j < i ==> data@[j] != 0,
            signature_among(nul_separated(data@)) == signature_among(
                nul_separated(data@.skip(start as int)),
            ),
        decreases n - i,
    {
        if data[i] == 0 {
            proof {
                lemma_first_nul_shift(data@, start as int, i as int);
                let rest = data@.skip(start as int);
                assert(rest.take(i - start) =~= entry@);
                assert(rest.skip(i - start + 1) =~= data@.skip(i + 1));
                let parts = nul_separated(rest);
                assert(parts == seq![entry@] + nul_separated(data@.skip(i + 1)));
                assert(parts[0] == entry@);
                assert(parts.drop_first() =~= nul_separated(data@.skip(i + 1)));
            }
            let found = signature_in_entry(&entry);
            if found.is_some() {
                return found;
            }
            entry = Vec::new();
            start = i + 1;
            assert(data@.subrange(start as int, start as int) =~= Seq::<u8>::empty());
        } else {
            entry.push(data[i]);
            assert(data@.subrange(start as int, i + 1) =~= data@.subrange(start as int, i as int).push(
                data@[i as int],
            ));
        }
        i = i + 1;
    }
    proof {
        lemma_first_nul_shift(data@, start as int, n as int);
        let rest = data@.skip(start as int);
        assert(rest =~= entry@);
        let parts = nul_separated(rest);
        assert(parts == seq![rest]);
        assert(parts[0] == entry@);
        assert(parts.drop_first().len() == 0);
        assert(signature_among(parts.drop_first()) is None);
    }
    signature_in_entry(&entry)
}

/// The hyprpaper.conf block (the block syntax of hyprpaper 0.8.3 and later)
/// that shows `path` on `monitor`.
pub open spec fn hyprpaper_block(monitor: Seq<char>, path: Seq<char>) -> Seq<char> {
    "wallpaper {\n  monitor = "@ + monitor + "\n  path = "@ + path + "\n  fit_mode = cover\n}\n"@
}

/// The blocks for each of `monitors`, in order.
pub open spec fn hyprpaper_blocks(monitors: Seq<Seq<char>>, path: Seq<char>) -> Seq<char>
    decreases monitors.len(),
{
    if monitors.len() == 0 {
        Seq::empty()
    } else {
        hyprpaper_blocks(monitors.drop_last(), path) + hyprpaper_block(monitors.last(), path)
    }
}

/// The configuration holds one block per monitor, in the monitors' order:
/// it is the blocks of the monitors laid end to end; and the blocks of two
/// lists of monitors, one after the other, are those of the joined list.
pub proof fn lemma_one_block_per_monitor(
    monitors: Seq<Seq<char>>,
    more: Seq<Seq<char>>,
    path: Seq<char>,
)
    ensures
        hyprpaper_blocks(monitors, path) == monitors.map_values(
            |m: Seq<char>| hyprpaper_block(m, path),
        ).flatten(),
        hyprpaper_blocks(monitors + more, path) == hyprpaper_blocks(monitors, path)
            + hyprpaper_blocks(more, path),
    decreases monitors.len() + more.len(),
{
    broadcast use Seq::lemma_flatten_push;

    let f = |m: Seq<char>| hyprpaper_block(m, path);
    if monitors.len() > 0 {
        lemma_one_block_per_monitor(monitors.drop_last(), Seq::empty(), path);
        assert(monitors.map_values(f) =~= monitors.drop_last().map_values(f).push(
            hyprpaper_block(monitors.last(), path),
        ));
    } else {
        assert(monitors.map_values(f) =~= Seq::<Seq<char>>::empty());
    }
    if more.len() > 0 {
        lemma_one_block_per_monitor(monitors, more.drop_last(), path);
        assert((monitors + more).drop_last() =~= monitors + more.drop_last());
        assert((monitors + more).last() == more.last());
    } else {
        assert(monitors + more =~= monitors);
    }
}

/// The whole hyprpaper.conf that shows `path` on every monitor of
/// `monitors`.
pub fn hyprpaper_conf(monitors: &Vec<String>, path: &str) -> (conf: String)
    ensures
        conf@ == hyprpaper_blocks(monitors@.map_values(|m: String| m@), path@),
{
    let ghost names = monitors@.map_values(|m: String| m@);
    let mut conf = String::new();
    let n = monitors.len();
    let mut i: usize = 0;
    while i < n
        invariant
            n == monitors@.len(),
            names == monitors@.map_values(|m: String| m@),
            i <= n,
            conf@ == hyprpaper_blocks(names.take(i as int), path@),
        decreases n - i,
    {
        conf.append("wallpaper {\n  monitor = ");
        conf.append(monitors[i].as_str());
        conf.append("\n  path = ");
        conf.append(path);
        conf.append("\n  fit_mode = cover\n}\n");
        proof {
            assert(names.take(i + 1).drop_last() =~= names.take(i as int));
            assert(names.take(i + 1).last() == monitors@[i as int]@);
        }
        i = i + 1;
    }
    assert(names.take(n as int) =~= names);
    conf
}

/// The `file://` URI gsettings is given for the (absolute) path `path`.
pub open spec fn picture_uri(path: Seq<char>) -> Seq<char> {
    "file://"@ + path
}

/// The `file://` URI gsettings is given for the (absolute) path `path`.
pub fn gsettings_picture_uri(path: &str) -> (uri: String)
    ensures
        uri@ == picture_uri(path@),
{
    let mut uri = String::from_str("file://");
    uri.append(path);
    uri
}

/// The AppleScript that makes `path` the picture of every desktop.
pub open spec fn desktop_picture_script(path: Seq<char>) -> Seq<char> {
    "tell application \"System Events\"\n            tell every desktop\n                set picture to \""@
        + path + "\"\n            end tell\n        end tell"@
}

/// The AppleScript that makes `path` the picture of every desktop.
pub fn osascript_wallpaper_script(path: &str) -> (script: String)
    ensures
        script@ == desktop_picture_script(path@),
{
    let mut script = String::from_str(
        "tell application \"System Events\"\n            tell every desktop\n                set picture to \"",
    );
    script.append(path);
    script.append("\"\n            end tell\n        end tell");
    script
}

/// How a program is run, and what its outcome means for setting the
/// wallpaper.
#[derive(Clone, Copy, Debug, PartialEq, Eq, Structural)]
pub enum RunMode {
    /// Wait for the program to exit: unless it starts and exits
    /// successfully, setting the wallpaper fails.
    MustSucceed,
    /// Wait for the program to exit, whatever its outcome.
    IgnoreOutcome,
    /// Start the program without waiting for it: unless it starts, setting
    /// the wallpaper fails.
    Spawn,
}

/// A program run: the program, its arguments and how it is run.
pub struct Invocation {
    pub program: String,
    pub args: Vec<String>,
    pub mode: RunMode,
}

/// The model of an `Invocation`.
pub struct InvocationModel {
    pub program: Seq<char>,
    pub args: Seq<Seq<char>>,
    pub mode: RunMode,
}

impl View for Invocation {
    type V = InvocationModel;

    open spec fn view(&self) -> InvocationModel {
        InvocationModel {
            program: self.program@,
            args: self.args@.map_values(|a: String| a@),
            mode: self.mode,
        }
    }
}

/// One step of setting a wallpaper, in the order the steps are taken.
pub enum SetStep {
    /// Write this text to hyprpaper.conf, creating its directory first.
    WriteHyprpaperConf(String),
    /// Run a program.
    Run(Invocation),
    /// Wait this many milliseconds.
    Pause(u64),
    /// Hand this path to the Windows API (SystemParametersInfoW).
    WindowsApi(String),
}

/// The model of a `SetStep`.
pub enum StepModel {
    WriteHyprpaperConf(Seq<char>),
    Run(InvocationModel),
    Pause(u64),
    WindowsApi(Seq<char>),
}

impl View for SetStep {
    type V = StepModel;

    open spec fn view(&self) -> StepModel {
        match self {
            SetStep::WriteHyprpaperConf(conf) => StepModel::WriteHyprpaperConf(conf@),
            SetStep::Run(inv) => StepModel::Run(inv@),
            SetStep::Pause(ms) => StepModel::Pause(*ms),
            SetStep::WindowsApi(path) => StepModel::WindowsApi(path@),
        }
    }
}

/// The step that runs `program` with `args`.
pub open spec fn run_step(program: Seq<char>, args: Seq<Seq<char>>, mode: RunMode) -> StepModel {
    StepModel::Run(InvocationModel { program, args, mode })
}

/// The steps that show the picture at `path` through `backend`, where
/// `monitors` are Hyprland's monitors (only hyprpaper needs them). `path` is
/// the canonical path for the backends that `canonical_path_backend` names,
/// and the path as given for the others.
///
/// - hyprpaper: write hyprpaper.conf with a block for each monitor, stop
///   hyprpaper (`pkill -x hyprpaper`), wait 100 ms, start hyprpaper again
///   and wait 400 ms; with no monitor, nothing is done and `NoMonitors` is
///   the answer.
/// - swaybg: stop swaybg, start `swaybg -i <path> -m fill`, wait 200 ms.
/// - gsettings: set `picture-uri` (which must succeed), then
///   `picture-uri-dark` (whose outcome does not matter) to the `file://` URI.
/// - feh: `feh --bg-fill <path>`, which must succeed.
/// - macOS: `osascript -e <script>`, which must succeed.
/// - Windows: the Windows API call.
pub open spec fn set_steps(
    backend: WallpaperBackend,
    path: Seq<char>,
    monitors: Seq<Seq<char>>,
) -> Result<Seq<StepModel>, SetterError> {
    match backend {
        WallpaperBackend::Hyprpaper => {
            if monitors.len() == 0 {
                Err(SetterError::NoMonitors)
            } else {
                Ok(
                    seq![
                        StepModel::WriteHyprpaperConf(hyprpaper_blocks(monitors, path)),
                        run_step("pkill"@, seq!["-x"@, "hyprpaper"@], RunMode::IgnoreOutcome),
                        StepModel::Pause(100),
                        run_step("hyprpaper"@, Seq::empty(), RunMode::Spawn),
                        StepModel::Pause(400),
                    ],
                )
            }
        },
        WallpaperBackend::Swaybg => Ok(
            seq![
                run_step("pkill"@, seq!["-x"@, "swaybg"@], RunMode::IgnoreOutcome),
                run_step("swaybg"@, seq!["-i"@, path, "-m"@, "fill"@], RunMode::Spawn),
                StepModel::Pause(200),
            ],
        ),
        WallpaperBackend::Gsettings => Ok(
            seq![
                run_step(
                    "gsettings"@,
                    seq!["set"@, "org.gnome.desktop.background"@, "picture-uri"@, picture_uri(path)],
                    RunMode::MustSucceed,
                ),
                run_step(
                    "gsettings"@,
                    seq![
                        "set"@,
                        "org.gnome.desktop.background"@,
                        "picture-uri-dark"@,
                        picture_uri(path),
                    ],
                    RunMode::IgnoreOutcome,
                ),
            ],
        ),
        WallpaperBackend::Feh => Ok(
            seq![run_step("feh"@, seq!["--bg-fill"@, path], RunMode::MustSucceed)],
        ),
        WallpaperBackend::Macos => Ok(
            seq![
                run_step(
                    "osascript"@,
                    seq!["-e"@, desktop_picture_script(path)],
                    RunMode::MustSucceed,
                ),
            ],
        ),
        WallpaperBackend::Windows => Ok(seq![StepModel::WindowsApi(path)]),
    }
}

/// The backends that are handed the canonical path of the picture.
pub open spec fn canonical_path_backend(backend: WallpaperBackend) -> bool {
    match backend {
        WallpaperBackend::Hyprpaper | WallpaperBackend::Gsettings | WallpaperBackend::Macos
        | WallpaperBackend::Windows => true,
        WallpaperBackend::Swaybg | WallpaperBackend::Feh => false,
    }
}

/// A run of `program` with the arguments in `args`.
fn invocation(program: &str, args: Vec<String>, mode: RunMode) -> (step: SetStep)
    ensures
        step@ == run_step(program@, args@.map_values(|a: String| a@), mode),
{
    SetStep::Run(Invocation { program: String::from_str(program), args, mode })
}

/// The list of `a` and `b`.
fn two_args(a: &str, b: &str) -> (v: Vec<String>)
    ensures
        v@.map_values(|s: String| s@) == seq![a@, b@],
{
    let mut v: Vec<String> = Vec::new();
    v.push(String::from_str(a));
    v.push(String::from_str(b));
    assert(v@.map_values(|s: String| s@) =~= seq![a@, b@]);
    v
}

/// The list of `a`, `b`, `c` and `d`.
fn four_args(a: &str, b: &str, c: &str, d: &str) -> (v: Vec<String>)
    ensures
        v@.map_values(|s: String| s@) == seq![a@, b@, c@, d@],
{
    let mut v: Vec<String> = Vec::new();
    v.push(String::from_str(a));
    v.push(String::from_str(b));
    v.push(String::from_str(c));
    v.push(String::from_str(d));
    assert(v@.map_values(|s: String| s@) =~= seq![a@, b@, c@, d@]);
    v
}

impl WallpaperSetter {
    /// The backend needs Hyprland's monitors to set a wallpaper.
    pub fn needs_monitors(&self) -> (r: bool)
        ensures
            r == (self@ == WallpaperBackend::Hyprpaper),
    {
        self.backend == WallpaperBackend::Hyprpaper
    }

    /// The backend is handed the canonical path of the picture.
    pub fn uses_canonical_path(&self) -> (r: bool)
        ensures
            r == canonical_path_backend(self@),
    {
        match self.backend {
            WallpaperBackend::Hyprpaper | WallpaperBackend::Gsettings | WallpaperBackend::Macos
            | WallpaperBackend::Windows => true,
            WallpaperBackend::Swaybg | WallpaperBackend::Feh => false,
        }
    }

    /// The steps that show the picture at `path` (see `set_steps`), given
    /// Hyprland's `monitors` where the backend is hyprpaper.
    pub fn set(&self, path: &str, monitors: &Vec<String>) -> (r: Result<Vec<SetStep>, SetterError>)
        ensures
            match set_steps(self@, path@, monitors@.map_values(|m: String| m@)) {
                Ok(steps) => r matches Ok(v) && v@.map_values(|s: SetStep| s@) == steps,
                Err(e) => r == Err::<Vec<SetStep>, SetterError>(e),
            },
    {
        let ghost names = monitors@.map_values(|m: String| m@);
        let mut steps: Vec<SetStep> = Vec::new();
        match self.backend {
            WallpaperBackend::Hyprpaper => {
                if monitors.len() == 0 {
                    return Err(SetterError::NoMonitors);
                }
                steps.push(SetStep::WriteHyprpaperConf(hyprpaper_conf(monitors, path)));
                steps.push(invocation("pkill", two_args("-x", "hyprpaper"), RunMode::IgnoreOutcome));
                steps.push(SetStep::Pause(100));
                let no_args: Vec<String> = Vec::new();
                assert(no_args@.map_values(|a: String| a@) =~= Seq::<Seq<char>>::empty());
                steps.push(invocation("hyprpaper", no_args, RunMode::Spawn));
                steps.push(SetStep::Pause(400));
            },
            WallpaperBackend::Swaybg => {
                steps.push(invocation("pkill", two_args("-x", "swaybg"), RunMode::IgnoreOutcome));
                steps.push(invocation("swaybg", four_args("-i", path, "-m", "fill"), RunMode::Spawn));
                steps.push(SetStep::Pause(200));
            },
            WallpaperBackend::Gsettings => {
                let uri = gsettings_picture_uri(path);
                steps.push(
                    invocation(
                        "gsettings",
                        four_args("set", "org.gnome.desktop.background", "picture-uri", uri.as_str()),
                        RunMode::MustSucceed,
                    ),
                );
                steps.push(
                    invocation(
                        "gsettings",
                        four_args(
                            "set",
                            "org.gnome.desktop.background",
                            "picture-uri-dark",
                            uri.as_str(),
                        ),
                        RunMode::IgnoreOutcome,
                    ),
                );
            },
            WallpaperBackend::Feh => {
                steps.push(invocation("feh", two_args("--bg-fill", path), RunMode::MustSucceed));
            },
            WallpaperBackend::Macos => {
                let script = osascript_wallpaper_script(path);
                steps.push(
                    invocation("osascript", two_args("-e", script.as_str()), RunMode::MustSucceed),
                );
            },
            WallpaperBackend::Windows => {
                steps.push(SetStep::WindowsApi(String::from_str(path)));
            },
        }
        proof {
            let got = steps@.map_values(|s: SetStep| s@);
            match set_steps(self@, path@, names) {
                Ok(want) => {
                    assert(got =~= want);
                },
                Err(_) => {},
            }
        }
        Ok(steps)
    }
}

} // verus!
