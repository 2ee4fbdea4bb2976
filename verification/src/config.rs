use vstd::prelude::*;

use crate::focus::score::Score;
use crate::text::str_equals;

verus! {

/// `std::path::PathBuf`, carried through opaquely.
#[verifier::external_type_specification]
#[verifier::external_body]
pub struct ExPathBuf(std::path::PathBuf);

/// `std::path::Path`, carried through opaquely.
#[verifier::external_type_specification]
#[verifier::external_body]
pub struct ExPath(std::path::Path);

/// Where and through which backend the wallpaper is set.
pub struct WallpaperConfig {
    /// `"auto"` or the name of a backend.
    pub backend: String,
    pub output_path: std::path::PathBuf,
}

impl WallpaperConfig {
    /// Applies a backend chosen on the command line: any name but `"auto"`
    /// replaces the configured backend.
    pub fn override_backend(&mut self, backend: String)
        ensures
            final(self).backend@ == if backend@ == "auto"@ {
                old(self).backend@
            } else {
                backend@
            },
            final(self).output_path == old(self).output_path,
    {
        if !str_equals(backend.as_str(), "auto") {
            self.backend = backend;
        }
    }
}

/// Parameters of focus detection. Floating-point fields are carried as
/// `Score` bit patterns.
#[derive(Clone, Copy)]
pub struct FocusConfig {
    pub check_interval_secs: u64,
    pub unfocused_threshold: Score,
    pub focused_threshold: Score,
    pub hysteresis_count: u32,
    pub mouse_weight: Score,
    pub typing_weight: Score,
    pub idle_weight: Score,
    pub entropy_weight: Score,
    pub idle_gap_threshold_secs: u64,
    pub typing_burst_gap_secs: u64,
}

/// The easing curve of a wallpaper transition.
#[derive(Clone, Copy, Debug, PartialEq, Eq, Structural)]
pub enum EasingKind {
    Linear,
    SmoothStep,
    EaseInOut,
}

/// Parameters of a wallpaper transition.
#[derive(Clone, Copy)]
pub struct TransitionConfig {
    pub duration_secs: u64,
    pub steps: u32,
    pub easing: EasingKind,
}


} // verus!
