//! Where the pipeline finds its transcoder and keeps its output.

use vstd::prelude::*;
use vstd::string::*;

verus! {

/// The two places the stage routines need to know.
#[derive(Clone, Debug, PartialEq, Eq)]
pub struct Settings {
    /// Path of the transcoding executable.
    pub ffmpeg_location: String,
    /// Root directory of the per-video output.
    pub videos_dir: String,
}

/// [`Settings`] as a mathematical value.
pub struct SettingsView {
    pub ffmpeg_location: Seq<char>,
    pub videos_dir: Seq<char>,
}

impl View for Settings {
    type V = SettingsView;

    open spec fn view(&self) -> SettingsView {
        SettingsView { ffmpeg_location: self.ffmpeg_location@, videos_dir: self.videos_dir@ }
    }
}

/// The configured value, or `fallback` where nothing is configured.
pub open spec fn configured_or(configured: Option<String>, fallback: Seq<char>) -> Seq<char> {
    match configured {
        Some(value) => value@,
        None => fallback,
    }
}

/// The path of the transcoding executable: the configured one, or
/// `/usr/bin/ffmpeg` where none is configured.
pub fn get_ffmpeg_location(configured: Option<String>) -> (location: String)
    ensures
        location@ == configured_or(configured, "/usr/bin/ffmpeg"@),
{
    match configured {
        Some(value) => value,
        None => String::from_str("/usr/bin/ffmpeg"),
    }
}

/// The root directory of the per-video output: the configured one, or
/// `videos` where none is configured.
pub fn get_videos_dir(configured: Option<String>) -> (dir: String)
    ensures
        dir@ == configured_or(configured, "videos"@),
{
    match configured {
        Some(value) => value,
        None => String::from_str("videos"),
    }
}

impl Settings {
    /// Settings from what the environment configures, with the defaults for
    /// what it leaves open.
    pub fn resolve(ffmpeg_location: Option<String>, videos_dir: Option<String>) -> (settings:
        Settings)
        ensures
            settings@.ffmpeg_location == configured_or(ffmpeg_location, "/usr/bin/ffmpeg"@),
            settings@.videos_dir == configured_or(videos_dir, "videos"@),
    {
        Settings {
            ffmpeg_location: get_ffmpeg_location(ffmpeg_location),
            videos_dir: get_videos_dir(videos_dir),
        }
    }

    /// A second copy of the same settings.
    pub fn duplicate(&self) -> (copy: Settings)
        ensures
            copy@ == self@,
    {
        Settings {
            ffmpeg_location: self.ffmpeg_location.clone(),
            videos_dir: self.videos_dir.clone(),
        }
    }
}

} // verus!
