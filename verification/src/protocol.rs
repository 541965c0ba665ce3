//! Wire protocol between the WebExtension and this host.
//!
//! Messages are length-prefixed JSON over stdio (Firefox native messaging).
//! The JSON carries times, volume and rate as floating-point seconds and
//! fractions; the library holds each of them as a whole number of millionths
//! (microseconds for times, millionths of full volume and of normal speed).

use vstd::prelude::*;

verus! {

/// Millionths in one unit: one second in microseconds, full volume, normal
/// playback speed.
pub const MICRO: i64 = 1000000;

pub type TabId = i64;

pub type FrameId = i64;

/// Identifies a single media-bearing frame. A tab can host media in several
/// frames at once (e.g. an embedded YouTube/Spotify iframe alongside a
/// top-level player), so players are keyed by (tab, frame), not tab alone.
/// Frame 0 is the top-level document.
#[derive(Debug, Clone, Copy, PartialEq, Eq, Hash, Structural)]
pub struct PlayerKey {
    pub tab_id: TabId,
    pub frame_id: FrameId,
}

/// The media state that the extension reports for one frame.
#[derive(Debug)]
pub struct TrackInfo {
    pub title: String,
    pub artist: String,
    pub album: String,
    /// http(s) or data: URL of cover art / video thumbnail.
    pub art_url: String,
    /// Page URL the media is playing on.
    pub page_url: String,
    /// Duration in microseconds. 0 / negative means unknown.
    pub duration_us: i64,
    /// Current playback position in microseconds.
    pub position_us: i64,
    /// `true` if currently playing, `false` if paused.
    pub playing: bool,
    /// `true` if the extension observed a real seek (currentTime jump) for
    /// this update.
    pub seeked: bool,
    /// Volume in millionths of full volume (effective: muted reports 0).
    pub volume_ppm: i64,
    /// Playback rate in millionths of normal speed.
    pub rate_ppm: i64,
    /// Whether the active media element has `loop` set.
    pub looping: bool,
    /// Whether the source supports seeking.
    pub can_seek: bool,
    /// Whether the page advertised a "next" handler via Media Session.
    pub can_go_next: bool,
    /// Whether the page advertised a "previous" handler via Media Session.
    pub can_go_previous: bool,
}

impl Clone for TrackInfo {
    fn clone(&self) -> (r: Self)
        ensures
            r == *self,
    {
        TrackInfo {
            title: self.title.clone(),
            artist: self.artist.clone(),
            album: self.album.clone(),
            art_url: self.art_url.clone(),
            page_url: self.page_url.clone(),
            duration_us: self.duration_us,
            position_us: self.position_us,
            playing: self.playing,
            seeked: self.seeked,
            volume_ppm: self.volume_ppm,
            rate_ppm: self.rate_ppm,
            looping: self.looping,
            can_seek: self.can_seek,
            can_go_next: self.can_go_next,
            can_go_previous: self.can_go_previous,
        }
    }
}

/// Volume assumed when the extension does not report one: full volume.
pub fn default_volume() -> (r: i64)
    ensures
        r == MICRO,
{
    MICRO
}

/// Rate assumed when the extension does not report one: normal speed.
pub fn default_rate() -> (r: i64)
    ensures
        r == MICRO,
{
    MICRO
}

/// Seekability assumed when the extension does not report it: seekable.
pub fn default_can_seek() -> (r: bool)
    ensures
        r,
{
    true
}

/// The track state of a frame that has reported nothing yet.
pub open spec fn is_default_track(t: TrackInfo) -> bool {
    &&& t.title@.len() == 0
    &&& t.artist@.len() == 0
    &&& t.album@.len() == 0
    &&& t.art_url@.len() == 0
    &&& t.page_url@.len() == 0
    &&& t.duration_us == 0
    &&& t.position_us == 0
    &&& !t.playing
    &&& !t.seeked
    &&& t.volume_ppm == MICRO
    &&& t.rate_ppm == MICRO
    &&& !t.looping
    &&& t.can_seek
    &&& !t.can_go_next
    &&& !t.can_go_previous
}

impl Default for TrackInfo {
    fn default() -> (r: Self)
        ensures
            is_default_track(r),
    {
        TrackInfo {
            title: String::new(),
            artist: String::new(),
            album: String::new(),
            art_url: String::new(),
            page_url: String::new(),
            duration_us: 0,
            position_us: 0,
            playing: false,
            seeked: false,
            volume_ppm: default_volume(),
            rate_ppm: default_rate(),
            looping: false,
            can_seek: default_can_seek(),
            can_go_next: false,
            can_go_previous: false,
        }
    }
}

/// Message FROM the extension TO this host.
#[derive(Debug)]
pub enum InMessage {
    /// Initial handshake from the extension's background script. Optional.
    Hello { version: String },
    /// A frame started or resumed having active media. Creates the MPRIS
    /// player if it doesn't exist and applies the supplied state.
    Update { tab_id: TabId, frame_id: FrameId, track: TrackInfo },
    /// A frame no longer has active media (element gone, navigated away, or
    /// tab/frame closed). Removes the MPRIS player.
    Remove { tab_id: TabId, frame_id: FrameId },
    /// Heartbeat / keep-alive. Ignored.
    Ping,
}

/// What the page or the background script is asked to do.
#[derive(Debug, Clone, Copy, PartialEq, Eq, Structural)]
pub enum Action {
    Play,
    Pause,
    PlayPause,
    Next,
    Previous,
    Stop,
    /// Relative seek by `value` microseconds (signed).
    Seek,
    /// Absolute seek to `value` microseconds.
    SetPosition,
    /// Set volume to `value` millionths (0..=1_000_000).
    SetVolume,
    /// Set playback rate to `value` millionths of normal speed.
    SetRate,
    /// Set the active element's `loop` flag (`value` 1_000_000 = on, 0 = off).
    SetLoop,
    /// Focus the owning tab/window (handled by the background script, not the
    /// page). No `value`.
    Raise,
}

/// Message FROM this host TO the extension. Relays D-Bus method calls
/// (media keys, seek/raise/loop requests from waybar/quickshell) back to the
/// page or — for `Raise` — to the background script.
#[derive(Debug, Clone, Copy, PartialEq, Eq, Structural)]
pub enum OutMessage {
    Command {
        tab_id: TabId,
        frame_id: FrameId,
        action: Action,
        /// Optional value in millionths (seek offset or position in
        /// microseconds, volume, rate, loop flag).
        value: Option<i64>,
    },
}

impl PlayerKey {
    /// The command that asks this frame to perform `action` with `value`.
    pub fn command(&self, action: Action, value: Option<i64>) -> (m: OutMessage)
        ensures
            m == (OutMessage::Command {
                tab_id: self.tab_id,
                frame_id: self.frame_id,
                action,
                value,
            }),
    {
        OutMessage::Command { tab_id: self.tab_id, frame_id: self.frame_id, action, value }
    }
}

} // verus!
