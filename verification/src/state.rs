//! Per-frame player state shared between the message dispatcher and the
//! MPRIS interface objects.

use crate::protocol::{TrackInfo, MICRO};
use std::time::Duration;
use std::time::Instant;
use vstd::prelude::*;

verus! {

/// The monotonic clock's instants, carried through the state opaquely.
#[verifier::external_type_specification]
#[verifier::external_body]
pub struct ExInstant(Instant);

/// `Instant::now`: the current reading of the monotonic clock. Nothing is
/// stated of the reading: it depends on when the call runs.
pub assume_specification[ Instant::now ]() -> Instant;

/// `Instant::duration_since`: the time from `earlier` to `instant`, zero when
/// `earlier` is the later one (it does not panic). Nothing is stated of the
/// duration: it rests on the clock readings, which Verus cannot see.
pub assume_specification[ Instant::duration_since ](instant: &Instant, earlier: Instant) -> Duration;

/// `Duration::as_micros`: the whole microseconds of a duration. Nothing is
/// stated of the number: a `Duration` is opaque here.
pub assume_specification[ Duration::as_micros ](duration: &Duration) -> u128;

/// How far the reported position may drift from the wall-clock prediction
/// before it counts as a seek (microseconds). The extension also sends an
/// explicit `seeked` flag, which takes precedence over this heuristic.
pub const SEEK_DRIFT_THRESHOLD_US: i64 = 1000000;

/// A duration change larger than this (microseconds) means a new track.
pub const TRACK_DURATION_TOLERANCE_US: i64 = 500000;

/// A volume or rate change larger than this (millionths) is announced.
pub const LEVEL_TOLERANCE_PPM: i64 = 1000;

/// Which MPRIS properties changed on an update. Only the ones set here are
/// announced, so steady-state playback (nothing changing but the
/// interpolated Position, which clients poll) produces no D-Bus traffic.
#[derive(Debug, Clone, Copy, Default, PartialEq, Eq, Structural)]
pub struct Changed {
    pub metadata: bool,
    pub playback_status: bool,
    pub volume: bool,
    pub rate: bool,
    pub loop_status: bool,
    pub can_seek: bool,
    pub can_go_next: bool,
    pub can_go_previous: bool,
    /// CanPlay/CanPause derive from playback status; emitted together.
    pub can_play_pause: bool,
}

/// Some property is marked as changed.
pub open spec fn changed_any(c: Changed) -> bool {
    c.metadata || c.playback_status || c.volume || c.rate || c.loop_status || c.can_seek
        || c.can_go_next || c.can_go_previous || c.can_play_pause
}

impl Changed {
    pub fn any(&self) -> (r: bool)
        ensures
            r == changed_any(*self),
    {
        self.metadata || self.playback_status || self.volume || self.rate || self.loop_status
            || self.can_seek || self.can_go_next || self.can_go_previous || self.can_play_pause
    }
}

/// Whether the position moved continuously or jumped.
#[derive(Debug, Clone, Copy, PartialEq, Eq, Structural)]
pub enum PositionDelta {
    Continuous,
    /// Position jumped — emit MPRIS `Seeked` with this value (microseconds).
    Seeked(i64),
}

/// Outcome of applying an update: which properties changed, and whether the
/// position jumped (→ emit `Seeked`).
#[derive(Debug, Clone, Copy, PartialEq, Eq, Structural)]
pub struct UpdateOutcome {
    pub changed: Changed,
    pub position: PositionDelta,
}

/// State of a single frame's player.
#[derive(Debug)]
pub struct PlayerState {
    pub track: TrackInfo,
    /// Last position reported by the extension, in microseconds.
    pub last_position_us: i64,
    /// Wall-clock time when `last_position_us` was set.
    pub last_position_at: Instant,
    /// Bumped whenever the logical track changes (title/artist/album/url/
    /// duration differ). Feeds `mpris:trackid` so clients reset Position on a
    /// genuine track change.
    pub track_counter: u64,
    /// Set when the client called `Stop`; cleared the next time playback
    /// resumes, so `PlaybackStatus` reports `Stopped` rather than `Paused`.
    pub stopped: bool,
}

// ---------------------------------------------------------------------------
// The model
// ---------------------------------------------------------------------------

pub open spec fn abs_int(x: int) -> int {
    if x < 0 {
        -x
    } else {
        x
    }
}

/// Elapsed microseconds as the interpolation uses them: at most `u64::MAX`
/// (more than half a million years).
pub open spec fn capped_elapsed(elapsed_us: nat) -> int {
    if elapsed_us > u64::MAX {
        u64::MAX as int
    } else {
        elapsed_us as int
    }
}

/// Media time that passes in `elapsed_us` of wall-clock time at `rate_ppm`
/// (a negative rate counts as zero).
pub open spec fn scaled_elapsed(elapsed_us: nat, rate_ppm: int) -> int {
    let rate = if rate_ppm > 0 {
        rate_ppm
    } else {
        0
    };
    (capped_elapsed(elapsed_us) * rate) / (MICRO as int)
}

/// The position predicted `elapsed_us` after the last report: it advances
/// only while playing.
pub open spec fn predicted_position(s: PlayerState, elapsed_us: nat) -> int {
    if s.track.playing {
        s.last_position_us + scaled_elapsed(elapsed_us, s.track.rate_ppm as int)
    } else {
        s.last_position_us as int
    }
}

/// The position reported `elapsed_us` after the last report: the prediction,
/// never negative, and never past the duration when the duration is known.
pub open spec fn position_at(s: PlayerState, elapsed_us: nat) -> int {
    let p = predicted_position(s, elapsed_us);
    let p0 = if p < 0 {
        0
    } else {
        p
    };
    let cap = if s.track.duration_us > 0 {
        s.track.duration_us as int
    } else {
        i64::MAX as int
    };
    if p0 > cap {
        cap
    } else {
        p0
    }
}

/// Whether an update means a different track (title, artist, album or page
/// differ, or the duration moved by more than half a second).
pub open spec fn logical_track_changed(old: TrackInfo, new: TrackInfo) -> bool {
    ||| old.title@ != new.title@
    ||| old.artist@ != new.artist@
    ||| old.album@ != new.album@
    ||| old.page_url@ != new.page_url@
    ||| abs_int(old.duration_us - new.duration_us) > TRACK_DURATION_TOLERANCE_US
}

/// Something playable is loaded: a title or a known duration.
pub open spec fn has_content(t: TrackInfo) -> bool {
    t.title@.len() > 0 || t.duration_us > 0
}

/// The properties that an update from `old` to `new` changes.
pub open spec fn spec_changed(old: TrackInfo, new: TrackInfo) -> Changed {
    Changed {
        metadata: logical_track_changed(old, new) || old.art_url@ != new.art_url@,
        playback_status: old.playing != new.playing,
        volume: abs_int(old.volume_ppm - new.volume_ppm) > LEVEL_TOLERANCE_PPM,
        rate: abs_int(old.rate_ppm - new.rate_ppm) > LEVEL_TOLERANCE_PPM,
        loop_status: old.looping != new.looping,
        can_seek: old.can_seek != new.can_seek,
        can_go_next: old.can_go_next != new.can_go_next,
        can_go_previous: old.can_go_previous != new.can_go_previous,
        can_play_pause: has_content(old) != has_content(new),
    }
}

/// Whether the position of an update, `elapsed_us` after the last one, is a
/// seek: flagged as one, or too far from the prediction.
pub open spec fn spec_position_delta(s: PlayerState, new: TrackInfo, elapsed_us: nat) -> PositionDelta {
    let drift = abs_int(new.position_us - predicted_position(s, elapsed_us));
    if new.seeked || drift > SEEK_DRIFT_THRESHOLD_US {
        PositionDelta::Seeked(
            if new.position_us < 0 {
                0
            } else {
                new.position_us
            },
        )
    } else {
        PositionDelta::Continuous
    }
}

/// The track counter after an update (wrapping at `u64::MAX`).
pub open spec fn next_counter(counter: u64, track_changed: bool) -> u64 {
    if !track_changed {
        counter
    } else if counter == u64::MAX {
        0
    } else {
        (counter + 1) as u64
    }
}

/// Each flag of an update's outcome follows the fields it describes, for a
/// change in either direction: the status flags whenever the flag differs,
/// volume and rate when they move by more than a thousandth, CanPlay/CanPause
/// when "title or known duration" appears or disappears, and the metadata on
/// any change of title, artist, album, page, art or (by more than half a
/// second) duration.
pub proof fn lemma_changed_flags(old: TrackInfo, new: TrackInfo)
    ensures
        spec_changed(old, new).playback_status <==> old.playing != new.playing,
        spec_changed(old, new).loop_status <==> old.looping != new.looping,
        spec_changed(old, new).can_seek <==> old.can_seek != new.can_seek,
        spec_changed(old, new).can_go_next <==> old.can_go_next != new.can_go_next,
        spec_changed(old, new).can_go_previous <==> old.can_go_previous != new.can_go_previous,
        spec_changed(old, new).volume <==> (old.volume_ppm - new.volume_ppm > 1000
            || new.volume_ppm - old.volume_ppm > 1000),
        spec_changed(old, new).rate <==> (old.rate_ppm - new.rate_ppm > 1000 || new.rate_ppm
            - old.rate_ppm > 1000),
        spec_changed(old, new).can_play_pause <==> ((old.title@.len() > 0 || old.duration_us > 0)
            != (new.title@.len() > 0 || new.duration_us > 0)),
        spec_changed(old, new).metadata <==> (old.title@ != new.title@ || old.artist@
            != new.artist@ || old.album@ != new.album@ || old.page_url@ != new.page_url@
            || old.art_url@ != new.art_url@ || old.duration_us - new.duration_us > 500000
            || new.duration_us - old.duration_us > 500000),
        (spec_changed(old, new).metadata && !(old.art_url@ != new.art_url@))
            ==> logical_track_changed(old, new),
{
}

/// While playing at a non-negative rate, the reported position never moves
/// backwards as wall-clock time passes; while paused it does not move at all;
/// and at normal speed, from a non-negative report, it advances by exactly the
/// elapsed time until a known duration (or the integer limit) caps it.
pub proof fn lemma_position_follows_clock(s: PlayerState, e1: nat, e2: nat)
    requires
        e1 <= e2 <= u64::MAX,
    ensures
        s.track.playing ==> position_at(s, e1) <= position_at(s, e2),
        !s.track.playing ==> position_at(s, e1) == position_at(s, e2),
        (s.track.playing && s.track.rate_ppm == MICRO && s.last_position_us >= 0 && (
        s.track.duration_us > 0 ==> s.last_position_us + e1 <= s.track.duration_us)
            && s.last_position_us + e1 <= i64::MAX) ==> position_at(s, e1)
            == s.last_position_us + e1,
{
    let rate: int = if s.track.rate_ppm > 0 {
        s.track.rate_ppm as int
    } else {
        0
    };
    let a1 = (e1 as int) * rate;
    let a2 = (e2 as int) * rate;
    assert(a1 <= a2) by (nonlinear_arith)
        requires
            a1 == (e1 as int) * rate,
            a2 == (e2 as int) * rate,
            e1 <= e2,
            rate >= 0,
    ;
    assert(a1 / 1000000 <= a2 / 1000000) by (nonlinear_arith)
        requires
            a1 <= a2,
    ;
    assert(scaled_elapsed(e1, s.track.rate_ppm as int) == a1 / 1000000);
    assert(scaled_elapsed(e2, s.track.rate_ppm as int) == a2 / 1000000);
    if s.track.rate_ppm == MICRO {
        assert(a1 / 1000000 == e1) by (nonlinear_arith)
            requires
                a1 == (e1 as int) * 1000000,
        ;
    }
}

// ---------------------------------------------------------------------------
// Arithmetic helpers
// ---------------------------------------------------------------------------

/// `scaled_elapsed`, computed without overflow.
fn scale_elapsed(elapsed_us: u128, rate_ppm: i64) -> (r: i128)
    ensures
        r == scaled_elapsed(elapsed_us as nat, rate_ppm as int),
        0 <= r <= 0x1_0000_0000_0000_0000_0000_0000_0000,
{
    let e: u64 = if elapsed_us > u64::MAX as u128 {
        u64::MAX
    } else {
        elapsed_us as u64
    };
    let rate: i64 = if rate_ppm > 0 {
        rate_ppm
    } else {
        0
    };
    assert((e as int) * (rate as int) <= 0xffff_ffff_ffff_ffff * 0x7fff_ffff_ffff_ffff)
        by (nonlinear_arith)
        requires
            0 <= e <= 0xffff_ffff_ffff_ffff,
            0 <= rate <= 0x7fff_ffff_ffff_ffff,
    ;
    assert(0 <= (e as int) * (rate as int)) by (nonlinear_arith)
        requires
            0 <= e,
            0 <= rate,
    ;
    let prod: i128 = (e as i128) * (rate as i128);
    let r = prod / (MICRO as i128);
    assert(r <= 0x1_0000_0000_0000_0000_0000_0000_0000) by (nonlinear_arith)
        requires
            r == prod / 1000000,
            0 <= prod <= 0xffff_ffff_ffff_ffff * 0x7fff_ffff_ffff_ffff,
    ;
    r
}

/// `predicted_position`, computed without overflow.
fn predict(s: &PlayerState, elapsed_us: u128) -> (r: i128)
    ensures
        r == predicted_position(*s, elapsed_us as nat),
        i64::MIN <= r <= i64::MAX + 0x1_0000_0000_0000_0000_0000_0000_0000,
{
    if s.track.playing {
        s.last_position_us as i128 + scale_elapsed(elapsed_us, s.track.rate_ppm)
    } else {
        s.last_position_us as i128
    }
}

/// `|a - b| > tolerance`, computed without overflow.
fn differs_by_more(a: i64, b: i64, tolerance: i64) -> (r: bool)
    ensures
        r == (abs_int(a - b) > tolerance),
{
    let d: i128 = a as i128 - b as i128;
    let m: i128 = if d < 0 {
        -d
    } else {
        d
    };
    m > tolerance as i128
}

/// Whether two strings differ.
fn text_differs(a: &String, b: &String) -> (r: bool)
    ensures
        r == (a@ != b@),
{
    !a.eq(b)
}

/// Whether a track has something playable loaded.
pub fn track_has_content(t: &TrackInfo) -> (r: bool)
    ensures
        r == has_content(*t),
{
    !t.title.as_str().is_empty() || t.duration_us > 0
}

impl PlayerState {
    /// A player for a frame that has just reported `track`.
    pub fn new(track: TrackInfo) -> (s: Self)
        ensures
            s.track == track,
            s.last_position_us == track.position_us,
            s.track_counter == 0,
            !s.stopped,
    {
        let last_position_us = track.position_us;
        PlayerState {
            track,
            last_position_us,
            last_position_at: Instant::now(),
            track_counter: 0,
            stopped: false,
        }
    }

    /// Microseconds of wall-clock time since the last position report, and
    /// the instant they were measured at.
    fn elapsed_since_report(&self) -> (Instant, u128) {
        let now = Instant::now();
        let elapsed = now.duration_since(self.last_position_at).as_micros();
        (now, elapsed)
    }

    /// Apply an update from the extension that arrives `elapsed_us` after the
    /// last position report, at instant `now`. Returns which properties
    /// changed and whether a `Seeked` signal is warranted.
    pub fn apply_update_after(&mut self, new_track: TrackInfo, elapsed_us: u128, now: Instant) -> (r:
        UpdateOutcome)
        ensures
            r.changed == spec_changed(old(self).track, new_track),
            r.changed.playback_status == (old(self).track.playing != new_track.playing),
            r.changed.loop_status == (old(self).track.looping != new_track.looping),
            r.changed.can_seek == (old(self).track.can_seek != new_track.can_seek),
            r.changed.can_go_next == (old(self).track.can_go_next != new_track.can_go_next),
            r.changed.can_go_previous == (old(self).track.can_go_previous
                != new_track.can_go_previous),
            r.position == spec_position_delta(*old(self), new_track, elapsed_us as nat),
            final(self).track == new_track,
            final(self).last_position_us == new_track.position_us,
            final(self).last_position_at == now,
            final(self).track_counter == next_counter(
                old(self).track_counter,
                logical_track_changed(old(self).track, new_track),
            ),
            final(self).stopped == (old(self).stopped && !new_track.playing),
    {
        let new_pos_us = new_track.position_us;

        // Position: trust an explicit seek flag; otherwise compare against the
        // rate-scaled wall-clock prediction and treat a large gap as a seek.
        let predicted = predict(self, elapsed_us);
        let diff: i128 = new_pos_us as i128 - predicted;
        let drift: i128 = if diff < 0 {
            -diff
        } else {
            diff
        };
        let position = if new_track.seeked || drift > SEEK_DRIFT_THRESHOLD_US as i128 {
            PositionDelta::Seeked(
                if new_pos_us < 0 {
                    0
                } else {
                    new_pos_us
                },
            )
        } else {
            PositionDelta::Continuous
        };

        // A logical track change bumps the trackid counter.
        let logical_track_changed = text_differs(&self.track.title, &new_track.title)
            || text_differs(&self.track.artist, &new_track.artist) || text_differs(
            &self.track.album,
            &new_track.album,
        ) || text_differs(&self.track.page_url, &new_track.page_url) || differs_by_more(
            self.track.duration_us,
            new_track.duration_us,
            TRACK_DURATION_TOLERANCE_US,
        );
        if logical_track_changed {
            self.track_counter = if self.track_counter == u64::MAX {
                0
            } else {
                self.track_counter + 1
            };
        }

        // Resuming playback clears a prior Stop.
        if new_track.playing {
            self.stopped = false;
        }

        // CanPlay/CanPause derive from "is there content", not from the
        // playing flag — announce them only when that crosses.
        let old_has_content = track_has_content(&self.track);
        let new_has_content = track_has_content(&new_track);

        let changed = Changed {
            metadata: logical_track_changed || text_differs(
                &self.track.art_url,
                &new_track.art_url,
            ),
            playback_status: self.track.playing != new_track.playing,
            volume: differs_by_more(
                self.track.volume_ppm,
                new_track.volume_ppm,
                LEVEL_TOLERANCE_PPM,
            ),
            rate: differs_by_more(self.track.rate_ppm, new_track.rate_ppm, LEVEL_TOLERANCE_PPM),
            loop_status: self.track.looping != new_track.looping,
            can_seek: self.track.can_seek != new_track.can_seek,
            can_go_next: self.track.can_go_next != new_track.can_go_next,
            can_go_previous: self.track.can_go_previous != new_track.can_go_previous,
            can_play_pause: old_has_content != new_has_content,
        };

        self.track = new_track;
        self.last_position_us = new_pos_us;
        self.last_position_at = now;
        UpdateOutcome { changed, position }
    }

    /// Apply an update from the extension, measuring the time since the last
    /// position report on the monotonic clock. Returns which properties
    /// changed and whether a `Seeked` signal is warranted.
    pub fn apply_update(&mut self, new_track: TrackInfo) -> (r: UpdateOutcome)
        ensures
            r.changed == spec_changed(old(self).track, new_track),
            r.changed.playback_status == (old(self).track.playing != new_track.playing),
            r.changed.loop_status == (old(self).track.looping != new_track.looping),
            r.changed.can_seek == (old(self).track.can_seek != new_track.can_seek),
            r.changed.can_go_next == (old(self).track.can_go_next != new_track.can_go_next),
            r.changed.can_go_previous == (old(self).track.can_go_previous
                != new_track.can_go_previous),
            exists|elapsed_us: nat| r.position == spec_position_delta(*old(self), new_track, elapsed_us),
            final(self).track == new_track,
            final(self).last_position_us == new_track.position_us,
            final(self).track_counter == next_counter(
                old(self).track_counter,
                logical_track_changed(old(self).track, new_track),
            ),
            final(self).stopped == (old(self).stopped && !new_track.playing),
    {
        let (now, elapsed) = self.elapsed_since_report();
        self.apply_update_after(new_track, elapsed, now)
    }

    /// Mark the player Stopped at instant `now`. A Stopped player reports
    /// Position 0, so the position anchor is zeroed and re-anchored at `now`;
    /// the other track fields stay.
    pub fn mark_stopped_at(&mut self, now: Instant)
        ensures
            final(self).stopped,
            final(self).track == (TrackInfo {
                playing: false,
                position_us: 0,
                ..old(self).track
            }),
            final(self).last_position_us == 0,
            final(self).last_position_at == now,
            final(self).track_counter == old(self).track_counter,
    {
        self.stopped = true;
        self.track.playing = false;
        self.track.position_us = 0;
        self.last_position_us = 0;
        self.last_position_at = now;
    }

    /// Mark the player Stopped, anchoring the zeroed position at the current
    /// reading of the monotonic clock. A Stopped player reports Position 0;
    /// the other track fields stay.
    pub fn mark_stopped(&mut self)
        ensures
            final(self).stopped,
            final(self).track == (TrackInfo {
                playing: false,
                position_us: 0,
                ..old(self).track
            }),
            final(self).last_position_us == 0,
            final(self).track_counter == old(self).track_counter,
    {
        self.mark_stopped_at(Instant::now());
    }

    /// The playback position `elapsed_us` after the last position report, in
    /// microseconds: interpolated (scaled by playback rate) while playing,
    /// never negative, and never past a known duration.
    pub fn position_after(&self, elapsed_us: u128) -> (r: i64)
        ensures
            r == position_at(*self, elapsed_us as nat),
            r >= 0,
            self.track.duration_us > 0 ==> r <= self.track.duration_us,
    {
        let p = predict(self, elapsed_us);
        let p0: i128 = if p < 0 {
            0
        } else {
            p
        };
        let cap: i64 = if self.track.duration_us > 0 {
            self.track.duration_us
        } else {
            i64::MAX
        };
        if p0 > cap as i128 {
            cap
        } else {
            p0 as i64
        }
    }

    /// The current playback position in microseconds, interpolated against
    /// the monotonic clock (scaled by playback rate) while playing. Never
    /// negative, and never past a known duration.
    pub fn current_position_us(&self) -> (r: i64)
        ensures
            exists|elapsed_us: nat| r == position_at(*self, elapsed_us),
            r >= 0,
            self.track.duration_us > 0 ==> r <= self.track.duration_us,
    {
        let (_, elapsed) = self.elapsed_since_report();
        self.position_after(elapsed)
    }
}

} // verus!
