//! The values behind `org.mpris.MediaPlayer2.Player`: playback and loop
//! status, clamped rate and volume, the Can* flags and the track metadata.

use crate::protocol::{PlayerKey, TrackInfo, MICRO};
use crate::state::{
    has_content, logical_track_changed, next_counter, position_at, track_has_content, PlayerState,
};
use crate::text::{
    decimal, lemma_decimal_digits, lemma_decimal_injective, magnitude, push_decimal, push_str,
    string_from_chars, unsigned_abs,
};
use vstd::prelude::*;

verus! {

/// Slowest playback rate offered, in millionths of normal speed (0.25x).
pub const MINIMUM_RATE_PPM: i64 = 250000;

/// Fastest playback rate offered, in millionths of normal speed (4x).
pub const MAXIMUM_RATE_PPM: i64 = 4000000;

/// MPRIS `PlaybackStatus`.
#[derive(Debug, Clone, Copy, PartialEq, Eq, Structural)]
pub enum PlaybackStatus {
    Playing,
    Paused,
    Stopped,
}

impl PlaybackStatus {
    /// The D-Bus spelling of the status.
    pub fn as_str(&self) -> (r: &'static str)
        ensures
            r@ == match self {
                PlaybackStatus::Playing => "Playing"@,
                PlaybackStatus::Paused => "Paused"@,
                PlaybackStatus::Stopped => "Stopped"@,
            },
    {
        match self {
            PlaybackStatus::Playing => "Playing",
            PlaybackStatus::Paused => "Paused",
            PlaybackStatus::Stopped => "Stopped",
        }
    }
}

/// MPRIS `LoopStatus` as a browser media element can honour it: its single
/// `loop` flag is off (`None`) or on (`Track`).
#[derive(Debug, Clone, Copy, PartialEq, Eq, Structural)]
pub enum LoopStatus {
    Off,
    Track,
}

impl LoopStatus {
    /// The D-Bus spelling of the status.
    pub fn as_str(&self) -> (r: &'static str)
        ensures
            r@ == match self {
                LoopStatus::Off => "None"@,
                LoopStatus::Track => "Track"@,
            },
    {
        match self {
            LoopStatus::Off => "None",
            LoopStatus::Track => "Track",
        }
    }
}

/// A value of the `Metadata` map, as D-Bus carries it.
#[derive(Debug)]
pub enum MetadataValue {
    ObjectPath(String),
    Int64(i64),
    Text(String),
    TextList(Vec<String>),
}

/// The mathematical content of a `MetadataValue`.
pub enum MetadataContent {
    ObjectPath(Seq<char>),
    Int64(i64),
    Text(Seq<char>),
    TextList(Seq<Seq<char>>),
}

impl View for MetadataValue {
    type V = MetadataContent;

    open spec fn view(&self) -> MetadataContent {
        match self {
            MetadataValue::ObjectPath(s) => MetadataContent::ObjectPath(s@),
            MetadataValue::Int64(n) => MetadataContent::Int64(*n),
            MetadataValue::Text(s) => MetadataContent::Text(s@),
            MetadataValue::TextList(v) => MetadataContent::TextList(
                v@.map_values(|s: String| s@),
            ),
        }
    }
}

/// One entry of the `Metadata` map.
#[derive(Debug)]
pub struct MetadataEntry {
    pub key: String,
    pub value: MetadataValue,
}

impl View for MetadataEntry {
    type V = (Seq<char>, MetadataContent);

    open spec fn view(&self) -> (Seq<char>, MetadataContent) {
        (self.key@, self.value@)
    }
}

// ---------------------------------------------------------------------------
// D-Bus object paths
// ---------------------------------------------------------------------------

/// A character that may stand in a D-Bus object path.
pub open spec fn is_path_char(c: char) -> bool {
    ('a' <= c && c <= 'z') || ('A' <= c && c <= 'Z') || ('0' <= c && c <= '9') || c == '_' || c
        == '/'
}

/// No two consecutive `/`.
pub open spec fn no_double_slash(s: Seq<char>) -> bool {
    forall|i: int| 0 <= i < s.len() - 1 ==> !(#[trigger] s[i] == '/' && s[i + 1] == '/')
}

/// A D-Bus object path: `/`, or `/` followed by `/`-separated non-empty
/// elements of ASCII letters, digits and `_`.
pub open spec fn valid_object_path(s: Seq<char>) -> bool {
    &&& s.len() >= 1
    &&& s[0] == '/'
    &&& forall|i: int| 0 <= i < s.len() ==> is_path_char(#[trigger] s[i])
    &&& no_double_slash(s)
    &&& s.len() > 1 ==> s.last() != '/'
}

/// `zvariant::ObjectPath::try_from(&str)`: succeeds exactly on strings that
/// are D-Bus object paths — `/` followed by zero or more `/`-separated
/// elements of one or more ASCII alphanumerics or `_`, consuming the whole
/// string.
#[verifier::external_body]
fn object_path_is_valid(path: &str) -> (r: bool)
    ensures
        r == valid_object_path(path@),
{
    zvariant::ObjectPath::try_from(path).is_ok()
}

/// The `mpris:trackid` of the player of frame `key` at track counter
/// `counter`. The counter changes on a genuine track change, so clients
/// reset Position; tab and frame appear by magnitude to stay path-valid.
pub open spec fn trackid_path(key: PlayerKey, counter: u64) -> Seq<char> {
    "/org/mpris/MediaPlayer2/firefox/t"@ + decimal(magnitude(key.tab_id as int)) + "/f"@
        + decimal(magnitude(key.frame_id as int)) + "/"@ + decimal(counter as nat)
}

proof fn lemma_concat_path_chars(a: Seq<char>, b: Seq<char>)
    requires
        forall|i: int| 0 <= i < a.len() ==> is_path_char(#[trigger] a[i]),
        forall|i: int| 0 <= i < b.len() ==> is_path_char(#[trigger] b[i]),
        no_double_slash(a),
        no_double_slash(b),
        a.len() > 0 && b.len() > 0 ==> !(a.last() == '/' && b[0] == '/'),
    ensures
        forall|i: int| 0 <= i < (a + b).len() ==> is_path_char(#[trigger] (a + b)[i]),
        no_double_slash(a + b),
{
    let s = a + b;
    assert forall|i: int| 0 <= i < s.len() implies is_path_char(#[trigger] s[i]) by {
        if i < a.len() {
            assert(s[i] == a[i]);
        } else {
            assert(s[i] == b[i - a.len()]);
        }
    }
    assert forall|i: int| 0 <= i < s.len() - 1 implies !(#[trigger] s[i] == '/' && s[i + 1]
        == '/') by {
        if i + 1 < a.len() {
            assert(s[i] == a[i] && s[i + 1] == a[i + 1]);
        } else if i + 1 == a.len() {
            assert(s[i] == a.last() && s[i + 1] == b[0]);
        } else {
            assert(s[i] == b[i - a.len()] && s[i + 1] == b[i + 1 - a.len()]);
        }
    }
}

proof fn lemma_decimal_path(n: nat)
    ensures
        forall|i: int| 0 <= i < decimal(n).len() ==> is_path_char(#[trigger] decimal(n)[i]),
        no_double_slash(decimal(n)),
        decimal(n).len() >= 1,
        decimal(n)[0] != '/',
        decimal(n).last() != '/',
{
    lemma_decimal_digits(n);
    let d = decimal(n);
    assert(d[0] != '/' && d.last() != '/') by {
        assert('0' <= d[0] <= '9');
        assert('0' <= d[d.len() - 1] <= '9');
    }
    assert forall|i: int| 0 <= i < d.len() - 1 implies !(#[trigger] d[i] == '/' && d[i + 1]
        == '/') by {
        assert('0' <= d[i] <= '9');
    }
}

/// Every trackid the player publishes is a valid D-Bus object path, so the
/// `mpris:trackid` entry is always present.
pub proof fn lemma_trackid_valid(key: PlayerKey, counter: u64)
    ensures
        valid_object_path(trackid_path(key, counter)),
{
    reveal_strlit("/org/mpris/MediaPlayer2/firefox/t");
    reveal_strlit("/f");
    reveal_strlit("/");
    let p0 = "/org/mpris/MediaPlayer2/firefox/t"@;
    let dt = decimal(magnitude(key.tab_id as int));
    let p1 = "/f"@;
    let df = decimal(magnitude(key.frame_id as int));
    let p2 = "/"@;
    let dc = decimal(counter as nat);
    lemma_decimal_path(magnitude(key.tab_id as int));
    lemma_decimal_path(magnitude(key.frame_id as int));
    lemma_decimal_path(counter as nat);
    assert(forall|i: int| 0 <= i < p0.len() ==> is_path_char(#[trigger] p0[i]));
    assert(no_double_slash(p0));
    assert(forall|i: int| 0 <= i < p1.len() ==> is_path_char(#[trigger] p1[i]));
    assert(no_double_slash(p1));
    assert(forall|i: int| 0 <= i < p2.len() ==> is_path_char(#[trigger] p2[i]));
    assert(no_double_slash(p2));
    lemma_concat_path_chars(p0, dt);
    lemma_concat_path_chars(p0 + dt, p1);
    assert((p0 + dt + p1).last() == 'f');
    lemma_concat_path_chars(p0 + dt + p1, df);
    assert((p0 + dt + p1 + df).last() == df.last());
    lemma_concat_path_chars(p0 + dt + p1 + df, p2);
    lemma_concat_path_chars(p0 + dt + p1 + df + p2, dc);
    let s = p0 + dt + p1 + df + p2 + dc;
    assert(s[0] == '/');
    assert(s.last() == dc.last());
}

/// Different track counters give different trackids: a genuine track change
/// is visible to clients.
pub proof fn lemma_trackid_distinct(key: PlayerKey, a: u64, b: u64)
    requires
        a != b,
    ensures
        trackid_path(key, a) != trackid_path(key, b),
{
    let prefix = "/org/mpris/MediaPlayer2/firefox/t"@ + decimal(magnitude(key.tab_id as int))
        + "/f"@ + decimal(magnitude(key.frame_id as int)) + "/"@;
    if trackid_path(key, a) == trackid_path(key, b) {
        assert(trackid_path(key, a).skip(prefix.len() as int) =~= decimal(a as nat));
        assert(trackid_path(key, b).skip(prefix.len() as int) =~= decimal(b as nat));
        lemma_decimal_injective(a as nat, b as nat);
    }
}

// ---------------------------------------------------------------------------
// Metadata
// ---------------------------------------------------------------------------

/// `seq![e]` where `b` holds, else the empty sequence.
pub open spec fn entry_if(b: bool, e: (Seq<char>, MetadataContent)) -> Seq<
    (Seq<char>, MetadataContent),
> {
    if b {
        seq![e]
    } else {
        Seq::empty()
    }
}

/// The `Metadata` map of the player of frame `key`, in the order the entries
/// are built: the trackid, then the length, art, title, artist, album and page
/// URL where they are known.
pub open spec fn spec_metadata(s: PlayerState, key: PlayerKey) -> Seq<(Seq<char>, MetadataContent)> {
    let t = s.track;
    let path = trackid_path(key, s.track_counter);
    entry_if(
        valid_object_path(path),
        ("mpris:trackid"@, MetadataContent::ObjectPath(path)),
    ) + entry_if(t.duration_us > 0, ("mpris:length"@, MetadataContent::Int64(t.duration_us)))
        + entry_if(t.art_url@.len() > 0, ("mpris:artUrl"@, MetadataContent::Text(t.art_url@)))
        + entry_if(t.title@.len() > 0, ("xesam:title"@, MetadataContent::Text(t.title@)))
        + entry_if(
        t.artist@.len() > 0,
        ("xesam:artist"@, MetadataContent::TextList(seq![t.artist@])),
    ) + entry_if(t.album@.len() > 0, ("xesam:album"@, MetadataContent::Text(t.album@)))
        + entry_if(t.page_url@.len() > 0, ("xesam:url"@, MetadataContent::Text(t.page_url@)))
}

/// The contents of a vector of metadata entries.
pub open spec fn entries_view(v: Seq<MetadataEntry>) -> Seq<(Seq<char>, MetadataContent)> {
    v.map_values(|e: MetadataEntry| e@)
}

/// Appends `entry` to `entries` where `wanted` holds.
fn push_entry_if(entries: &mut Vec<MetadataEntry>, wanted: bool, entry: MetadataEntry)
    ensures
        entries_view(final(entries)@) == entries_view(old(entries)@) + entry_if(wanted, entry@),
{
    let ghost before = entries@;
    if wanted {
        entries.push(entry);
        assert(entries_view(entries@) =~= entries_view(before) + seq![entry@]);
    } else {
        assert(entries_view(entries@) =~= entries_view(before) + Seq::empty());
    }
}

/// The `mpris:trackid` path of frame `key` at track counter `counter`.
pub fn trackid(key: PlayerKey, counter: u64) -> (r: String)
    ensures
        r@ == trackid_path(key, counter),
{
    let mut v: Vec<char> = Vec::new();
    push_str(&mut v, "/org/mpris/MediaPlayer2/firefox/t");
    push_decimal(&mut v, unsigned_abs(key.tab_id));
    push_str(&mut v, "/f");
    push_decimal(&mut v, unsigned_abs(key.frame_id));
    push_str(&mut v, "/");
    push_decimal(&mut v, counter);
    assert(v@ =~= trackid_path(key, counter));
    string_from_chars(v)
}

// ---------------------------------------------------------------------------
// Properties
// ---------------------------------------------------------------------------

/// `value` clamped to `lo..=hi`.
pub open spec fn clamp(value: int, lo: int, hi: int) -> int {
    if value < lo {
        lo
    } else if value > hi {
        hi
    } else {
        value
    }
}

/// The playback status a player reports.
pub open spec fn spec_playback_status(s: PlayerState) -> PlaybackStatus {
    if s.track.playing {
        PlaybackStatus::Playing
    } else if s.stopped || !has_content(s.track) {
        PlaybackStatus::Stopped
    } else {
        PlaybackStatus::Paused
    }
}

/// Whether a requested `LoopStatus` turns looping on: anything but `None`
/// (`Track` and `Playlist` both map to the element's single `loop` flag).
pub open spec fn loop_request_on(value: Seq<char>) -> bool {
    value != "None"@
}

/// The value a `SetLoop` command carries: 1 (in millionths) for on, 0 for off.
pub open spec fn loop_flag_value(on: bool) -> i64 {
    if on {
        MICRO
    } else {
        0
    }
}

/// MPRIS `Shuffle`: there is no per-tab shuffle, so it is always off.
pub fn shuffle() -> (r: bool)
    ensures
        !r,
{
    false
}

/// MPRIS `CanControl`: the player always accepts control.
pub fn can_control() -> (r: bool)
    ensures
        r,
{
    true
}

/// MPRIS `MinimumRate`, in millionths of normal speed.
pub fn minimum_rate() -> (r: i64)
    ensures
        r == MINIMUM_RATE_PPM,
{
    MINIMUM_RATE_PPM
}

/// MPRIS `MaximumRate`, in millionths of normal speed.
pub fn maximum_rate() -> (r: i64)
    ensures
        r == MAXIMUM_RATE_PPM,
{
    MAXIMUM_RATE_PPM
}

/// `value` clamped to `lo..=hi`.
fn clamp_i64(value: i64, lo: i64, hi: i64) -> (r: i64)
    requires
        lo <= hi,
    ensures
        r == clamp(value as int, lo as int, hi as int),
{
    if value < lo {
        lo
    } else if value > hi {
        hi
    } else {
        value
    }
}

impl PlayerState {
    /// True when there's something playable loaded — drives Can* and the
    /// Paused-vs-Stopped distinction.
    pub fn has_content(&self) -> (r: bool)
        ensures
            r == has_content(self.track),
    {
        track_has_content(&self.track)
    }

    /// MPRIS `PlaybackStatus`: Playing while playing; Stopped after a Stop or
    /// with nothing loaded; Paused otherwise.
    pub fn playback_status(&self) -> (r: PlaybackStatus)
        ensures
            r == spec_playback_status(*self),
    {
        if self.track.playing {
            PlaybackStatus::Playing
        } else if self.stopped || !self.has_content() {
            PlaybackStatus::Stopped
        } else {
            PlaybackStatus::Paused
        }
    }

    /// MPRIS `LoopStatus`.
    pub fn loop_status(&self) -> (r: LoopStatus)
        ensures
            r == (if self.track.looping {
                LoopStatus::Track
            } else {
                LoopStatus::Off
            }),
    {
        if self.track.looping {
            LoopStatus::Track
        } else {
            LoopStatus::Off
        }
    }

    /// MPRIS `LoopStatus` write: `None` turns looping off, anything else on.
    /// Records the flag and returns the value of the `SetLoop` command.
    pub fn set_loop_status(&mut self, value: &str) -> (r: i64)
        ensures
            final(self).track == (TrackInfo { looping: loop_request_on(value@), ..old(self).track }),
            final(self).last_position_us == old(self).last_position_us,
            final(self).last_position_at == old(self).last_position_at,
            final(self).track_counter == old(self).track_counter,
            final(self).stopped == old(self).stopped,
            r == loop_flag_value(loop_request_on(value@)),
    {
        let requested: String = value.to_owned();
        let off: String = "None".to_owned();
        let on = !requested.eq(&off);
        self.track.looping = on;
        if on {
            MICRO
        } else {
            0
        }
    }

    /// MPRIS `Rate`, in millionths of normal speed, clamped to 0.25x..=4x.
    pub fn rate(&self) -> (r: i64)
        ensures
            r == clamp(self.track.rate_ppm as int, MINIMUM_RATE_PPM as int, MAXIMUM_RATE_PPM as int),
    {
        clamp_i64(self.track.rate_ppm, MINIMUM_RATE_PPM, MAXIMUM_RATE_PPM)
    }

    /// MPRIS `Rate` write: records the clamped rate and returns it, the value
    /// of the `SetRate` command.
    pub fn set_rate(&mut self, value_ppm: i64) -> (r: i64)
        ensures
            r == clamp(value_ppm as int, MINIMUM_RATE_PPM as int, MAXIMUM_RATE_PPM as int),
            final(self).track == (TrackInfo { rate_ppm: r, ..old(self).track }),
            final(self).last_position_us == old(self).last_position_us,
            final(self).last_position_at == old(self).last_position_at,
            final(self).track_counter == old(self).track_counter,
            final(self).stopped == old(self).stopped,
    {
        let v = clamp_i64(value_ppm, MINIMUM_RATE_PPM, MAXIMUM_RATE_PPM);
        self.track.rate_ppm = v;
        v
    }

    /// MPRIS `Volume`, in millionths of full volume, clamped to 0..=1.
    pub fn volume(&self) -> (r: i64)
        ensures
            r == clamp(self.track.volume_ppm as int, 0, MICRO as int),
    {
        clamp_i64(self.track.volume_ppm, 0, MICRO)
    }

    /// MPRIS `Volume` write: records the clamped volume (so a read reflects
    /// the request before the page round-trips) and returns it, the value of
    /// the `SetVolume` command.
    pub fn set_volume(&mut self, value_ppm: i64) -> (r: i64)
        ensures
            r == clamp(value_ppm as int, 0, MICRO as int),
            final(self).track == (TrackInfo { volume_ppm: r, ..old(self).track }),
            final(self).last_position_us == old(self).last_position_us,
            final(self).last_position_at == old(self).last_position_at,
            final(self).track_counter == old(self).track_counter,
            final(self).stopped == old(self).stopped,
    {
        let v = clamp_i64(value_ppm, 0, MICRO);
        self.track.volume_ppm = v;
        v
    }

    /// MPRIS `CanGoNext`: the page registered a "next" handler.
    pub fn can_go_next(&self) -> (r: bool)
        ensures
            r == self.track.can_go_next,
    {
        self.track.can_go_next
    }

    /// MPRIS `CanGoPrevious`: the page registered a "previous" handler.
    pub fn can_go_previous(&self) -> (r: bool)
        ensures
            r == self.track.can_go_previous,
    {
        self.track.can_go_previous
    }

    /// MPRIS `CanPlay`: something playable is loaded.
    pub fn can_play(&self) -> (r: bool)
        ensures
            r == has_content(self.track),
    {
        self.has_content()
    }

    /// MPRIS `CanPause`: something playable is loaded.
    pub fn can_pause(&self) -> (r: bool)
        ensures
            r == has_content(self.track),
    {
        self.has_content()
    }

    /// MPRIS `CanSeek`: the source supports seeking.
    pub fn can_seek(&self) -> (r: bool)
        ensures
            r == self.track.can_seek,
    {
        self.track.can_seek
    }

    /// MPRIS `Metadata` of the player of frame `key`.
    pub fn metadata(&self, key: PlayerKey) -> (r: Vec<MetadataEntry>)
        ensures
            entries_view(r@) == spec_metadata(*self, key),
            forall|i: int| 0 <= i < r@.len() ==> entry_carries_its_field(*self, key, #[trigger] r@[i]@),
            has_key(entries_view(r@), "xesam:title"@) <==> self.track.title@.len() > 0,
            has_key(entries_view(r@), "xesam:artist"@) <==> self.track.artist@.len() > 0,
            has_key(entries_view(r@), "xesam:album"@) <==> self.track.album@.len() > 0,
            has_key(entries_view(r@), "xesam:url"@) <==> self.track.page_url@.len() > 0,
            has_key(entries_view(r@), "mpris:artUrl"@) <==> self.track.art_url@.len() > 0,
            has_key(entries_view(r@), "mpris:length"@) <==> self.track.duration_us > 0,
            has_key(entries_view(r@), "mpris:trackid"@),
    {
        proof {
            lemma_metadata_fields(*self, key);
        }
        let t = &self.track;
        let mut m: Vec<MetadataEntry> = Vec::new();
        assert(entries_view(m@) =~= Seq::empty());

        let path = trackid(key, self.track_counter);
        let valid = object_path_is_valid(path.as_str());
        push_entry_if(
            &mut m,
            valid,
            MetadataEntry {
                key: "mpris:trackid".to_owned(),
                value: MetadataValue::ObjectPath(path),
            },
        );
        push_entry_if(
            &mut m,
            t.duration_us > 0,
            MetadataEntry {
                key: "mpris:length".to_owned(),
                value: MetadataValue::Int64(t.duration_us),
            },
        );
        push_entry_if(
            &mut m,
            !t.art_url.as_str().is_empty(),
            MetadataEntry {
                key: "mpris:artUrl".to_owned(),
                value: MetadataValue::Text(t.art_url.clone()),
            },
        );
        push_entry_if(
            &mut m,
            !t.title.as_str().is_empty(),
            MetadataEntry {
                key: "xesam:title".to_owned(),
                value: MetadataValue::Text(t.title.clone()),
            },
        );
        let mut artists: Vec<String> = Vec::new();
        artists.push(t.artist.clone());
        assert(artists@.map_values(|s: String| s@) =~= seq![t.artist@]);
        push_entry_if(
            &mut m,
            !t.artist.as_str().is_empty(),
            MetadataEntry { key: "xesam:artist".to_owned(), value: MetadataValue::TextList(artists) },
        );
        push_entry_if(
            &mut m,
            !t.album.as_str().is_empty(),
            MetadataEntry {
                key: "xesam:album".to_owned(),
                value: MetadataValue::Text(t.album.clone()),
            },
        );
        push_entry_if(
            &mut m,
            !t.page_url.as_str().is_empty(),
            MetadataEntry {
                key: "xesam:url".to_owned(),
                value: MetadataValue::Text(t.page_url.clone()),
            },
        );
        proof {
            assert forall|i: int| 0 <= i < m@.len() implies entry_carries_its_field(
                *self,
                key,
                #[trigger] m@[i]@,
            ) by {
                assert(entries_view(m@)[i] == m@[i]@);
            }
        }
        m
    }
}

// ---------------------------------------------------------------------------
// Laws
// ---------------------------------------------------------------------------

/// After `mark_stopped` the player reports Stopped and Position 0, whatever
/// time passes, until an update arrives.
pub proof fn lemma_stopped_player_reads_stopped_at_zero(s: PlayerState, elapsed_us: nat)
    requires
        s.stopped,
        !s.track.playing,
        s.last_position_us == 0,
    ensures
        spec_playback_status(s) == PlaybackStatus::Stopped,
        position_at(s, elapsed_us) == 0,
{
}

/// An update that reports playback makes the player Playing and clears a
/// prior Stop.
pub proof fn lemma_resume_clears_stop(before: PlayerState, after: PlayerState)
    requires
        after.track.playing,
        after.stopped == (before.stopped && !after.track.playing),
    ensures
        !after.stopped,
        spec_playback_status(after) == PlaybackStatus::Playing,
{
}

/// The `mpris:trackid` changes across an update exactly when the update is a
/// genuine track change, so clients reset Position then and only then.
pub proof fn lemma_track_change_renews_trackid(
    key: PlayerKey,
    counter: u64,
    old_track: TrackInfo,
    new_track: TrackInfo,
)
    ensures
        trackid_path(key, next_counter(counter, logical_track_changed(old_track, new_track)))
            != trackid_path(key, counter) <==> logical_track_changed(old_track, new_track),
{
    if logical_track_changed(old_track, new_track) {
        lemma_trackid_distinct(
            key,
            next_counter(counter, logical_track_changed(old_track, new_track)),
            counter,
        );
    }
}

/// A written rate or volume reads back as the written value clamped to its
/// range (0.25x..=4x, 0..=1).
pub proof fn lemma_written_levels_read_back(value_ppm: int)
    ensures
        clamp(
            clamp(value_ppm, MINIMUM_RATE_PPM as int, MAXIMUM_RATE_PPM as int),
            MINIMUM_RATE_PPM as int,
            MAXIMUM_RATE_PPM as int,
        ) == clamp(value_ppm, MINIMUM_RATE_PPM as int, MAXIMUM_RATE_PPM as int),
        clamp(clamp(value_ppm, 0, MICRO as int), 0, MICRO as int) == clamp(
            value_ppm,
            0,
            MICRO as int,
        ),
{
}

/// A written `LoopStatus` reads back as `Track` unless `None` was written.
pub proof fn lemma_loop_status_read_back(s: PlayerState, value: Seq<char>)
    requires
        s.track.looping == loop_request_on(value),
    ensures
        s.track.looping <==> value != "None"@,
{
}

/// The metadata always carries the `mpris:trackid` entry first.
pub proof fn lemma_metadata_has_trackid(s: PlayerState, key: PlayerKey)
    ensures
        spec_metadata(s, key).len() >= 1,
        spec_metadata(s, key)[0] == ("mpris:trackid"@, MetadataContent::ObjectPath(
            trackid_path(key, s.track_counter),
        )),
{
    lemma_trackid_valid(key, s.track_counter);
}

/// Whether the metadata list holds an entry under `k`.
pub open spec fn has_key(m: Seq<(Seq<char>, MetadataContent)>, k: Seq<char>) -> bool {
    exists|i: int| 0 <= i < m.len() && (#[trigger] m[i]).0 == k
}

/// Each metadata key carries the field it names: the trackid path, the
/// duration, the art URL, the title, the artist (as a one-element list), the
/// album and the page URL.
pub open spec fn entry_carries_its_field(
    s: PlayerState,
    key: PlayerKey,
    e: (Seq<char>, MetadataContent),
) -> bool {
    &&& e.0 == "mpris:trackid"@ ==> e.1 == MetadataContent::ObjectPath(
        trackid_path(key, s.track_counter),
    )
    &&& e.0 == "mpris:length"@ ==> e.1 == MetadataContent::Int64(s.track.duration_us)
    &&& e.0 == "mpris:artUrl"@ ==> e.1 == MetadataContent::Text(s.track.art_url@)
    &&& e.0 == "xesam:title"@ ==> e.1 == MetadataContent::Text(s.track.title@)
    &&& e.0 == "xesam:artist"@ ==> e.1 == MetadataContent::TextList(seq![s.track.artist@])
    &&& e.0 == "xesam:album"@ ==> e.1 == MetadataContent::Text(s.track.album@)
    &&& e.0 == "xesam:url"@ ==> e.1 == MetadataContent::Text(s.track.page_url@)
}

/// The seven metadata keys are distinct.
proof fn lemma_metadata_keys_distinct()
    ensures
        "mpris:trackid"@ != "mpris:length"@,
        "mpris:trackid"@ != "mpris:artUrl"@,
        "mpris:trackid"@ != "xesam:title"@,
        "mpris:trackid"@ != "xesam:artist"@,
        "mpris:trackid"@ != "xesam:album"@,
        "mpris:trackid"@ != "xesam:url"@,
        "mpris:length"@ != "mpris:artUrl"@,
        "mpris:length"@ != "xesam:title"@,
        "mpris:length"@ != "xesam:artist"@,
        "mpris:length"@ != "xesam:album"@,
        "mpris:length"@ != "xesam:url"@,
        "mpris:artUrl"@ != "xesam:title"@,
        "mpris:artUrl"@ != "xesam:artist"@,
        "mpris:artUrl"@ != "xesam:album"@,
        "mpris:artUrl"@ != "xesam:url"@,
        "xesam:title"@ != "xesam:artist"@,
        "xesam:title"@ != "xesam:album"@,
        "xesam:title"@ != "xesam:url"@,
        "xesam:artist"@ != "xesam:album"@,
        "xesam:artist"@ != "xesam:url"@,
        "xesam:album"@ != "xesam:url"@,
{
    reveal_strlit("mpris:trackid");
    reveal_strlit("mpris:length");
    reveal_strlit("mpris:artUrl");
    reveal_strlit("xesam:title");
    reveal_strlit("xesam:artist");
    reveal_strlit("xesam:album");
    reveal_strlit("xesam:url");
    assert("mpris:trackid"@[6] != "mpris:length"@[6]);
    assert("mpris:trackid"@[6] != "mpris:artUrl"@[6]);
    assert("mpris:trackid"@[0] != "xesam:title"@[0]);
    assert("mpris:trackid"@[0] != "xesam:artist"@[0]);
    assert("mpris:trackid"@[0] != "xesam:album"@[0]);
    assert("mpris:trackid"@[0] != "xesam:url"@[0]);
    assert("mpris:length"@[6] != "mpris:artUrl"@[6]);
    assert("mpris:length"@[0] != "xesam:title"@[0]);
    assert("mpris:length"@[0] != "xesam:artist"@[0]);
    assert("mpris:length"@[0] != "xesam:album"@[0]);
    assert("mpris:length"@[0] != "xesam:url"@[0]);
    assert("mpris:artUrl"@[0] != "xesam:title"@[0]);
    assert("mpris:artUrl"@[0] != "xesam:artist"@[0]);
    assert("mpris:artUrl"@[0] != "xesam:album"@[0]);
    assert("mpris:artUrl"@[0] != "xesam:url"@[0]);
    assert("xesam:title"@[6] != "xesam:artist"@[6]);
    assert("xesam:title"@[6] != "xesam:album"@[6]);
    assert("xesam:title"@[6] != "xesam:url"@[6]);
    assert("xesam:artist"@[7] != "xesam:album"@[7]);
    assert("xesam:artist"@[6] != "xesam:url"@[6]);
    assert("xesam:album"@[6] != "xesam:url"@[6]);
}

proof fn lemma_has_key_add(a: Seq<(Seq<char>, MetadataContent)>, b: Seq<(Seq<char>, MetadataContent)>, k: Seq<char>)
    ensures
        has_key(a + b, k) <==> has_key(a, k) || has_key(b, k),
{
    if has_key(a, k) {
        let i = choose|i: int| 0 <= i < a.len() && (#[trigger] a[i]).0 == k;
        assert((a + b)[i] == a[i]);
    }
    if has_key(b, k) {
        let i = choose|i: int| 0 <= i < b.len() && (#[trigger] b[i]).0 == k;
        assert((a + b)[a.len() + i] == b[i]);
    }
    if has_key(a + b, k) {
        let i = choose|i: int| 0 <= i < (a + b).len() && (#[trigger] (a + b)[i]).0 == k;
        if i < a.len() {
            assert(a[i] == (a + b)[i]);
        } else {
            assert(b[i - a.len()] == (a + b)[i]);
        }
    }
}

proof fn lemma_carries_add(
    s: PlayerState,
    key: PlayerKey,
    a: Seq<(Seq<char>, MetadataContent)>,
    b: Seq<(Seq<char>, MetadataContent)>,
)
    requires
        forall|i: int| 0 <= i < a.len() ==> entry_carries_its_field(s, key, #[trigger] a[i]),
        forall|i: int| 0 <= i < b.len() ==> entry_carries_its_field(s, key, #[trigger] b[i]),
    ensures
        forall|i: int| 0 <= i < (a + b).len() ==> entry_carries_its_field(s, key, #[trigger] (a + b)[i]),
{
    assert forall|i: int| 0 <= i < (a + b).len() implies entry_carries_its_field(
        s,
        key,
        #[trigger] (a + b)[i],
    ) by {
        if i < a.len() {
            assert((a + b)[i] == a[i]);
        } else {
            assert((a + b)[i] == b[i - a.len()]);
        }
    }
}

proof fn lemma_entry_if_facts(
    s: PlayerState,
    key: PlayerKey,
    b: bool,
    e: (Seq<char>, MetadataContent),
    k: Seq<char>,
)
    requires
        entry_carries_its_field(s, key, e),
    ensures
        forall|i: int| 0 <= i < entry_if(b, e).len() ==> entry_carries_its_field(s, key, #[trigger] entry_if(b, e)[i]),
        has_key(entry_if(b, e), k) <==> (b && e.0 == k),
{
    if b {
        assert(entry_if(b, e)[0] == e);
    }
}

/// Every entry of the metadata carries the field its key names, and each
/// optional entry is present exactly when its field is known: the title,
/// artist, album, page URL and art URL when non-empty, the length when the
/// duration is known; the trackid is always present.
pub proof fn lemma_metadata_fields(s: PlayerState, key: PlayerKey)
    ensures
        forall|i: int| 0 <= i < spec_metadata(s, key).len() ==> entry_carries_its_field(
            s,
            key,
            #[trigger] spec_metadata(s, key)[i],
        ),
        has_key(spec_metadata(s, key), "xesam:title"@) <==> s.track.title@.len() > 0,
        has_key(spec_metadata(s, key), "xesam:artist"@) <==> s.track.artist@.len() > 0,
        has_key(spec_metadata(s, key), "xesam:album"@) <==> s.track.album@.len() > 0,
        has_key(spec_metadata(s, key), "xesam:url"@) <==> s.track.page_url@.len() > 0,
        has_key(spec_metadata(s, key), "mpris:artUrl"@) <==> s.track.art_url@.len() > 0,
        has_key(spec_metadata(s, key), "mpris:length"@) <==> s.track.duration_us > 0,
        has_key(spec_metadata(s, key), "mpris:trackid"@),
{
    lemma_metadata_keys_distinct();
    lemma_trackid_valid(key, s.track_counter);
    let t = s.track;
    let path = trackid_path(key, s.track_counter);
    let e1 = ("mpris:trackid"@, MetadataContent::ObjectPath(path));
    let e2 = ("mpris:length"@, MetadataContent::Int64(t.duration_us));
    let e3 = ("mpris:artUrl"@, MetadataContent::Text(t.art_url@));
    let e4 = ("xesam:title"@, MetadataContent::Text(t.title@));
    let e5 = ("xesam:artist"@, MetadataContent::TextList(seq![t.artist@]));
    let e6 = ("xesam:album"@, MetadataContent::Text(t.album@));
    let e7 = ("xesam:url"@, MetadataContent::Text(t.page_url@));
    let b1 = valid_object_path(path);
    let b2 = t.duration_us > 0;
    let b3 = t.art_url@.len() > 0;
    let b4 = t.title@.len() > 0;
    let b5 = t.artist@.len() > 0;
    let b6 = t.album@.len() > 0;
    let b7 = t.page_url@.len() > 0;
    let p1 = entry_if(b1, e1);
    let p2 = entry_if(b2, e2);
    let p3 = entry_if(b3, e3);
    let p4 = entry_if(b4, e4);
    let p5 = entry_if(b5, e5);
    let p6 = entry_if(b6, e6);
    let p7 = entry_if(b7, e7);
    let a2 = p1 + p2;
    let a3 = a2 + p3;
    let a4 = a3 + p4;
    let a5 = a4 + p5;
    let a6 = a5 + p6;
    let a7 = a6 + p7;
    assert(spec_metadata(s, key) == a7);
    let ks = seq![
        "mpris:trackid"@,
        "mpris:length"@,
        "mpris:artUrl"@,
        "xesam:title"@,
        "xesam:artist"@,
        "xesam:album"@,
        "xesam:url"@,
    ];
    assert forall|j: int| 0 <= j < 7 implies (has_key(a7, #[trigger] ks[j]) <==> (
    (b1 && e1.0 == ks[j]) || (b2 && e2.0 == ks[j]) || (b3 && e3.0 == ks[j]) || (b4 && e4.0
        == ks[j]) || (b5 && e5.0 == ks[j]) || (b6 && e6.0 == ks[j]) || (b7 && e7.0 == ks[j])))
        by {
        let k = ks[j];
        lemma_entry_if_facts(s, key, b1, e1, k);
        lemma_entry_if_facts(s, key, b2, e2, k);
        lemma_entry_if_facts(s, key, b3, e3, k);
        lemma_entry_if_facts(s, key, b4, e4, k);
        lemma_entry_if_facts(s, key, b5, e5, k);
        lemma_entry_if_facts(s, key, b6, e6, k);
        lemma_entry_if_facts(s, key, b7, e7, k);
        lemma_has_key_add(p1, p2, k);
        lemma_has_key_add(a2, p3, k);
        lemma_has_key_add(a3, p4, k);
        lemma_has_key_add(a4, p5, k);
        lemma_has_key_add(a5, p6, k);
        lemma_has_key_add(a6, p7, k);
    }
    assert(has_key(a7, ks[0]));
    assert(has_key(a7, ks[1]) <==> b2);
    assert(has_key(a7, ks[2]) <==> b3);
    assert(has_key(a7, ks[3]) <==> b4);
    assert(has_key(a7, ks[4]) <==> b5);
    assert(has_key(a7, ks[5]) <==> b6);
    assert(has_key(a7, ks[6]) <==> b7);
    lemma_entry_if_facts(s, key, b1, e1, e1.0);
    lemma_entry_if_facts(s, key, b2, e2, e1.0);
    lemma_entry_if_facts(s, key, b3, e3, e1.0);
    lemma_entry_if_facts(s, key, b4, e4, e1.0);
    lemma_entry_if_facts(s, key, b5, e5, e1.0);
    lemma_entry_if_facts(s, key, b6, e6, e1.0);
    lemma_entry_if_facts(s, key, b7, e7, e1.0);
    lemma_carries_add(s, key, p1, p2);
    lemma_carries_add(s, key, a2, p3);
    lemma_carries_add(s, key, a3, p4);
    lemma_carries_add(s, key, a4, p5);
    lemma_carries_add(s, key, a5, p6);
    lemma_carries_add(s, key, a6, p7);
}

} // verus!
