//! Decisions of the message dispatcher: where an inbound message goes, which
//! bus name a frame's player takes, and which D-Bus signals an update emits.

use crate::browser::{bus_segment, spec_bus_segment};
use crate::protocol::{InMessage, PlayerKey};
use crate::protocol::TrackInfo;
use crate::state::{
    abs_int, changed_any, predicted_position, spec_changed, spec_position_delta, PlayerState,
    PositionDelta, UpdateOutcome, SEEK_DRIFT_THRESHOLD_US,
};
use crate::text::{decimal, lemma_decimal_digits, magnitude, push_decimal, push_str, string_from_chars, unsigned_abs};
use vstd::prelude::*;

verus! {

/// What the dispatcher does with an inbound message.
#[derive(Debug)]
pub enum Route {
    /// Handshake or heartbeat: nothing to do.
    Ignore,
    /// Apply `track` to the player of `key`, creating the player if it does
    /// not exist yet.
    Upsert { key: PlayerKey, track: crate::protocol::TrackInfo },
    /// Remove the player of `key`, if there is one.
    Remove { key: PlayerKey },
}

/// Where an inbound message goes.
pub fn route_message(msg: InMessage) -> (r: Route)
    ensures
        match msg {
            InMessage::Hello { .. } => r is Ignore,
            InMessage::Ping => r is Ignore,
            InMessage::Update { tab_id, frame_id, track } => r == (Route::Upsert {
                key: PlayerKey { tab_id, frame_id },
                track,
            }),
            InMessage::Remove { tab_id, frame_id } => r == (Route::Remove {
                key: PlayerKey { tab_id, frame_id },
            }),
        },
{
    match msg {
        InMessage::Hello { .. } => Route::Ignore,
        InMessage::Ping => Route::Ignore,
        InMessage::Update { tab_id, frame_id, track } => Route::Upsert {
            key: PlayerKey { tab_id, frame_id },
            track,
        },
        InMessage::Remove { tab_id, frame_id } => Route::Remove {
            key: PlayerKey { tab_id, frame_id },
        },
    }
}

/// The frame a message concerns, if any.
pub open spec fn spec_message_key(msg: InMessage) -> Option<PlayerKey> {
    match msg {
        InMessage::Update { tab_id, frame_id, .. } => Some(PlayerKey { tab_id, frame_id }),
        InMessage::Remove { tab_id, frame_id } => Some(PlayerKey { tab_id, frame_id }),
        _ => None,
    }
}

/// The frame a message concerns: that of an `Update` or a `Remove`; none for
/// a handshake or a heartbeat.
pub fn message_key(msg: &InMessage) -> (r: Option<PlayerKey>)
    ensures
        r == spec_message_key(*msg),
{
    match msg {
        InMessage::Update { tab_id, frame_id, .. } => Some(
            PlayerKey { tab_id: *tab_id, frame_id: *frame_id },
        ),
        InMessage::Remove { tab_id, frame_id } => Some(
            PlayerKey { tab_id: *tab_id, frame_id: *frame_id },
        ),
        _ => None,
    }
}

/// What the player registry does with an inbound message.
#[derive(Debug)]
pub enum RegistryStep {
    /// Handshake or heartbeat: nothing changes.
    Nothing,
    /// No player exists for `key`: create one with `track`.
    Create { key: PlayerKey, track: crate::protocol::TrackInfo },
    /// A player exists for `key`: apply `track` to it.
    Update { key: PlayerKey, track: crate::protocol::TrackInfo },
    /// Drop the player of `key`, if there is one.
    Remove { key: PlayerKey },
}

/// The registry's step for `msg`, where `known` says whether a player exists
/// for the message's frame: an update of a known frame updates its player,
/// one of an unknown frame creates it; a removal drops the player; a
/// handshake or a heartbeat does nothing.
pub fn registry_step(known: bool, msg: InMessage) -> (r: RegistryStep)
    ensures
        match msg {
            InMessage::Hello { .. } => r is Nothing,
            InMessage::Ping => r is Nothing,
            InMessage::Update { tab_id, frame_id, track } => if known {
                r == (RegistryStep::Update { key: PlayerKey { tab_id, frame_id }, track })
            } else {
                r == (RegistryStep::Create { key: PlayerKey { tab_id, frame_id }, track })
            },
            InMessage::Remove { tab_id, frame_id } => r == (RegistryStep::Remove {
                key: PlayerKey { tab_id, frame_id },
            }),
        },
{
    match route_message(msg) {
        Route::Ignore => RegistryStep::Nothing,
        Route::Upsert { key, track } => if known {
            RegistryStep::Update { key, track }
        } else {
            RegistryStep::Create { key, track }
        },
        Route::Remove { key } => RegistryStep::Remove { key },
    }
}

// ---------------------------------------------------------------------------
// Bus names
// ---------------------------------------------------------------------------

/// `"_f"` followed by the frame's magnitude for a subframe; nothing for the
/// top-level document.
pub open spec fn frame_suffix(frame_id: i64) -> Seq<char> {
    if frame_id != 0 {
        "_f"@ + decimal(magnitude(frame_id as int))
    } else {
        Seq::empty()
    }
}

/// The well-known bus name of the player of frame `key` in host process
/// `pid`: `org.mpris.MediaPlayer2.<segment>.instance<pid>_t<tab>`, with
/// `_f<frame>` appended for subframes so an embedded player does not clobber
/// the top document's. Ids appear by magnitude to keep the name valid.
pub open spec fn spec_bus_name(entry: Seq<char>, pid: u32, key: PlayerKey) -> Seq<char> {
    "org.mpris.MediaPlayer2."@ + spec_bus_segment(entry) + ".instance"@ + decimal(pid as nat)
        + "_t"@ + decimal(magnitude(key.tab_id as int)) + frame_suffix(key.frame_id)
}

/// The well-known bus name of the player of frame `key`, for the browser of
/// `.desktop` entry `entry` and host process `pid`.
pub fn bus_name(entry: &str, pid: u32, key: PlayerKey) -> (r: String)
    ensures
        r@ == spec_bus_name(entry@, pid, key),
{
    let mut v: Vec<char> = Vec::new();
    push_str(&mut v, "org.mpris.MediaPlayer2.");
    push_str(&mut v, bus_segment(entry));
    push_str(&mut v, ".instance");
    push_decimal(&mut v, pid as u64);
    push_str(&mut v, "_t");
    push_decimal(&mut v, unsigned_abs(key.tab_id));
    let ghost base = v@;
    if key.frame_id != 0 {
        push_str(&mut v, "_f");
        push_decimal(&mut v, unsigned_abs(key.frame_id));
        assert(v@ =~= base + frame_suffix(key.frame_id));
    } else {
        assert(v@ =~= base + frame_suffix(key.frame_id));
    }
    string_from_chars(v)
}

/// Splitting a sequence of digits off the front of a text is unambiguous
/// when what follows the digits is empty or starts with `_`.
proof fn lemma_split_digits(d1: Seq<char>, s1: Seq<char>, d2: Seq<char>, s2: Seq<char>)
    requires
        forall|i: int| 0 <= i < d1.len() ==> '0' <= #[trigger] d1[i] <= '9',
        forall|i: int| 0 <= i < d2.len() ==> '0' <= #[trigger] d2[i] <= '9',
        s1.len() > 0 ==> s1[0] == '_',
        s2.len() > 0 ==> s2[0] == '_',
        d1 + s1 == d2 + s2,
    ensures
        d1 == d2,
        s1 == s2,
{
    let x = d1 + s1;
    if d1.len() < d2.len() {
        if s1.len() > 0 {
            assert(x[d1.len() as int] == s1[0]);
            assert((d2 + s2)[d1.len() as int] == d2[d1.len() as int]);
        } else {
            assert(x.len() < (d2 + s2).len());
        }
    } else if d2.len() < d1.len() {
        if s2.len() > 0 {
            assert((d2 + s2)[d2.len() as int] == s2[0]);
            assert(x[d2.len() as int] == d1[d2.len() as int]);
        } else {
            assert(x.len() > (d2 + s2).len());
        }
    } else {
        assert(d1 =~= x.take(d1.len() as int));
        assert(d2 =~= (d2 + s2).take(d1.len() as int));
        assert(s1 =~= x.skip(d1.len() as int));
        assert(s2 =~= (d2 + s2).skip(d1.len() as int));
    }
}

/// Players of different frames get different bus names, as long as the tab
/// and frame ids are not negative (ids appear by magnitude, so a negative id
/// shares the name of its positive counterpart).
pub proof fn lemma_bus_names_distinct(entry: Seq<char>, pid: u32, a: PlayerKey, b: PlayerKey)
    requires
        a != b,
        a.tab_id >= 0,
        a.frame_id >= 0,
        b.tab_id >= 0,
        b.frame_id >= 0,
    ensures
        spec_bus_name(entry, pid, a) != spec_bus_name(entry, pid, b),
{
    let prefix = "org.mpris.MediaPlayer2."@ + spec_bus_segment(entry) + ".instance"@ + decimal(
        pid as nat,
    ) + "_t"@;
    let ta = decimal(magnitude(a.tab_id as int));
    let tb = decimal(magnitude(b.tab_id as int));
    let fa = frame_suffix(a.frame_id);
    let fb = frame_suffix(b.frame_id);
    if spec_bus_name(entry, pid, a) == spec_bus_name(entry, pid, b) {
        reveal_strlit("_f");
        assert(spec_bus_name(entry, pid, a) =~= prefix + (ta + fa));
        assert(spec_bus_name(entry, pid, b) =~= prefix + (tb + fb));
        assert((prefix + (ta + fa)).skip(prefix.len() as int) =~= ta + fa);
        assert((prefix + (tb + fb)).skip(prefix.len() as int) =~= tb + fb);
        lemma_decimal_digits(magnitude(a.tab_id as int));
        lemma_decimal_digits(magnitude(b.tab_id as int));
        assert(fa.len() > 0 ==> fa[0] == '_');
        assert(fb.len() > 0 ==> fb[0] == '_');
        lemma_split_digits(ta, fa, tb, fb);
        crate::text::lemma_decimal_injective(
            magnitude(a.tab_id as int),
            magnitude(b.tab_id as int),
        );
        if a.frame_id != b.frame_id {
            if a.frame_id != 0 && b.frame_id != 0 {
                let da = decimal(magnitude(a.frame_id as int));
                let db = decimal(magnitude(b.frame_id as int));
                assert(fa.skip(2) =~= da);
                assert(fb.skip(2) =~= db);
                crate::text::lemma_decimal_injective(
                    magnitude(a.frame_id as int),
                    magnitude(b.frame_id as int),
                );
            } else if a.frame_id != 0 {
                assert(fa.len() > 0);
            } else {
                assert(fb.len() > 0);
            }
        }
    }
}

// ---------------------------------------------------------------------------
// Signals
// ---------------------------------------------------------------------------

/// A D-Bus signal that an update makes the player emit.
#[derive(Debug, Clone, Copy, PartialEq, Eq, Structural)]
pub enum Signal {
    MetadataChanged,
    PlaybackStatusChanged,
    VolumeChanged,
    RateChanged,
    LoopStatusChanged,
    CanSeekChanged,
    CanGoNextChanged,
    CanGoPreviousChanged,
    CanPlayChanged,
    CanPauseChanged,
    /// MPRIS `Seeked`, with the new position in microseconds.
    Seeked(i64),
}

/// `seq![s]` where `b` holds, else the empty sequence.
#[verifier::opaque]
pub open spec fn signal_if(b: bool, s: Signal) -> Seq<Signal> {
    if b {
        seq![s]
    } else {
        Seq::empty()
    }
}

/// The signals an update emits, in order: a `PropertiesChanged` for each
/// changed property (CanPlay and CanPause together), then `Seeked` where the
/// position jumped.
pub open spec fn spec_update_signals(o: UpdateOutcome) -> Seq<Signal> {
    let c = o.changed;
    signal_if(c.metadata, Signal::MetadataChanged) + signal_if(
        c.playback_status,
        Signal::PlaybackStatusChanged,
    ) + signal_if(c.volume, Signal::VolumeChanged) + signal_if(c.rate, Signal::RateChanged)
        + signal_if(c.loop_status, Signal::LoopStatusChanged) + signal_if(
        c.can_seek,
        Signal::CanSeekChanged,
    ) + signal_if(c.can_go_next, Signal::CanGoNextChanged) + signal_if(
        c.can_go_previous,
        Signal::CanGoPreviousChanged,
    ) + signal_if(c.can_play_pause, Signal::CanPlayChanged) + signal_if(
        c.can_play_pause,
        Signal::CanPauseChanged,
    ) + match o.position {
        PositionDelta::Seeked(p) => seq![Signal::Seeked(p)],
        PositionDelta::Continuous => Seq::empty(),
    }
}

/// Appends `s` to `v` where `b` holds.
fn push_signal_if(v: &mut Vec<Signal>, b: bool, s: Signal)
    ensures
        final(v)@ == old(v)@ + signal_if(b, s),
{
    reveal(signal_if);
    if b {
        v.push(s);
    } else {
        assert(v@ =~= v@ + Seq::<Signal>::empty());
    }
}

/// The signals that announce an update's outcome. Steady-state playback
/// yields none: Position is read on demand by clients, never pushed.
pub fn update_signals(outcome: &UpdateOutcome) -> (r: Vec<Signal>)
    ensures
        r@ == spec_update_signals(*outcome),
        forall|x: Signal| r@.contains(x) <==> signal_announced(*outcome, x),
{
    let c = outcome.changed;
    let mut v: Vec<Signal> = Vec::new();
    assert(v@ =~= Seq::<Signal>::empty());
    push_signal_if(&mut v, c.metadata, Signal::MetadataChanged);
    push_signal_if(&mut v, c.playback_status, Signal::PlaybackStatusChanged);
    push_signal_if(&mut v, c.volume, Signal::VolumeChanged);
    push_signal_if(&mut v, c.rate, Signal::RateChanged);
    push_signal_if(&mut v, c.loop_status, Signal::LoopStatusChanged);
    push_signal_if(&mut v, c.can_seek, Signal::CanSeekChanged);
    push_signal_if(&mut v, c.can_go_next, Signal::CanGoNextChanged);
    push_signal_if(&mut v, c.can_go_previous, Signal::CanGoPreviousChanged);
    push_signal_if(&mut v, c.can_play_pause, Signal::CanPlayChanged);
    push_signal_if(&mut v, c.can_play_pause, Signal::CanPauseChanged);
    match outcome.position {
        PositionDelta::Seeked(p) => {
            v.push(Signal::Seeked(p));
        },
        PositionDelta::Continuous => {
            assert(v@ =~= v@ + Seq::<Signal>::empty());
        },
    }
    proof {
        assert(v@ == spec_update_signals(*outcome));
        assert forall|x: Signal| v@.contains(x) <==> signal_announced(*outcome, x) by {
            lemma_signals_announced(*outcome, x);
        }
    }
    v
}

/// An update emits no signal at all exactly when no property changed and the
/// position moved continuously.
pub proof fn lemma_quiet_update(o: UpdateOutcome)
    ensures
        spec_update_signals(o).len() == 0 <==> (!changed_any(o.changed) && o.position
            == PositionDelta::Continuous),
{
    let c = o.changed;
    lemma_signal_if_len(c.metadata, Signal::MetadataChanged);
    lemma_signal_if_len(c.playback_status, Signal::PlaybackStatusChanged);
    lemma_signal_if_len(c.volume, Signal::VolumeChanged);
    lemma_signal_if_len(c.rate, Signal::RateChanged);
    lemma_signal_if_len(c.loop_status, Signal::LoopStatusChanged);
    lemma_signal_if_len(c.can_seek, Signal::CanSeekChanged);
    lemma_signal_if_len(c.can_go_next, Signal::CanGoNextChanged);
    lemma_signal_if_len(c.can_go_previous, Signal::CanGoPreviousChanged);
    lemma_signal_if_len(c.can_play_pause, Signal::CanPlayChanged);
    lemma_signal_if_len(c.can_play_pause, Signal::CanPauseChanged);
    assert(spec_update_signals(o).len() == signal_count(c.metadata) + signal_count(
        c.playback_status,
    ) + signal_count(c.volume) + signal_count(c.rate) + signal_count(c.loop_status)
        + signal_count(c.can_seek) + signal_count(c.can_go_next) + signal_count(
        c.can_go_previous,
    ) + 2 * signal_count(c.can_play_pause) + signal_count(o.position is Seeked));
}

proof fn lemma_signal_if_len(b: bool, s: Signal)
    ensures
        signal_if(b, s).len() == signal_count(b),
{
    reveal(signal_if);
}

/// One signal where `b` holds, none otherwise.
pub open spec fn signal_count(b: bool) -> int {
    if b {
        1
    } else {
        0
    }
}

/// An update that repeats the current track — only the position moves, by no
/// more than the drift threshold from the rate-scaled prediction, and no seek
/// is flagged — emits no signal: steady playback produces no D-Bus traffic.
pub proof fn lemma_steady_playback_is_quiet(s: PlayerState, t: TrackInfo, elapsed_us: nat)
    requires
        t == (TrackInfo { position_us: t.position_us, seeked: false, ..s.track }),
        abs_int(t.position_us - predicted_position(s, elapsed_us)) <= SEEK_DRIFT_THRESHOLD_US,
    ensures
        spec_update_signals(
            UpdateOutcome {
                changed: spec_changed(s.track, t),
                position: spec_position_delta(s, t, elapsed_us),
            },
        ).len() == 0,
{
    let o = UpdateOutcome {
        changed: spec_changed(s.track, t),
        position: spec_position_delta(s, t, elapsed_us),
    };
    assert(!changed_any(o.changed));
    lemma_quiet_update(o);
}

/// Whether an outcome calls for signal `x`: each property signal exactly when
/// its own property changed (CanPlay and CanPause both when content appears
/// or disappears), and `Seeked(p)` exactly when the position jumped to `p`.
pub open spec fn signal_announced(o: UpdateOutcome, x: Signal) -> bool {
    match x {
        Signal::MetadataChanged => o.changed.metadata,
        Signal::PlaybackStatusChanged => o.changed.playback_status,
        Signal::VolumeChanged => o.changed.volume,
        Signal::RateChanged => o.changed.rate,
        Signal::LoopStatusChanged => o.changed.loop_status,
        Signal::CanSeekChanged => o.changed.can_seek,
        Signal::CanGoNextChanged => o.changed.can_go_next,
        Signal::CanGoPreviousChanged => o.changed.can_go_previous,
        Signal::CanPlayChanged => o.changed.can_play_pause,
        Signal::CanPauseChanged => o.changed.can_play_pause,
        Signal::Seeked(p) => o.position == PositionDelta::Seeked(p),
    }
}

proof fn lemma_contains_add<A>(a: Seq<A>, b: Seq<A>, x: A)
    ensures
        (a + b).contains(x) <==> a.contains(x) || b.contains(x),
{
    if a.contains(x) {
        let i = choose|i: int| 0 <= i < a.len() && a[i] == x;
        assert((a + b)[i] == x);
    }
    if b.contains(x) {
        let i = choose|i: int| 0 <= i < b.len() && b[i] == x;
        assert((a + b)[a.len() + i] == x);
    }
    if (a + b).contains(x) {
        let i = choose|i: int| 0 <= i < (a + b).len() && (a + b)[i] == x;
        if i < a.len() {
            assert(a[i] == x);
        } else {
            assert(b[i - a.len()] == x);
        }
    }
}

proof fn lemma_signal_if_contains(b: bool, s: Signal, x: Signal)
    ensures
        signal_if(b, s).contains(x) <==> (b && s == x),
{
    reveal(signal_if);
    if b {
        assert(signal_if(b, s)[0] == s);
    }
}

/// An update emits each signal exactly when the outcome calls for it: every
/// changed property gets its own `PropertiesChanged`, no unchanged property
/// gets one, and `Seeked` carries the position the update jumped to.
pub proof fn lemma_signals_announced(o: UpdateOutcome, x: Signal)
    ensures
        spec_update_signals(o).contains(x) <==> signal_announced(o, x),
{
    let c = o.changed;
    let p1 = signal_if(c.metadata, Signal::MetadataChanged);
    let p2 = signal_if(c.playback_status, Signal::PlaybackStatusChanged);
    let p3 = signal_if(c.volume, Signal::VolumeChanged);
    let p4 = signal_if(c.rate, Signal::RateChanged);
    let p5 = signal_if(c.loop_status, Signal::LoopStatusChanged);
    let p6 = signal_if(c.can_seek, Signal::CanSeekChanged);
    let p7 = signal_if(c.can_go_next, Signal::CanGoNextChanged);
    let p8 = signal_if(c.can_go_previous, Signal::CanGoPreviousChanged);
    let p9 = signal_if(c.can_play_pause, Signal::CanPlayChanged);
    let p10 = signal_if(c.can_play_pause, Signal::CanPauseChanged);
    let p11: Seq<Signal> = match o.position {
        PositionDelta::Seeked(p) => seq![Signal::Seeked(p)],
        PositionDelta::Continuous => Seq::empty(),
    };
    lemma_signal_if_contains(c.metadata, Signal::MetadataChanged, x);
    lemma_signal_if_contains(c.playback_status, Signal::PlaybackStatusChanged, x);
    lemma_signal_if_contains(c.volume, Signal::VolumeChanged, x);
    lemma_signal_if_contains(c.rate, Signal::RateChanged, x);
    lemma_signal_if_contains(c.loop_status, Signal::LoopStatusChanged, x);
    lemma_signal_if_contains(c.can_seek, Signal::CanSeekChanged, x);
    lemma_signal_if_contains(c.can_go_next, Signal::CanGoNextChanged, x);
    lemma_signal_if_contains(c.can_go_previous, Signal::CanGoPreviousChanged, x);
    lemma_signal_if_contains(c.can_play_pause, Signal::CanPlayChanged, x);
    lemma_signal_if_contains(c.can_play_pause, Signal::CanPauseChanged, x);
    let a2 = p1 + p2;
    let a3 = a2 + p3;
    let a4 = a3 + p4;
    let a5 = a4 + p5;
    let a6 = a5 + p6;
    let a7 = a6 + p7;
    let a8 = a7 + p8;
    let a9 = a8 + p9;
    let a10 = a9 + p10;
    let a11 = a10 + p11;
    assert(spec_update_signals(o) == a11);
    lemma_contains_add(p1, p2, x);
    lemma_contains_add(a2, p3, x);
    lemma_contains_add(a3, p4, x);
    lemma_contains_add(a4, p5, x);
    lemma_contains_add(a5, p6, x);
    lemma_contains_add(a6, p7, x);
    lemma_contains_add(a7, p8, x);
    lemma_contains_add(a8, p9, x);
    lemma_contains_add(a9, p10, x);
    lemma_contains_add(a10, p11, x);
    match o.position {
        PositionDelta::Seeked(p) => {
            assert(p11[0] == Signal::Seeked(p));
        },
        PositionDelta::Continuous => {},
    }
}

} // verus!
