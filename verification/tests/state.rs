use mpris_hyprland_host::protocol::{default_can_seek, default_rate, default_volume, TrackInfo};
use mpris_hyprland_host::state::{Changed, PlayerState, PositionDelta};
use std::time::Instant;

fn track(title: &str, duration_us: i64, position_us: i64, playing: bool) -> TrackInfo {
    TrackInfo {
        title: title.to_string(),
        page_url: "https://www.youtube.com/watch?v=x".to_string(),
        duration_us,
        position_us,
        playing,
        ..TrackInfo::default()
    }
}

#[test]
fn defaults_are_full_volume_normal_rate_seekable() {
    let t = TrackInfo::default();
    assert_eq!(t.volume_ppm, 1_000_000);
    assert_eq!(t.rate_ppm, 1_000_000);
    assert!(t.can_seek);
    assert!(!t.playing);
    assert_eq!(default_volume(), 1_000_000);
    assert_eq!(default_rate(), 1_000_000);
    assert!(default_can_seek());
}

#[test]
fn new_player_anchors_the_reported_position() {
    let s = PlayerState::new(track("Song", 200_000_000, 12_500_000, true));
    assert_eq!(s.last_position_us, 12_500_000);
    assert_eq!(s.track_counter, 0);
    assert!(!s.stopped);
}

#[test]
fn changed_any_is_false_only_when_nothing_changed() {
    assert!(!Changed::default().any());
    assert!(Changed { rate: true, ..Changed::default() }.any());
    assert!(Changed { can_play_pause: true, ..Changed::default() }.any());
}

#[test]
fn steady_playback_changes_nothing() {
    let mut s = PlayerState::new(track("Song", 200_000_000, 10_000_000, true));
    let now = Instant::now();
    // 2 s of wall clock at normal rate: the page reports 12 s.
    let o = s.apply_update_after(track("Song", 200_000_000, 12_000_000, true), 2_000_000, now);
    assert!(!o.changed.any());
    assert_eq!(o.position, PositionDelta::Continuous);
    assert_eq!(s.track_counter, 0);
    assert_eq!(s.last_position_us, 12_000_000);
}

#[test]
fn prediction_scales_with_rate() {
    let mut t = track("Song", 200_000_000, 10_000_000, true);
    t.rate_ppm = 2_000_000;
    let mut s = PlayerState::new(t.clone());
    // 2 s at double speed = 4 s of media: 14 s is on time.
    let mut next = t.clone();
    next.position_us = 14_000_000;
    let o = s.apply_update_after(next, 2_000_000, Instant::now());
    assert_eq!(o.position, PositionDelta::Continuous);
}

#[test]
fn a_jump_beyond_the_threshold_is_a_seek() {
    let mut s = PlayerState::new(track("Song", 200_000_000, 10_000_000, true));
    let o = s.apply_update_after(track("Song", 200_000_000, 60_000_000, true), 1_000_000, Instant::now());
    assert_eq!(o.position, PositionDelta::Seeked(60_000_000));
}

#[test]
fn a_flagged_seek_is_a_seek_and_never_negative() {
    let mut s = PlayerState::new(track("Song", 200_000_000, 10_000_000, false));
    let mut t = track("Song", 200_000_000, -5, false);
    t.seeked = true;
    let o = s.apply_update_after(t, 0, Instant::now());
    assert_eq!(o.position, PositionDelta::Seeked(0));
}

#[test]
fn a_new_title_bumps_the_track_counter_and_metadata() {
    let mut s = PlayerState::new(track("Song A", 200_000_000, 0, true));
    let o = s.apply_update_after(track("Song B", 200_000_000, 0, true), 0, Instant::now());
    assert!(o.changed.metadata);
    assert_eq!(s.track_counter, 1);
}

#[test]
fn a_small_duration_change_is_the_same_track() {
    let mut s = PlayerState::new(track("Song", 200_000_000, 0, false));
    let o = s.apply_update_after(track("Song", 200_400_000, 0, false), 0, Instant::now());
    assert!(!o.changed.metadata);
    assert_eq!(s.track_counter, 0);
    let o = s.apply_update_after(track("Song", 201_000_000, 0, false), 0, Instant::now());
    assert!(o.changed.metadata);
    assert_eq!(s.track_counter, 1);
}

#[test]
fn the_track_counter_wraps() {
    let mut s = PlayerState::new(track("A", 0, 0, false));
    s.track_counter = u64::MAX;
    s.apply_update_after(track("B", 0, 0, false), 0, Instant::now());
    assert_eq!(s.track_counter, 0);
}

#[test]
fn art_change_is_metadata_but_not_a_new_track() {
    let mut s = PlayerState::new(track("Song", 0, 0, false));
    let mut t = track("Song", 0, 0, false);
    t.art_url = "https://i.ytimg.com/vi/x/maxresdefault.jpg".to_string();
    let o = s.apply_update_after(t, 0, Instant::now());
    assert!(o.changed.metadata);
    assert_eq!(s.track_counter, 0);
}

#[test]
fn level_changes_above_a_thousandth_are_announced() {
    let mut s = PlayerState::new(track("Song", 0, 0, false));
    let mut t = track("Song", 0, 0, false);
    t.volume_ppm = 999_500;
    t.rate_ppm = 1_001_000;
    let o = s.apply_update_after(t, 0, Instant::now());
    assert!(!o.changed.volume);
    assert!(!o.changed.rate);
    let mut t = track("Song", 0, 0, false);
    t.volume_ppm = 500_000;
    t.rate_ppm = 1_500_000;
    let o = s.apply_update_after(t, 0, Instant::now());
    assert!(o.changed.volume);
    assert!(o.changed.rate);
}

#[test]
fn content_appearing_flips_can_play_pause() {
    let mut s = PlayerState::new(track("", 0, 0, false));
    let o = s.apply_update_after(track("", 5_000_000, 0, false), 0, Instant::now());
    assert!(o.changed.can_play_pause);
    assert!(o.changed.metadata);
}

#[test]
fn resuming_playback_clears_stop() {
    let mut s = PlayerState::new(track("Song", 0, 3_000_000, true));
    s.mark_stopped();
    assert!(s.stopped);
    let o = s.apply_update_after(track("Song", 0, 0, false), 0, Instant::now());
    assert!(s.stopped);
    assert!(o.changed.playback_status == false);
    s.apply_update_after(track("Song", 0, 0, true), 0, Instant::now());
    assert!(!s.stopped);
}

#[test]
fn mark_stopped_zeroes_the_position() {
    let mut s = PlayerState::new(track("Song", 100_000_000, 42_000_000, true));
    s.mark_stopped();
    assert!(!s.track.playing);
    assert_eq!(s.track.position_us, 0);
    assert_eq!(s.last_position_us, 0);
    assert_eq!(s.position_after(5_000_000), 0);
    assert_eq!(s.current_position_us(), 0);
}

#[test]
fn position_interpolates_while_playing() {
    let s = PlayerState::new(track("Song", 100_000_000, 10_000_000, true));
    assert_eq!(s.position_after(1_500_000), 11_500_000);
}

#[test]
fn position_is_frozen_while_paused() {
    let s = PlayerState::new(track("Song", 100_000_000, 10_000_000, false));
    assert_eq!(s.position_after(1_500_000), 10_000_000);
}

#[test]
fn position_is_clamped_to_duration_and_zero() {
    let s = PlayerState::new(track("Song", 11_000_000, 10_000_000, true));
    assert_eq!(s.position_after(5_000_000), 11_000_000);
    let s = PlayerState::new(track("Song", 0, -3_000_000, false));
    assert_eq!(s.position_after(0), 0);
}

#[test]
fn negative_rate_counts_as_paused_motion() {
    let mut t = track("Song", 0, 10_000_000, true);
    t.rate_ppm = -1_000_000;
    let s = PlayerState::new(t);
    assert_eq!(s.position_after(5_000_000), 10_000_000);
}

#[test]
fn unknown_duration_saturates_at_the_integer_limit() {
    let mut t = track("Song", 0, i64::MAX - 10, true);
    t.rate_ppm = 1_000_000;
    let s = PlayerState::new(t);
    assert_eq!(s.position_after(1_000_000), i64::MAX);
}

#[test]
fn current_position_of_a_fresh_paused_player_is_its_report() {
    let s = PlayerState::new(track("Song", 100_000_000, 7_000_000, false));
    assert_eq!(s.current_position_us(), 7_000_000);
}

#[test]
fn apply_update_on_the_clock_keeps_the_track() {
    let mut s = PlayerState::new(track("Song", 100_000_000, 7_000_000, false));
    let o = s.apply_update(track("Other", 100_000_000, 7_000_000, false));
    assert!(o.changed.metadata);
    assert_eq!(s.track.title, "Other");
    assert_eq!(o.position, PositionDelta::Continuous);
}

#[test]
fn mark_stopped_at_anchors_the_given_instant() {
    let mut s = PlayerState::new(track("Song", 100_000_000, 42_000_000, true));
    let now = Instant::now();
    s.mark_stopped_at(now);
    assert!(s.stopped);
    assert_eq!(s.last_position_at, now);
    assert_eq!(s.position_after(3_000_000), 0);
}
