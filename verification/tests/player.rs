use mpris_hyprland_host::mpris_player::{
    can_control, maximum_rate, minimum_rate, shuffle, trackid, LoopStatus, MetadataEntry,
    MetadataValue, PlaybackStatus,
};
use mpris_hyprland_host::mpris_root::{
    can_quit, can_raise, has_track_list, raise, supported_mime_types, supported_uri_schemes,
};
use mpris_hyprland_host::protocol::{Action, OutMessage, PlayerKey, TrackInfo};
use mpris_hyprland_host::state::PlayerState;

fn state(title: &str, duration_us: i64, playing: bool) -> PlayerState {
    PlayerState::new(TrackInfo {
        title: title.to_string(),
        duration_us,
        playing,
        ..TrackInfo::default()
    })
}

const KEY: PlayerKey = PlayerKey { tab_id: 12, frame_id: 0 };

#[test]
fn playback_status_follows_playing_stop_and_content() {
    assert_eq!(state("Song", 0, true).playback_status(), PlaybackStatus::Playing);
    assert_eq!(state("Song", 0, false).playback_status(), PlaybackStatus::Paused);
    assert_eq!(state("", 0, false).playback_status(), PlaybackStatus::Stopped);
    assert_eq!(state("", 5, false).playback_status(), PlaybackStatus::Paused);
    let mut s = state("Song", 0, true);
    s.mark_stopped();
    assert_eq!(s.playback_status(), PlaybackStatus::Stopped);
    assert_eq!(PlaybackStatus::Playing.as_str(), "Playing");
    assert_eq!(PlaybackStatus::Paused.as_str(), "Paused");
    assert_eq!(PlaybackStatus::Stopped.as_str(), "Stopped");
}

#[test]
fn loop_status_writes_read_back() {
    let mut s = state("Song", 0, false);
    assert_eq!(s.loop_status(), LoopStatus::Off);
    assert_eq!(s.set_loop_status("Track"), 1_000_000);
    assert_eq!(s.loop_status(), LoopStatus::Track);
    assert_eq!(s.set_loop_status("Playlist"), 1_000_000);
    assert_eq!(s.loop_status(), LoopStatus::Track);
    assert_eq!(s.set_loop_status("None"), 0);
    assert_eq!(s.loop_status(), LoopStatus::Off);
    assert_eq!(LoopStatus::Off.as_str(), "None");
    assert_eq!(LoopStatus::Track.as_str(), "Track");
}

#[test]
fn rate_is_clamped_on_write_and_read() {
    let mut s = state("Song", 0, false);
    assert_eq!(s.set_rate(8_000_000), 4_000_000);
    assert_eq!(s.rate(), 4_000_000);
    assert_eq!(s.set_rate(100_000), 250_000);
    assert_eq!(s.rate(), 250_000);
    assert_eq!(s.set_rate(1_500_000), 1_500_000);
    s.track.rate_ppm = 10;
    assert_eq!(s.rate(), 250_000);
    assert_eq!(minimum_rate(), 250_000);
    assert_eq!(maximum_rate(), 4_000_000);
}

#[test]
fn volume_is_clamped_on_write_and_read() {
    let mut s = state("Song", 0, false);
    assert_eq!(s.volume(), 1_000_000);
    assert_eq!(s.set_volume(-5), 0);
    assert_eq!(s.volume(), 0);
    assert_eq!(s.set_volume(2_000_000), 1_000_000);
    assert_eq!(s.set_volume(250_000), 250_000);
    assert_eq!(s.track.volume_ppm, 250_000);
}

#[test]
fn can_flags_follow_the_track() {
    let mut s = state("", 0, false);
    assert!(!s.can_play());
    assert!(!s.can_pause());
    assert!(!s.has_content());
    assert!(s.can_seek());
    s.track.can_go_next = true;
    assert!(s.can_go_next());
    assert!(!s.can_go_previous());
    let s = state("Song", 0, false);
    assert!(s.can_play());
    assert!(s.can_pause());
    assert!(!shuffle());
    assert!(can_control());
}

#[test]
fn trackid_carries_tab_frame_and_counter() {
    assert_eq!(
        trackid(PlayerKey { tab_id: -7, frame_id: 3 }, 42),
        "/org/mpris/MediaPlayer2/firefox/t7/f3/42"
    );
    assert_ne!(trackid(KEY, 1), trackid(KEY, 2));
}

#[test]
fn metadata_of_a_full_track() {
    let mut s = PlayerState::new(TrackInfo {
        title: "Never".to_string(),
        artist: "Rick".to_string(),
        album: "Whenever".to_string(),
        art_url: "https://i.ytimg.com/vi/x/maxresdefault.jpg".to_string(),
        page_url: "https://www.youtube.com/watch?v=x".to_string(),
        duration_us: 213_000_000,
        ..TrackInfo::default()
    });
    s.track_counter = 5;
    let m = s.metadata(KEY);
    let keys: Vec<&str> = m.iter().map(|e| e.key.as_str()).collect();
    assert_eq!(
        keys,
        vec![
            "mpris:trackid",
            "mpris:length",
            "mpris:artUrl",
            "xesam:title",
            "xesam:artist",
            "xesam:album",
            "xesam:url"
        ]
    );
    match &m[0].value {
        MetadataValue::ObjectPath(p) => assert_eq!(p, "/org/mpris/MediaPlayer2/firefox/t12/f0/5"),
        other => panic!("unexpected {other:?}"),
    }
    match &m[1].value {
        MetadataValue::Int64(n) => assert_eq!(*n, 213_000_000),
        other => panic!("unexpected {other:?}"),
    }
    match &m[4].value {
        MetadataValue::TextList(v) => assert_eq!(v, &vec!["Rick".to_string()]),
        other => panic!("unexpected {other:?}"),
    }
}

#[test]
fn metadata_of_an_empty_track_is_only_the_trackid() {
    let s = state("", 0, false);
    let m: Vec<MetadataEntry> = s.metadata(KEY);
    assert_eq!(m.len(), 1);
    assert_eq!(m[0].key, "mpris:trackid");
}

#[test]
fn root_properties() {
    assert!(!can_quit());
    assert!(can_raise());
    assert!(!has_track_list());
    assert_eq!(supported_uri_schemes(), vec!["http", "https", "file"]);
    assert_eq!(
        supported_mime_types(),
        vec!["audio/mpeg", "audio/ogg", "audio/webm", "video/mp4", "video/webm"]
    );
}

#[test]
fn raise_and_commands_address_the_frame() {
    let key = PlayerKey { tab_id: 4, frame_id: 9 };
    assert_eq!(
        raise(key),
        OutMessage::Command { tab_id: 4, frame_id: 9, action: Action::Raise, value: None }
    );
    assert_eq!(
        key.command(Action::Seek, Some(-5_000_000)),
        OutMessage::Command { tab_id: 4, frame_id: 9, action: Action::Seek, value: Some(-5_000_000) }
    );
}
