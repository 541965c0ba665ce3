use mpris_hyprland_host::dispatch::{
    bus_name, message_key, registry_step, route_message, update_signals, RegistryStep, Route, Signal,
};
use mpris_hyprland_host::protocol::{InMessage, PlayerKey, TrackInfo};
use mpris_hyprland_host::state::{Changed, PositionDelta, UpdateOutcome};

#[test]
fn hello_and_ping_are_ignored() {
    assert!(matches!(route_message(InMessage::Ping), Route::Ignore));
    assert!(matches!(
        route_message(InMessage::Hello { version: "1".to_string() }),
        Route::Ignore
    ));
}

#[test]
fn update_and_remove_address_the_frame() {
    let track = TrackInfo { title: "Song".to_string(), ..TrackInfo::default() };
    match route_message(InMessage::Update { tab_id: 3, frame_id: 1, track }) {
        Route::Upsert { key, track } => {
            assert_eq!(key, PlayerKey { tab_id: 3, frame_id: 1 });
            assert_eq!(track.title, "Song");
        }
        other => panic!("unexpected {other:?}"),
    }
    match route_message(InMessage::Remove { tab_id: 3, frame_id: 0 }) {
        Route::Remove { key } => assert_eq!(key, PlayerKey { tab_id: 3, frame_id: 0 }),
        other => panic!("unexpected {other:?}"),
    }
}

#[test]
fn top_level_frames_keep_the_clean_bus_name() {
    assert_eq!(
        bus_name("zen", 4242, PlayerKey { tab_id: 17, frame_id: 0 }),
        "org.mpris.MediaPlayer2.firefox.instance4242_t17"
    );
}

#[test]
fn subframes_append_their_frame() {
    assert_eq!(
        bus_name("brave-browser", 1, PlayerKey { tab_id: -17, frame_id: 5 }),
        "org.mpris.MediaPlayer2.chromium.instance1_t17_f5"
    );
    assert_ne!(
        bus_name("firefox", 9, PlayerKey { tab_id: 1, frame_id: 12 }),
        bus_name("firefox", 9, PlayerKey { tab_id: 11, frame_id: 2 })
    );
}

#[test]
fn steady_update_emits_nothing() {
    let o = UpdateOutcome { changed: Changed::default(), position: PositionDelta::Continuous };
    assert!(update_signals(&o).is_empty());
}

#[test]
fn changed_properties_then_seeked_are_emitted_in_order() {
    let o = UpdateOutcome {
        changed: Changed {
            metadata: true,
            volume: true,
            can_play_pause: true,
            ..Changed::default()
        },
        position: PositionDelta::Seeked(5_000_000),
    };
    assert_eq!(
        update_signals(&o),
        vec![
            Signal::MetadataChanged,
            Signal::VolumeChanged,
            Signal::CanPlayChanged,
            Signal::CanPauseChanged,
            Signal::Seeked(5_000_000)
        ]
    );
}

#[test]
fn a_seek_alone_emits_only_seeked() {
    let o = UpdateOutcome { changed: Changed::default(), position: PositionDelta::Seeked(0) };
    assert_eq!(update_signals(&o), vec![Signal::Seeked(0)]);
}

#[test]
fn registry_creates_updates_and_removes() {
    let key = PlayerKey { tab_id: 2, frame_id: 0 };
    let update = || InMessage::Update { tab_id: 2, frame_id: 0, track: TrackInfo::default() };
    assert_eq!(message_key(&update()), Some(key));
    assert_eq!(message_key(&InMessage::Ping), None);
    assert!(matches!(registry_step(false, update()), RegistryStep::Create { key: k, .. } if k == key));
    assert!(matches!(registry_step(true, update()), RegistryStep::Update { key: k, .. } if k == key));
    assert!(matches!(
        registry_step(true, InMessage::Remove { tab_id: 2, frame_id: 0 }),
        RegistryStep::Remove { key: k } if k == key
    ));
    assert!(matches!(registry_step(true, InMessage::Ping), RegistryStep::Nothing));
    assert!(matches!(
        registry_step(false, InMessage::Hello { version: String::new() }),
        RegistryStep::Nothing
    ));
}
