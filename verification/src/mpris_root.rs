//! The values behind `org.mpris.MediaPlayer2`, the root MPRIS interface.

use crate::protocol::{Action, OutMessage, PlayerKey};
use vstd::prelude::*;

verus! {

/// The command a `Raise` call relays to the background script, which focuses
/// the owning tab and window: the player *is* a browser tab.
pub fn raise(key: PlayerKey) -> (m: OutMessage)
    ensures
        m == (OutMessage::Command {
            tab_id: key.tab_id,
            frame_id: key.frame_id,
            action: Action::Raise,
            value: None,
        }),
{
    key.command(Action::Raise, None)
}

/// MPRIS `CanQuit`: a media bar must not be able to quit the browser.
pub fn can_quit() -> (r: bool)
    ensures
        !r,
{
    false
}

/// MPRIS `CanRaise`: `Raise` focuses the owning tab.
pub fn can_raise() -> (r: bool)
    ensures
        r,
{
    true
}

/// MPRIS `HasTrackList`: there is no track list.
pub fn has_track_list() -> (r: bool)
    ensures
        !r,
{
    false
}

/// MPRIS `SupportedUriSchemes`.
pub fn supported_uri_schemes() -> (r: Vec<String>)
    ensures
        r@.map_values(|s: String| s@) == seq!["http"@, "https"@, "file"@],
{
    let r = vec!["http".to_owned(), "https".to_owned(), "file".to_owned()];
    assert(r@.map_values(|s: String| s@) =~= seq!["http"@, "https"@, "file"@]);
    r
}

/// MPRIS `SupportedMimeTypes`.
pub fn supported_mime_types() -> (r: Vec<String>)
    ensures
        r@.map_values(|s: String| s@) == seq![
            "audio/mpeg"@,
            "audio/ogg"@,
            "audio/webm"@,
            "video/mp4"@,
            "video/webm"@,
        ],
{
    let r = vec![
        "audio/mpeg".to_owned(),
        "audio/ogg".to_owned(),
        "audio/webm".to_owned(),
        "video/mp4".to_owned(),
        "video/webm".to_owned(),
    ];
    assert(r@.map_values(|s: String| s@) =~= seq![
        "audio/mpeg"@,
        "audio/ogg"@,
        "audio/webm"@,
        "video/mp4"@,
        "video/webm"@,
    ]);
    r
}

} // verus!
