//! Verified core of the per-window MPRIS bridge: the native-messaging frame
//! codec, the player state machine and the decisions that map browser updates
//! and D-Bus requests onto MPRIS properties, signals and page commands.

pub mod text;
pub mod messaging;
pub mod protocol;
pub mod state;
pub mod mpris_player;
pub mod browser;
pub mod dispatch;
pub mod mpris_root;
