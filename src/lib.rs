//! Recovery of the playback address of a Twitch VOD from the storage naming
//! scheme of Twitch's CDN.

pub mod constants;
pub mod error;
pub mod probe;
pub mod text;
pub mod utils;
pub mod vod_recover;
pub mod vod_unmute;

pub use error::{TwitchRecoverError, TwitchRecoverErrorKind, TwitchRecoverResult};
pub use vod_recover::{ParsedTwitchTrackerUrl, VodRecover, VodRecoverOptions};
pub use vod_unmute::{VodUnmute, VodUnmuteResult};
