//! spotstream's verified core: reading Spotify track and playlist IDs out of
//! raw IDs, URIs and web links; the decisions of the device pairing flow
//! (RFC 8628); the choice of the session cache directory; and the metadata
//! records that the command line prints.

pub mod auth;
pub mod cache;
pub mod player;
pub mod spotify_id;
pub mod text;

pub use auth::{default_interval, DeviceAuthResponse};
pub use player::{
    parse_playlist_id, parse_track_id, PlaylistInfo, PlaylistItemInfo, TrackInfo,
};
pub use spotify_id::SpotifyId;
