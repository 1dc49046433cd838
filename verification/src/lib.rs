//! Playback core of the Hippo music player: song-path handling, the
//! sample stream that feeds the output device, the list of running
//! playbacks and the output-device bookkeeping.

pub mod song_path;
pub mod playback;
pub mod callback;
pub mod audio;
