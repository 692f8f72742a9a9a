//! The preview pane: loading off the UI thread, the handler's state, and
//! playback of the clip that belongs to a Live Photo.

pub mod backend;
pub mod directory;
pub mod geometry;
pub mod handler;
pub mod load;
pub mod surface;
pub mod token;
pub mod video;
pub mod vlc;
