//! Thumbnails and previews for comic book archives, Live Photos and
//! ebooks.

pub mod archive;
pub mod blend;
pub mod canvas;
pub mod cli;
pub mod com;
pub mod command;
pub mod hresult;
pub mod limits;
pub mod natural;
pub mod overlay;
pub mod preview;
pub mod rounding;
pub mod settings;
pub mod text;
pub mod thumbnail;
pub mod update_check;
pub mod wic;
