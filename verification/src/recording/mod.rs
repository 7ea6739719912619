//! Session recording: writes the frames that the viewer presents to a movie file.

pub mod encoder;
pub mod errors;
pub mod input;
pub mod labels;
pub mod layout;
pub mod muxer;
pub mod nal;
pub mod quality;
pub mod state;
pub mod take;
pub mod tap;
pub mod timeline;
pub mod writer;
