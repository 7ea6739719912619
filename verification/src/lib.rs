//! The logic of a remote desktop viewer: endpoints and settings, the credential
//! vault, the windows, the live decode path, the presentation of frames, and the
//! recording of sessions.

pub mod clock;
pub mod config;
pub mod endpoint;
pub mod frame_rate;
pub mod i18n;
pub mod icons;
pub mod keymap;
pub mod media;
pub mod recording;
pub mod renderer;
pub mod state;
pub mod text;
pub mod vault;
pub mod viewer;
