//! Presentation of the remote screen: what is uploaded to the GPU and what is
//! drawn.

pub mod presentation;
pub mod storage;
pub mod tiles;
