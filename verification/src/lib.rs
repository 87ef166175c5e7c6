//! Core of a text-to-speech gateway: request validation and dispatch, a
//! bounded content-addressed audio cache, outbound identity rotation,
//! bearer-credential lifecycle, and the local synthesis pipeline's binary
//! WAV handling.

pub mod backend;
pub mod cache;
pub mod catalog;
pub mod credential;
pub mod digest;
pub mod dispatch;
pub mod errors;
pub mod gcloud;
pub mod pipeline;
pub mod rotation;
pub mod text;
pub mod translate;
pub mod wav;
