//! Job orchestration for a media-transcoding service: the encoder argument policy, the
//! accelerated-encoder cache, media probe readings, the job registry, the session protocol,
//! and the file lifecycle around uploads and downloads.
pub mod text;
pub mod format;
pub mod gpu;
pub mod policy;
pub mod probe;
pub mod ident;
pub mod job;
pub mod registry;
pub mod progress;
pub mod session;
pub mod download;
pub mod upload;
pub mod http;
