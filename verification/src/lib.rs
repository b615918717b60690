//! Plans the conversion of a media file into files that a video-sharing
//! platform's client accepts, and describes the result in the manifest that
//! the platform trusts.
//!
//! The crate holds the decisions only: it reads the text that a stream
//! inspection tool printed, and it returns the list of stream operations for
//! a transcoding tool, the arguments that carry them out, and the manifest
//! data.  Running the tools and writing files is left to the caller.

pub mod command;
pub mod cytube_structs;
pub mod ffmpeg_languages;
pub mod ffprobe;
pub mod plan_facts;
pub mod selection;
pub mod text;
pub mod transcode;
