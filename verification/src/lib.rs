//! A dynamic media segmenter. A stream is a sequence of access units, one
//! encoded video frame each, at a fixed cadence. The library picks the
//! access units of a time window, packs them as a transport stream segment,
//! as a container file or as they are, and cuts the whole sequence into the
//! segments of a playlist.
//!
//! Reading directories and files and serving requests is left to the
//! program around the library, which hands it names and bytes.

pub mod codec;
pub mod container;
pub mod errors;
pub mod frames;
pub mod manifest;
pub mod mp4_writer;
pub mod mpegts;
pub mod order;
pub mod order_laws;
pub mod packet;
pub mod routes;
pub mod text;
pub mod ts_laws;
pub mod window;
