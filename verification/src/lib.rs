//! Mirrored views of a packed bitmap and the four-state toggle that selects
//! between them.
//!
//! A bitmap is a byte buffer of three-byte pixels laid out row after row.
//! [`mirror::mirror_pixels`], [`mirror::mirror_rows`] and
//! [`mirror::mirror_both`] compute its three mirror images,
//! [`state::ImageState`] records which of the four views is shown, and
//! [`images::ImageSet`] holds the four buffers and hands out the one that a
//! state selects.
pub mod images;
pub mod mirror;
pub mod mirror_laws;
pub mod state;
pub mod state_laws;
