//! A serial-relay traffic formatter: buffers the bytes observed on each
//! direction of a two-way relay, decides when a buffer is due to be shown,
//! and renders it as an ASCII transcript, a hex dump, or a hex dump with an
//! ASCII gutter, keeping a running byte offset per direction.

pub mod channel;
pub mod colors;
pub mod format;
pub mod render;
