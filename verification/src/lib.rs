//! A glyph atlas: rasterized glyph bitmaps are packed into fixed-size texture
//! pages, shelf by shelf, and every glyph is remembered under its key so that
//! it is packed only once.
//!
//! The library works on plain values. The caller owns the rasterizer and the
//! GPU: it hands a rasterized bitmap in, and gets back where the pixels go and
//! which bytes to upload.
//!
//! - `packer`: one texture page and its shelf cursor.
//! - `bitmap`: rasterized bitmaps, brought to four channels.
//! - `glyph`: glyph keys and placement records.
//! - `atlas`: the glyph cache over the pages.
//! - `error`: why a glyph is refused.
//! - `chat`: the lines that are shown of what a chat server sends.

pub mod atlas;
pub mod bitmap;
pub mod chat;
pub mod error;
pub mod glyph;
pub mod packer;
