//! Authenticated encryption with NaCl-compatible boxes: a public-key box with
//! its anonymous sealed variant, and a shared-key secret box.

pub mod crypto_box;
pub mod error;
pub mod primitives;
pub mod secretbox;
