//! Typed binary decoding for a self-describing container format.
//!
//! A [`stream::ByteReader`] walks a byte buffer from a known position.  Every
//! type that takes part in the format implements [`traits::Readable`], whose
//! contract ties the decoded value to the bytes consumed; composite records
//! (the [`metadata::anchor::Anchor`], [`metadata::field_description::FieldDescription`]
//! and the size-prefixed frames) decode their parts through the same
//! capability, so nesting needs no extra dispatch.  Decoding either consumes
//! exactly the bytes the encoding defines or fails with a
//! [`errors::DecodeError`]; it never panics.

pub mod basic_types;
pub mod errors;
pub mod metadata;
pub mod stream;
pub mod traits;
pub mod wire;
