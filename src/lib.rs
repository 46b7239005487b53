//! Byte-level (de)serialization of fixed-layout foreign structures, including
//! structures that end in a flexible array member whose element count lives in
//! one of their own fields.
//!
//! A structure describes its layout through [`SizeofFamStruct`]: the size of
//! its fixed portion, the raw bytes of that portion, and the size that an
//! instance declares for the whole record. [`serialize_ffi`] copies exactly
//! that many bytes out; [`deserialize_ffi`] and [`deserialize_ffi_fam`] rebuild
//! instances from a buffer and reject a buffer whose length does not fit.

pub use serde_bytes::ByteBuf;

mod bytes;
mod ffi;
mod layout;
pub mod records;

pub use bytes::buf_bytes;
pub use ffi::{
    deserialize_ffi, deserialize_ffi_fam, fam_outcome, fixed_outcome, lemma_declared_mismatch,
    lemma_fam_round_trip, lemma_fixed_exact_length, lemma_fixed_round_trip, lemma_zero_count_fam,
    serialize_ffi,
};
pub use layout::{
    lemma_slot_bytes_len, lemma_slot_bytes_push, lemma_slot_bytes_take, record_bytes, slot_bytes,
    slot_count, zero_padded, SizeofFamStruct,
};
