//! The storage-only encoding of a state: one fork-tag byte, then the
//! fork's own body encoding. Used solely for persistence; never
//! interchangeable with the context-dependent wire format, whose decoder
//! takes the fork schedule instead.
pub mod decode;
pub mod encode;
