//! Core of a gzip file compression utility.
//!
//! The codec frames DEFLATE output in the RFC 1952 gzip container and
//! validates the container (header, CRC-32 trailer, length field) when
//! decoding; the pipeline module drives read -> transform -> write as a
//! state machine whose I/O is performed by the caller.
pub mod codec;
pub mod pipeline;
