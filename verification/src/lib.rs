//! MPEG-2 transport stream codec for H.264 and H.265 elementary video streams.
//!
//! The crate reads and writes 188-byte transport stream packets, the PAT and
//! PMT sections with their CRC, PES headers with their clock fields, and runs
//! the two sessions built on them: [`Mpeg2TsDemux`] turns packets into video
//! access units, [`Mpeg2TsMuxer`] turns access units into packets.
//!
//! Every executable function carries a contract over the byte-level model of
//! the wire format, and Verus proves the body against it. The laws that tie
//! the functions together are proof functions: reading gives back what was
//! written ([`mpegts::ts::packet::lemma_packet_inverse`]), and the frames
//! that were muxed come back from the demuxer ([`stream::lemma_round_trip`]).
pub mod demux;
pub mod error;
pub mod frame;
pub mod mpegts;
pub mod muxer;
pub mod stream;

pub use demux::Mpeg2TsDemux;
pub use error::Error;
pub use muxer::Mpeg2TsMuxer;
