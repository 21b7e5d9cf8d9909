//! FastCGI responder-side protocol core: the record codec, the frame codec that multiplexes
//! records by request id, the per-connection bookkeeping, the request assembler and the
//! response writer.

pub mod buffer;
pub mod byteorder_ext;
pub mod codec;
pub mod easy_buf;
pub mod endian;
pub mod error;
pub mod hi;
pub mod highlevel;
pub mod lowlevel;
pub mod params;
pub mod rawstruct;
pub mod s11n;
pub mod wire;

pub use crate::lowlevel::{
    BeginRequest, EndRequest, FastcgiLowlevelCodec, FastcgiRecord, FastcgiRecordBody,
};
pub use crate::s11n::{ProtocolStatus, Role, FASTCGI_VERSION};
