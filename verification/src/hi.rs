//! The multiplexed layer: frames keyed by request id, the bookkeeping of one connection,
//! the two stages of a response, and the glue that serves one request.

pub mod codec;
pub mod frame;
pub mod response;
pub mod service;
pub mod stream_process;
pub mod transport;
