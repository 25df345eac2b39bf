pub mod config;
pub mod connection;
pub mod event;
pub mod framing;
pub mod leb128;
pub mod negotiation;
pub mod ping;
pub mod substream;
pub mod substream_id;
pub mod yamux;
pub mod yamux_header;
