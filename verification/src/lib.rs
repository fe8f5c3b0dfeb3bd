//! A minimal HTTP/1.1 request parser, router, and response serializer.
//!
//! One request per connection is parsed from raw bytes, routed by its
//! path segments to a file, user-agent, echo, or root handler, and the
//! response rendered back to bytes. Reading and writing the byte
//! stream, and the filesystem behind the file route, live with the
//! caller; the echo route's gzip encoding is done by an outside
//! compressor behind a trusted wrapper.
pub mod bytes;
pub mod lit;
pub mod gzip;
pub mod handler;
pub mod laws;
pub mod request;
pub mod response;
