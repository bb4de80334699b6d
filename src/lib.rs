//! Fixed-layout binary records written into interchangeable byte sinks.
//!
//! A record encodes to sixteen bytes (big-endian, fixed width, no framing);
//! the encoder appends those bytes to any `ByteSink`, and every sink obeys the
//! same append-only contract, so the bytes never depend on the backend.
pub mod wire;
pub mod record;
pub mod sink;
pub mod writer_vec;
pub mod fixed;
pub mod slice_sink;
pub mod bytes_sink;
pub mod serialize;

pub use bytes_sink::BytesSink;
pub use fixed::FixedBuffer;
pub use record::{MyStruct, ENCODED_SIZE};
pub use serialize::{serialize_it, serialize_many, test_serialize_bytesmut, test_serialize_cursor};
pub use sink::{ByteSink, SinkError};
pub use slice_sink::SliceSink;
pub use writer_vec::WriterVec;
