//! Re-exports of the items most users need, so that one import brings in the
//! stream types, the capability traits and the error type together.

pub use crate::in_borrowed::OctetRefReader;
pub use crate::in_stream::InOctetStream;
pub use crate::out_borrowed::OctetRefWriter;
pub use crate::out_stream::OutOctetStream;
pub use crate::{Deserialize, ReadOctetStream, Serialize, StreamError, WriteOctetStream};
