//! The names that a user of the codec needs.

pub use crate::error::MarshalError;
pub use crate::stream::ByteStream;
pub use crate::stream::MarshalIterator;
pub use crate::traits::Marshal;
pub use crate::traits::UnMarshal;
pub use crate::traits::Wire;
