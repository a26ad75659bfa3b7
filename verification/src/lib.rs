//! A small binary codec: values are encoded into lazily produced byte streams and
//! decoded back from a forward-only cursor of bytes. All integers on the wire are
//! little-endian, and every length or count is an eight-byte unsigned integer.
//!
//! | type | bytes |
//! |---|---|
//! | `bool` | one byte, 0 or 1 |
//! | integer of `W` bytes | `W` bytes, lowest first |
//! | `usize`, `isize` | eight bytes, lowest first |
//! | `char` | the code point, four bytes |
//! | text | the length in bytes, then the UTF-8 form |
//! | `Option<T>` | one byte, 0 or 1, then the value where it is 1 |
//! | list | the count, then the items |
//! | map | the count, then each key with its value |
//! | tuple, record | the components in their order |
//! | enum | the index of the variant, one byte, then its value if it has one |
//!
//! `traits` holds the two halves of the codec and what they promise, `impls` the codecs
//! of the types of the standard library, `composite` what records and enums are made of,
//! `stream` the lazy byte sequences, and `laws` what is proved of decoding an encoding.

pub mod composite;
pub mod endian;
pub mod error;
pub mod impls;
pub mod laws;
pub mod prelude;
pub mod stream;
pub mod traits;
pub mod utils;

pub use error::Fault;
pub use error::MarshalError;
pub use stream::ByteStream;
pub use stream::Bytes;
pub use stream::Chain;
pub use stream::Either;
pub use stream::MarshalIterator;
pub use traits::Decoded;
pub use traits::Marshal;
pub use traits::UnMarshal;
pub use traits::Wire;
pub use utils::readn_to_vec;
