//! The codecs of the primitive types and of the containers.

pub mod numbers;
pub mod scalars;
pub mod option;

pub mod tuples;
pub mod list;
pub mod text;
pub mod map;
pub mod marker;
