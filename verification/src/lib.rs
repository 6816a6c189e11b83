//! A rope: a byte buffer made of shared, append-oriented chunks.
//!
//! Many holders may read, extend and reuse the same bytes without copying
//! them. Two ropes with the same content are equal, and hash the same, however
//! the content is split into chunks.
//!
//! - [`chunk`]: the shared chunk, and in-place growth for its single owner;
//! - [`buffer`]: the rope and what builds it: appending, concatenating,
//!   flattening;
//! - [`equality`]: content equality and hashing;
//! - [`text`]: ropes from text and text from ropes;
//! - [`reader`]: the cursor that reads a rope, or a range of it, in order;
//! - [`sink`]: the destination that a read fills;
//! - [`layout`]: where bytes lie in a list of chunks, and how a cursor moves
//!   over them;
//! - [`nothing`]: a value without information.
pub mod buffer;
pub mod chunk;
pub mod equality;
pub mod layout;
pub mod nothing;
pub mod reader;
pub mod sink;
pub mod text;

pub use buffer::Rope;
pub use chunk::RopeElem;
pub use nothing::Nothing;
pub use reader::RopeReader;
pub use text::InvalidText;
