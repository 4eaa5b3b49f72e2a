//! Decoders for a few value formats of the TDS wire protocol: GUID columns,
//! the text-pointer framed `IMAGE` and `TEXT`/`NTEXT` columns, and the
//! `ORDER` token.
//!
//! Every decoder reads a value from the front of a byte buffer and returns
//! how many bytes the value took, or says how long the buffer has to be for
//! the value to be complete.

pub mod error;
pub mod wire;
pub mod foreign;
pub mod column_data;
pub mod guid;
pub mod text_ptr;
pub mod image;
pub mod text;
pub mod token_order;

pub use column_data::ColumnData;
pub use error::DecodeError;
pub use token_order::TokenOrder;
