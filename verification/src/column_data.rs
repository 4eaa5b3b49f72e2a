use crate::foreign::uuid_bytes;
use uuid::Uuid;
use vstd::prelude::*;

verus! {

/// A decoded column value. `None` stands for SQL `NULL`.
#[derive(Debug, Clone, PartialEq)]
pub enum ColumnData {
    /// A `UNIQUEIDENTIFIER` value.
    Guid(Option<Uuid>),
    /// A binary value, such as an `IMAGE` column.
    Binary(Option<Vec<u8>>),
    /// A text value, such as a `TEXT` or `NTEXT` column.
    String(Option<String>),
}

/// A column value as the contracts see it: a GUID by the sixteen bytes of
/// its UUID, bytes and text by their views.
pub enum ColumnDataView {
    Guid(Option<Seq<u8>>),
    Binary(Option<Seq<u8>>),
    String(Option<Seq<char>>),
}

impl View for ColumnData {
    type V = ColumnDataView;

    open spec fn view(&self) -> ColumnDataView {
        match self {
            ColumnData::Guid(g) => ColumnDataView::Guid(
                match g {
                    Some(u) => Some(uuid_bytes(*u)),
                    None => None,
                },
            ),
            ColumnData::Binary(b) => ColumnDataView::Binary(
                match b {
                    Some(v) => Some(v@),
                    None => None,
                },
            ),
            ColumnData::String(s) => ColumnDataView::String(
                match s {
                    Some(t) => Some(t@),
                    None => None,
                },
            ),
        }
    }
}

} // verus!
