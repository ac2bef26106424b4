//! The position at which a display row begins.

use vstd::prelude::*;

verus! {

/// Where one display row begins within a document: the line, the span within
/// that line, and the byte offset within that span's content.
#[derive(Clone, Copy, Debug, PartialEq, Eq)]
pub struct RowCursor {
    pub byte_index: usize,
    pub line_index: usize,
    pub span_index: usize,
}

/// Mathematical value of a [`RowCursor`].
pub struct CursorView {
    pub line: nat,
    pub span: nat,
    pub byte: nat,
}

impl View for RowCursor {
    type V = CursorView;

    open spec fn view(&self) -> CursorView {
        CursorView {
            line: self.line_index as nat,
            span: self.span_index as nat,
            byte: self.byte_index as nat,
        }
    }
}

impl Default for RowCursor {
    fn default() -> (cursor: RowCursor)
        ensures
            cursor@ == (CursorView { line: 0, span: 0, byte: 0 }),
    {
        RowCursor { byte_index: 0, line_index: 0, span_index: 0 }
    }
}

/// The values of a list of cursors, in order.
pub open spec fn cursor_views(cursors: Seq<RowCursor>) -> Seq<CursorView> {
    cursors.map_values(|cursor: RowCursor| cursor@)
}

} // verus!
