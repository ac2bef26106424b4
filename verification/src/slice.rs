//! Cutting a document at a row start: everything before the cursor goes,
//! everything from it on stays as it was.

use crate::app::App;
use crate::document::DocumentView;
use crate::document::LineView;
use crate::document::SpanView;
use crate::document::StyledDocument;
use crate::document::StyledLine;
use crate::document::StyledSpan;
use crate::metrics::byte_len;
use crate::metrics::byte_offset;
use crate::metrics::char_len_utf8;
use crate::metrics::lemma_byte_offset_grows;
use crate::metrics::str_byte_len;
use crate::row_cursor::CursorView;
use crate::row_cursor::RowCursor;
use vstd::prelude::*;

verus! {

/// Index of the first character at or after `from` whose byte offset is at
/// least `byte`; the length of `content` if there is none.
pub open spec fn index_at_byte(content: Seq<char>, byte: nat, from: int) -> int
    decreases content.len() - from,
{
    if from < 0 || from >= content.len() || byte_offset(content, from) >= byte {
        from
    } else {
        index_at_byte(content, byte, from + 1)
    }
}

/// `byte` does not fall inside the encoding of a character of `content`.
pub open spec fn on_char_boundary(content: Seq<char>, byte: nat) -> bool {
    byte >= byte_len(content) || byte_offset(content, index_at_byte(content, byte, 0)) == byte
}

/// What is left of `content` from byte offset `byte` on; nothing if the
/// offset reaches its end.
pub open spec fn content_from(content: Seq<char>, byte: nat) -> Seq<char> {
    content.skip(index_at_byte(content, byte, 0))
}

/// The spans among `spans` that hold at least one character, in order.
pub open spec fn kept_spans(spans: Seq<SpanView>) -> Seq<SpanView>
    decreases spans.len(),
{
    if spans.len() == 0 {
        Seq::empty()
    } else if spans.last().content.len() > 0 {
        kept_spans(spans.drop_last()).push(spans.last())
    } else {
        kept_spans(spans.drop_last())
    }
}

/// The spans of the line that holds the cursor, from the cursor on: the
/// cursor's span without the bytes before the cursor, then the spans after it.
pub open spec fn anchor_spans(spans: Seq<SpanView>, span: nat, byte: nat) -> Seq<SpanView> {
    if span >= spans.len() {
        Seq::empty()
    } else {
        seq![
            SpanView {
                content: content_from(spans[span as int].content, byte),
                style: spans[span as int].style,
            },
        ] + spans.skip(span as int + 1)
    }
}

/// A line of the cut document. The line that holds the cursor starts at the
/// cursor; spans left without characters are dropped; the line itself stays
/// even when no span is left.
pub open spec fn sliced_line(line: LineView, holds_cursor: bool, cursor: CursorView) -> LineView {
    LineView {
        spans: kept_spans(
            if holds_cursor {
                anchor_spans(line.spans, cursor.span, cursor.byte)
            } else {
                line.spans
            },
        ),
        style: line.style,
        alignment: line.alignment,
    }
}

/// The document from `cursor` to its end.
pub open spec fn sliced(document: DocumentView, cursor: CursorView) -> DocumentView {
    DocumentView {
        lines: Seq::new(
            if cursor.line <= document.lines.len() {
                (document.lines.len() - cursor.line) as nat
            } else {
                0
            },
            |i: int| sliced_line(document.lines[cursor.line + i], i == 0, cursor),
        ),
        style: document.style,
        alignment: document.alignment,
    }
}

/// The cursor does not point into the middle of a character.
pub open spec fn cursor_on_boundary(document: DocumentView, cursor: CursorView) -> bool {
    cursor.line < document.lines.len() && cursor.span < document.lines[cursor.line as int].spans.len()
        ==> on_char_boundary(
        document.lines[cursor.line as int].spans[cursor.span as int].content,
        cursor.byte,
    )
}

/// Dropping empty spans from two runs of spans, or from their concatenation,
/// comes to the same.
pub proof fn lemma_kept_spans_concat(a: Seq<SpanView>, b: Seq<SpanView>)
    ensures
        kept_spans(a + b) == kept_spans(a) + kept_spans(b),
    decreases b.len(),
{
    if b.len() == 0 {
        assert(a + b =~= a);
        assert(kept_spans(a) + kept_spans(b) =~= kept_spans(a));
    } else {
        assert((a + b).drop_last() =~= a + b.drop_last());
        assert((a + b).last() == b.last());
        lemma_kept_spans_concat(a, b.drop_last());
        if b.last().content.len() > 0 {
            assert(kept_spans(a + b) =~= kept_spans(a) + kept_spans(b));
        }
    }
}

/// The values of a list of spans, in order.
pub open spec fn span_views(spans: Seq<StyledSpan>) -> Seq<SpanView> {
    spans.map_values(|span: StyledSpan| span@)
}

/// The index that a byte offset on a character boundary stands for.
proof fn lemma_index_at_byte_found(content: Seq<char>, byte: nat, from: int, k: int)
    requires
        0 <= from <= k <= content.len(),
        k < content.len() ==> byte_offset(content, k) >= byte,
        forall|i: int| from <= i < k ==> byte_offset(content, i) < byte,
    ensures
        index_at_byte(content, byte, from) == k,
    decreases k - from,
{
    if from < k {
        lemma_index_at_byte_found(content, byte, from + 1, k);
    }
}

/// The byte offset of a character is a character boundary, and stands for
/// that character's index.
pub proof fn lemma_offset_is_boundary(content: Seq<char>, j: int)
    requires
        0 <= j <= content.len(),
    ensures
        index_at_byte(content, byte_offset(content, j), 0) == j,
        on_char_boundary(content, byte_offset(content, j)),
        content_from(content, byte_offset(content, j)) == content.skip(j),
{
    let byte = byte_offset(content, j);
    assert forall|i: int| 0 <= i < j implies byte_offset(content, i) < byte by {
        lemma_byte_offset_grows(content, i, j);
    }
    lemma_index_at_byte_found(content, byte, 0, j);
}

/// What is left of `content` from byte offset `byte_index` on.
fn text_from(content: &str, byte_index: usize) -> (rest: String)
    requires
        on_char_boundary(content@, byte_index as nat),
    ensures
        rest@ == content_from(content@, byte_index as nat),
{
    let total = str_byte_len(content);
    let mut offset: usize = 0;
    let mut index: usize = 0;
    let mut first: usize = 0;
    let chars = content.chars();
    proof {
        vstd::string::axiom_spec_iter(content);
    }
    for ch in it: chars
        invariant
            it.seq() == content@,
            total == byte_len(content@),
            index == it.index(),
            offset == byte_offset(content@, it.index()),
            first <= index,
            forall|i: int| 0 <= i < first ==> byte_offset(content@, i) < byte_index,
            first < index ==> byte_offset(content@, first as int) >= byte_index,
    {
        proof {
            lemma_byte_offset_grows(content@, index as int + 1, content@.len() as int);
            lemma_byte_offset_grows(content@, 0, content@.len() as int);
        }
        if first == index && offset < byte_index {
            first = index + 1;
        }
        offset = offset + char_len_utf8(ch);
        index = index + 1;
    }
    proof {
        lemma_index_at_byte_found(content@, byte_index as nat, 0, first as int);
    }
    content.substring_char(first, index).to_owned()
}

/// Appends to `kept` the spans of `spans` from index `from` on that hold at
/// least one character.
fn keep_spans(spans: &Vec<StyledSpan>, from: usize, kept: &mut Vec<StyledSpan>)
    requires
        from <= spans.len(),
    ensures
        span_views(final(kept)@) == span_views(old(kept)@) + kept_spans(
            span_views(spans@).skip(from as int),
        ),
{
    let ghost source = span_views(spans@);
    let ghost before = span_views(kept@);
    let mut index = from;
    proof {
        assert(source.subrange(from as int, index as int) =~= Seq::empty());
        assert(before + kept_spans(Seq::<SpanView>::empty()) =~= before);
    }
    while index < spans.len()
        invariant
            from <= index <= spans.len(),
            source == span_views(spans@),
            span_views(kept@) == before + kept_spans(source.subrange(from as int, index as int)),
        decreases spans.len() - index,
    {
        let span = &spans[index];
        let ghost upto = source.subrange(from as int, index as int + 1);
        proof {
            assert(upto.drop_last() =~= source.subrange(from as int, index as int));
            assert(upto.last() == span@);
        }
        if !span.content.as_str().is_empty() {
            let copy = StyledSpan { content: span.content.clone(), style: span.style };
            let ghost views = span_views(kept@);
            kept.push(copy);
            assert(span_views(kept@) =~= views.push(span@));
            assert(before + kept_spans(upto) =~= views.push(span@));
        }
        index = index + 1;
    }
    proof {
        assert(source.subrange(from as int, index as int) =~= source.skip(from as int));
    }
}

/// The line that holds the cursor, from the cursor on.
fn slice_anchor_line(line: &StyledLine, cursor: RowCursor) -> (cut: StyledLine)
    requires
        cursor.span_index < line.spans.len() ==> on_char_boundary(
            line.spans[cursor.span_index as int].content@,
            cursor.byte_index as nat,
        ),
    ensures
        cut@ == sliced_line(line@, true, cursor@),
{
    let mut kept: Vec<StyledSpan> = Vec::new();
    proof {
        assert(span_views(kept@) =~= Seq::empty());
    }
    if cursor.span_index < line.spans.len() {
        let span = &line.spans[cursor.span_index];
        let rest = text_from(span.content.as_str(), cursor.byte_index);
        let first = StyledSpan { content: rest, style: span.style };
        let ghost spans = line@.spans;
        let ghost tail = spans.skip(cursor.span_index as int + 1);
        let ghost head = seq![first@];
        proof {
            assert(spans[cursor.span_index as int] == span@);
            assert(head.drop_last() =~= Seq::<SpanView>::empty());
            assert(head.last() == first@);
            assert(kept_spans(head.drop_last()) =~= Seq::<SpanView>::empty());
            lemma_kept_spans_concat(head, tail);
            assert(anchor_spans(spans, cursor@.span, cursor@.byte) == head + tail);
        }
        if !first.content.as_str().is_empty() {
            kept.push(first);
            assert(span_views(kept@) =~= kept_spans(head));
        } else {
            assert(span_views(kept@) =~= kept_spans(head));
        }
        keep_spans(&line.spans, cursor.span_index + 1, &mut kept);
        assert(span_views(line.spans@) == spans);
    } else {
        assert(anchor_spans(line@.spans, cursor@.span, cursor@.byte) =~= Seq::<SpanView>::empty());
    }
    let cut = StyledLine { spans: kept, style: line.style, alignment: line.alignment };
    assert(cut@.spans == span_views(kept@));
    cut
}

/// A line after the one that holds the cursor.
fn slice_later_line(line: &StyledLine, Ghost(cursor): Ghost<CursorView>) -> (cut: StyledLine)
    ensures
        cut@ == sliced_line(line@, false, cursor),
{
    let mut kept: Vec<StyledSpan> = Vec::new();
    proof {
        assert(span_views(kept@) =~= Seq::empty());
        assert(span_views(line.spans@).skip(0) =~= line@.spans);
    }
    keep_spans(&line.spans, 0, &mut kept);
    let cut = StyledLine { spans: kept, style: line.style, alignment: line.alignment };
    assert(cut@.spans == span_views(kept@));
    cut
}

impl App {
    /// Cuts `text` at `cursor`: lines before the cursor's line go; within
    /// that line the spans before the cursor's span go and the cursor's span
    /// loses the bytes before the cursor; everything else stays, each span
    /// with its own style. Spans left empty are dropped, lines left empty
    /// stay.
    pub fn slice_text_from(text: &StyledDocument, cursor: RowCursor) -> (cut: StyledDocument)
        requires
            cursor_on_boundary(text@, cursor@),
        ensures
            cut@ == sliced(text@, cursor@),
    {
        let mut lines: Vec<StyledLine> = Vec::new();
        let ghost source = text@;
        let ghost wanted = sliced(source, cursor@);
        if cursor.line_index < text.lines.len() {
            let anchor = &text.lines[cursor.line_index];
            proof {
                assert(source.lines[cursor.line_index as int] == anchor@);
            }
            lines.push(slice_anchor_line(anchor, cursor));
            let mut line_index = cursor.line_index + 1;
            while line_index < text.lines.len()
                invariant
                    cursor.line_index < line_index <= text.lines.len(),
                    source == text@,
                    wanted == sliced(source, cursor@),
                    lines.len() == line_index - cursor.line_index,
                    forall|i: int|
                        0 <= i < lines.len() ==> (#[trigger] lines[i])@ == wanted.lines[i],
                decreases text.lines.len() - line_index,
            {
                let line = &text.lines[line_index];
                proof {
                    assert(source.lines[line_index as int] == line@);
                }
                lines.push(slice_later_line(line, Ghost(cursor@)));
                line_index = line_index + 1;
            }
        }
        let cut = StyledDocument { lines, style: text.style, alignment: text.alignment };
        assert(cut@.lines =~= wanted.lines);
        cut
    }
}

} // verus!
