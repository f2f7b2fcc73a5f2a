//! The summary that is printed: a line for the branch where it follows an
//! upstream, and a line for each change.

use crate::branches::{LocalBranch, UpstreamBranch};
use crate::change::{change_views, Change, ChangeView};
use crate::change_list::{ChangeList, ChangeListView};
use crate::rendering::branch_status::{
    branch_status_line, new_branch_status, span_views, SpanView, Style,
};
use crate::rendering::status_symbols::{
    get_status_symbols, status_symbols, symbol_views, StatusSymbol, StatusSymbolView,
};
use vstd::prelude::*;
use vstd::utf8::encode_utf8;

verus! {

/// The colours of the summary.
#[derive(Clone, Copy, Debug, PartialEq, Eq)]
pub enum Color {
    Grey,
    DarkGreen,
    DarkRed,
}

/// A piece of a line of the summary: bytes, and the colour in which they
/// are printed, if any.
#[derive(Clone, Debug, PartialEq, Eq)]
pub struct Segment {
    pub color: Option<Color>,
    pub text: Vec<u8>,
}

/// A piece of a line as contracts see it.
pub ghost struct SegmentView {
    pub color: Option<Color>,
    pub text: Seq<u8>,
}

impl View for Segment {
    type V = SegmentView;

    open spec fn view(&self) -> SegmentView {
        SegmentView { color: self.color, text: self.text@ }
    }
}

/// A line as contracts see it.
pub open spec fn segment_views(line: Seq<Segment>) -> Seq<SegmentView> {
    Seq::new(line.len(), |i: int| line[i]@)
}

/// Lines as contracts see them.
pub open spec fn line_views(lines: Seq<Vec<Segment>>) -> Seq<Seq<SegmentView>> {
    Seq::new(lines.len(), |i: int| segment_views(lines[i]@))
}

/// The byte of a space.
pub const SPACE: u8 = 0x20;

/// The colour in which the summary prints a style.
pub open spec fn inline_color(style: Style) -> Option<Color> {
    match style {
        Style::Gray => Some(Color::Grey),
        Style::Green => Some(Color::DarkGreen),
        Style::Red => Some(Color::DarkRed),
        _ => None,
    }
}

/// A piece of text as the summary prints it.
pub open spec fn segment_of_span(span: SpanView) -> SegmentView {
    SegmentView { color: inline_color(span.style), text: encode_utf8(span.text) }
}

/// A symbol of a status as the summary prints it.
pub open spec fn segment_of_symbol(symbol: StatusSymbolView) -> SegmentView {
    match symbol {
        StatusSymbolView::Green(letter) => SegmentView {
            color: Some(Color::DarkGreen),
            text: encode_utf8(letter),
        },
        StatusSymbolView::Red(letter) => SegmentView {
            color: Some(Color::DarkRed),
            text: encode_utf8(letter),
        },
        StatusSymbolView::Space => SegmentView { color: None, text: seq![SPACE] },
    }
}

/// The line of a change: its two symbols, a space, and its path, byte for
/// byte.
pub open spec fn change_line(change: ChangeView) -> Seq<SegmentView> {
    seq![
        segment_of_symbol(status_symbols(change.status)[0]),
        segment_of_symbol(status_symbols(change.status)[1]),
        SegmentView { color: None, text: seq![SPACE] },
        SegmentView { color: None, text: change.path },
    ]
}

/// The line of the branch as the summary prints it.
pub open spec fn header_line(branch: LocalBranch, upstream: UpstreamBranch) -> Seq<SegmentView> {
    let spans = branch_status_line(branch, upstream, false);
    Seq::new(spans.len(), |i: int| segment_of_span(spans[i]))
}

/// The lines of the summary: the line of the branch, where it follows an
/// upstream, and the lines of the changes in the order of the list.
pub open spec fn inline_summary(list: ChangeListView) -> Seq<Seq<SegmentView>> {
    let header = match list.upstream {
        Some(upstream) => seq![header_line(list.current_branch, upstream)],
        None => Seq::empty(),
    };
    header + Seq::new(list.changes.len(), |i: int| change_line(list.changes[i]))
}

/// The colour in which the summary prints a style.
fn color_of(style: Style) -> (color: Option<Color>)
    ensures
        color == inline_color(style),
{
    match style {
        Style::Gray => Some(Color::Grey),
        Style::Green => Some(Color::DarkGreen),
        Style::Red => Some(Color::DarkRed),
        _ => None,
    }
}

/// A symbol of a status as the summary prints it.
fn symbol_segment(symbol: StatusSymbol) -> (segment: Segment)
    ensures
        segment@ == segment_of_symbol(symbol@),
{
    match symbol {
        StatusSymbol::Green(letter) => Segment {
            color: Some(Color::DarkGreen),
            text: letter.as_bytes_vec(),
        },
        StatusSymbol::Red(letter) => Segment {
            color: Some(Color::DarkRed),
            text: letter.as_bytes_vec(),
        },
        StatusSymbol::Space => {
            let mut text: Vec<u8> = Vec::new();
            text.push(SPACE);
            assert(text@ =~= seq![SPACE]);
            Segment { color: None, text }
        },
    }
}

/// The line of a change.
fn line_of_change(change: &Change) -> (line: Vec<Segment>)
    ensures
        segment_views(line@) == change_line(change@),
{
    let symbols = get_status_symbols(&change.status);
    assert(symbols@[0]@ == symbol_views(symbols@)[0]);
    assert(symbols@[1]@ == symbol_views(symbols@)[1]);
    let mut line: Vec<Segment> = Vec::new();
    line.push(symbol_segment(symbols[0]));
    line.push(symbol_segment(symbols[1]));
    let mut space: Vec<u8> = Vec::new();
    space.push(SPACE);
    assert(space@ =~= seq![SPACE]);
    line.push(Segment { color: None, text: space });
    line.push(Segment { color: None, text: change.path.clone() });
    assert(segment_views(line@) =~= change_line(change@));
    line
}

/// The line of the branch as the summary prints it.
fn line_of_branch(branch: &LocalBranch, upstream: &UpstreamBranch) -> (line: Vec<Segment>)
    ensures
        segment_views(line@) == header_line(*branch, *upstream),
{
    let spans = new_branch_status(branch, upstream, false);
    let ghost views = branch_status_line(*branch, *upstream, false);
    let mut line: Vec<Segment> = Vec::with_capacity(spans.len());
    let mut i: usize = 0;
    while i < spans.len()
        invariant
            i <= spans.len(),
            line.len() == i,
            views == span_views(spans@),
            forall|j: int| 0 <= j < i ==> (#[trigger] line@[j])@ == segment_of_span(views[j]),
        decreases spans.len() - i,
    {
        let text = spans[i].text.as_str().as_bytes_vec();
        assert(views[i as int] == spans@[i as int]@);
        line.push(Segment { color: color_of(spans[i].style), text });
        i = i + 1;
    }
    assert(segment_views(line@) =~= header_line(*branch, *upstream));
    line
}

/// The lines of the summary: the line of the branch, where it follows an
/// upstream, and a line for each change, in the order of the list.
pub fn render_inline(change_list: &ChangeList) -> (lines: Vec<Vec<Segment>>)
    ensures
        line_views(lines@) == inline_summary(change_list@),
{
    let changes = change_list.changes();
    let mut lines: Vec<Vec<Segment>> = Vec::with_capacity(changes.len());
    let ghost header = match change_list@.upstream {
        Some(upstream) => seq![header_line(change_list@.current_branch, upstream)],
        None => Seq::empty(),
    };
    match change_list.upstream() {
        Some(upstream) => {
            lines.push(line_of_branch(change_list.current_branch(), upstream));
        },
        None => {},
    }
    assert(line_views(lines@) =~= header);
    let mut i: usize = 0;
    while i < changes.len()
        invariant
            i <= changes.len(),
            change_views(changes@) == change_list@.changes,
            lines.len() == header.len() + i,
            forall|j: int| 0 <= j < header.len() ==> segment_views(#[trigger] lines@[j]@) == header[j],
            forall|j: int|
                0 <= j < i ==> segment_views(#[trigger] lines@[header.len() + j]@) == change_line(
                    change_list@.changes[j],
                ),
        decreases changes.len() - i,
    {
        assert(change_list@.changes[i as int] == changes@[i as int]@);
        lines.push(line_of_change(&changes[i]));
        i = i + 1;
    }
    assert(line_views(lines@) =~= inline_summary(change_list@)) by {
        let summary = inline_summary(change_list@);
        assert(summary.len() == lines.len());
        assert forall|j: int| 0 <= j < lines.len() implies line_views(lines@)[j] == summary[j] by {
            if j >= header.len() {
                assert(segment_views(lines@[header.len() + (j - header.len())]@) == change_line(
                    change_list@.changes[j - header.len()],
                ));
            }
        }
    }
    lines
}

} // verus!
