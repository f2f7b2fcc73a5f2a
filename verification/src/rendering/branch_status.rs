//! The line that says which branch is checked out, which branch it
//! follows, and how far the two are apart.

use crate::branches::{FetchStatus, LocalBranch, UpstreamBranch};
use vstd::prelude::*;

verus! {

/// How a piece of text is set off.
#[derive(Clone, Copy, Debug, PartialEq, Eq)]
pub enum Style {
    Plain,
    Red,
    Green,
    Blue,
    Gray,
    /// The change under the cursor.
    Selected,
}

/// A piece of text with its style.
#[derive(Clone, Debug, PartialEq, Eq)]
pub struct Span {
    pub style: Style,
    pub text: String,
}

/// A piece of text as contracts see it.
pub ghost struct SpanView {
    pub style: Style,
    pub text: Seq<char>,
}

impl View for Span {
    type V = SpanView;

    open spec fn view(&self) -> SpanView {
        SpanView { style: self.style, text: self.text@ }
    }
}

/// The pieces of a line as contracts see them.
pub open spec fn span_views(spans: Seq<Span>) -> Seq<SpanView> {
    Seq::new(spans.len(), |i: int| spans[i]@)
}

/// A piece of plain text.
pub open spec fn plain(text: Seq<char>) -> SpanView {
    SpanView { style: Style::Plain, text }
}

/// A piece of text in a style.
pub open spec fn styled(style: Style, text: Seq<char>) -> SpanView {
    SpanView { style, text }
}

/// The digit that stands for a number below ten.
pub open spec fn digit_char(digit: int) -> char {
    if digit == 0 {
        '0'
    } else if digit == 1 {
        '1'
    } else if digit == 2 {
        '2'
    } else if digit == 3 {
        '3'
    } else if digit == 4 {
        '4'
    } else if digit == 5 {
        '5'
    } else if digit == 6 {
        '6'
    } else if digit == 7 {
        '7'
    } else if digit == 8 {
        '8'
    } else {
        '9'
    }
}

/// A number written in decimal digits, without leading zeros.
pub open spec fn decimal_text(number: nat) -> Seq<char>
    decreases number,
{
    if number < 10 {
        seq![digit_char(number as int)]
    } else {
        decimal_text(number / 10).push(digit_char((number % 10) as int))
    }
}

/// The digit that stands for a number below ten, as text.
fn digit_text(digit: usize) -> (text: &'static str)
    requires
        digit < 10,
    ensures
        text@ == seq![digit_char(digit as int)],
{
    proof {
        reveal_strlit("0");
        reveal_strlit("1");
        reveal_strlit("2");
        reveal_strlit("3");
        reveal_strlit("4");
        reveal_strlit("5");
        reveal_strlit("6");
        reveal_strlit("7");
        reveal_strlit("8");
        reveal_strlit("9");
    }
    let text = if digit == 0 {
        "0"
    } else if digit == 1 {
        "1"
    } else if digit == 2 {
        "2"
    } else if digit == 3 {
        "3"
    } else if digit == 4 {
        "4"
    } else if digit == 5 {
        "5"
    } else if digit == 6 {
        "6"
    } else if digit == 7 {
        "7"
    } else if digit == 8 {
        "8"
    } else {
        "9"
    };
    assert(text@ =~= seq![digit_char(digit as int)]);
    text
}

/// A number written in decimal digits.
pub fn decimal(number: usize) -> (text: String)
    ensures
        text@ == decimal_text(number as nat),
    decreases number,
{
    if number < 10 {
        String::from_str(digit_text(number))
    } else {
        let mut text = decimal(number / 10);
        let ghost before = text@;
        text.append(digit_text(number % 10));
        assert(text@ =~= before.push(digit_char((number % 10) as int)));
        text
    }
}

/// The line of the branch: the name of the branch; the full name of its
/// upstream; in brackets how many commits the branch is ahead and behind,
/// as far as these numbers are not zero; and, where `with_fetch` asks for
/// it, a word on a fetch that is under way or has failed.
pub open spec fn branch_status_line(
    branch: LocalBranch,
    upstream: UpstreamBranch,
    with_fetch: bool,
) -> Seq<SpanView> {
    let diff = upstream.commits_diff;
    let names = seq![
        styled(Style::Gray, "##"@),
        plain(" "@),
        styled(Style::Green, branch.name@),
        plain("..."@),
        styled(Style::Red, upstream.full_name@),
    ];
    let ahead = if diff.ahead != 0 {
        seq![plain("ahead "@), styled(Style::Green, decimal_text(diff.ahead as nat))]
    } else {
        Seq::empty()
    };
    let comma = if diff.ahead != 0 && diff.behind != 0 {
        seq![plain(", "@)]
    } else {
        Seq::empty()
    };
    let behind = if diff.behind != 0 {
        seq![plain("behind "@), styled(Style::Red, decimal_text(diff.behind as nat))]
    } else {
        Seq::empty()
    };
    let difference = if diff.ahead != 0 || diff.behind != 0 {
        seq![plain(" ["@)] + ahead + comma + behind + seq![plain("]"@)]
    } else {
        Seq::empty()
    };
    let fetch = if !with_fetch {
        Seq::empty()
    } else {
        match upstream.fetch_status {
            FetchStatus::Fetching => seq![styled(Style::Gray, " Fetching..."@)],
            FetchStatus::Failed => seq![styled(Style::Gray, " Fetch failed"@)],
            FetchStatus::Complete(_) => Seq::empty(),
        }
    };
    names + difference + fetch
}

/// A piece of text in a style.
pub fn span(style: Style, text: &str) -> (span: Span)
    ensures
        span@ == styled(style, text@),
{
    Span { style, text: String::from_str(text) }
}

/// The line of the branch and its upstream.
pub fn new_branch_status(branch: &LocalBranch, upstream: &UpstreamBranch, with_fetch: bool) -> (line:
    Vec<Span>)
    ensures
        span_views(line@) == branch_status_line(*branch, *upstream, with_fetch),
{
    let diff = upstream.commits_diff;
    let mut line: Vec<Span> = Vec::new();
    line.push(span(Style::Gray, "##"));
    line.push(span(Style::Plain, " "));
    line.push(span(Style::Green, branch.name.as_str()));
    line.push(span(Style::Plain, "..."));
    line.push(span(Style::Red, upstream.full_name.as_str()));
    if diff.ahead != 0 || diff.behind != 0 {
        line.push(span(Style::Plain, " ["));
        if diff.ahead != 0 {
            line.push(span(Style::Plain, "ahead "));
            line.push(Span { style: Style::Green, text: decimal(diff.ahead) });
            if diff.behind != 0 {
                line.push(span(Style::Plain, ", "));
            }
        }
        if diff.behind != 0 {
            line.push(span(Style::Plain, "behind "));
            line.push(Span { style: Style::Red, text: decimal(diff.behind) });
        }
        line.push(span(Style::Plain, "]"));
    }
    if with_fetch {
        match upstream.fetch_status {
            FetchStatus::Fetching => line.push(span(Style::Gray, " Fetching...")),
            FetchStatus::Failed => line.push(span(Style::Gray, " Fetch failed")),
            FetchStatus::Complete(_) => {},
        }
    }
    assert(span_views(line@) =~= branch_status_line(*branch, *upstream, with_fetch));
    line
}

} // verus!
