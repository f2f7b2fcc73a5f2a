//! The contents of the screen: the list with the change under the cursor
//! set off, the line of the branch, and the help.
//!
//! The list is drawn from the bottom up: its first change stands on the
//! lowest line.

use crate::change::{change_views, Change, ChangeView};
use crate::change_list::{ChangeList, ChangeListView};
use crate::rendering::branch_status::{
    branch_status_line, new_branch_status, plain, span, span_views, styled, Span, SpanView, Style,
};
use crate::rendering::status_symbols::{
    get_status_symbols, status_symbols, symbol_views, StatusSymbol, StatusSymbolView,
};
use crate::statuses::Status;
use crate::utils::{lossy_text, utf8_lossy};
use vstd::prelude::*;

verus! {

/// How many keys the help names.
pub const INPUT_CONTROLS_LENGTH: usize = 7;

/// The keys and what they do, as the help names them.
pub const INPUT_CONTROLS: [[&'static str; 2]; INPUT_CONTROLS_LENGTH] = [
    ["[Space]", "Stage"],
    ["[R]", "Unstage"],
    ["[A]", "Stage all"],
    ["[U]", "Unstage all"],
    ["[F]", "Fetch"],
    ["[Enter]", "Commit"],
    ["[Esc]", "Exit"],
];

/// The first line of the help.
pub const HELP_TITLE: &'static str = "gadd - command-line utility for staging changes to Git.";

/// The place, counted from the bottom of the screen, of the change at
/// `selected` in a list of `length` changes; none in an empty list.
pub open spec fn reversed_selection(length: int, selected: int) -> Option<int> {
    if length == 0 {
        None
    } else {
        Some(length - 1 - selected)
    }
}

/// A symbol of a status as the screen shows it.
pub open spec fn span_of_symbol(symbol: StatusSymbolView) -> SpanView {
    match symbol {
        StatusSymbolView::Green(letter) => styled(Style::Green, letter),
        StatusSymbolView::Red(letter) => styled(Style::Red, letter),
        StatusSymbolView::Space => plain(" "@),
    }
}

/// The line of a change with the given status on the screen: its two
/// symbols, a space, and `name` for its path, set off where the cursor
/// stands on it.
pub open spec fn list_item_naming(status: Status, name: Seq<char>, is_selected: bool) -> Seq<
    SpanView,
> {
    seq![
        span_of_symbol(status_symbols(status)[0]),
        span_of_symbol(status_symbols(status)[1]),
        plain(" "@),
        styled(
            if is_selected {
                Style::Selected
            } else {
                Style::Plain
            },
            name,
        ),
    ]
}

/// The line of a change on the screen: its two symbols, a space, and its
/// path as a reader sees it, set off where the cursor stands on it.
pub open spec fn list_item(change: ChangeView, is_selected: bool) -> Seq<SpanView> {
    list_item_naming(change.status, utf8_lossy(change.path), is_selected)
}

/// The lines of the list on the screen, the last change first.
pub open spec fn list_items(list: ChangeListView) -> Seq<Seq<SpanView>> {
    Seq::new(
        list.changes.len(),
        |i: int|
            list_item(
                list.changes[list.changes.len() - 1 - i],
                list.changes.len() - 1 - i == list.selected,
            ),
    )
}

/// The line of the branch on the screen; it is empty where the branch
/// follows no upstream.
pub open spec fn branch_status(list: ChangeListView) -> Seq<SpanView> {
    match list.upstream {
        Some(upstream) => branch_status_line(list.current_branch, upstream, true),
        None => Seq::empty(),
    }
}

/// The line of the help for the key at `i`.
pub open spec fn help_line(i: int) -> Seq<SpanView> {
    seq![
        plain("  "@),
        styled(Style::Blue, INPUT_CONTROLS[i][0]@),
        plain(" "@),
        plain(INPUT_CONTROLS[i][1]@),
    ]
}

/// The lines of the help: the title, an empty line, and a line for each
/// key.
pub open spec fn help_screen() -> Seq<Seq<SpanView>> {
    seq![seq![plain(HELP_TITLE@)], seq![plain(""@)]] + Seq::new(
        INPUT_CONTROLS_LENGTH as nat,
        |i: int| help_line(i),
    )
}

/// Lines as contracts see them.
pub open spec fn lines_of_spans(lines: Seq<Vec<Span>>) -> Seq<Seq<SpanView>> {
    Seq::new(lines.len(), |i: int| span_views(lines[i]@))
}

/// The place of the change under the cursor counted from the bottom of the
/// screen, where the list is drawn from; none where the list is empty.
pub fn update_list_widget_state(change_list: &ChangeList) -> (selected: Option<usize>)
    ensures
        match selected {
            Some(at) => reversed_selection(
                change_list@.changes.len() as int,
                change_list@.selected,
            ) == Some(at as int),
            None => change_list@.changes.len() == 0,
        },
{
    let changes_length = change_list.changes().len();
    if changes_length == 0 {
        return None;
    }
    let reverse_index = changes_length - 1 - change_list.index_of_selected_change();
    Some(reverse_index)
}

/// A symbol of a status as the screen shows it.
fn symbol_span(symbol: StatusSymbol) -> (result: Span)
    ensures
        result@ == span_of_symbol(symbol@),
{
    match symbol {
        StatusSymbol::Green(letter) => span(Style::Green, letter),
        StatusSymbol::Red(letter) => span(Style::Red, letter),
        StatusSymbol::Space => span(Style::Plain, " "),
    }
}

/// The line of a change with the given status on the screen, with `name`
/// for its path.
pub fn list_item_widget_naming(status: &Status, name: String, is_selected: bool) -> (line: Vec<
    Span,
>)
    ensures
        span_views(line@) == list_item_naming(*status, name@, is_selected),
{
    let symbols = get_status_symbols(status);
    assert(symbols@[0]@ == symbol_views(symbols@)[0]);
    assert(symbols@[1]@ == symbol_views(symbols@)[1]);
    let mut line: Vec<Span> = Vec::new();
    line.push(symbol_span(symbols[0]));
    line.push(symbol_span(symbols[1]));
    line.push(span(Style::Plain, " "));
    if is_selected {
        line.push(Span { style: Style::Selected, text: name });
    } else {
        line.push(Span { style: Style::Plain, text: name });
    }
    assert(span_views(line@) =~= list_item_naming(*status, name@, is_selected));
    line
}

/// The line of a change on the screen.
pub fn list_item_widget_from_change(change: &Change, is_selected: bool) -> (line: Vec<Span>)
    ensures
        span_views(line@) == list_item(change@, is_selected),
{
    let path_string = lossy_text(change.path.as_slice());
    list_item_widget_naming(&change.status, path_string, is_selected)
}

/// The lines of the list on the screen, the last change first.
pub fn list_widget_from_changes(change_list: &ChangeList) -> (lines: Vec<Vec<Span>>)
    ensures
        lines_of_spans(lines@) == list_items(change_list@),
{
    let changes = change_list.changes();
    let selected = change_list.index_of_selected_change();
    let length = changes.len();
    let mut lines: Vec<Vec<Span>> = Vec::with_capacity(length);
    let mut i: usize = 0;
    while i < length
        invariant
            i <= length,
            length == changes.len(),
            selected == change_list@.selected,
            change_views(changes@) == change_list@.changes,
            lines.len() == i,
            forall|j: int|
                0 <= j < i ==> span_views(#[trigger] lines@[j]@) == list_item(
                    change_list@.changes[length - 1 - j],
                    length - 1 - j == selected,
                ),
        decreases length - i,
    {
        let at = length - 1 - i;
        assert(change_list@.changes[at as int] == changes@[at as int]@);
        lines.push(list_item_widget_from_change(&changes[at], at == selected));
        i = i + 1;
    }
    assert(lines_of_spans(lines@) =~= list_items(change_list@));
    lines
}

/// The line of the branch on the screen; it is empty where the branch
/// follows no upstream.
pub fn new_branch_status_widget(change_list: &ChangeList) -> (line: Vec<Span>)
    ensures
        span_views(line@) == branch_status(change_list@),
{
    match change_list.upstream() {
        Some(upstream) => new_branch_status(change_list.current_branch(), upstream, true),
        None => {
            let line: Vec<Span> = Vec::new();
            assert(span_views(line@) =~= branch_status(change_list@));
            line
        },
    }
}

/// The lines of the help, and how many lines of the screen they take: one
/// more than they are.
pub fn new_help_screen_widget() -> (help: (Vec<Vec<Span>>, u16))
    ensures
        lines_of_spans(help.0@) == help_screen(),
        help.1 == help_screen().len() + 1,
{
    let mut lines: Vec<Vec<Span>> = Vec::with_capacity(2 + INPUT_CONTROLS_LENGTH);
    let mut title: Vec<Span> = Vec::new();
    title.push(span(Style::Plain, HELP_TITLE));
    assert(span_views(title@) =~= seq![plain(HELP_TITLE@)]);
    lines.push(title);
    let mut empty: Vec<Span> = Vec::new();
    empty.push(span(Style::Plain, ""));
    assert(span_views(empty@) =~= seq![plain(""@)]);
    lines.push(empty);
    let mut i: usize = 0;
    while i < INPUT_CONTROLS_LENGTH
        invariant
            i <= INPUT_CONTROLS_LENGTH,
            lines.len() == 2 + i,
            span_views(lines@[0]@) == seq![plain(HELP_TITLE@)],
            span_views(lines@[1]@) == seq![plain(""@)],
            forall|j: int| 0 <= j < i ==> span_views(#[trigger] lines@[2 + j]@) == help_line(j),
        decreases INPUT_CONTROLS_LENGTH - i,
    {
        let keybind = INPUT_CONTROLS[i][0];
        let description = INPUT_CONTROLS[i][1];
        let mut line: Vec<Span> = Vec::new();
        line.push(span(Style::Plain, "  "));
        line.push(span(Style::Blue, keybind));
        line.push(span(Style::Plain, " "));
        line.push(span(Style::Plain, description));
        assert(span_views(line@) =~= help_line(i as int));
        lines.push(line);
        i = i + 1;
    }
    assert(lines_of_spans(lines@) =~= help_screen()) by {
        assert forall|j: int| 0 <= j < lines.len() implies lines_of_spans(lines@)[j]
            == help_screen()[j] by {
            if j >= 2 {
                assert(span_views(lines@[2 + (j - 2)]@) == help_line(j - 2));
            }
        }
    }
    let size: u16 = 10;
    (lines, size)
}

/// The words that lead to the help.
pub open spec fn help_shortcut() -> Seq<SpanView> {
    seq![styled(Style::Blue, "[H]"@), plain(" Help"@)]
}

/// The words that lead back from the help.
pub open spec fn back_shortcut() -> Seq<SpanView> {
    seq![styled(Style::Blue, "[Esc]"@), plain(" Back"@)]
}

/// The words that lead to the help, and how many columns they take with
/// a space before them.
pub fn new_help_shortcut_widget() -> (shortcut: (Vec<Span>, u16))
    ensures
        span_views(shortcut.0@) == help_shortcut(),
        shortcut.1 == 1 + "[H]"@.len() + " Help"@.len(),
{
    proof {
        reveal_strlit("[H]");
        reveal_strlit(" Help");
    }
    let mut line: Vec<Span> = Vec::new();
    line.push(span(Style::Blue, "[H]"));
    line.push(span(Style::Plain, " Help"));
    assert(span_views(line@) =~= help_shortcut());
    let size: u16 = 9;
    (line, size)
}

/// The words that lead back from the help, and how many columns they take
/// with a space before them.
pub fn new_back_shortcut_widget() -> (shortcut: (Vec<Span>, u16))
    ensures
        span_views(shortcut.0@) == back_shortcut(),
        shortcut.1 == 1 + "[Esc]"@.len() + " Back"@.len(),
{
    proof {
        reveal_strlit("[Esc]");
        reveal_strlit(" Back");
    }
    let mut line: Vec<Span> = Vec::new();
    line.push(span(Style::Blue, "[Esc]"));
    line.push(span(Style::Plain, " Back"));
    assert(span_views(line@) =~= back_shortcut());
    let size: u16 = 11;
    (line, size)
}

} // verus!
