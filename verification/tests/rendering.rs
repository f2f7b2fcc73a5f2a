use gadd::branches::{FetchStatus, LocalBranch, UpstreamBranch, UpstreamCommitsDiff};
use gadd::change::Change;
use gadd::change_list::ChangeList;
use gadd::classification::{ConflictEntry, StatusEntry};
use gadd::index::Oid;
use gadd::rendering::branch_status::{decimal, new_branch_status, span, Span, Style};
use gadd::rendering::fullscreen::{
    list_item_widget_from_change, list_item_widget_naming, list_widget_from_changes,
    new_back_shortcut_widget,
    new_branch_status_widget, new_help_screen_widget, new_help_shortcut_widget,
    update_list_widget_state,
};
use gadd::rendering::inline::{render_inline, Color, Segment};
use gadd::rendering::status_symbols::{get_status_symbols, StatusSymbol};
use gadd::statuses::{
    ConflictingStatus, Status, CONFLICTED, CONFLICTING_STATUSES, IGNORED, INDEX_DELETED,
    INDEX_MODIFIED, INDEX_NEW, INDEX_RENAMED, INDEX_TYPECHANGE, WT_DELETED, WT_MODIFIED, WT_NEW,
    WT_RENAMED, WT_TYPECHANGE,
};

fn branch() -> LocalBranch {
    LocalBranch { name: String::from("main"), object_id: Oid { bytes: [1; 20] } }
}

fn upstream(ahead: usize, behind: usize, fetch_status: FetchStatus) -> UpstreamBranch {
    UpstreamBranch {
        name: String::from("main"),
        remote_name: String::from("origin"),
        full_name: String::from("origin/main"),
        object_id: Oid { bytes: [2; 20] },
        commits_diff: UpstreamCommitsDiff { ahead, behind },
        fetch_status,
    }
}

fn entry(path: &[u8], status: u32) -> StatusEntry {
    StatusEntry { path: path.to_vec(), status }
}

fn list_of(statuses: &[StatusEntry], upstream: Option<UpstreamBranch>) -> ChangeList {
    ChangeList::new(&statuses.to_vec(), &Vec::new(), branch(), upstream).unwrap()
}

fn text(line: &[Segment]) -> Vec<u8> {
    line.iter().flat_map(|segment| segment.text.clone()).collect()
}

fn words(line: &[Span]) -> String {
    line.iter().map(|span| span.text.clone()).collect()
}

fn symbols(flags: u32) -> [StatusSymbol; 2] {
    get_status_symbols(&Status::NonConflicting(flags))
}

#[test]
fn an_untracked_path_shows_two_red_question_marks() {
    assert_eq!(symbols(WT_NEW), [StatusSymbol::Red("?"), StatusSymbol::Red("?")]);
}

#[test]
fn a_single_flag_shows_its_letter_on_its_side() {
    assert_eq!(symbols(INDEX_MODIFIED), [StatusSymbol::Green("M"), StatusSymbol::Space]);
    assert_eq!(symbols(INDEX_TYPECHANGE), [StatusSymbol::Green("T"), StatusSymbol::Space]);
    assert_eq!(symbols(INDEX_RENAMED), [StatusSymbol::Green("R"), StatusSymbol::Space]);
    assert_eq!(symbols(INDEX_DELETED), [StatusSymbol::Green("D"), StatusSymbol::Space]);
    assert_eq!(symbols(INDEX_NEW), [StatusSymbol::Green("A"), StatusSymbol::Space]);
    assert_eq!(symbols(WT_MODIFIED), [StatusSymbol::Space, StatusSymbol::Red("M")]);
    assert_eq!(symbols(WT_TYPECHANGE), [StatusSymbol::Space, StatusSymbol::Red("T")]);
    assert_eq!(symbols(WT_RENAMED), [StatusSymbol::Space, StatusSymbol::Red("R")]);
    assert_eq!(symbols(WT_DELETED), [StatusSymbol::Space, StatusSymbol::Red("D")]);
}

#[test]
fn a_combination_shows_both_letters() {
    assert_eq!(
        symbols(INDEX_MODIFIED | WT_MODIFIED),
        [StatusSymbol::Green("M"), StatusSymbol::Red("M")]
    );
    assert_eq!(
        symbols(INDEX_NEW | WT_DELETED),
        [StatusSymbol::Green("A"), StatusSymbol::Red("D")]
    );
    assert_eq!(symbols(INDEX_NEW | WT_NEW), [StatusSymbol::Green("A"), StatusSymbol::Red("A")]);
}

#[test]
fn of_several_flags_of_one_side_the_first_in_the_listed_order_shows() {
    assert_eq!(
        symbols(INDEX_NEW | INDEX_DELETED | INDEX_RENAMED),
        [StatusSymbol::Green("R"), StatusSymbol::Space]
    );
    assert_eq!(
        symbols(WT_NEW | WT_MODIFIED),
        [StatusSymbol::Space, StatusSymbol::Red("M")]
    );
}

#[test]
fn flags_of_neither_side_show_two_spaces() {
    assert_eq!(symbols(0), [StatusSymbol::Space, StatusSymbol::Space]);
    assert_eq!(symbols(IGNORED), [StatusSymbol::Space, StatusSymbol::Space]);
    assert_eq!(symbols(CONFLICTED), [StatusSymbol::Space, StatusSymbol::Space]);
}

#[test]
fn a_conflict_shows_the_letters_of_its_sides_in_red() {
    let letter = |side: ConflictingStatus| match side {
        ConflictingStatus::Unmerged => "U",
        ConflictingStatus::Added => "A",
        ConflictingStatus::Deleted => "D",
    };
    for [ours, theirs] in CONFLICTING_STATUSES {
        assert_eq!(
            get_status_symbols(&Status::Conflicting { ours, theirs }),
            [StatusSymbol::Red(letter(ours)), StatusSymbol::Red(letter(theirs))]
        );
    }
    assert_eq!(
        get_status_symbols(&Status::Conflicting {
            ours: ConflictingStatus::Unmerged,
            theirs: ConflictingStatus::Unmerged
        }),
        [StatusSymbol::Red("U"), StatusSymbol::Red("U")]
    );
}

#[test]
fn numbers_are_written_in_decimal() {
    assert_eq!(decimal(0), "0");
    assert_eq!(decimal(7), "7");
    assert_eq!(decimal(10), "10");
    assert_eq!(decimal(42), "42");
    assert_eq!(decimal(1234567890), "1234567890");
    assert_eq!(decimal(usize::MAX), usize::MAX.to_string());
}

#[test]
fn the_line_of_the_branch_names_branch_and_upstream() {
    let line = new_branch_status(&branch(), &upstream(0, 0, FetchStatus::Fetching), false);
    assert_eq!(
        line,
        vec![
            span(Style::Gray, "##"),
            span(Style::Plain, " "),
            span(Style::Green, "main"),
            span(Style::Plain, "..."),
            span(Style::Red, "origin/main"),
        ]
    );
    assert_eq!(words(&line), "## main...origin/main");
}

#[test]
fn the_line_of_the_branch_says_how_far_the_branches_are_apart() {
    let complete = FetchStatus::Complete(UpstreamCommitsDiff { ahead: 0, behind: 0 });
    let both = new_branch_status(&branch(), &upstream(3, 12, complete), true);
    assert_eq!(words(&both), "## main...origin/main [ahead 3, behind 12]");
    assert_eq!(both[6], Span { style: Style::Plain, text: String::from("ahead ") });
    assert_eq!(both[7], Span { style: Style::Green, text: String::from("3") });
    assert_eq!(both[10], Span { style: Style::Red, text: String::from("12") });
    let ahead = new_branch_status(&branch(), &upstream(3, 0, complete), true);
    assert_eq!(words(&ahead), "## main...origin/main [ahead 3]");
    let behind = new_branch_status(&branch(), &upstream(0, 1, complete), true);
    assert_eq!(words(&behind), "## main...origin/main [behind 1]");
}

#[test]
fn the_line_of_the_branch_says_where_the_fetch_stands() {
    let fetching = new_branch_status(&branch(), &upstream(1, 0, FetchStatus::Fetching), true);
    assert_eq!(words(&fetching), "## main...origin/main [ahead 1] Fetching...");
    assert_eq!(fetching.last(), Some(&span(Style::Gray, " Fetching...")));
    let failed = new_branch_status(&branch(), &upstream(0, 0, FetchStatus::Failed), true);
    assert_eq!(words(&failed), "## main...origin/main Fetch failed");
    let silent = new_branch_status(&branch(), &upstream(0, 0, FetchStatus::Failed), false);
    assert_eq!(words(&silent), "## main...origin/main");
}

#[test]
fn the_summary_lists_modified_before_untracked() {
    let list = list_of(&[entry(b"a.txt", WT_NEW), entry(b"b.txt", WT_MODIFIED)], None);
    let lines = render_inline(&list);
    assert_eq!(lines.len(), 2);
    assert_eq!(text(&lines[0]), b" M b.txt".to_vec());
    assert_eq!(text(&lines[1]), b"?? a.txt".to_vec());
    assert_eq!(
        lines[0],
        vec![
            Segment { color: None, text: b" ".to_vec() },
            Segment { color: Some(Color::DarkRed), text: b"M".to_vec() },
            Segment { color: None, text: b" ".to_vec() },
            Segment { color: None, text: b"b.txt".to_vec() },
        ]
    );
    assert_eq!(
        lines[1],
        vec![
            Segment { color: Some(Color::DarkRed), text: b"?".to_vec() },
            Segment { color: Some(Color::DarkRed), text: b"?".to_vec() },
            Segment { color: None, text: b" ".to_vec() },
            Segment { color: None, text: b"a.txt".to_vec() },
        ]
    );
}

#[test]
fn the_summary_shows_staged_letters_in_green() {
    let list = list_of(&[entry(b"new.rs", INDEX_NEW | WT_MODIFIED)], None);
    let lines = render_inline(&list);
    assert_eq!(
        lines,
        vec![vec![
            Segment { color: Some(Color::DarkGreen), text: b"A".to_vec() },
            Segment { color: Some(Color::DarkRed), text: b"M".to_vec() },
            Segment { color: None, text: b" ".to_vec() },
            Segment { color: None, text: b"new.rs".to_vec() },
        ]]
    );
}

#[test]
fn the_summary_keeps_the_bytes_of_a_path_that_is_no_text() {
    let path = vec![0x66, 0x80, 0xff];
    let list = list_of(&[entry(&path, WT_NEW)], None);
    let lines = render_inline(&list);
    assert_eq!(lines[0][3], Segment { color: None, text: path });
}

#[test]
fn the_summary_of_a_conflict_shows_its_sides() {
    let statuses = vec![entry(b"c.txt", CONFLICTED)];
    let conflicts = vec![ConflictEntry {
        ancestor: Some(b"c.txt".to_vec()),
        our: None,
        their: Some(b"c.txt".to_vec()),
    }];
    let list = ChangeList::new(&statuses, &conflicts, branch(), None).unwrap();
    let lines = render_inline(&list);
    assert_eq!(text(&lines[0]), b"DU c.txt".to_vec());
    assert_eq!(lines[0][0].color, Some(Color::DarkRed));
    assert_eq!(lines[0][1].color, Some(Color::DarkRed));
}

#[test]
fn the_summary_starts_with_the_line_of_the_branch_where_it_follows_an_upstream() {
    let list = list_of(
        &[entry(b"a.txt", WT_NEW)],
        Some(upstream(2, 1, FetchStatus::Fetching)),
    );
    let lines = render_inline(&list);
    assert_eq!(lines.len(), 2);
    assert_eq!(text(&lines[0]), b"## main...origin/main [ahead 2, behind 1]".to_vec());
    assert_eq!(lines[0][0], Segment { color: Some(Color::Grey), text: b"##".to_vec() });
    assert_eq!(lines[0][2], Segment { color: Some(Color::DarkGreen), text: b"main".to_vec() });
    assert_eq!(
        lines[0][4],
        Segment { color: Some(Color::DarkRed), text: b"origin/main".to_vec() }
    );
    assert_eq!(lines[0][7], Segment { color: Some(Color::DarkGreen), text: b"2".to_vec() });
    assert_eq!(lines[0][10], Segment { color: Some(Color::DarkRed), text: b"1".to_vec() });
    assert_eq!(text(&lines[1]), b"?? a.txt".to_vec());
}

#[test]
fn the_summary_of_no_changes_is_empty_without_upstream() {
    assert_eq!(render_inline(&list_of(&[], None)), Vec::<Vec<Segment>>::new());
    let with_upstream = list_of(&[], Some(upstream(0, 0, FetchStatus::Failed)));
    let lines = render_inline(&with_upstream);
    assert_eq!(lines.len(), 1);
    assert_eq!(text(&lines[0]), b"## main...origin/main".to_vec());
}

#[test]
fn the_screen_counts_the_selection_from_the_bottom() {
    let mut list = list_of(
        &[entry(b"a", WT_MODIFIED), entry(b"b", WT_MODIFIED), entry(b"c", WT_MODIFIED)],
        None,
    );
    assert_eq!(update_list_widget_state(&list), Some(2));
    list.select_next_change();
    assert_eq!(update_list_widget_state(&list), Some(1));
    list.select_next_change();
    assert_eq!(update_list_widget_state(&list), Some(0));
    assert_eq!(update_list_widget_state(&list_of(&[], None)), None);
}

#[test]
fn the_line_of_a_change_on_the_screen_sets_off_the_selection() {
    let change = Change { path: b"src/lib.rs".to_vec(), status: Status::NonConflicting(WT_MODIFIED) };
    assert_eq!(
        list_item_widget_from_change(&change, false),
        vec![
            span(Style::Plain, " "),
            span(Style::Red, "M"),
            span(Style::Plain, " "),
            span(Style::Plain, "src/lib.rs"),
        ]
    );
    assert_eq!(
        list_item_widget_from_change(&change, true)[3],
        span(Style::Selected, "src/lib.rs")
    );
    let staged = Change { path: vec![0x61, 0xff], status: Status::NonConflicting(INDEX_NEW) };
    assert_eq!(
        list_item_widget_from_change(&staged, false),
        vec![
            span(Style::Green, "A"),
            span(Style::Plain, " "),
            span(Style::Plain, " "),
            span(Style::Plain, "a\u{fffd}"),
        ]
    );
}

#[test]
fn the_list_on_the_screen_starts_with_the_last_change() {
    let mut list = list_of(&[entry(b"a", WT_MODIFIED), entry(b"b", WT_NEW)], None);
    list.select_next_change();
    let lines = list_widget_from_changes(&list);
    assert_eq!(lines.len(), 2);
    assert_eq!(words(&lines[0]), "?? b");
    assert_eq!(lines[0][3].style, Style::Selected);
    assert_eq!(words(&lines[1]), " M a");
    assert_eq!(lines[1][3].style, Style::Plain);
    assert_eq!(list_widget_from_changes(&list_of(&[], None)), Vec::<Vec<Span>>::new());
}

#[test]
fn the_line_of_the_branch_on_the_screen_is_empty_without_upstream() {
    assert_eq!(new_branch_status_widget(&list_of(&[], None)), Vec::new());
    let list = list_of(&[], Some(upstream(0, 2, FetchStatus::Fetching)));
    assert_eq!(
        words(&new_branch_status_widget(&list)),
        "## main...origin/main [behind 2] Fetching..."
    );
}

#[test]
fn the_help_names_every_key() {
    let (lines, size) = new_help_screen_widget();
    assert_eq!(size, 10);
    assert_eq!(lines.len(), 9);
    assert_eq!(words(&lines[0]), "gadd - command-line utility for staging changes to Git.");
    assert_eq!(words(&lines[1]), "");
    assert_eq!(words(&lines[2]), "  [Space] Stage");
    assert_eq!(words(&lines[3]), "  [R] Unstage");
    assert_eq!(words(&lines[4]), "  [A] Stage all");
    assert_eq!(words(&lines[5]), "  [U] Unstage all");
    assert_eq!(words(&lines[6]), "  [F] Fetch");
    assert_eq!(words(&lines[7]), "  [Enter] Commit");
    assert_eq!(words(&lines[8]), "  [Esc] Exit");
    assert_eq!(lines[2][1], span(Style::Blue, "[Space]"));
    assert_eq!(lines[2][3], span(Style::Plain, "Stage"));
}

#[test]
fn the_shortcuts_say_how_wide_they_are() {
    let (help, help_size) = new_help_shortcut_widget();
    assert_eq!(help, vec![span(Style::Blue, "[H]"), span(Style::Plain, " Help")]);
    assert_eq!(help_size, 9);
    let (back, back_size) = new_back_shortcut_widget();
    assert_eq!(back, vec![span(Style::Blue, "[Esc]"), span(Style::Plain, " Back")]);
    assert_eq!(back_size, 11);
}

#[test]
fn the_line_of_a_change_shows_the_name_it_is_given() {
    assert_eq!(
        list_item_widget_naming(
            &Status::NonConflicting(INDEX_MODIFIED | WT_DELETED),
            String::from("shown"),
            true
        ),
        vec![
            span(Style::Green, "M"),
            span(Style::Red, "D"),
            span(Style::Plain, " "),
            span(Style::Selected, "shown"),
        ]
    );
}
