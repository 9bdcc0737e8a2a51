use samview::channel::drain;
use samview::scan::Entry;
use samview::search::search;
use samview::state::{Action, App, Key, LoaderMsg, Modal};
use std::sync::mpsc;

fn row(qname: &str) -> Vec<String> {
    let mut r = vec![qname.to_string()];
    for _ in 0..10 {
        r.push("*".to_string());
    }
    r
}

fn sample_table() -> Vec<Vec<String>> {
    vec![row("r1"), row("r2"), row("r1x"), row("r3")]
}

fn fresh_app() -> App {
    App::init("/start".to_string())
}

#[test]
fn search_matches_first_field_in_order() {
    let t = sample_table();
    assert_eq!(search(&t, "r1"), vec![0, 2]);
    assert_eq!(search(&t, "r"), vec![0, 1, 2, 3]);
    assert_eq!(search(&t, "zz"), Vec::<usize>::new());
}

#[test]
fn search_empty_or_blank_query_yields_nothing() {
    let t = sample_table();
    assert_eq!(search(&t, ""), Vec::<usize>::new());
    assert_eq!(search(&t, " \t "), Vec::<usize>::new());
}

#[test]
fn search_trims_the_query() {
    let t = sample_table();
    assert_eq!(search(&t, "  r1 "), vec![0, 2]);
}

#[test]
fn search_is_case_sensitive() {
    let t = sample_table();
    assert_eq!(search(&t, "R1"), Vec::<usize>::new());
}

#[test]
fn perform_search_jumps_to_first_hit() {
    let mut app = fresh_app();
    app.table_rows = sample_table();
    app.table_selected = 3;
    app.search_input = "r1".to_string();
    app.perform_search();
    assert_eq!(app.search_results, vec![0, 2]);
    assert_eq!(app.table_selected, 0);
}

#[test]
fn perform_search_with_blank_query_keeps_selection() {
    let mut app = fresh_app();
    app.table_rows = sample_table();
    app.table_selected = 2;
    app.search_results = vec![1];
    app.search_input = "  ".to_string();
    app.perform_search();
    assert!(app.search_results.is_empty());
    assert_eq!(app.table_selected, 2);
}

#[test]
fn perform_search_without_hits_keeps_selection() {
    let mut app = fresh_app();
    app.table_rows = sample_table();
    app.table_selected = 1;
    app.search_input = "nothere".to_string();
    app.perform_search();
    assert!(app.search_results.is_empty());
    assert_eq!(app.table_selected, 1);
}

#[test]
fn table_ready_resets_view_state() {
    let mut app = fresh_app();
    app.table_rows = sample_table();
    app.table_selected = 2;
    app.scroll_x = 35;
    app.scroll_y = 3;
    app.search_results = vec![0, 2];
    app.apply_message(LoaderMsg::TableReady(vec![row("fresh")]));
    assert_eq!(app.table_rows.len(), 1);
    assert_eq!(app.table_rows[0][0], "fresh");
    assert_eq!(app.table_selected, 0);
    assert_eq!((app.scroll_x, app.scroll_y), (0, 0));
    assert!(app.search_results.is_empty());
}

#[test]
fn entries_ready_resets_picker_selection() {
    let mut app = fresh_app();
    app.picker_entries = vec![Entry { path: "/old".to_string(), is_dir: true }];
    app.picker_selected = 0;
    let fresh = vec![
        Entry { path: "/a".to_string(), is_dir: true },
        Entry { path: "/b".to_string(), is_dir: false },
    ];
    app.apply_message(LoaderMsg::EntriesReady(fresh));
    assert_eq!(app.picker_entries.len(), 2);
    assert_eq!(app.picker_selected, 0);
}

#[test]
fn quit_key_always_quits() {
    let mut app = fresh_app();
    assert!(matches!(app.handle_key(Key::Char('q')), Action::Quit));
    app.modal = Modal::SearchOpen;
    assert!(matches!(app.handle_key(Key::Char('q')), Action::Quit));
    app.modal = Modal::PickerOpen;
    assert!(matches!(app.handle_key(Key::Char('q')), Action::Quit));
}

#[test]
fn tab_toggles_picker_and_requests_scan() {
    let mut app = fresh_app();
    match app.handle_key(Key::Tab) {
        Action::Scan(p) => assert_eq!(p, "/start"),
        _ => panic!("expected a scan request"),
    }
    assert_eq!(app.modal, Modal::PickerOpen);
    assert!(matches!(app.handle_key(Key::Tab), Action::Stay));
    assert_eq!(app.modal, Modal::Browsing);
}

#[test]
fn picker_selection_saturates_up_and_wraps_down() {
    let mut app = fresh_app();
    app.modal = Modal::PickerOpen;
    app.picker_entries = vec![
        Entry { path: "/a".to_string(), is_dir: true },
        Entry { path: "/b".to_string(), is_dir: false },
        Entry { path: "/c".to_string(), is_dir: false },
    ];
    app.handle_key(Key::Up);
    assert_eq!(app.picker_selected, 0);
    app.handle_key(Key::Down);
    assert_eq!(app.picker_selected, 1);
    app.handle_key(Key::Down);
    assert_eq!(app.picker_selected, 2);
    app.handle_key(Key::Down);
    assert_eq!(app.picker_selected, 0);
}

#[test]
fn picker_enter_on_directory_rescans_and_stays_open() {
    let mut app = fresh_app();
    app.modal = Modal::PickerOpen;
    app.picker_entries = vec![Entry { path: "/sub".to_string(), is_dir: true }];
    match app.handle_key(Key::Enter) {
        Action::Scan(p) => assert_eq!(p, "/sub"),
        _ => panic!("expected a scan request"),
    }
    assert_eq!(app.picker_path, "/sub");
    assert_eq!(app.modal, Modal::PickerOpen);
}

#[test]
fn picker_enter_on_file_loads_and_closes() {
    let mut app = fresh_app();
    app.modal = Modal::PickerOpen;
    app.picker_entries = vec![Entry { path: "/f.sam".to_string(), is_dir: false }];
    match app.handle_key(Key::Enter) {
        Action::Load(p) => assert_eq!(p, "/f.sam"),
        _ => panic!("expected a load request"),
    }
    assert_eq!(app.modal, Modal::Browsing);
}

#[test]
fn picker_escape_closes() {
    let mut app = fresh_app();
    app.modal = Modal::PickerOpen;
    assert!(matches!(app.handle_key(Key::Esc), Action::Stay));
    assert_eq!(app.modal, Modal::Browsing);
}

#[test]
fn search_modal_collects_edits_and_commits() {
    let mut app = fresh_app();
    app.table_rows = sample_table();
    app.handle_key(Key::Char('/'));
    assert_eq!(app.modal, Modal::SearchOpen);
    assert_eq!(app.search_input, "");
    app.handle_key(Key::Char('r'));
    app.handle_key(Key::Char('2'));
    app.handle_key(Key::Char('x'));
    assert_eq!(app.search_input, "r2x");
    app.handle_key(Key::Backspace);
    app.handle_key(Key::Backspace);
    assert_eq!(app.search_input, "r");
    app.handle_key(Key::Char('1'));
    app.handle_key(Key::Enter);
    assert_eq!(app.modal, Modal::Browsing);
    assert_eq!(app.search_results, vec![0, 2]);
    assert_eq!(app.table_selected, 0);
}

#[test]
fn search_modal_escape_discards_the_commit() {
    let mut app = fresh_app();
    app.table_rows = sample_table();
    app.handle_key(Key::Char('/'));
    app.handle_key(Key::Char('r'));
    app.handle_key(Key::Esc);
    assert_eq!(app.modal, Modal::Browsing);
    assert!(app.search_results.is_empty());
}

#[test]
fn slash_only_opens_search_while_browsing() {
    let mut app = fresh_app();
    app.modal = Modal::PickerOpen;
    app.handle_key(Key::Char('/'));
    assert_eq!(app.modal, Modal::PickerOpen);
    app.modal = Modal::SearchOpen;
    app.handle_key(Key::Char('/'));
    assert_eq!(app.modal, Modal::SearchOpen);
    assert_eq!(app.search_input, "/");
}

#[test]
fn table_selection_saturates_both_ways() {
    let mut app = fresh_app();
    app.table_rows = sample_table();
    app.handle_key(Key::Up);
    assert_eq!(app.table_selected, 0);
    for _ in 0..6 {
        app.handle_key(Key::Down);
    }
    assert_eq!(app.table_selected, 3);
    app.handle_key(Key::Up);
    assert_eq!(app.table_selected, 2);
}

#[test]
fn horizontal_scroll_steps_by_five_and_stops_at_zero() {
    let mut app = fresh_app();
    app.table_rows = sample_table();
    app.handle_key(Key::Right);
    app.handle_key(Key::Right);
    assert_eq!(app.scroll_x, 10);
    app.handle_key(Key::Left);
    assert_eq!(app.scroll_x, 5);
    app.handle_key(Key::Left);
    app.handle_key(Key::Left);
    assert_eq!(app.scroll_x, 0);
}

#[test]
fn drain_applies_messages_in_arrival_order() {
    let mut app = fresh_app();
    let (tx, rx) = mpsc::channel();
    tx.send(LoaderMsg::EntriesReady(vec![Entry {
        path: "/a".to_string(),
        is_dir: true,
    }]))
    .unwrap();
    tx.send(LoaderMsg::TableReady(vec![row("first")])).unwrap();
    tx.send(LoaderMsg::TableReady(vec![row("second"), row("third")]))
        .unwrap();
    drain(&mut app, &rx);
    assert_eq!(app.picker_entries.len(), 1);
    assert_eq!(app.table_rows.len(), 2);
    assert_eq!(app.table_rows[0][0], "second");
    assert_eq!(app.table_selected, 0);
}

#[test]
fn drain_on_an_empty_channel_changes_nothing() {
    let mut app = fresh_app();
    app.table_rows = sample_table();
    app.table_selected = 1;
    let (tx, rx) = mpsc::channel::<LoaderMsg>();
    drop(tx);
    drain(&mut app, &rx);
    assert_eq!(app.table_rows.len(), 4);
    assert_eq!(app.table_selected, 1);
}

#[test]
fn search_trims_unicode_white_space() {
    let t = sample_table();
    assert_eq!(search(&t, "\u{00A0}r1\u{00A0}"), vec![0, 2]);
}
