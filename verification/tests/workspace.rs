use swim_doc::doc::KeyInput;
use swim_doc::doc::WindowStatus;
use swim_doc::manager::SwimDocManager;
use swim_doc::WINDOW_WIDTH;

fn type_str(ws: &mut SwimDocManager, s: &str) {
    for c in s.chars() {
        ws.key(KeyInput::Unicode(c));
    }
}

fn create_file(ws: &mut SwimDocManager, name: &str) {
    ws.key(KeyInput::F5);
    type_str(ws, name);
    ws.key(KeyInput::Unicode('\n'));
}

#[test]
fn starts_with_four_files_listed() {
    let ws = SwimDocManager::default();
    for i in 0..4 {
        assert_eq!(ws.window_status(i), WindowStatus::DisplayingFiles);
        assert_eq!(ws.tick_count(i), 0);
    }
    assert!(!ws.modal_open_val());
    assert_eq!(ws.active_index_val(), 0);
}

#[test]
fn cursor_bounds_hold_after_edit_events() {
    let mut ws = SwimDocManager::default();
    create_file(&mut ws, "foo");
    ws.key(KeyInput::Unicode('e'));
    // picked entry is still `hello`; edit it and hammer the buffer
    for c in "abcdefghij".chars() {
        ws.key(KeyInput::Unicode(c));
        let cur = ws.window_cursor(0);
        let letters = ws.window_letters(0);
        assert!(cur <= letters && letters <= WINDOW_WIDTH);
    }
    for _ in 0..5 {
        ws.key(KeyInput::Unicode('\u{8}'));
        let cur = ws.window_cursor(0);
        let letters = ws.window_letters(0);
        assert!(cur <= letters && letters <= WINDOW_WIDTH);
    }
    for _ in 0..20 {
        ws.key(KeyInput::ArrowLeft);
        ws.key(KeyInput::ArrowUp);
        ws.key(KeyInput::ArrowDown);
        let cur = ws.window_cursor(0);
        let letters = ws.window_letters(0);
        assert!(cur <= letters && letters <= WINDOW_WIDTH);
    }
}

#[test]
fn typing_past_full_row_wraps_to_fresh_row() {
    let mut ws = SwimDocManager::default();
    ws.update();
    create_file(&mut ws, "blank");
    // the new file is entry 4; move the pick onto it and edit it
    for _ in 0..4 {
        ws.key(KeyInput::ArrowRight);
    }
    ws.key(KeyInput::Unicode('e'));
    assert_eq!(ws.window_status(0), WindowStatus::EditingFile);
    assert_eq!(ws.window_letters(0), 0);
    for _ in 0..WINDOW_WIDTH {
        ws.key(KeyInput::Unicode('a'));
    }
    assert_eq!(ws.window_row(0), 0);
    assert_eq!(ws.window_cursor(0), WINDOW_WIDTH);
    assert_eq!(ws.window_letters(0), WINDOW_WIDTH);
    // one more printable: not dropped, not appended past the limit,
    // but the sole letter of a fresh row
    ws.key(KeyInput::Unicode('b'));
    assert_eq!(ws.window_row(0), 1);
    assert_eq!(ws.window_cursor(0), 1);
    assert_eq!(ws.window_letters(0), 1);
    assert_eq!(ws.window_line(0, 1), vec![b'b']);
    assert_eq!(ws.window_line(0, 0).len(), WINDOW_WIDTH);
}

#[test]
fn save_broadcasts_to_every_window() {
    let mut ws = SwimDocManager::default();
    ws.update();
    create_file(&mut ws, "foo");
    assert!(!ws.modal_open_val());
    for _ in 0..4 {
        ws.key(KeyInput::ArrowRight);
    }
    ws.key(KeyInput::Unicode('e'));
    type_str(&mut ws, "bar");
    ws.key(KeyInput::F6);
    assert_eq!(ws.window_status(0), WindowStatus::DisplayingFiles);
    let name = b"foo".to_vec();
    for i in 0..4 {
        let content = ws.read_window_file(i, &name).expect("file missing");
        assert_eq!(content, b"bar".to_vec());
    }
}

#[test]
fn save_serializes_lines_with_newlines_between() {
    let mut ws = SwimDocManager::default();
    ws.update();
    create_file(&mut ws, "two");
    for _ in 0..4 {
        ws.key(KeyInput::ArrowRight);
    }
    ws.key(KeyInput::Unicode('e'));
    type_str(&mut ws, "one");
    ws.key(KeyInput::Unicode('\n'));
    type_str(&mut ws, "two");
    ws.key(KeyInput::F6);
    let content = ws.read_window_file(2, &b"two".to_vec()).expect("file missing");
    assert_eq!(content, b"one\ntwo".to_vec());
}

#[test]
fn round_robin_grants_one_tick_each_in_rotation() {
    let mut ws = SwimDocManager::default();
    ws.update();
    // run `average` (entry 2) in windows 0 and 1: it blocks on input
    // only after a few statements, so both stay runnable for a while
    ws.key(KeyInput::ArrowRight);
    ws.key(KeyInput::ArrowRight);
    ws.key(KeyInput::Unicode('r'));
    ws.key(KeyInput::F2);
    ws.update();
    assert_eq!(ws.tick_count(0), 1);
    ws.key(KeyInput::ArrowRight);
    ws.key(KeyInput::ArrowRight);
    ws.key(KeyInput::Unicode('r'));
    assert_eq!(ws.window_status(1), WindowStatus::ExecutingFile);
    let base0 = ws.tick_count(0);
    let base1 = ws.tick_count(1);
    ws.update();
    ws.update();
    assert_eq!(ws.tick_count(0), base0 + 1);
    assert_eq!(ws.tick_count(1), base1 + 1);
    ws.update();
    ws.update();
    assert_eq!(ws.tick_count(0), base0 + 2);
    assert_eq!(ws.tick_count(1), base1 + 2);
}

#[test]
fn average_fixture_runs_to_output() {
    let mut ws = SwimDocManager::default();
    ws.update();
    // pick `average` (entry 2) and run it
    ws.key(KeyInput::ArrowRight);
    ws.key(KeyInput::ArrowRight);
    ws.key(KeyInput::Unicode('r'));
    assert_eq!(ws.window_status(0), WindowStatus::ExecutingFile);
    let mut guard = 0;
    while ws.window_status(0) != WindowStatus::AwaitingInput {
        ws.update();
        guard += 1;
        assert!(guard < 200, "program never asked for input");
    }
    type_str(&mut ws, "5");
    ws.key(KeyInput::Unicode('\n'));
    assert_eq!(ws.window_status(0), WindowStatus::ExecutingFile);
    guard = 0;
    while ws.window_status(0) != WindowStatus::AwaitingInput {
        ws.update();
        guard += 1;
        assert!(guard < 200, "program never asked again");
    }
    type_str(&mut ws, "quit");
    ws.key(KeyInput::Unicode('\n'));
    guard = 0;
    while ws.window_status(0) != WindowStatus::DisplayingOutput {
        ws.update();
        guard += 1;
        assert!(guard < 200, "program never finished");
    }
    // the average of the single entry 5 is 5, printed on the first
    // output row of the first window
    let cell = ws.screen_cell(1, 2);
    assert_eq!(cell.ch, b'5');
}

#[test]
fn vertical_moves_clamp_and_block() {
    let mut ws = SwimDocManager::default();
    ws.update();
    // `nums` is entry 1: two lines, eight and ten letters long
    ws.key(KeyInput::ArrowRight);
    ws.key(KeyInput::Unicode('e'));
    assert_eq!(ws.window_line(0, 0), b"print(1)".to_vec());
    assert_eq!(ws.window_line(0, 1), b"print(257)".to_vec());
    for _ in 0..8 {
        ws.key(KeyInput::ArrowRight);
    }
    assert_eq!(ws.window_cursor(0), 8);
    ws.key(KeyInput::ArrowDown);
    assert_eq!(ws.window_row(0), 1);
    assert_eq!(ws.window_cursor(0), 8);
    assert_eq!(ws.window_letters(0), 10);
    // the row below is empty: moving down is blocked
    ws.key(KeyInput::ArrowDown);
    assert_eq!(ws.window_row(0), 1);
    // moving up clamps the cursor to the shorter line
    ws.key(KeyInput::ArrowRight);
    ws.key(KeyInput::ArrowRight);
    assert_eq!(ws.window_cursor(0), 10);
    ws.key(KeyInput::ArrowUp);
    assert_eq!(ws.window_row(0), 0);
    assert_eq!(ws.window_cursor(0), 8);
    assert_eq!(ws.window_letters(0), 8);
}

#[test]
fn backspace_pulls_the_rest_of_the_row_left() {
    let mut ws = SwimDocManager::default();
    ws.update();
    create_file(&mut ws, "scratch");
    for _ in 0..4 {
        ws.key(KeyInput::ArrowRight);
    }
    ws.key(KeyInput::Unicode('e'));
    type_str(&mut ws, "abcd");
    ws.key(KeyInput::ArrowLeft);
    ws.key(KeyInput::ArrowLeft);
    assert_eq!(ws.window_cursor(0), 2);
    ws.key(KeyInput::Unicode('\u{8}'));
    assert_eq!(ws.window_line(0, 0), b"acd".to_vec());
    assert_eq!(ws.window_cursor(0), 1);
    assert_eq!(ws.window_letters(0), 3);
    // at the left edge backspace does nothing
    ws.key(KeyInput::ArrowLeft);
    ws.key(KeyInput::Unicode('\u{8}'));
    assert_eq!(ws.window_line(0, 0), b"acd".to_vec());
}

#[test]
fn modal_shields_windows_from_keys() {
    let mut ws = SwimDocManager::default();
    ws.key(KeyInput::F5);
    assert!(ws.modal_open_val());
    let status_before: Vec<_> = (0..4).map(|i| ws.window_status(i)).collect();
    let lines_before: Vec<_> = (0..4).map(|i| ws.window_line(i, 0)).collect();
    ws.key(KeyInput::ArrowLeft);
    ws.key(KeyInput::ArrowRight);
    ws.key(KeyInput::ArrowUp);
    ws.key(KeyInput::ArrowDown);
    for i in 0..4 {
        assert_eq!(ws.window_status(i), status_before[i]);
        assert_eq!(ws.window_line(i, 0), lines_before[i]);
    }
    // `e` and `r` are plain letters to the modal: they join the name
    ws.key(KeyInput::Unicode('e'));
    ws.key(KeyInput::Unicode('r'));
    for i in 0..4 {
        assert_eq!(ws.window_status(i), status_before[i]);
        assert_eq!(ws.window_line(i, 0), lines_before[i]);
    }
    assert!(ws.modal_open_val());
    assert_eq!(ws.modal_name_bytes(), b"er".to_vec());
}

#[test]
fn modal_ignores_newline_on_empty_name() {
    let mut ws = SwimDocManager::default();
    ws.key(KeyInput::F5);
    ws.key(KeyInput::Unicode('\n'));
    assert!(ws.modal_open_val());
    type_str(&mut ws, "ok");
    ws.key(KeyInput::Unicode('\n'));
    assert!(!ws.modal_open_val());
    assert!(ws.read_window_file(0, &b"ok".to_vec()).is_some());
}

#[test]
fn modal_name_is_bounded() {
    let mut ws = SwimDocManager::default();
    ws.key(KeyInput::F5);
    type_str(&mut ws, "abcdefghijklm");
    // one byte is reserved, so at most nine letters stick
    assert_eq!(ws.modal_name_bytes(), b"abcdefghi".to_vec());
    ws.key(KeyInput::Unicode('\u{8}'));
    assert_eq!(ws.modal_name_bytes(), b"abcdefgh".to_vec());
}

#[test]
fn creating_past_capacity_keeps_modal_open_and_files_intact() {
    let mut ws = SwimDocManager::default();
    // four fixtures are seeded; fill the directory to its cap of 31
    for k in 0..27 {
        let name = format!("f{}", k);
        create_file(&mut ws, &name);
        assert!(!ws.modal_open_val(), "creation {} failed early", k);
    }
    create_file(&mut ws, "over");
    assert!(ws.modal_open_val(), "capacity overflow closed the modal");
    // the failure is reported on the status row
    assert_eq!(ws.screen_cell(20, 0).ch, b'T');
    assert_eq!(ws.screen_cell(21, 0).ch, b'o');
    assert_eq!(ws.screen_cell(34, 0).ch, b'!');
    // no existing entry was corrupted
    for i in 0..4 {
        assert!(ws.read_window_file(i, &b"hello".to_vec()).is_some());
        assert!(ws.read_window_file(i, &b"f26".to_vec()).is_some());
        assert!(ws.read_window_file(i, &b"over".to_vec()).is_none());
    }
}

#[test]
fn dismissing_output_and_editing_again() {
    let mut ws = SwimDocManager::default();
    ws.key(KeyInput::Unicode('r'));
    let mut guard = 0;
    while ws.window_status(0) != WindowStatus::DisplayingOutput {
        ws.update();
        guard += 1;
        assert!(guard < 100);
    }
    // the hello fixture printed its line
    let cell = ws.screen_cell(1, 2);
    assert_eq!(cell.ch, b'H');
    ws.key(KeyInput::F6);
    assert_eq!(ws.window_status(0), WindowStatus::DisplayingFiles);
}

#[test]
fn r_dismisses_finished_output() {
    let mut ws = SwimDocManager::default();
    ws.key(KeyInput::Unicode('r'));
    let mut guard = 0;
    while ws.window_status(0) != WindowStatus::DisplayingOutput {
        ws.update();
        guard += 1;
        assert!(guard < 100);
    }
    ws.key(KeyInput::Unicode('r'));
    assert_eq!(ws.window_status(0), WindowStatus::DisplayingFiles);
}

#[test]
fn function_keys_pick_windows() {
    let mut ws = SwimDocManager::default();
    ws.key(KeyInput::F3);
    assert_eq!(ws.active_index_val(), 2);
    ws.key(KeyInput::F2);
    assert_eq!(ws.active_index_val(), 1);
    ws.key(KeyInput::F1);
    assert_eq!(ws.active_index_val(), 0);
    ws.key(KeyInput::F4);
    assert_eq!(ws.active_index_val(), 3);
}

#[test]
fn arrows_clamp_the_pick_to_the_listing() {
    let mut ws = SwimDocManager::default();
    ws.update();
    ws.key(KeyInput::ArrowLeft);
    ws.key(KeyInput::ArrowLeft);
    // still at the first entry: editing opens `hello`
    ws.key(KeyInput::Unicode('e'));
    assert_eq!(ws.window_status(0), WindowStatus::EditingFile);
    assert_eq!(ws.window_line(0, 0), b"print(\"Hello, world!\")".to_vec());
}
