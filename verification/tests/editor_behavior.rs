use editer::editor::{Editor, InputEvent, Location, MoveKey};
use editer::terminal::{ClearKind, Position, Size, TermCommand, Terminal};
use editer::view::{EditError, View};

fn buffer(lines: &[&str]) -> View {
    let text: Vec<String> = lines.iter().map(|l| String::from(*l)).collect();
    View::from_lines(text, String::from("scratch.txt"))
}

fn wide() -> Size {
    Size { height: 24, width: 80 }
}

#[test]
fn insert_char_succeeds_in_range() {
    let mut v = buffer(&["ab"]);
    assert_eq!(v.insert_char(0, 1, 'x'), Ok(()));
    assert_eq!(v.get_text()[0], "axb");
    assert_eq!(v.get_text()[0].len(), 3);
}

#[test]
fn insert_char_at_line_start_and_end() {
    let mut v = buffer(&["ab"]);
    assert_eq!(v.insert_char(0, 0, '<'), Ok(()));
    assert_eq!(v.insert_char(0, 3, '>'), Ok(()));
    assert_eq!(v.get_text()[0], "<ab>");
}

#[test]
fn insert_char_into_empty_line() {
    let mut v = buffer(&[""]);
    assert_eq!(v.insert_char(0, 0, 'h'), Ok(()));
    assert_eq!(v.get_text()[0], "h");
}

#[test]
fn insert_char_rejects_bad_row() {
    let mut v = buffer(&["ab", "cd"]);
    assert_eq!(v.insert_char(2, 0, 'x'), Err(EditError::InvalidRow));
    assert_eq!(v.insert_char(100, 0, 'x'), Err(EditError::InvalidRow));
    assert_eq!(v.get_text(), &vec![String::from("ab"), String::from("cd")]);
}

#[test]
fn insert_char_rejects_bad_column() {
    let mut v = buffer(&["ab"]);
    assert_eq!(v.insert_char(0, 3, 'x'), Err(EditError::InvalidColumn));
    assert_eq!(v.get_text()[0], "ab");
}

#[test]
fn add_line_inserts_at_index() {
    let mut v = buffer(&["a", "c"]);
    v.add_line(String::from("b"), 1);
    assert_eq!(
        v.get_text(),
        &vec![String::from("a"), String::from("b"), String::from("c")]
    );
}

#[test]
fn cursor_clamps_at_viewport_edges() {
    let size = Size { height: 24, width: 80 };
    let mut e = Editor::new(buffer(&[""]));

    // Left at column 0 stays put.
    e.move_caret(MoveKey::Left, size);
    assert_eq!(e.location, Location { x: 0, y: 0 });
    // Up at row 0 stays put.
    e.move_caret(MoveKey::Up, size);
    assert_eq!(e.location, Location { x: 0, y: 0 });

    // Right at the last column stays put.
    for _ in 0..100 {
        e.move_caret(MoveKey::Right, size);
    }
    assert_eq!(e.location.x, 79);
    e.move_caret(MoveKey::Right, size);
    assert_eq!(e.location.x, 79);

    // Down at the last row stays put.
    for _ in 0..100 {
        e.move_caret(MoveKey::Down, size);
    }
    assert_eq!(e.location.y, 23);
    e.move_caret(MoveKey::Down, size);
    assert_eq!(e.location.y, 23);
}

#[test]
fn cursor_moves_one_step_inside_viewport() {
    let size = wide();
    let mut e = Editor::new(buffer(&[""]));
    e.move_caret(MoveKey::Right, size);
    e.move_caret(MoveKey::Down, size);
    assert_eq!(e.location, Location { x: 1, y: 1 });
    e.move_caret(MoveKey::Left, size);
    e.move_caret(MoveKey::Up, size);
    assert_eq!(e.location, Location { x: 0, y: 0 });
    // Page and home keys are accepted and move nothing.
    e.move_caret(MoveKey::PageUp, size);
    e.move_caret(MoveKey::PageDown, size);
    e.move_caret(MoveKey::Home, size);
    e.move_caret(MoveKey::End, size);
    assert_eq!(e.location, Location { x: 0, y: 0 });
}

#[test]
fn persistence_round_trip() {
    let v = buffer(&["ab", "cd"]);
    let image = v.file_content();
    assert_eq!(image, "ab\r\ncd\r\n");
    let reloaded = View::from_content(&image, String::from("scratch.txt"));
    assert_eq!(reloaded.get_text(), &vec![String::from("ab"), String::from("cd")]);
}

#[test]
fn loading_splits_on_bare_newlines_too() {
    let v = View::from_content("a\nb", String::from("p"));
    assert_eq!(v.get_text(), &vec![String::from("a"), String::from("b")]);
    let w = View::from_content("x\r\n", String::from("p"));
    assert_eq!(w.get_text(), &vec![String::from("x")]);
}

#[test]
fn save_after_load_is_stable() {
    // A lone trailing carriage return is folded into the line break on
    // the first save; after that, saving and loading change nothing.
    let v = View::from_content("a\r", String::from("p"));
    assert_eq!(v.get_text(), &vec![String::from("a")]);
    let image = v.file_content();
    assert_eq!(image, "a\r\n");
    let w = View::from_content(&image, String::from("p"));
    assert_eq!(w.get_text(), v.get_text());
    assert_eq!(w.file_content(), image);
}

#[test]
fn empty_file_loads_as_one_empty_line() {
    let v = View::from_content("", String::from("p"));
    assert_eq!(v.get_text(), &vec![String::from("")]);
}

#[test]
fn redraw_is_deterministic() {
    let mut e = Editor::new(buffer(&["hello", "world"]));
    e.move_caret(MoveKey::Right, wide());
    let mut term = Terminal::new();
    e.refresh_screen(&mut term);
    let first = term.take_pending();
    e.refresh_screen(&mut term);
    let second = term.take_pending();
    assert_eq!(first, second);
}

#[test]
fn redraw_paints_every_line_and_restores_cursor() {
    let mut e = Editor::new(buffer(&["hi"]));
    e.move_caret(MoveKey::Right, wide());
    let mut term = Terminal::new();
    e.refresh_screen(&mut term);
    let cmds = term.take_pending();
    assert_eq!(
        cmds,
        vec![
            TermCommand::HideCursor,
            TermCommand::MoveTo(Position { x: 0, y: 0 }),
            TermCommand::MoveTo(Position { x: 0, y: 0 }),
            TermCommand::Print(String::from("hi")),
            TermCommand::Print(String::from("\r\n")),
            TermCommand::MoveTo(Position { x: 1, y: 0 }),
            TermCommand::ShowCursor,
        ]
    );
}

#[test]
fn exit_latches_from_any_cursor_position_and_redraws_farewell() {
    for (x, y) in [(0usize, 0usize), (5, 3), (79, 23)] {
        let mut e = Editor::new(buffer(&["text"]));
        for _ in 0..x {
            e.move_caret(MoveKey::Right, wide());
        }
        for _ in 0..y {
            e.move_caret(MoveKey::Down, wide());
        }
        assert!(!e.should_exit);
        let save = e.eval_event(&InputEvent::Exit, wide());
        assert!(!save);
        assert!(e.should_exit);

        let mut term = Terminal::new();
        e.refresh_screen(&mut term);
        let cmds = term.take_pending();
        assert_eq!(
            cmds,
            vec![
                TermCommand::HideCursor,
                TermCommand::MoveTo(Position { x: 0, y: 0 }),
                TermCommand::ClearScreen(ClearKind::Purge),
                TermCommand::Print(String::from("GoodBye!\r\n")),
                TermCommand::ShowCursor,
            ]
        );

        // No later event clears the flag.
        e.eval_event(&InputEvent::Move(MoveKey::Left), wide());
        assert!(e.should_exit);
    }
}

#[test]
fn typing_into_empty_file_then_saving() {
    // An empty file opens as one empty line with the cursor at the origin.
    let v = View::from_content("", String::from("note.txt"));
    let mut e = Editor::new(v);
    assert_eq!(e.location, Location { x: 0, y: 0 });

    assert!(!e.eval_event(&InputEvent::Insert('h'), wide()));
    assert!(!e.eval_event(&InputEvent::Insert('i'), wide()));
    assert_eq!(e.view_obj.get_text(), &vec![String::from("hi")]);
    assert_eq!(e.location, Location { x: 2, y: 0 });

    let save = e.eval_event(&InputEvent::Save, wide());
    assert!(save);
    assert_eq!(e.view_obj.file_content(), "hi\r\n");
}

#[test]
fn insertion_past_buffer_is_skipped_whole() {
    let mut e = Editor::new(buffer(&["ab"]));
    // Row below the last line: the cursor may sit there, inserting may not.
    e.eval_event(&InputEvent::Move(MoveKey::Down), wide());
    assert_eq!(e.location.y, 1);
    assert!(!e.eval_event(&InputEvent::Insert('x'), wide()));
    assert_eq!(e.view_obj.get_text(), &vec![String::from("ab")]);
    assert_eq!(e.location, Location { x: 0, y: 1 });
}

#[test]
fn save_requests_nothing_else() {
    let mut e = Editor::new(buffer(&["ab"]));
    let save = e.eval_event(&InputEvent::Save, wide());
    assert!(save);
    assert_eq!(e.view_obj.get_text(), &vec![String::from("ab")]);
    assert!(!e.should_exit);
    let none = e.eval_event(&InputEvent::Other, wide());
    assert!(!none);
}

#[test]
fn save_notice_returns_cursor() {
    let mut e = Editor::new(buffer(&["ab"]));
    e.move_caret(MoveKey::Right, wide());
    let mut term = Terminal::new();
    e.note_saved(&mut term, wide());
    let cmds = term.take_pending();
    assert_eq!(
        cmds,
        vec![
            TermCommand::MoveTo(Position { x: 24, y: 80 }),
            TermCommand::Print(String::from("\x1b[32mFile Saved!\x1b[0m")),
            TermCommand::MoveTo(Position { x: 1, y: 0 }),
        ]
    );
}

#[test]
fn welcome_banner_is_centred_and_cut_to_width() {
    let mut term = Terminal::new();
    Editor::print_welcome_message(&mut term, 80);
    let expected = format!("~{}Editer -- verison 0.0.1", " ".repeat(27));
    assert_eq!(term.take_pending(), vec![TermCommand::Print(expected)]);

    // A viewport narrower than the banner cuts it.
    Editor::print_welcome_message(&mut term, 5);
    assert_eq!(
        term.take_pending(),
        vec![TermCommand::Print(String::from("~Edit"))]
    );
}

#[test]
fn welcome_screen_rows() {
    let mut term = Terminal::new();
    Editor::print_rows(&mut term, Size { height: 3, width: 5 });
    let cmds = term.take_pending();
    assert_eq!(
        cmds,
        vec![
            TermCommand::ClearScreen(ClearKind::CurrentLine),
            TermCommand::Print(String::from("~")),
            TermCommand::ClearScreen(ClearKind::CurrentLine),
            TermCommand::Print(String::from("~Edit")),
            TermCommand::ClearScreen(ClearKind::CurrentLine),
            TermCommand::Print(String::from("~")),
        ]
    );
}

#[test]
fn queue_accumulates_and_take_pending_drains() {
    let mut term = Terminal::new();
    term.hide_cursor();
    term.move_cursor_to(Position { x: 2, y: 3 });
    term.print("abc");
    term.show_cursor();
    assert_eq!(term.pending_commands().len(), 4);
    let cmds = term.take_pending();
    assert_eq!(
        cmds,
        vec![
            TermCommand::HideCursor,
            TermCommand::MoveTo(Position { x: 2, y: 3 }),
            TermCommand::Print(String::from("abc")),
            TermCommand::ShowCursor,
        ]
    );
    assert_eq!(term.pending_commands().len(), 0);
}
