use nail::app::App;
use nail::command::{apply_open, CommandAction};
use nail::keys::Key;
use nail::modes::Mode;
use nail::tabs::Tab;

#[test]
fn open_names_buffer_after_final_path_segment() {
    let mut app = App::new();
    app.open("dir/sub/file.bin", vec![1, 2]);
    match &app.tabs[0] {
        Tab::File(f) => {
            assert_eq!(f.name, "file.bin");
            assert_eq!(f.path, "dir/sub/file.bin");
            assert_eq!(f.data, vec![1, 2]);
            assert_eq!(f.cursor.pos, (0, 0));
            assert_eq!(f.scroll_y, 16);
        },
        _ => panic!("expected a buffer tab"),
    }
}

#[test]
fn open_falls_back_to_full_path_without_segment() {
    let mut app = App::new();
    app.open("plain", vec![]);
    app.open("trailing/", vec![]);
    match (&app.tabs[0], &app.tabs[1]) {
        (Tab::File(a), Tab::File(b)) => {
            assert_eq!(a.name, "plain");
            assert_eq!(b.name, "trailing/");
        },
        _ => panic!("expected buffer tabs"),
    }
}

#[test]
fn open_replaces_solitary_title_tab() {
    let mut app = App::new();
    app.tabs.push(Tab::Title);
    app.open("a.bin", vec![]);
    assert_eq!(app.tabs.len(), 1);
    assert!(matches!(app.tabs[0], Tab::File(_)));
}

#[test]
fn tab_titles_and_long_titles() {
    let mut app = App::new();
    app.tabs.push(Tab::Title);
    app.open("d/a.bin", vec![]);
    app.tabs.push(Tab::Help);
    let titles = app.tab_titles();
    assert_eq!(titles, vec!["a.bin", "help"]);
    assert_eq!(app.tabs[0].long_title(), "d/a.bin");
    assert_eq!(app.tabs[1].long_title(), "help");
    assert_eq!(Tab::Title.title(), "title");
    assert_eq!(Tab::Title.long_title(), "title");
}

#[test]
fn write_uses_buffer_path_unless_overridden() {
    let mut app = App::new();
    app.open("orig.bin", vec![7]);
    let (p, d) = app.write(None).unwrap();
    assert_eq!(p, "orig.bin");
    assert_eq!(d, vec![7]);
    let (p, _) = app.write(Some("other.bin")).unwrap();
    assert_eq!(p, "other.bin");
}

#[test]
fn write_without_buffer_tab_yields_nothing() {
    let mut app = App::new();
    app.tabs.push(Tab::Help);
    assert!(app.write(None).is_none());
}

#[test]
fn goto_tab_ignores_out_of_range() {
    let mut app = App::new();
    app.open("a", vec![]);
    app.open("b", vec![]);
    app.goto_tab(0);
    assert_eq!(app.tabs_index, 0);
    app.goto_tab(5);
    assert_eq!(app.tabs_index, 0);
}

#[test]
fn default_mode_keys_move_cursor_and_switch_modes() {
    let mut app = App::new();
    app.open("m.bin", vec![0u8; 64]);
    app.mode = Mode::Default;
    app.default_mode_key(Key::Char('j'));
    app.default_mode_key(Key::Char('l'));
    let loc = match &app.tabs[0] {
        Tab::File(f) => f.cursor.loc(),
        _ => unreachable!(),
    };
    assert_eq!(loc, 16);
    app.default_mode_key(Key::Char('G'));
    let loc = match &app.tabs[0] {
        Tab::File(f) => f.cursor.loc(),
        _ => unreachable!(),
    };
    assert_eq!(loc, 63);
    app.default_mode_key(Key::Char('R'));
    assert_eq!(app.mode, Mode::Replace);
    app.default_mode_key(Key::Esc);
    assert_eq!(app.mode, Mode::Replace);
}

#[test]
fn colon_key_begins_a_command_line() {
    let mut app = App::new();
    app.open("m.bin", vec![0u8; 4]);
    app.mode = Mode::Default;
    app.default_mode_key(Key::Char(':'));
    assert_eq!(app.mode, Mode::Command);
    assert_eq!(app.command, ":");
    app.command_mode_key(Key::Char('q'));
    assert_eq!(app.command, ":q");
    app.command_mode_key(Key::Backspace);
    assert_eq!(app.command, ":");
    app.command_mode_key(Key::Backspace);
    assert_eq!(app.command, "");
    assert_eq!(app.mode, Mode::Default);
}

#[test]
fn enter_submits_the_pending_command() {
    let mut app = App::new();
    app.open("m.bin", vec![0u8; 64]);
    app.mode = Mode::Command;
    app.command = ":0x20".to_string();
    let act = app.command_mode_key(Key::Char('\n'));
    assert!(matches!(act, CommandAction::Idle));
    assert_eq!(app.mode, Mode::Default);
    let loc = match &app.tabs[0] {
        Tab::File(f) => f.cursor.loc(),
        _ => unreachable!(),
    };
    assert_eq!(loc, 0x20);
    assert_eq!(app.command, "");
}

#[test]
fn page_keys_move_thirty_four_rows() {
    let mut app = App::new();
    app.open("big.bin", vec![0u8; 0x1000]);
    app.mode = Mode::Default;
    app.default_mode_key(Key::PageDown);
    let loc = match &app.tabs[0] {
        Tab::File(f) => f.cursor.loc(),
        _ => unreachable!(),
    };
    assert_eq!(loc, 34 * 16);
    app.default_mode_key(Key::PageUp);
    let loc = match &app.tabs[0] {
        Tab::File(f) => f.cursor.loc(),
        _ => unreachable!(),
    };
    assert_eq!(loc, 0);
}

#[test]
fn replace_mode_edits_nibbles() {
    let mut app = App::new();
    app.open("e.bin", vec![0x00, 0x00]);
    app.mode = Mode::Replace;
    app.write_mode_key(Key::Char('a'));
    app.write_mode_key(Key::Char('B'));
    match &app.tabs[0] {
        Tab::File(f) => assert_eq!(f.data, vec![0xAB, 0x00]),
        _ => unreachable!(),
    }
    // A key that is no hex digit changes nothing.
    app.write_mode_key(Key::Char('x'));
    match &app.tabs[0] {
        Tab::File(f) => assert_eq!(f.data, vec![0xAB, 0x00]),
        _ => unreachable!(),
    }
}

#[test]
fn insert_mode_is_a_no_op() {
    let mut app = App::new();
    app.open("e.bin", vec![0x11]);
    app.mode = Mode::Insert;
    app.write_mode_key(Key::Char('F'));
    match &app.tabs[0] {
        Tab::File(f) => assert_eq!(f.data, vec![0x11]),
        _ => unreachable!(),
    }
}

#[test]
fn title_mode_only_answers_colon() {
    let mut app = App::new();
    app.title_mode_key(Key::Char('x'));
    assert_eq!(app.mode, Mode::Title);
    app.title_mode_key(Key::Char(':'));
    assert_eq!(app.mode, Mode::TitleCommand);
    assert_eq!(app.command, ":");
}

#[test]
fn empty_session_edit_scenario() {
    // Open an empty session, open a path that does not exist (the driver
    // hands empty bytes), and type a hex digit in Replace mode: the empty
    // buffer must stay empty — a replace never writes past the length.
    let mut app = App::new();
    app.tabs.push(Tab::Title);
    app.mode = Mode::Title;
    app.title_mode_key(Key::Char(':'));
    app.command = ":e newfile.bin".to_string();
    let act = app.command_mode_key(Key::Char('\n'));
    let path = match act {
        CommandAction::OpenPath(p) => p,
        _ => panic!("expected an open action"),
    };
    assert_eq!(path, "newfile.bin");
    apply_open(&mut app, &path, vec![]);
    assert_eq!(app.tabs.len(), 1);
    match &app.tabs[0] {
        Tab::File(f) => assert_eq!(f.data.len(), 0),
        _ => panic!("expected a buffer tab"),
    }
    app.mode = Mode::Replace;
    app.write_mode_key(Key::Char('F'));
    app.write_mode_key(Key::Char('F'));
    match &app.tabs[0] {
        Tab::File(f) => {
            assert_eq!(f.data.len(), 0);
            assert_eq!(f.cursor.pos, (0, 0));
        },
        _ => unreachable!(),
    }
}

#[test]
fn submission_on_emptied_session_falls_back_to_title() {
    let mut app = App::new();
    app.open("only.bin", vec![1]);
    app.mode = Mode::Command;
    // An unknown command on an already empty tab list would leave Default
    // mode with nothing to show; closing the only tab instead quits.
    app.command = ":bd".to_string();
    app.command_mode_key(Key::Char('\n'));
    assert_eq!(app.mode, Mode::Quit);
    assert_eq!(app.tabs.len(), 0);
}
