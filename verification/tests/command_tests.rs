use nail::app::App;
use nail::command::CommandAction;
use nail::modes::Mode;
use nail::tabs::Tab;

fn session_with_bytes(n: usize) -> App {
    let mut app = App::new();
    app.open("buffer.bin", vec![0u8; n]);
    app.mode = Mode::Default;
    app
}

fn active_loc(app: &App) -> usize {
    match &app.tabs[app.tabs_index] {
        Tab::File(f) => f.cursor.loc(),
        _ => panic!("active tab is not a buffer"),
    }
}

fn submit(app: &mut App, line: &str) -> CommandAction {
    app.command = line.to_string();
    app.handle_command()
}

#[test]
fn goto_hex_moves_cursor() {
    let mut app = session_with_bytes(0x40);
    submit(&mut app, ":0x1A");
    assert_eq!(active_loc(&app), 26);
}

#[test]
fn goto_hex_clamps_to_last_byte() {
    let mut app = session_with_bytes(0x40);
    submit(&mut app, ":0xFFFFFFFF");
    assert_eq!(active_loc(&app), 63);
}

#[test]
fn goto_hex_negative_clamps_to_last_byte() {
    let mut app = session_with_bytes(0x40);
    submit(&mut app, ":0x-1");
    assert_eq!(active_loc(&app), 63);
}

#[test]
fn goto_hex_on_empty_buffer_stays_at_zero() {
    let mut app = session_with_bytes(0);
    submit(&mut app, ":0x10");
    assert_eq!(active_loc(&app), 0);
}

#[test]
fn goto_hex_bad_digits_is_dropped() {
    let mut app = session_with_bytes(0x40);
    submit(&mut app, ":0x5");
    submit(&mut app, ":0xZZ");
    assert_eq!(active_loc(&app), 5);
    assert_eq!(app.command, "");
}

#[test]
fn open_command_returns_the_path() {
    let mut app = session_with_bytes(4);
    let act = submit(&mut app, ":e notes.txt");
    match act {
        CommandAction::OpenPath(p) => assert_eq!(p, "notes.txt"),
        _ => panic!("expected an open action"),
    }
}

#[test]
fn write_command_carries_path_and_bytes() {
    let mut app = App::new();
    app.open("data.bin", vec![1, 2, 3]);
    let act = submit(&mut app, ":w copy.bin");
    match act {
        CommandAction::WriteTo(p, d) => {
            assert_eq!(p, "copy.bin");
            assert_eq!(d, vec![1, 2, 3]);
        },
        _ => panic!("expected a write action"),
    }
}

#[test]
fn set_endianness_tokens() {
    let mut app = session_with_bytes(4);
    assert!(!app.options.big_endian);
    submit(&mut app, ":set be");
    assert!(app.options.big_endian);
    submit(&mut app, ":set le");
    assert!(!app.options.big_endian);
    submit(&mut app, ":set bigendian");
    assert!(app.options.big_endian);
    submit(&mut app, ":set littleendian");
    assert!(!app.options.big_endian);
    submit(&mut app, ":set nonsense");
    assert!(!app.options.big_endian);
}

#[test]
fn tab_cycle_commands() {
    let mut app = App::new();
    app.open("a", vec![]);
    app.open("b", vec![]);
    app.open("c", vec![]);
    app.tabs_index = 0;
    submit(&mut app, ":bnext");
    assert_eq!(app.tabs_index, 1);
    submit(&mut app, ":bn");
    assert_eq!(app.tabs_index, 2);
    submit(&mut app, ":bnext");
    assert_eq!(app.tabs_index, 0);
    submit(&mut app, ":bprev");
    assert_eq!(app.tabs_index, 2);
    submit(&mut app, ":bp");
    assert_eq!(app.tabs_index, 1);
}

#[test]
fn numeric_buffer_jump_is_one_based() {
    let mut app = App::new();
    app.open("a", vec![]);
    app.open("b", vec![]);
    app.tabs_index = 0;
    submit(&mut app, ":b2");
    assert_eq!(app.tabs_index, 1);
    submit(&mut app, ":b1");
    assert_eq!(app.tabs_index, 0);
    // Zero and out-of-range numbers are ignored.
    submit(&mut app, ":b0");
    assert_eq!(app.tabs_index, 0);
    submit(&mut app, ":b9");
    assert_eq!(app.tabs_index, 0);
    // Garbage after :b is ignored too.
    submit(&mut app, ":bx");
    assert_eq!(app.tabs_index, 0);
}

#[test]
fn close_only_tab_quits_with_empty_list() {
    // Tab close boundary: removing the only tab leaves an empty list, a
    // terminal mode, and an in-range (zero) index.
    let mut app = App::new();
    app.open("only.bin", vec![1]);
    submit(&mut app, ":bd");
    assert_eq!(app.tabs.len(), 0);
    assert_eq!(app.mode, Mode::Quit);
    assert_eq!(app.tabs_index, 0);
}

#[test]
fn close_last_tab_steps_index_back() {
    let mut app = App::new();
    app.open("a", vec![]);
    app.open("b", vec![]);
    app.tabs_index = 1;
    submit(&mut app, ":bd");
    assert_eq!(app.tabs.len(), 1);
    assert_eq!(app.tabs_index, 0);
    assert_ne!(app.mode, Mode::Quit);
}

#[test]
fn inspector_commands_toggle_the_panel() {
    let mut app = session_with_bytes(4);
    submit(&mut app, ":tclose");
    assert!(!app.options.type_inspector);
    submit(&mut app, ":topen");
    assert!(app.options.type_inspector);
    submit(&mut app, ":ttoggle");
    assert!(!app.options.type_inspector);
    submit(&mut app, ":ttoggle");
    assert!(app.options.type_inspector);
}

#[test]
fn help_replaces_solitary_title_tab() {
    let mut app = App::new();
    app.tabs.push(Tab::Title);
    submit(&mut app, ":help");
    assert_eq!(app.tabs.len(), 1);
    assert!(matches!(app.tabs[0], Tab::Help));
    assert_eq!(app.tabs_index, 0);
}

#[test]
fn quit_flag_sets_quit_mode() {
    let mut app = session_with_bytes(4);
    submit(&mut app, ":q");
    assert_eq!(app.mode, Mode::Quit);
}

#[test]
fn compound_write_quit() {
    let mut app = App::new();
    app.open("out.bin", vec![9, 9]);
    let act = submit(&mut app, ":wq");
    assert_eq!(app.mode, Mode::Quit);
    match act {
        CommandAction::WriteTo(p, d) => {
            assert_eq!(p, "out.bin");
            assert_eq!(d, vec![9, 9]);
        },
        _ => panic!("expected a write action"),
    }
}

#[test]
fn shell_escape_stores_remainder() {
    let mut app = session_with_bytes(4);
    submit(&mut app, ":!ls -la");
    assert_eq!(app.mode, Mode::ShellEscape);
    assert_eq!(app.command, "ls -la");
}

#[test]
fn late_bang_is_only_a_force_flag() {
    let mut app = session_with_bytes(4);
    submit(&mut app, ":q!");
    assert_eq!(app.mode, Mode::Quit);
    assert_eq!(app.command, "");
}

#[test]
fn search_line_is_captured_without_effect() {
    let mut app = session_with_bytes(4);
    let before = app.tabs_index;
    let act = submit(&mut app, "/needle");
    assert!(matches!(act, CommandAction::Idle));
    assert_eq!(app.tabs_index, before);
    assert_eq!(app.command, "");
}

#[test]
fn unknown_flags_are_ignored() {
    let mut app = session_with_bytes(4);
    submit(&mut app, ":zzz");
    assert_ne!(app.mode, Mode::Quit);
    assert_eq!(app.command, "");
}

#[test]
fn goto_hex_at_i64_boundary() {
    let mut app = session_with_bytes(0x40);
    submit(&mut app, ":0x5");
    // The largest value the signed 64-bit parse accepts still clamps.
    submit(&mut app, ":0x7FFFFFFFFFFFFFFF");
    assert_eq!(active_loc(&app), 63);
    submit(&mut app, ":0x5");
    // One past it no longer parses: the command is dropped.
    submit(&mut app, ":0x8000000000000000");
    assert_eq!(active_loc(&app), 5);
}

#[test]
fn buffer_jump_overflowing_number_is_ignored() {
    let mut app = App::new();
    app.open("a", vec![]);
    app.open("b", vec![]);
    app.tabs_index = 1;
    submit(&mut app, ":b99999999999999999999999999");
    assert_eq!(app.tabs_index, 1);
}

#[test]
fn keywords_match_after_trimming() {
    let mut app = session_with_bytes(4);
    submit(&mut app, "  :ttoggle  ");
    assert!(!app.options.type_inspector);
}
