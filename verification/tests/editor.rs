use app_cores::editor::buffer::{Buffer, Cursor, MAX_HISTORY};
use app_cores::editor::config::{
    color_from_hex, Color, Config, EditorConfig, KeybindingsConfig, ThemeConfig,
};
use app_cores::editor::text_editor::{EditorError, TextEditor};

#[test]
fn editor_defaults() {
    let config = EditorConfig::default();
    assert_eq!(config.tab_size, 4);
    assert!(config.auto_indent);
    assert!(config.line_numbers);
    assert_eq!(config.max_undo, 100);
    assert_eq!(config.max_clipboard, 10);
}

#[test]
fn theme_defaults() {
    let theme = ThemeConfig::default();
    assert_eq!(theme.background, "#1E1E1E");
    assert_eq!(theme.foreground, "#D4D4D4");
    assert_eq!(theme.selection, "#264F78");
    assert_eq!(theme.status_bar_bg, "#007ACC");
    assert_eq!(theme.status_bar_fg, "#FFFFFF");
    assert_eq!(theme.line_numbers, "#858585");
}

#[test]
fn keybinding_defaults() {
    let keys = KeybindingsConfig::default();
    assert_eq!(keys.save, "ctrl-s");
    assert_eq!(keys.quit, "ctrl-q");
    assert_eq!(keys.copy, "ctrl-c");
    assert_eq!(keys.cut, "ctrl-x");
    assert_eq!(keys.paste, "alt-v");
    assert_eq!(keys.undo, "ctrl-z");
    assert_eq!(keys.redo, "ctrl-y");
    assert_eq!(keys.search, "ctrl-f");
    assert_eq!(keys.replace, "ctrl-r");
}

#[test]
fn config_default_is_made_of_the_three_defaults() {
    let config = Config::default();
    assert_eq!(config.editor.tab_size, 4);
    assert_eq!(config.theme.background, "#1E1E1E");
    assert_eq!(config.keybindings.paste, "alt-v");
}

#[test]
fn new_buffer_is_empty() {
    let buffer = Buffer::new();
    assert!(buffer.file_path.is_none());
    assert_eq!(buffer.content, "");
    assert!(!buffer.modified);
    assert_eq!((buffer.cursor.row, buffer.cursor.col), (0, 0));
    assert_eq!(buffer.screen_offset, 0);
    assert!(buffer.selection.is_none());
    assert!(buffer.search_state.is_none());
    assert_eq!(buffer.undo_depth(), 0);
    assert_eq!(buffer.redo_depth(), 0);
}

#[test]
fn undo_brings_back_the_saved_state() {
    let mut buffer = Buffer::new();
    buffer.content = "one".to_string();
    buffer.cursor = Cursor { row: 0, col: 3 };
    buffer.save_state();
    assert!(!buffer.modified);
    buffer.content = "one two".to_string();
    buffer.cursor = Cursor { row: 0, col: 7 };
    buffer.undo();
    assert_eq!(buffer.content, "one");
    assert_eq!((buffer.cursor.row, buffer.cursor.col), (0, 3));
    assert!(buffer.modified);
    assert_eq!(buffer.undo_depth(), 0);
    assert_eq!(buffer.redo_depth(), 1);
}

#[test]
fn redo_takes_back_an_undo() {
    let mut buffer = Buffer::new();
    buffer.content = "one".to_string();
    buffer.save_state();
    buffer.content = "one two".to_string();
    buffer.cursor = Cursor { row: 2, col: 5 };
    buffer.undo();
    buffer.redo();
    assert_eq!(buffer.content, "one two");
    assert_eq!((buffer.cursor.row, buffer.cursor.col), (2, 5));
    assert_eq!(buffer.undo_depth(), 1);
    assert_eq!(buffer.redo_depth(), 0);
    buffer.undo();
    assert_eq!(buffer.content, "one");
}

#[test]
fn undo_and_redo_with_nothing_to_do_change_nothing() {
    let mut buffer = Buffer::new();
    buffer.content = "text".to_string();
    buffer.undo();
    assert_eq!(buffer.content, "text");
    assert!(!buffer.modified);
    buffer.redo();
    assert_eq!(buffer.content, "text");
    assert!(!buffer.modified);
    assert_eq!(buffer.undo_depth(), 0);
    assert_eq!(buffer.redo_depth(), 0);
}

#[test]
fn saving_a_state_ends_redo() {
    let mut buffer = Buffer::new();
    buffer.save_state();
    buffer.content = "a".to_string();
    buffer.save_state();
    buffer.content = "ab".to_string();
    buffer.undo();
    buffer.undo();
    assert_eq!(buffer.redo_depth(), 2);
    buffer.content = "x".to_string();
    buffer.save_state();
    assert_eq!(buffer.redo_depth(), 0);
    assert_eq!(buffer.undo_depth(), 1);
    buffer.redo();
    assert_eq!(buffer.content, "x");
}

#[test]
fn history_forgets_the_oldest_state_when_full() {
    assert_eq!(MAX_HISTORY, 100);
    let mut buffer = Buffer::new();
    for i in 0..150 {
        buffer.content = i.to_string();
        buffer.save_state();
        assert_eq!(buffer.undo_depth(), std::cmp::min(i + 1, 100));
    }
    buffer.content = "last".to_string();
    for i in (50..150).rev() {
        buffer.undo();
        assert_eq!(buffer.content, i.to_string());
    }
    assert_eq!(buffer.undo_depth(), 0);
    assert_eq!(buffer.redo_depth(), 100);
    buffer.undo();
    assert_eq!(buffer.content, "50");
    for i in 51..150 {
        buffer.redo();
        assert_eq!(buffer.content, i.to_string());
    }
    buffer.redo();
    assert_eq!(buffer.content, "last");
    assert_eq!(buffer.undo_depth(), 100);
    assert_eq!(buffer.redo_depth(), 0);
}

#[test]
fn new_editor_has_one_buffer_in_front() {
    let editor = TextEditor::new(Ok(Config::default())).expect("settings were loaded");
    assert_eq!(editor.buffers.len(), 1);
    assert_eq!(editor.current_buffer, 0);
    assert_eq!(editor.next_buffer_id, 1);
    assert_eq!(editor.config.editor.max_undo, 100);
    let buffer = editor.current_buffer().expect("buffer 0 is open");
    assert_eq!(buffer.content, "");
}

#[test]
fn new_editor_hands_on_a_failure_to_load() {
    let failure = std::io::Error::new(std::io::ErrorKind::NotFound, "no settings");
    match TextEditor::new(Err(failure)) {
        Err(EditorError::Io(error)) => {
            assert_eq!(error.kind(), std::io::ErrorKind::NotFound);
            assert_eq!(error.to_string(), "no settings");
        }
        _ => panic!("expected an I/O error"),
    }
}

#[test]
fn create_buffer_numbers_buffers_in_turn() {
    let mut editor = TextEditor::new(Ok(Config::default())).unwrap();
    assert_eq!(editor.create_buffer(), 1);
    assert_eq!(editor.create_buffer(), 2);
    assert_eq!(editor.buffers.len(), 3);
    assert_eq!(editor.next_buffer_id, 3);
    assert_eq!(editor.current_buffer, 0);
}

#[test]
fn no_buffer_selected() {
    let mut editor = TextEditor::new(Ok(Config::default())).unwrap();
    editor.current_buffer = 7;
    assert!(matches!(editor.current_buffer(), Err(EditorError::NoBufferSelected)));
    assert!(matches!(editor.current_buffer_mut(), Err(EditorError::NoBufferSelected)));
    assert_eq!(editor.buffers.len(), 1);
}

#[test]
fn current_buffer_mut_changes_the_buffer_in_front_only() {
    let mut editor = TextEditor::new(Ok(Config::default())).unwrap();
    let second = editor.create_buffer();
    editor.current_buffer = second;
    {
        let buffer = editor.current_buffer_mut().expect("buffer 1 is open");
        buffer.content = "second".to_string();
        buffer.save_state();
    }
    assert_eq!(editor.current_buffer().unwrap().content, "second");
    assert_eq!(editor.current_buffer().unwrap().undo_depth(), 1);
    editor.current_buffer = 0;
    assert_eq!(editor.current_buffer().unwrap().content, "");
    assert_eq!(editor.current_buffer().unwrap().undo_depth(), 0);
}

#[test]
fn parse_color_reads_the_theme_colours() {
    let config = Config::default();
    assert_eq!(
        config.parse_color(&config.theme.background),
        Color::Rgb { r: 0x1E, g: 0x1E, b: 0x1E }
    );
    assert_eq!(
        config.parse_color(&config.theme.selection),
        Color::Rgb { r: 0x26, g: 0x4F, b: 0x78 }
    );
    assert_eq!(
        config.parse_color(&config.theme.status_bar_bg),
        Color::Rgb { r: 0x00, g: 0x7A, b: 0xCC }
    );
    assert_eq!(
        config.parse_color(&config.theme.status_bar_fg),
        Color::Rgb { r: 255, g: 255, b: 255 }
    );
}

#[test]
fn parse_color_takes_the_lowest_three_bytes() {
    let config = Config::default();
    assert_eq!(config.parse_color("#FFF"), Color::Rgb { r: 0, g: 0x0F, b: 0xFF });
    assert_eq!(config.parse_color("#0"), Color::Rgb { r: 0, g: 0, b: 0 });
    assert_eq!(config.parse_color("#12abCD"), Color::Rgb { r: 0x12, g: 0xAB, b: 0xCD });
    assert_eq!(config.parse_color("#FF123456"), Color::Rgb { r: 0x12, g: 0x34, b: 0x56 });
    assert_eq!(config.parse_color("#+ff"), Color::Rgb { r: 0, g: 0, b: 0xFF });
}

#[test]
fn parse_color_falls_back_to_the_terminals_colour() {
    let config = Config::default();
    assert_eq!(config.parse_color(""), Color::Reset);
    assert_eq!(config.parse_color("#"), Color::Reset);
    assert_eq!(config.parse_color("1E1E1E"), Color::Reset);
    assert_eq!(config.parse_color("#GG0000"), Color::Reset);
    assert_eq!(config.parse_color("#100000000"), Color::Reset);
    assert_eq!(config.parse_color("#-1"), Color::Reset);
    assert_eq!(config.parse_color("# 1E1E1E"), Color::Reset);
    assert_eq!(config.parse_color("red"), Color::Reset);
}

#[test]
fn color_from_hex_splits_a_number() {
    assert_eq!(color_from_hex(None), Color::Reset);
    assert_eq!(color_from_hex(Some(0)), Color::Rgb { r: 0, g: 0, b: 0 });
    assert_eq!(color_from_hex(Some(0x0102_03)), Color::Rgb { r: 1, g: 2, b: 3 });
    assert_eq!(color_from_hex(Some(u32::MAX)), Color::Rgb { r: 255, g: 255, b: 255 });
    assert_eq!(color_from_hex(Some(0xAB00_0000)), Color::Rgb { r: 0, g: 0, b: 0 });
}

#[test]
fn error_messages() {
    assert_eq!(EditorError::NoBufferSelected.message(), "No buffer selected");
    assert_eq!(EditorError::NoBufferAvailable.message(), "No buffer available");
    assert_eq!(EditorError::CannotCloseLastBuffer.message(), "Cannot close last buffer");
    assert_eq!(EditorError::OperationCancelled.message(), "Operation cancelled");
    let failure = std::io::Error::new(std::io::ErrorKind::Other, "disk full");
    assert_eq!(EditorError::Io(failure).message(), "IO error: disk full");
}
