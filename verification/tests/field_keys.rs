use schist_workspace::fields::Modifiers;
use schist_workspace::workspace::Workspace;

fn command() -> Modifiers {
    Modifiers { control: true, ..Modifiers::default() }
}

fn shifted() -> Modifiers {
    Modifiers { shift: true, ..Modifiers::default() }
}

fn press(ws: &mut Workspace, key: &str, text: Option<&str>) -> (bool, Option<String>) {
    ws.field_key(key, text, Modifiers::default(), None, None, false)
}

#[test]
fn typing_moves_the_caret_by_bytes_and_replaces_the_selection() {
    let mut ws = Workspace::new(true);
    ws.focus_field("layer-name", "é");
    assert_eq!(press(&mut ws, "b", Some("b")), (true, None));
    assert_eq!(ws.field_buffer, "éb");
    assert_eq!((ws.field_cursor, ws.field_anchor), (3, 3));
    assert!(!ws.field_fresh);
    press(&mut ws, "left", None);
    assert_eq!(ws.field_cursor, 2);
    press(&mut ws, "left", None);
    assert_eq!((ws.field_cursor, ws.field_anchor), (0, 0));
    assert_eq!(ws.field_key("right", None, shifted(), None, None, false), (true, None));
    assert_eq!(ws.field_selection(), 0..2);
    // Without Shift, an arrow goes to that end of the selection.
    press(&mut ws, "right", None);
    assert_eq!(ws.field_selection(), 2..2);
    assert_eq!(ws.field_key("a", Some("a"), command(), None, None, false), (true, None));
    assert_eq!(ws.field_selection(), 0..3);
    press(&mut ws, "z", Some("z"));
    assert_eq!(ws.field_buffer, "z");
    assert_eq!((ws.field_cursor, ws.field_anchor), (1, 1));
    press(&mut ws, "home", None);
    assert_eq!(ws.field_cursor, 0);
    press(&mut ws, "end", None);
    assert_eq!(ws.field_cursor, 1);
}

#[test]
fn copy_cut_and_paste_go_through_the_clipboard() {
    let mut ws = Workspace::new(true);
    ws.focus_field("layer-name", "hello");
    ws.field_key("a", Some("a"), command(), None, None, false);
    assert_eq!(ws.field_key("c", Some("c"), command(), None, None, false), (true, Some("hello".to_string())));
    assert_eq!(ws.field_buffer, "hello");
    assert_eq!(ws.field_key("x", Some("x"), command(), None, None, false), (true, Some("hello".to_string())));
    assert_eq!(ws.field_buffer, "");
    assert_eq!(ws.field_key("v", Some("v"), command(), None, None, false), (true, None));
    assert_eq!(ws.field_buffer, "");
    ws.field_key("v", Some("v"), command(), Some("a\tb\nc".into()), None, false);
    assert_eq!(ws.field_buffer, "a b c");
    assert_eq!(ws.field_cursor, 5);
}

#[test]
fn a_caption_keeps_pasted_and_typed_line_breaks() {
    let mut ws = Workspace::new(true);
    ws.focus_field("metadata-caption", "ab");
    ws.field_key("v", None, command(), Some("c\nd".into()), None, false);
    assert_eq!(ws.field_buffer, "abc\nd");
    assert_eq!(ws.field_key("enter", None, shifted(), None, None, false), (true, None));
    assert_eq!(ws.field_buffer, "abc\nd\n");
    assert!(ws.focused_field.is_some());
}

#[test]
fn backspace_and_delete_take_one_character() {
    let mut ws = Workspace::new(true);
    ws.focus_field("layer-name", "çà");
    press(&mut ws, "backspace", None);
    assert_eq!(ws.field_buffer, "ç");
    assert_eq!(ws.field_cursor, 2);
    press(&mut ws, "home", None);
    press(&mut ws, "backspace", None);
    assert_eq!(ws.field_buffer, "ç");
    press(&mut ws, "delete", None);
    assert_eq!(ws.field_buffer, "");
    press(&mut ws, "space", None);
    assert_eq!(ws.field_buffer, " ");
}

#[test]
fn a_command_chord_is_left_to_the_workspace() {
    let mut ws = Workspace::new(true);
    assert_eq!(press(&mut ws, "z", Some("z")), (false, None));
    ws.focus_field("layer-name", "name");
    assert!(ws.field_fresh);
    assert_eq!(ws.field_key("z", Some("z"), command(), None, None, false), (false, None));
    assert!(ws.field_fresh);
    assert_eq!(ws.field_buffer, "name");
    assert_eq!(press(&mut ws, "f1", None), (false, None));
    assert!(!ws.field_fresh);
}

#[test]
fn numeric_and_hex_fields_follow_their_own_rules() {
    let mut ws = Workspace::new(true);
    ws.focus_field("cp-size", "12");
    assert_eq!(ws.field_key("3", Some("3"), Modifiers::default(), None, None, true), (true, None));
    assert_eq!(ws.field_buffer, "123");
    assert_eq!(ws.field_key("q", Some("q"), Modifiers::default(), None, None, false), (false, None));
    assert_eq!(ws.field_buffer, "123");
    press(&mut ws, "backspace", None);
    assert_eq!(ws.field_buffer, "12");
    ws.focus_field("cp-hex", "ff");
    assert_eq!(ws.field_key("a", Some("a"), Modifiers::default(), None, Some("ffa".into()), false), (true, None));
    assert_eq!(ws.field_buffer, "ffa");
    assert_eq!(ws.field_key("g", Some("g"), Modifiers::default(), None, None, false), (false, None));
    assert_eq!(ws.field_buffer, "ffa");
}

#[test]
fn escape_drops_the_field_and_enter_commits_it() {
    let mut ws = Workspace::new(true);
    ws.focus_field("layer-name", "x");
    assert_eq!(press(&mut ws, "escape", None), (true, None));
    assert!(ws.focused_field.is_none());
    assert_eq!(ws.field_buffer, "");
    ws.focus_field("brush-preset-name", "  Soft ");
    assert_eq!(press(&mut ws, "enter", None), (true, None));
    assert_eq!(ws.brush_preset_name, "Soft");
    assert!(ws.focused_field.is_none());
}
