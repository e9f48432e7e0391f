use locket::components::{Input, List, TextInput};
use locket::event::{KeyCode, KeyEvent, CONTROL};
use locket::font::{MAROON, WHITE};
use locket::{Command, Message, Model};

fn items(n: usize) -> Vec<String> {
    (0..n).map(|i| format!("{i}")).collect()
}

fn key(code: KeyCode) -> Message<(), ()> {
    Message::Key(KeyEvent::new(code, 0))
}

#[test]
fn list_handle_up_stays_on_first_page() {
    let mut list = List::new(items(15), 5, 10);
    list.set_position(3);
    assert_eq!(list.get_position(), 3);
    for _ in 0..3 {
        list.handle_up();
    }
    assert_eq!(list.get_position(), 0);
    assert_eq!(list.get_page(), 0);
    list.handle_up();
    assert_eq!(list.get_position(), 0);
    assert_eq!(list.get_page(), 0);
}

#[test]
fn list_handle_down_moves_to_next_page() {
    let mut list = List::new(items(15), 5, 10);
    for _ in 0..4 {
        list.handle_down();
    }
    assert_eq!(list.get_position(), 4);
    assert_eq!(list.get_page(), 0);
    list.handle_down();
    assert_eq!(list.get_position(), 0);
    assert_eq!(list.get_page(), 1);
}

#[test]
fn list_overall_position() {
    let mut list = List::new(items(14), 5, 10);
    assert_eq!(list.get_overall_position(), 0);
    assert_eq!(list.get_per(), 5);
    assert_eq!(list.get_page(), 0);
    for _ in 0..list.get_per() {
        list.handle_down();
    }
    assert_eq!(list.get_page(), 1);
    list.handle_down();
    list.handle_down();
    assert_eq!(list.get_overall_position(), 7);
}

#[test]
fn list_up_from_page_start_goes_to_last_item_before() {
    let mut list = List::new(items(15), 5, 10);
    list.next();
    assert_eq!(list.get_page(), 1);
    assert_eq!(list.get_position(), 0);
    list.handle_up();
    assert_eq!(list.get_page(), 0);
    assert_eq!(list.get_position(), 4);
    assert!(list.is_on_last_item());
}

#[test]
fn list_stops_at_last_page() {
    let mut list = List::new(items(10), 5, 10);
    assert_eq!(list.get_total(), 2);
    for _ in 0..20 {
        list.handle_down();
    }
    assert_eq!(list.get_page(), 1);
    assert_eq!(list.get_position(), 4);
    assert_eq!(list.get_index_last_item(), 4);
    list.previous();
    assert_eq!(list.get_page(), 0);
    list.previous();
    assert_eq!(list.get_page(), 0);
    assert_eq!(list.get_position(), 4);
}

#[test]
fn list_with_fewer_items_than_a_page() {
    let mut list = List::new(items(3), 5, 10);
    assert_eq!(list.get_total(), 1);
    assert_eq!(list.get_index_last_item(), 2);
    list.handle_down();
    list.handle_down();
    list.handle_down();
    assert_eq!(list.get_position(), 2);
}

#[test]
fn list_reaches_a_partial_last_page() {
    let mut list = List::new(items(14), 5, 10);
    assert_eq!(list.get_total(), 3);
    for _ in 0..13 {
        list.handle_down();
    }
    assert_eq!(list.get_page(), 2);
    assert_eq!(list.get_position(), 3);
    assert_eq!(list.get_overall_position(), 13);
    assert!(list.is_on_last_item());
    list.handle_down();
    assert_eq!(list.get_overall_position(), 13);
    assert_eq!(list.render(), "10\r\n11\r\n12\r\n\x1B[38;5;10m13\x1B[0m\r\n");
}

#[test]
fn list_without_items() {
    let mut list = List::new(Vec::new(), 3, 10);
    assert_eq!(list.get_total(), 0);
    list.handle_down();
    list.handle_up();
    assert_eq!(list.get_position(), 0);
    assert_eq!(list.get_overall_position(), 0);
    assert_eq!(list.render(), "\r\n\r\n\r\n");
}

#[test]
fn list_view_marks_cursor_and_pads() {
    let mut list = List::new(vec!["a".to_string(), "b".to_string()], 2, 1);
    list.set_height(4);
    let shown = <List as Model<(), ()>>::view(&list);
    assert_eq!(shown, "\x1B[38;5;1ma\x1B[0m\r\nb\r\n\r\n");
    let mut list = list;
    <List as Model<(), ()>>::update(&mut list, &key(KeyCode::Down));
    assert_eq!(list.get_position(), 1);
    assert_eq!(list.render(), "a\r\n\x1B[38;5;1mb\x1B[0m\r\n\r\n");
}

#[test]
fn text_input_edits_at_cursor() {
    let mut field = TextInput::new(WHITE, MAROON);
    for c in "hllo".chars() {
        field.handle_char(c);
    }
    assert_eq!(field.buffer(), "hllo");
    assert_eq!(field.position(), 4);
    field.set_position(1);
    field.handle_char('e');
    assert_eq!(field.buffer(), "hello");
    assert_eq!(field.position(), 2);
    field.handle_backspace();
    assert_eq!(field.buffer(), "hllo");
    assert_eq!(field.position(), 1);
    field.handle_left();
    field.handle_left();
    assert_eq!(field.position(), 0);
    field.handle_backspace();
    assert_eq!(field.buffer(), "hllo");
    for _ in 0..10 {
        field.handle_right();
    }
    assert_eq!(field.position(), 4);
}

#[test]
fn text_input_set_buffer_and_clear() {
    let mut field = TextInput::default();
    field.set_buffer("abc".to_string());
    assert_eq!(field.position(), 3);
    field.clear();
    assert_eq!(field.buffer(), "");
    assert_eq!(field.position(), 0);
}

#[test]
fn text_input_view_draws_cursor() {
    let mut field = TextInput::new(15, 1);
    assert_eq!(field.render(), "\x1B[38;5;15m\x1B[48;5;1m \x1B[0m");
    field.set_buffer("ab".to_string());
    assert_eq!(field.render(), "ab\x1B[38;5;15m\x1B[48;5;1m \x1B[0m");
    field.set_position(0);
    assert_eq!(field.render(), "\x1B[38;5;15m\x1B[48;5;1ma\x1B[0mb");
}

#[test]
fn text_input_update_from_keys() {
    let mut field = TextInput::default();
    for code in [KeyCode::Char('x'), KeyCode::Char('y'), KeyCode::Left, KeyCode::Backspace] {
        let cmd = <TextInput as Model<(), ()>>::update(&mut field, &key(code));
        assert!(cmd.is_none());
    }
    assert_eq!(field.buffer(), "y");
    assert_eq!(field.position(), 0);
}

#[test]
fn input_key_events() {
    let mut input = Input::new();
    input.on_key_event(KeyEvent::new(KeyCode::Char('a'), 0));
    input.on_key_event(KeyEvent::new(KeyCode::Char('c'), 0));
    input.on_key_event(KeyEvent::new(KeyCode::Left, 0));
    input.on_key_event(KeyEvent::new(KeyCode::Char('b'), 0));
    assert_eq!(input.buffer(), "abc");
    assert_eq!(input.pos(), 2);
    assert_eq!(input.render(), "ab|c");
    input.on_key_event(KeyEvent::new(KeyCode::Right, 0));
    input.on_key_event(KeyEvent::new(KeyCode::Right, 0));
    assert_eq!(input.pos(), 3);
    input.on_key_event(KeyEvent::new(KeyCode::Backspace, 0));
    assert_eq!(input.buffer(), "ab");
    input.set_pos(0);
    assert_eq!(input.render(), "|ab");
}

#[test]
fn input_control_c_quits_and_enter_clears() {
    let mut input = Input::default();
    input.set_buffer("name".to_string());
    assert_eq!(input.pos(), 4);
    let quit = Message::<(), ()>::Key(KeyEvent::new(KeyCode::Char('c'), CONTROL));
    let cmd = <Input as Model<(), ()>>::update(&mut input, &quit);
    assert!(matches!(cmd, Some(Command::Quit)));
    assert_eq!(input.buffer(), "name");
    let other = Message::<(), ()>::Key(KeyEvent::new(KeyCode::Char('x'), CONTROL));
    assert!(<Input as Model<(), ()>>::update(&mut input, &other).is_none());
    assert_eq!(input.buffer(), "name");
    assert!(<Input as Model<(), ()>>::update(&mut input, &key(KeyCode::Enter)).is_none());
    assert_eq!(input.buffer(), "");
    assert_eq!(input.pos(), 0);
    input.clear();
    assert_eq!(<Input as Model<(), ()>>::view(&input), "|");
}

#[test]
fn text_input_ignores_other_messages() {
    let mut field = TextInput::default();
    field.set_buffer("ab".to_string());
    let cmd = <TextInput as Model<(), ()>>::update(&mut field, &Message::App(()));
    assert!(cmd.is_none());
    assert_eq!(field.buffer(), "ab");
    assert_eq!(field.position(), 2);
    assert_eq!(<TextInput as Model<(), ()>>::init(&field).is_none(), true);
}
