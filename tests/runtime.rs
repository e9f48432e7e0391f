use locket::components::Input;
use locket::event::{KeyCode, KeyEvent, ResizeEvent, CONTROL};
use locket::{batch, exit, next_frame, normalize_endings, quit, BatchMessage, Command, ExitMessage};
use locket::{Message, Reaction, Runtime};

fn start() -> Runtime<Input> {
    let (runtime, init, frame) = Runtime::start::<u32, u32>(Input::new());
    assert!(init.is_none());
    assert_eq!(frame, "|\r\n");
    runtime
}

fn key(c: char, modifiers: u8) -> Message<u32, u32> {
    Message::Key(KeyEvent::new(KeyCode::Char(c), modifiers))
}

#[test]
fn app_message_reaches_update_once() {
    let mut runtime = start();
    match runtime.handle(key('a', 0)) {
        Reaction::Redraw(r) => {
            assert!(r.commands.is_empty());
            assert_eq!(r.erase, 1);
            assert_eq!(r.frame, "a|\r\n");
        }
        _ => panic!("expected a redraw"),
    }
    match runtime.handle(Message::<u32, u32>::App(5)) {
        Reaction::Redraw(r) => {
            assert!(r.commands.is_empty());
            assert_eq!(r.erase, 1);
            assert_eq!(r.frame, "a|\r\n");
        }
        _ => panic!("expected a redraw"),
    }
    match runtime.handle(Message::<u32, u32>::Resize(ResizeEvent(80, 24))) {
        Reaction::Redraw(r) => assert_eq!(r.frame, "a|\r\n"),
        _ => panic!("expected a redraw"),
    }
}

#[test]
fn update_command_is_handed_on() {
    let mut runtime = start();
    match runtime.handle(key('c', CONTROL)) {
        Reaction::Redraw(r) => {
            assert_eq!(r.commands.len(), 1);
            assert!(matches!(r.commands[0], Command::Quit));
        }
        _ => panic!("expected a redraw"),
    }
}

#[test]
fn batch_hands_on_each_command_without_update() {
    let mut runtime = start();
    let cmds: Vec<Command<u32>> = vec![Command::Task(1), Command::Task(2), Command::Quit];
    let message = match batch(cmds).into_message::<u32>() {
        Ok(m) => m,
        Err(_) => panic!("a batch is built in"),
    };
    match runtime.handle(message) {
        Reaction::Redraw(r) => {
            assert_eq!(r.commands.len(), 3);
            assert!(matches!(r.commands[0], Command::Task(1)));
            assert!(matches!(r.commands[1], Command::Task(2)));
            assert!(matches!(r.commands[2], Command::Quit));
            assert_eq!(r.frame, "|\r\n");
        }
        _ => panic!("expected a redraw"),
    }
}

#[test]
fn exit_stops_and_later_messages_are_dropped() {
    let mut runtime = start();
    assert!(matches!(runtime.handle(Message::<u32, u32>::App(1)), Reaction::Redraw(_)));
    assert!(matches!(runtime.handle(Message::<u32, u32>::Exit(ExitMessage)), Reaction::Stop));
    assert!(matches!(runtime.handle(Message::<u32, u32>::App(2)), Reaction::Idle));
    assert!(matches!(runtime.handle(Message::<u32, u32>::Exit(ExitMessage)), Reaction::Idle));
    assert!(runtime.finish());
    assert!(!runtime.finish());
}

#[test]
fn finish_restores_once_on_early_exit() {
    let mut runtime = start();
    assert!(runtime.finish());
    assert!(matches!(runtime.handle(Message::<u32, u32>::App(3)), Reaction::Idle));
    assert!(!runtime.finish());
}

#[test]
fn built_in_messages() {
    assert!(matches!(exit::<(), ()>(), Some(Message::Exit(ExitMessage))));
    assert!(matches!(quit::<(), ()>(), Some(Message::Exit(ExitMessage))));
    assert!(matches!(Command::<u8>::Quit.into_message::<()>(), Ok(Message::Exit(ExitMessage))));
    assert!(matches!(Command::Task(9u8).into_message::<()>(), Err(9)));
    match Command::Batch(vec![Command::Task(4u8)]).into_message::<()>() {
        Ok(Message::Batch(BatchMessage(v))) => assert!(matches!(v[..], [Command::Task(4)])),
        _ => panic!("expected a batch message"),
    }
}

#[test]
fn normalize_adds_final_newline_and_carriage_returns() {
    assert_eq!(normalize_endings("a\nb".to_string()), "a\r\nb\r\n");
    assert_eq!(normalize_endings("a\n".to_string()), "a\r\n");
    assert_eq!(normalize_endings(String::new()), "\r\n");
}

#[test]
fn next_frame_counts_previous_lines() {
    let (erase, frame) = next_frame("x\r\ny\r\n", "one\ntwo\nthree".to_string());
    assert_eq!(erase, 2);
    assert_eq!(frame, "one\r\ntwo\r\nthree\r\n");
    let (erase, _) = next_frame("no line ending", String::new());
    assert_eq!(erase, 0);
}
