use vstd::prelude::*;

use crate::event::{KeyEvent, MouseEvent, ResizeEvent};

verus! {

/// The message that ends the runtime loop.
#[derive(Clone, Copy, Debug, PartialEq, Eq, Structural)]
pub struct ExitMessage;

/// A message that carries commands to be handed to the executor together.
pub struct BatchMessage<T>(pub Vec<Command<T>>);

/// A deferred, one-shot unit of work that yields at most one message when it
/// is run. `T` is the application's own kind of work.
pub enum Command<T> {
    /// Yields the exit message.
    Quit,
    /// Yields a batch message that carries these commands.
    Batch(Vec<Command<T>>),
    /// The application's own work, run on its own thread by the executor.
    Task(T),
}

/// Something that happened, handed to the application one at a time. `A`
/// is the application's own kind of message, `T` its kind of work.
pub enum Message<A, T> {
    /// Ends the runtime loop.
    Exit(ExitMessage),
    /// Commands to be run, each on its own.
    Batch(BatchMessage<T>),
    /// A key was pressed.
    Key(KeyEvent),
    /// The mouse was used.
    Mouse(MouseEvent),
    /// The terminal was resized.
    Resize(ResizeEvent),
    /// A message of the application's own.
    App(A),
}

/// The message a command yields when it is run: the exit message.
pub fn exit<A, T>() -> (r: Option<Message<A, T>>)
    ensures
        r == Some(Message::<A, T>::Exit(ExitMessage)),
{
    Some(Message::Exit(ExitMessage))
}

/// The message that the built-in quit command yields: the exit message.
pub fn quit<A, T>() -> (r: Option<Message<A, T>>)
    ensures
        r == Some(Message::<A, T>::Exit(ExitMessage)),
{
    exit()
}

/// Combine several commands into one; running it hands each of them to the
/// executor on its own.
pub fn batch<T>(cmds: Vec<Command<T>>) -> (r: Command<T>)
    ensures
        r == Command::Batch(cmds),
{
    Command::Batch(cmds)
}

impl<T> Command<T> {
    /// Run a built-in command: `Quit` yields the exit message and `Batch` a
    /// batch message with its commands. The application's own work is
    /// handed back, to be run by the executor.
    pub fn into_message<A>(self) -> (r: Result<Message<A, T>, T>)
        ensures
            self is Quit ==> r == Ok::<Message<A, T>, T>(Message::Exit(ExitMessage)),
            self is Batch ==> r == Ok::<Message<A, T>, T>(
                Message::Batch(BatchMessage(self->Batch_0)),
            ),
            self is Task ==> r == Err::<Message<A, T>, T>(self->Task_0),
    {
        match self {
            Command::Quit => Ok(Message::Exit(ExitMessage)),
            Command::Batch(cmds) => Ok(Message::Batch(BatchMessage(cmds))),
            Command::Task(t) => Err(t),
        }
    }
}

} // verus!
