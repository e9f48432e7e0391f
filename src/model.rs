use vstd::prelude::*;

use crate::message::{Command, Message};

verus! {

/// An application run by the runtime: its state, how a message changes it,
/// and how it looks.
pub trait Model<A, T>: Sized {
    /// The command `init` returns.
    spec fn spec_init(&self) -> Option<Command<T>>;

    /// Whether `update` may take the state from `self` to `after` and return
    /// `command` for `message`.
    spec fn spec_update(
        &self,
        message: Message<A, T>,
        after: Self,
        command: Option<Command<T>>,
    ) -> bool;

    /// The screen contents `view` returns.
    spec fn spec_view(&self) -> Seq<char>;

    /// Called once, before the first message: a command to start with.
    fn init(&self) -> (r: Option<Command<T>>)
        ensures
            r == self.spec_init(),
    ;

    /// Called for each message that is not the exit or a batch message.
    fn update(&mut self, message: &Message<A, T>) -> (r: Option<Command<T>>)
        ensures
            old(self).spec_update(*message, *final(self), r),
    ;

    /// The screen contents for the current state.
    fn view(&self) -> (r: String)
        ensures
            r@ == self.spec_view(),
    ;
}

} // verus!
