use vstd::prelude::*;

use crate::message::{BatchMessage, Command, Message};
use crate::model::Model;
use crate::text::{count_crlf, crlf_count, normalize_endings, normalized};

verus! {

/// The command among at most one handed on: `None` when there is none.
pub open spec fn single_command<T>(commands: Seq<Command<T>>) -> Option<Command<T>> {
    if commands.len() == 0 {
        None
    } else {
        Some(commands[0])
    }
}

/// What the loop that drives a [`Runtime`] is to do after a message.
pub struct Redraw<T> {
    /// Commands to hand to the executor, each to be run on its own.
    pub commands: Vec<Command<T>>,
    /// Number of lines of the previous frame to erase, from the bottom up.
    pub erase: usize,
    /// The frame to print after erasing.
    pub frame: String,
}

/// How a [`Runtime`] answers a message.
pub enum Reaction<T> {
    /// The exit message arrived: leave the loop and restore the terminal.
    Stop,
    /// Hand on the commands and redraw the screen.
    Redraw(Redraw<T>),
    /// The runtime has stopped; the message is dropped.
    Idle,
}

/// Whether a runtime is still running after a message.
pub open spec fn running_after<A, T>(running: bool, message: Message<A, T>) -> bool {
    running && !(message is Exit)
}

/// Whether a message stops a runtime.
pub open spec fn stops<A, T>(running: bool, message: Message<A, T>) -> bool {
    running && message is Exit
}

/// Whether a message is handed to the application's `update`.
pub open spec fn delivers<A, T>(running: bool, message: Message<A, T>) -> bool {
    running && !(message is Exit) && !(message is Batch)
}

/// The decisions of the runtime loop: it owns the application's state,
/// applies messages to it one at a time, and says what is to be run and
/// drawn. The loop itself (reading the inbox, running commands, writing to
/// the terminal) is left to the caller.
pub struct Runtime<M> {
    model: M,
    /// The frame last printed.
    previous: String,
    running: bool,
    restored: bool,
    /// Number of messages this runtime has passed to the application's
    /// `update`: raised at each such call, which `handle` ties to the
    /// message through `spec_update`.
    deliveries: Ghost<nat>,
}

/// The number of lines to erase and the frame to print when the screen
/// showed `previous` and the application's view is now `view`.
pub fn next_frame(previous: &str, view: String) -> (r: (usize, String))
    ensures
        r.0 == crlf_count(previous@),
        r.1@ == normalized(view@),
{
    (count_crlf(previous), normalize_endings(view))
}

impl<M> Runtime<M> {
    pub closed spec fn spec_model(&self) -> M {
        self.model
    }

    pub closed spec fn spec_previous(&self) -> Seq<char> {
        self.previous@
    }

    pub closed spec fn spec_running(&self) -> bool {
        self.running
    }

    pub closed spec fn spec_restored(&self) -> bool {
        self.restored
    }

    pub closed spec fn spec_deliveries(&self) -> nat {
        self.deliveries@
    }

    /// Take charge of `model`: return the runtime, the application's
    /// starting command, if any, and the first frame to print.
    pub fn start<A, T>(model: M) -> (r: (Self, Option<Command<T>>, String)) where
        M: Model<A, T>,
        ensures
            r.0.spec_model() == model,
            r.0.spec_running(),
            !r.0.spec_restored(),
            r.0.spec_deliveries() == 0,
            r.0.spec_previous() == r.2@,
            r.1 == model.spec_init(),
            r.2@ == normalized(model.spec_view()),
    {
        let init = model.init();
        let frame = normalize_endings(model.view());
        let previous = frame.clone();
        let runtime = Runtime {
            model,
            previous,
            running: true,
            restored: false,
            deliveries: Ghost(0),
        };
        (runtime, init, frame)
    }

    /// Apply one message. The exit message stops the runtime; a batch
    /// message hands on its commands; any other message goes to the
    /// application's `update`, whose command, if any, is handed on. After
    /// any of these but the exit message the screen is redrawn. Once the
    /// runtime has stopped, messages are dropped.
    pub fn handle<A, T>(&mut self, message: Message<A, T>) -> (r: Reaction<T>) where
        M: Model<A, T>,
        ensures
            final(self).spec_running() == running_after(old(self).spec_running(), message),
            final(self).spec_restored() == old(self).spec_restored(),
            (r is Stop) == stops(old(self).spec_running(), message),
            (r is Idle) == !old(self).spec_running(),
            final(self).spec_deliveries() == old(self).spec_deliveries() + if delivers(
                old(self).spec_running(),
                message,
            ) {
                1nat
            } else {
                0nat
            },
            !delivers(old(self).spec_running(), message) ==> final(self).spec_model() == old(
                self,
            ).spec_model(),
            !(r is Redraw) ==> final(self).spec_previous() == old(self).spec_previous(),
            r is Redraw ==> r->Redraw_0.erase == crlf_count(old(self).spec_previous())
                && r->Redraw_0.frame@ == final(self).spec_previous() && r->Redraw_0.frame@
                == normalized(final(self).spec_model().spec_view()),
            old(self).spec_running() && message is Batch ==> r is Redraw
                && r->Redraw_0.commands@ == message->Batch_0.0@,
            delivers(old(self).spec_running(), message) ==> r is Redraw
                && r->Redraw_0.commands@.len() <= 1 && old(self).spec_model().spec_update(
                message,
                final(self).spec_model(),
                single_command(r->Redraw_0.commands@),
            ),
    {
        if !self.running {
            return Reaction::Idle;
        }
        let commands: Vec<Command<T>> = match message {
            Message::Exit(_) => {
                self.running = false;
                return Reaction::Stop;
            },
            Message::Batch(BatchMessage(cmds)) => cmds,
            other => {
                let next = self.model.update(&other);
                self.deliveries = Ghost(self.deliveries@ + 1);
                match next {
                    Some(cmd) => {
                        let v = vec![cmd];
                        assert(v@ =~= seq![cmd]);
                        v
                    },
                    None => Vec::new(),
                }
            },
        };
        let (erase, frame) = next_frame(self.previous.as_str(), self.model.view());
        self.previous = frame.clone();
        Reaction::Redraw(Redraw { commands, erase, frame })
    }

    /// Mark the terminal as restored: true on the first call, when the
    /// caller is to restore it, and false on every later one. The runtime
    /// stops, if it had not yet.
    pub fn finish(&mut self) -> (r: bool)
        ensures
            r == !old(self).spec_restored(),
            final(self).spec_restored(),
            !final(self).spec_running(),
            final(self).spec_model() == old(self).spec_model(),
            final(self).spec_previous() == old(self).spec_previous(),
            final(self).spec_deliveries() == old(self).spec_deliveries(),
    {
        let first = !self.restored;
        self.restored = true;
        self.running = false;
        first
    }
}

} // verus!

verus! {

/// Whether a runtime that starts with `running` is still running after
/// handling `messages` in order.
pub open spec fn running_after_all<A, T>(running: bool, messages: Seq<Message<A, T>>) -> bool
    decreases messages.len(),
{
    if messages.len() == 0 {
        running
    } else {
        running_after(running_after_all(running, messages.drop_last()), messages.last())
    }
}

/// How many of `messages`, handled in order, a runtime that starts with
/// `running` answers with `Stop`.
pub open spec fn stops_in<A, T>(running: bool, messages: Seq<Message<A, T>>) -> nat
    decreases messages.len(),
{
    if messages.len() == 0 {
        0
    } else {
        stops_in(running, messages.drop_last()) + if stops(
            running_after_all(running, messages.drop_last()),
            messages.last(),
        ) {
            1nat
        } else {
            0nat
        }
    }
}

/// How many of `messages`, handled in order, a runtime that starts with
/// `running` hands to the application's `update`.
pub open spec fn deliveries_in<A, T>(running: bool, messages: Seq<Message<A, T>>) -> nat
    decreases messages.len(),
{
    if messages.len() == 0 {
        0
    } else {
        deliveries_in(running, messages.drop_last()) + if delivers(
            running_after_all(running, messages.drop_last()),
            messages.last(),
        ) {
            1nat
        } else {
            0nat
        }
    }
}

/// When the first exit message of a run stands at `at`, a running runtime
/// answers it with `Stop` and stops; no later message reaches the
/// application, and `Stop` is given exactly once in the whole run.
pub proof fn lemma_exit_ends_the_run<A, T>(messages: Seq<Message<A, T>>, at: int)
    requires
        0 <= at < messages.len(),
        messages[at] is Exit,
        forall|j: int| 0 <= j < at ==> !(#[trigger] messages[j] is Exit),
    ensures
        stops_in(true, messages) == 1,
        !running_after_all(true, messages),
        deliveries_in(true, messages) == deliveries_in(true, messages.take(at)),
{
    lemma_running_before_exit(messages, at);
    lemma_after_exit(messages, at, messages.len() as int);
    assert(messages.take(messages.len() as int) =~= messages);
}

/// A run with no exit message never stops.
pub proof fn lemma_no_exit_no_stop<A, T>(messages: Seq<Message<A, T>>)
    requires
        forall|j: int| 0 <= j < messages.len() ==> !(#[trigger] messages[j] is Exit),
    ensures
        stops_in(true, messages) == 0,
        running_after_all(true, messages),
    decreases messages.len(),
{
    if messages.len() > 0 {
        let rest = messages.drop_last();
        assert forall|j: int| 0 <= j < rest.len() implies !(#[trigger] rest[j] is Exit) by {
            assert(rest[j] == messages[j]);
        }
        lemma_no_exit_no_stop(rest);
        assert(!(messages[messages.len() - 1] is Exit));
    }
}

proof fn lemma_running_before_exit<A, T>(messages: Seq<Message<A, T>>, at: int)
    requires
        0 <= at < messages.len(),
        forall|j: int| 0 <= j < at ==> !(#[trigger] messages[j] is Exit),
    ensures
        stops_in(true, messages.take(at)) == 0,
        running_after_all(true, messages.take(at)),
{
    let prefix = messages.take(at);
    assert forall|j: int| 0 <= j < prefix.len() implies !(#[trigger] prefix[j] is Exit) by {
        assert(prefix[j] == messages[j]);
    }
    lemma_no_exit_no_stop(prefix);
}

proof fn lemma_after_exit<A, T>(messages: Seq<Message<A, T>>, at: int, k: int)
    requires
        0 <= at < k <= messages.len(),
        messages[at] is Exit,
        stops_in(true, messages.take(at)) == 0,
        running_after_all(true, messages.take(at)),
    ensures
        stops_in(true, messages.take(k)) == 1,
        !running_after_all(true, messages.take(k)),
        deliveries_in(true, messages.take(k)) == deliveries_in(true, messages.take(at)),
    decreases k - at,
{
    let t = messages.take(k);
    assert(t.drop_last() =~= messages.take(k - 1));
    if k > at + 1 {
        lemma_after_exit(messages, at, k - 1);
    }
}

} // verus!

verus! {

/// How many of `messages` are neither the exit nor a batch message: the
/// ones meant for the application.
pub open spec fn application_messages<A, T>(messages: Seq<Message<A, T>>) -> nat
    decreases messages.len(),
{
    if messages.len() == 0 {
        0
    } else {
        application_messages(messages.drop_last()) + if !(messages.last() is Exit)
            && !(messages.last() is Batch) {
            1nat
        } else {
            0nat
        }
    }
}

/// Until the exit message, `handle` passes every message meant for the
/// application to its `update` exactly once, and batch messages not at all
/// (their commands are handed on instead), as `handle`'s contract counts
/// them in `deliveries_in`.
pub proof fn lemma_each_message_delivered_once<A, T>(messages: Seq<Message<A, T>>)
    requires
        forall|j: int| 0 <= j < messages.len() ==> !(#[trigger] messages[j] is Exit),
    ensures
        deliveries_in(true, messages) == application_messages(messages),
    decreases messages.len(),
{
    if messages.len() > 0 {
        let rest = messages.drop_last();
        assert forall|j: int| 0 <= j < rest.len() implies !(#[trigger] rest[j] is Exit) by {
            assert(rest[j] == messages[j]);
        }
        lemma_each_message_delivered_once(rest);
        lemma_no_exit_no_stop(rest);
    }
}

} // verus!
