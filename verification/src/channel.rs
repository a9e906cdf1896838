//! The command channel: text lines from any thread to the one that runs the
//! scheduler.

use vstd::prelude::*;

verus! {

/// Declares `crossbeam_channel::Sender`. Nothing is known of a value of it.
#[verifier::external_type_specification]
#[verifier::external_body]
#[verifier::reject_recursive_types(T)]
pub struct ExSender<T>(crossbeam_channel::Sender<T>);

/// Declares `crossbeam_channel::Receiver`. Nothing is known of a value of it.
#[verifier::external_type_specification]
#[verifier::external_body]
#[verifier::reject_recursive_types(T)]
pub struct ExReceiver<T>(crossbeam_channel::Receiver<T>);

/// The sending end of a command channel. It can only come from
/// `command_channel`, so the channel behind it has no capacity limit. It
/// carries the mark of its channel, which both ends of a channel share.
pub struct CommandSender {
    chan: crossbeam_channel::Sender<String>,
    mark: Ghost<int>,
}

/// The receiving end of a command channel, with the mark of its channel.
pub struct CommandReceiver {
    chan: crossbeam_channel::Receiver<String>,
    mark: Ghost<int>,
}

/// Calls `crossbeam_channel::unbounded`. Nothing is claimed of the two ends.
#[verifier::external_body]
fn open_channel() -> (ends: (crossbeam_channel::Sender<String>, crossbeam_channel::Receiver<String>)) {
    crossbeam_channel::unbounded()
}

/// Calls `crossbeam_channel::Sender::send` and says whether it returned `Ok`.
/// Whether it does depends on the other end, so nothing is claimed of the
/// result.
#[verifier::external_body]
fn push_line(chan: &crossbeam_channel::Sender<String>, line: String) -> (sent: bool) {
    chan.send(line).is_ok()
}

/// Calls `crossbeam_channel::Receiver::try_recv` and hands on the message, if
/// one was waiting. What is waiting depends on the senders, so nothing is
/// claimed of the result.
#[verifier::external_body]
fn pop_line(chan: &crossbeam_channel::Receiver<String>) -> (line: Option<String>) {
    chan.try_recv().ok()
}

/// Calls `clone` on a `crossbeam_channel::Sender`. Nothing is claimed of the
/// result.
#[verifier::external_body]
fn share(chan: &crossbeam_channel::Sender<String>) -> (other: crossbeam_channel::Sender<String>) {
    chan.clone()
}

/// A new channel without a capacity limit, as its two ends, which carry
/// the same mark.
pub fn command_channel() -> (ends: (CommandSender, CommandReceiver))
    ensures
        ends.0.channel() == ends.1.channel(),
{
    let (tx, rx) = open_channel();
    let mark: Ghost<int> = Ghost(0);
    (CommandSender { chan: tx, mark }, CommandReceiver { chan: rx, mark })
}

impl CommandSender {
    /// The mark of the channel that this end belongs to.
    pub closed spec fn channel(&self) -> int {
        self.mark@
    }

    /// Puts `line` on the channel. Returns whether the channel took it: it
    /// does not once the receiving end is gone.
    pub fn send(&self, line: String) -> (sent: bool) {
        push_line(&self.chan, line)
    }

    /// Another sending end of the same channel.
    pub fn another(&self) -> (other: CommandSender)
        ensures
            other.channel() == self.channel(),
    {
        CommandSender { chan: share(&self.chan), mark: self.mark }
    }
}

impl CommandReceiver {
    /// The mark of the channel that this end belongs to.
    pub closed spec fn channel(&self) -> int {
        self.mark@
    }

    /// Takes the oldest waiting line off the channel, without waiting for one.
    pub fn try_recv(&self) -> (line: Option<String>) {
        pop_line(&self.chan)
    }
}

} // verus!
