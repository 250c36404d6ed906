//! Where messages leave the library: an outbox hands each message to a
//! channel and keeps the record of every hand-over it made, in order. The
//! record is written here alone, by the send itself.
use vstd::prelude::*;
use tokio::sync::mpsc::UnboundedSender;
use crate::error::DataError;
use crate::external::send_message;

verus! {

/// One message handed to a channel: to which handle, what, and whether the
/// channel accepted it (its receiving side was still open).
#[verifier::reject_recursive_types(M)]
pub struct Delivery<M> {
    /// The handle the message was handed to.
    pub to: UnboundedSender<M>,
    /// The message.
    pub message: M,
    /// Whether the channel accepted it.
    pub accepted: bool,
}

/// Sends messages and records each send.
#[verifier::reject_recursive_types(M)]
pub struct Outbox<M> {
    log: Ghost<Seq<Delivery<M>>>,
}

impl<M> Outbox<M> {
    /// Every message this outbox handed to a channel, in order.
    pub closed spec fn deliveries(&self) -> Seq<Delivery<M>> {
        self.log@
    }

    /// An outbox that has sent nothing.
    pub fn new() -> (r: Self)
        ensures
            r.deliveries() == Seq::<Delivery<M>>::empty(),
    {
        Outbox { log: Ghost(Seq::empty()) }
    }

    /// Hands `message` to the channel of `to` and records the hand-over;
    /// the result is an error exactly when the channel did not accept it,
    /// and that error is `ChannelClosed`.
    pub fn deliver(&mut self, to: &UnboundedSender<M>, message: M) -> (r: Result<(), DataError>)
        ensures
            final(self).deliveries() == old(self).deliveries().push(
                Delivery { to: *to, message, accepted: r is Ok },
            ),
            r is Err ==> r matches Err(DataError::ChannelClosed),
    {
        let ghost m = message;
        let r = send_message(to, message);
        self.log = Ghost(self.log@.push(Delivery { to: *to, message: m, accepted: r is Ok }));
        r
    }
}

} // verus!
