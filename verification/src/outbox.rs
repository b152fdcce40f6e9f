//! What is put into mailboxes.
//!
//! A mailbox is opened by an outbox, which is from then on the only one that can put
//! messages into it. The outbox knows every attempt that was made: its record is written
//! by the attempt itself, and by nothing else.

use vstd::prelude::*;

use crate::runtime::{ClientOutput, ClientOutputTx, OutputView};

verus! {

/// One message that was put into a mailbox, or that the mailbox refused.
pub struct Delivery {
    /// The mailbox.
    pub mailbox: ClientOutputTx,
    /// The message.
    pub message: OutputView,
    /// Whether the mailbox took it.
    pub delivered: bool,
}

/// A mailbox that an outbox serves.
pub struct Mailbox {
    sender: ClientOutputTx,
    owner: Ghost<int>,
}

impl Mailbox {
    /// The sending half of the channel.
    pub closed spec fn sender(&self) -> ClientOutputTx {
        self.sender
    }

    /// Which outbox serves the mailbox.
    pub closed spec fn owner(&self) -> int {
        self.owner@
    }
}

/// Puts messages into the mailboxes that it opened.
pub struct Outbox {
    id: Ghost<int>,
    tried: Ghost<Seq<Delivery>>,
}

impl View for Outbox {
    type V = Seq<Delivery>;

    /// Every attempt that was made, in order.
    closed spec fn view(&self) -> Seq<Delivery> {
        self.tried@
    }
}

impl Outbox {
    /// Which outbox this is.
    pub closed spec fn id(&self) -> int {
        self.id@
    }

    /// Creates an outbox by which nothing was sent yet. Nothing is known of which one it
    /// is, so it serves no mailbox but those that it opens.
    #[must_use]
    pub fn new() -> (r: Self)
        ensures
            r@ == Seq::<Delivery>::empty(),
    {
        Outbox { id: Ghost(arbitrary()), tried: Ghost(Seq::empty()) }
    }

    /// Opens a mailbox.
    #[must_use]
    pub fn open(&self, sender: ClientOutputTx) -> (r: Mailbox)
        ensures
            r.sender() == sender,
            r.owner() == self.id(),
    {
        Mailbox { sender, owner: Ghost(self.id@) }
    }

    /// `tokio::sync::mpsc::Sender::try_send` puts this message into this mailbox, or
    /// refuses it where the mailbox is full or its receiver is gone. It is one attempt,
    /// which the outbox knows from then on, with its answer. Which of the two happens is
    /// left unsaid: it is up to the receiver.
    #[verifier::external_body]
    pub(crate) fn post(&mut self, mailbox: &Mailbox, message: ClientOutput) -> (delivered: bool)
        requires
            mailbox.owner() == old(self).id(),
        ensures
            final(self)@ == old(self)@.push(
                Delivery { mailbox: mailbox.sender(), message: message@, delivered },
            ),
            final(self).id() == old(self).id(),
    {
        mailbox.sender.try_send(message).is_ok()
    }
}

} // verus!
