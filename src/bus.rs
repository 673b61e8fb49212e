use vstd::prelude::*;
use crossbeam_channel::{Receiver, Sender, TryRecvError, TrySendError};
use crate::messages::Message;

verus! {

#[verifier::external_type_specification]
#[verifier::external_body]
#[verifier::reject_recursive_types(T)]
pub struct ExSender<T>(Sender<T>);

#[verifier::external_type_specification]
#[verifier::external_body]
#[verifier::reject_recursive_types(T)]
pub struct ExReceiver<T>(Receiver<T>);

/// What polling a channel gave.
#[derive(Debug)]
pub enum Poll {
    Ready(Message),
    /// Nothing is waiting now.
    Empty,
    /// Nothing is waiting and every sender is gone.
    Closed,
}

/// Relies on `crossbeam_channel::unbounded`: a fresh channel with no capacity
/// limit, so that sending on it never blocks.
#[verifier::external_body]
pub(crate) fn open_channel() -> (r: (Sender<Message>, Receiver<Message>)) {
    crossbeam_channel::unbounded()
}

/// Relies on `crossbeam_channel::bounded`: a fresh channel that holds at
/// most `cap` waiting messages.
#[verifier::external_body]
fn open_bounded_channel(cap: usize) -> (r: (Sender<Message>, Receiver<Message>)) {
    crossbeam_channel::bounded(cap)
}

/// Relies on `Sender::clone`: another sending end of the same channel.
#[verifier::external_body]
fn share_sender(s: &Sender<Message>) -> (r: Sender<Message>) {
    s.clone()
}

/// Relies on `Receiver::clone`: another receiving end of the same channel.
#[verifier::external_body]
fn share_receiver(r: &Receiver<Message>) -> (c: Receiver<Message>) {
    r.clone()
}

/// Relies on `Sender::try_send`: never blocks; when the message cannot be
/// sent (channel full or receiver gone) the error hands the message back.
#[verifier::external_body]
pub(crate) fn try_deliver(s: &Sender<Message>, m: Message) -> (r: Result<(), Message>)
    ensures
        r matches Err(back) ==> back == m,
{
    match s.try_send(m) {
        Ok(()) => Ok(()),
        Err(TrySendError::Full(back)) => Err(back),
        Err(TrySendError::Disconnected(back)) => Err(back),
    }
}

/// Relies on `Receiver::try_recv`: takes a waiting message without blocking.
#[verifier::external_body]
pub(crate) fn poll(r: &Receiver<Message>) -> (p: Poll) {
    match r.try_recv() {
        Ok(m) => Poll::Ready(m),
        Err(TryRecvError::Empty) => Poll::Empty,
        Err(TryRecvError::Disconnected) => Poll::Closed,
    }
}

/// Why the bus refused a registration.
#[derive(Debug, Clone, Copy, PartialEq, Eq, Structural)]
pub enum BusError {
    AlreadyRegistered,
}

/// What became of a message sent to one named target.
#[derive(Debug)]
pub enum SendOutcome {
    /// Placed in the target's mailbox.
    Delivered,
    /// No target of that name is registered; nothing was sent.
    UnknownTarget,
    /// The target's mailbox is closed; the message is handed back.
    Closed(Message),
}

struct Mailbox {
    name: String,
    sender: Sender<Message>,
}

/// Delivers messages to plugins by name, each through its own mailbox.
/// Delivery is best effort: a send to an unknown name is dropped.
pub struct MessageBus {
    mailboxes: Vec<Mailbox>,
    inbound: Sender<Message>,
    receiver: Receiver<Message>,
}

/// Whether `names` holds `name`.
pub open spec fn registered(names: Seq<Seq<char>>, name: Seq<char>) -> bool {
    exists|i: int| 0 <= i < names.len() && #[trigger] names[i] == name
}

impl MessageBus {
    /// Names of the registered plugins, in order of registration.
    pub closed spec fn view(&self) -> Seq<Seq<char>> {
        self.mailboxes@.map_values(|b: Mailbox| b.name@)
    }

    pub open spec fn wf(&self) -> bool {
        forall|i: int, j: int|
            0 <= i < self@.len() && 0 <= j < self@.len() && i != j ==> self@[i] != self@[j]
    }

    pub fn new() -> (r: Self)
        ensures
            r.wf(),
            r@ == Seq::<Seq<char>>::empty(),
    {
        let (inbound, receiver) = open_channel();
        let r = MessageBus { mailboxes: Vec::new(), inbound, receiver };
        proof {
            assert(r@ =~= Seq::<Seq<char>>::empty());
        }
        r
    }

    fn position(&self, name: &str) -> (r: Option<usize>)
        ensures
            r is None <==> !registered(self@, name@),
            r matches Some(i) ==> i < self@.len() && self@[i as int] == name@,
    {
        let wanted = name.to_owned();
        let mut i: usize = 0;
        while i < self.mailboxes.len()
            invariant
                i <= self.mailboxes@.len(),
                wanted@ == name@,
                forall|k: int| 0 <= k < i ==> self@[k] != name@,
            decreases self.mailboxes@.len() - i,
        {
            if self.mailboxes[i].name == wanted {
                proof {
                    assert(self@[i as int] == name@);
                }
                return Some(i);
            }
            i = i + 1;
        }
        None
    }

    pub fn is_registered(&self, name: &str) -> (r: bool)
        ensures
            r == registered(self@, name@),
    {
        self.position(name).is_some()
    }

    /// Opens a mailbox for `plugin_name` and returns its receiving end. A name
    /// that is already registered is refused and the bus stays as it was.
    pub fn register_plugin(&mut self, plugin_name: &str) -> (r: Result<Receiver<Message>, BusError>)
        requires
            old(self).wf(),
        ensures
            final(self).wf(),
            registered(old(self)@, plugin_name@) ==> r == Err::<Receiver<Message>, BusError>(
                BusError::AlreadyRegistered,
            ) && final(self)@ == old(self)@,
            !registered(old(self)@, plugin_name@) ==> r is Ok && final(self)@ == old(self)@.push(
                plugin_name@,
            ),
    {
        if self.position(plugin_name).is_some() {
            return Err(BusError::AlreadyRegistered);
        }
        let (sender, receiver) = open_channel();
        let ghost before = self@;
        self.mailboxes.push(Mailbox { name: plugin_name.to_owned(), sender });
        proof {
            assert(self@ =~= before.push(plugin_name@));
            assert forall|i: int, j: int|
                0 <= i < self@.len() && 0 <= j < self@.len() && i != j implies self@[i] != self@[j] by {
                if i < before.len() && j < before.len() {
                    assert(self@[i] == before[i]);
                    assert(self@[j] == before[j]);
                } else if i < before.len() {
                    assert(self@[i] == before[i]);
                } else {
                    assert(self@[j] == before[j]);
                }
            }
        }
        Ok(receiver)
    }

    /// Sends `message` to the plugin named `target`. An unknown target is not
    /// an error: the message is dropped and nothing is sent.
    pub fn send(&self, target: &str, message: Message) -> (r: SendOutcome)
        ensures
            !registered(self@, target@) ==> r is UnknownTarget,
            registered(self@, target@) ==> r is Delivered || r == SendOutcome::Closed(message),
    {
        match self.position(target) {
            None => SendOutcome::UnknownTarget,
            Some(i) => match try_deliver(&self.mailboxes[i].sender, message) {
                Ok(()) => SendOutcome::Delivered,
                Err(back) => SendOutcome::Closed(back),
            },
        }
    }

    /// Sends a copy of `message` to every registered plugin, in order of
    /// registration. A closed mailbox does not stop delivery to the others;
    /// the result holds, per plugin, whether its copy was delivered, and hands
    /// back the undelivered copies, each equal to `message`.
    pub fn broadcast(&self, message: &Message) -> (r: Vec<Result<(), Message>>)
        ensures
            r@.len() == self@.len(),
            forall|i: int| 0 <= i < r@.len() ==> (#[trigger] r@[i] matches Err(back) ==> back == *message),
    {
        let mut out: Vec<Result<(), Message>> = Vec::new();
        let mut i: usize = 0;
        while i < self.mailboxes.len()
            invariant
                i <= self.mailboxes@.len(),
                out@.len() == i,
                forall|k: int| 0 <= k < i ==> (#[trigger] out@[k] matches Err(back) ==> back == *message),
            decreases self.mailboxes@.len() - i,
        {
            let copy = message.duplicate();
            out.push(try_deliver(&self.mailboxes[i].sender, copy));
            i = i + 1;
        }
        out
    }

    /// Posts `message` to the bus's shared inbound channel.
    pub fn post(&self, message: Message) -> (r: Result<(), Message>)
        ensures
            r matches Err(back) ==> back == message,
    {
        try_deliver(&self.inbound, message)
    }

    /// Takes the next message waiting on the shared inbound channel.
    pub fn receive(&self) -> (r: Poll) {
        poll(&self.receiver)
    }
}

/// The surface a plugin or controller uses to exchange messages.
pub trait MessageHandler {
    /// How many channels a sent message goes out on.
    spec fn peer_count(&self) -> nat;

    /// Sends `message` to every peer; on the first failure stops and hands the
    /// message back. With no peer there is nothing to fail: the send succeeds.
    fn send_message(&mut self, message: Message) -> (r: Result<(), Message>)
        ensures
            r matches Err(back) ==> back == message,
            old(self).peer_count() == 0 ==> r is Ok,
            final(self).peer_count() == old(self).peer_count(),
    ;

    /// Takes the next waiting message, without blocking.
    fn receive_message(&mut self) -> Option<Message>;
}

/// A handler over a set of named peer mailboxes and one receiving end.
pub struct DefaultMessageHandler {
    senders: Vec<(String, Sender<Message>)>,
    receiver: Receiver<Message>,
}

impl DefaultMessageHandler {
    pub fn new(senders: Vec<(String, Sender<Message>)>, receiver: Receiver<Message>) -> (r: Self)
        ensures
            r.peer_count() == senders@.len(),
    {
        DefaultMessageHandler { senders, receiver }
    }
}

impl MessageHandler for DefaultMessageHandler {
    closed spec fn peer_count(&self) -> nat {
        self.senders@.len()
    }

    fn send_message(&mut self, message: Message) -> (r: Result<(), Message>) {
        let mut i: usize = 0;
        while i < self.senders.len()
            invariant
                i <= self.senders@.len(),
            decreases self.senders@.len() - i,
        {
            let copy = message.duplicate();
            match try_deliver(&self.senders[i].1, copy) {
                Ok(()) => {},
                Err(_) => {
                    return Err(message);
                },
            }
            i = i + 1;
        }
        Ok(())
    }

    fn receive_message(&mut self) -> Option<Message> {
        match poll(&self.receiver) {
            Poll::Ready(m) => Some(m),
            Poll::Empty => None,
            Poll::Closed => None,
        }
    }
}

/// Mailbox size of the channels a `MessageSystem` opens.
pub const CHANNEL_CAPACITY: usize = 1024;

/// A fixed set of bounded channels, each of which can back any number of
/// handlers.
pub struct MessageSystem {
    senders: Vec<Sender<Message>>,
    receivers: Vec<Receiver<Message>>,
}

impl MessageSystem {
    pub closed spec fn channel_count(&self) -> nat {
        self.senders@.len()
    }

    pub closed spec fn wf(&self) -> bool {
        self.senders@.len() == self.receivers@.len()
    }

    /// Opens `channel_count` channels of `CHANNEL_CAPACITY` messages each.
    pub fn new(channel_count: usize) -> (r: Self)
        ensures
            r.wf(),
            r.channel_count() == channel_count,
    {
        let mut senders: Vec<Sender<Message>> = Vec::new();
        let mut receivers: Vec<Receiver<Message>> = Vec::new();
        let mut i: usize = 0;
        while i < channel_count
            invariant
                i <= channel_count,
                senders@.len() == i,
                receivers@.len() == i,
            decreases channel_count - i,
        {
            let (tx, rx) = open_bounded_channel(CHANNEL_CAPACITY);
            senders.push(tx);
            receivers.push(rx);
            i = i + 1;
        }
        MessageSystem { senders, receivers }
    }

    pub fn channels(&self) -> (r: usize)
        ensures
            r == self.channel_count(),
    {
        self.senders.len()
    }

    /// A handler that sends on and receives from channel `index`.
    pub fn create_handler(&self, index: usize) -> (r: ChannelMessageHandler)
        requires
            self.wf(),
            index < self.channel_count(),
    {
        ChannelMessageHandler {
            sender: share_sender(&self.senders[index]),
            receiver: share_receiver(&self.receivers[index]),
        }
    }
}

/// A handler bound to one channel: what it sends, it (or a sibling) receives.
pub struct ChannelMessageHandler {
    sender: Sender<Message>,
    receiver: Receiver<Message>,
}

impl MessageHandler for ChannelMessageHandler {
    open spec fn peer_count(&self) -> nat {
        1
    }

    fn send_message(&mut self, message: Message) -> (r: Result<(), Message>) {
        try_deliver(&self.sender, message)
    }

    fn receive_message(&mut self) -> Option<Message> {
        match poll(&self.receiver) {
            Poll::Ready(m) => Some(m),
            Poll::Empty => None,
            Poll::Closed => None,
        }
    }
}

} // verus!
