use vstd::prelude::*;

use crate::buffer_reader::BufferReader;
use crate::robot_to_driverstation::{message_read, outcome_matches, Message, MessageReadError, MsgOutcome};

verus! {

/// One delivery to a [`MessageHandler`].
pub enum ConsoleEvent {
    Received(Message),
    Failed(MessageReadError),
}

/// A delivery as the read result it reports.
pub open spec fn event_result(ev: ConsoleEvent) -> Result<Message, MessageReadError> {
    match ev {
        ConsoleEvent::Received(m) => Ok(m),
        ConsoleEvent::Failed(e) => Err(e),
    }
}

/// Receives the console messages a robot sends, or why one could not be read.
/// `received` is the record of every delivery so far, oldest first; each
/// method adds its own.
pub trait MessageHandler {
    /// The record the method contracts speak of. An implementation that keeps
    /// this default, empty record cannot meet those contracts, so what the
    /// readers state of the record holds only of implementations that define
    /// it and are verified; of one that keeps the default (any built outside
    /// verification) nothing is stated about the calls it receives.
    open spec fn received(&self) -> Seq<ConsoleEvent> {
        Seq::empty()
    }

    fn receive_message(&mut self, message: Message)
        ensures
            final(self).received() == old(self).received().push(ConsoleEvent::Received(message)),
    ;

    fn parse_error(&mut self, err: MessageReadError)
        ensures
            final(self).received() == old(self).received().push(ConsoleEvent::Failed(err)),
    ;
}

/// Reads the robot's console messages and hands them to a handler. A message
/// comes as a two-byte length, big-endian, and that many bytes, the first its
/// code.
pub struct MessageConsole<T: MessageHandler> {
    pub reciever: T,
    pub exit: bool,
}

impl<T: MessageHandler> MessageConsole<T> {
    pub fn new(reciever: T) -> (r: Self)
        ensures
            r.reciever == reciever,
            !r.exit,
    {
        MessageConsole { reciever, exit: false }
    }

    /// The length of the message whose first three bytes, the length and the
    /// code, are `header`.
    pub fn frame_size(header: &[u8; 3]) -> (r: usize)
        ensures
            r == header@[0] * 256 + header@[1],
    {
        header[0] as usize * 256 + header[1] as usize
    }

    /// Reads the message `frame` and hands it, or the reason it could not be
    /// read, to the handler. Tells whether a message was read.
    pub fn handle_frame(&mut self, frame: &[u8]) -> (r: bool)
        requires
            frame@.len() + 0x2_0000 <= usize::MAX,
        ensures
            r == (message_read(frame@, 0) is Done),
            final(self).exit == old(self).exit,
            final(self).reciever.received().len() == old(self).reciever.received().len() + 1,
            final(self).reciever.received().drop_last() == old(self).reciever.received(),
            outcome_matches(
                event_result(final(self).reciever.received().last()),
                message_read(frame@, 0),
                |m: Message| m@,
            ),
    {
        let mut reader = BufferReader::new(frame);
        match Message::create_from_buf(&mut reader) {
            Ok(packet) => {
                self.reciever.receive_message(packet);
                true
            },
            Err(err) => {
                self.reciever.parse_error(err);
                false
            },
        }
    }
}

} // verus!
