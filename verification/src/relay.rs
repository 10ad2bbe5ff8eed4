//! Moving bytes between a client and an SSH channel, neither of which blocks.
//!
//! Each machine here says what is to be done next; whoever runs it does that, and
//! says what came of it.
use vstd::prelude::*;
use crate::text;
use crate::text::{holds_text, to_chars};

verus! {

broadcast use vstd::string::group_string_axioms;

/// The number of bytes read at a time.
pub const RELAY_BUFFER: usize = 32768;

/// Milliseconds to rest when nothing could be read or written.
pub const RELAY_REST_MILLIS: u64 = 5;

/// Why reading, writing or flushing did not work.
#[derive(Debug)]
pub struct IoFailure {
    /// The system says that the call would have to wait.
    pub would_block: bool,
    pub text: String,
}

/// The content of an [`IoFailure`].
pub struct IoFailureModel {
    pub would_block: bool,
    pub text: Seq<char>,
}

impl View for IoFailure {
    type V = IoFailureModel;

    open spec fn view(&self) -> IoFailureModel {
        IoFailureModel { would_block: self.would_block, text: self.text@ }
    }
}

/// The failure means no more than that the call would have to wait: the system
/// says so, or the message does.
pub open spec fn must_wait(error: IoFailureModel) -> bool {
    error.would_block || text::contains(error.text, "EAGAIN"@) || text::contains(
        error.text,
        "WouldBlock"@,
    )
}

/// Whether a failure means no more than that the call would have to wait.
pub fn is_would_block(error: &IoFailure) -> (yes: bool)
    ensures
        yes == must_wait(error@),
{
    if error.would_block {
        return true;
    }
    let chars = to_chars(error.text.as_str());
    let again = to_chars("EAGAIN");
    let wait = to_chars("WouldBlock");
    holds_text(chars.as_slice(), again.as_slice()) || holds_text(
        chars.as_slice(),
        wait.as_slice(),
    )
}

/// What is written to.
#[derive(Debug, Clone, Copy, PartialEq, Eq, Structural)]
pub enum Sink {
    /// An SSH channel, which may take nothing and still be open.
    Channel,
    /// Anything else, which is gone when it takes nothing.
    Stream,
}

/// What a [`NonblockingWriter`] waits for.
#[derive(Debug, Clone, Copy, PartialEq, Eq, Structural)]
pub enum WritePhase {
    /// Whether the tunnel is stopping.
    Asking,
    /// What came of a write.
    Writing,
    /// What came of a flush.
    Flushing,
    /// The end of a rest.
    Resting,
    /// Nothing: everything is written, or nothing more will be.
    Over,
}

/// Writes a row of bytes, all of it, and flushes.
#[derive(Debug, Clone, Copy, PartialEq, Eq, Structural)]
pub struct NonblockingWriter {
    pub sink: Sink,
    /// The number of bytes to write.
    pub len: usize,
    /// The number of bytes written.
    pub written: usize,
    pub phase: WritePhase,
}

/// What came of the last thing that was to be done.
#[derive(Debug)]
pub enum WriteEvent {
    /// The tunnel is stopping, or is not.
    Stop(bool),
    /// So many bytes were written, at least one.
    Wrote(usize),
    /// No byte was written; the channel has ended, or has not.
    Nothing(bool),
    /// The flush or the rest is done.
    Done,
    /// The write or the flush failed.
    Failed(IoFailure),
}

/// What is to be done next.
#[derive(Debug)]
pub enum WriteAction {
    /// Say whether the tunnel is stopping.
    AskStop,
    /// Write the bytes from this place on, as many as are taken.
    Write(usize),
    Flush,
    Rest,
    /// Everything is written and flushed.
    Finish,
    /// Give up, for this reason.
    Fail(String),
}

/// The content of a [`WriteEvent`].
pub enum WriteEventModel {
    Stop(bool),
    Wrote(nat),
    Nothing(bool),
    Done,
    Failed(IoFailureModel),
}

/// The content of a [`WriteAction`].
pub enum WriteActionModel {
    AskStop,
    Write(nat),
    Flush,
    Rest,
    Finish,
    Fail(Seq<char>),
}

impl View for WriteEvent {
    type V = WriteEventModel;

    open spec fn view(&self) -> WriteEventModel {
        match self {
            WriteEvent::Stop(yes) => WriteEventModel::Stop(*yes),
            WriteEvent::Wrote(count) => WriteEventModel::Wrote(*count as nat),
            WriteEvent::Nothing(ended) => WriteEventModel::Nothing(*ended),
            WriteEvent::Done => WriteEventModel::Done,
            WriteEvent::Failed(error) => WriteEventModel::Failed(error@),
        }
    }
}

impl View for WriteAction {
    type V = WriteActionModel;

    open spec fn view(&self) -> WriteActionModel {
        match self {
            WriteAction::AskStop => WriteActionModel::AskStop,
            WriteAction::Write(from) => WriteActionModel::Write(*from as nat),
            WriteAction::Flush => WriteActionModel::Flush,
            WriteAction::Rest => WriteActionModel::Rest,
            WriteAction::Finish => WriteActionModel::Finish,
            WriteAction::Fail(message) => WriteActionModel::Fail(message@),
        }
    }
}

/// An event that the writer waits for.
pub open spec fn write_fits(writer: NonblockingWriter, event: WriteEventModel) -> bool {
    match event {
        WriteEventModel::Stop(_) => writer.phase == WritePhase::Asking,
        WriteEventModel::Wrote(count) => writer.phase == WritePhase::Writing && 0 < count
            && writer.written + count <= writer.len,
        WriteEventModel::Nothing(_) => writer.phase == WritePhase::Writing,
        WriteEventModel::Done => writer.phase == WritePhase::Flushing || writer.phase
            == WritePhase::Resting,
        WriteEventModel::Failed(_) => writer.phase == WritePhase::Writing || writer.phase
            == WritePhase::Flushing,
    }
}

/// The writer in another phase.
pub open spec fn in_phase(writer: NonblockingWriter, phase: WritePhase) -> NonblockingWriter {
    NonblockingWriter { phase, ..writer }
}

/// The writer with nothing more to do.
pub open spec fn write_given_up(writer: NonblockingWriter, reason: Seq<char>) -> (
    NonblockingWriter,
    WriteActionModel,
) {
    (in_phase(writer, WritePhase::Over), WriteActionModel::Fail(reason))
}

/// The writer and what it does next, after an event that it waited for.
pub open spec fn write_next(writer: NonblockingWriter, event: WriteEventModel) -> (
    NonblockingWriter,
    WriteActionModel,
) {
    match event {
        WriteEventModel::Stop(stopping) => if stopping {
            write_given_up(writer, "tunnel is stopping"@)
        } else if writer.written < writer.len {
            (
                in_phase(writer, WritePhase::Writing),
                WriteActionModel::Write(writer.written as nat),
            )
        } else {
            (in_phase(writer, WritePhase::Flushing), WriteActionModel::Flush)
        },
        WriteEventModel::Wrote(count) => (
            NonblockingWriter {
                written: (writer.written + count) as usize,
                phase: WritePhase::Asking,
                ..writer
            },
            WriteActionModel::AskStop,
        ),
        WriteEventModel::Nothing(ended) => match writer.sink {
            Sink::Stream => write_given_up(writer, "write returned zero"@),
            Sink::Channel => if ended {
                write_given_up(writer, "ssh channel closed"@)
            } else {
                (in_phase(writer, WritePhase::Resting), WriteActionModel::Rest)
            },
        },
        WriteEventModel::Done => if writer.phase == WritePhase::Flushing {
            (in_phase(writer, WritePhase::Over), WriteActionModel::Finish)
        } else {
            (in_phase(writer, WritePhase::Asking), WriteActionModel::AskStop)
        },
        WriteEventModel::Failed(error) => if must_wait(error) {
            (in_phase(writer, WritePhase::Resting), WriteActionModel::Rest)
        } else {
            write_given_up(writer, error.text)
        },
    }
}

impl NonblockingWriter {
    /// No more is written than there is, and flushed only once all is written.
    pub open spec fn wf(&self) -> bool {
        &&& self.written <= self.len
        &&& self.phase == WritePhase::Writing ==> self.written < self.len
        &&& self.phase == WritePhase::Flushing ==> self.written == self.len
    }

    /// A writer of so many bytes. It first asks whether the tunnel is stopping.
    pub fn new(sink: Sink, len: usize) -> (writer: NonblockingWriter)
        ensures
            writer.wf(),
            writer == (NonblockingWriter { sink, len, written: 0, phase: WritePhase::Asking }),
    {
        NonblockingWriter { sink, len, written: 0, phase: WritePhase::Asking }
    }

    /// Takes in what came of the last thing to do; says what to do next.
    pub fn step(&mut self, event: WriteEvent) -> (action: WriteAction)
        requires
            old(self).wf(),
            write_fits(*old(self), event@),
        ensures
            final(self).wf(),
            (*final(self), action@) == write_next(*old(self), event@),
            action is Finish ==> final(self).written == final(self).len,
    {
        match event {
            WriteEvent::Stop(stopping) => {
                if stopping {
                    self.phase = WritePhase::Over;
                    return WriteAction::Fail("tunnel is stopping".to_string());
                }
                if self.written < self.len {
                    self.phase = WritePhase::Writing;
                    WriteAction::Write(self.written)
                } else {
                    self.phase = WritePhase::Flushing;
                    WriteAction::Flush
                }
            },
            WriteEvent::Wrote(count) => {
                self.written = self.written + count;
                self.phase = WritePhase::Asking;
                WriteAction::AskStop
            },
            WriteEvent::Nothing(ended) => {
                match self.sink {
                    Sink::Stream => {
                        self.phase = WritePhase::Over;
                        WriteAction::Fail("write returned zero".to_string())
                    },
                    Sink::Channel => {
                        if ended {
                            self.phase = WritePhase::Over;
                            WriteAction::Fail("ssh channel closed".to_string())
                        } else {
                            self.phase = WritePhase::Resting;
                            WriteAction::Rest
                        }
                    },
                }
            },
            WriteEvent::Done => {
                if self.phase == WritePhase::Flushing {
                    self.phase = WritePhase::Over;
                    WriteAction::Finish
                } else {
                    self.phase = WritePhase::Asking;
                    WriteAction::AskStop
                }
            },
            WriteEvent::Failed(error) => {
                if is_would_block(&error) {
                    self.phase = WritePhase::Resting;
                    WriteAction::Rest
                } else {
                    self.phase = WritePhase::Over;
                    WriteAction::Fail(error.text)
                }
            },
        }
    }
}

/// What a [`Relay`] waits for.
#[derive(Debug, Clone, Copy, PartialEq, Eq, Structural)]
pub enum RelayPhase {
    /// Whether the tunnel is stopping.
    Asking,
    /// What came of reading from the client.
    ClientRead,
    /// What came of writing so many bytes to the channel.
    ChannelWrite(usize),
    /// That the channel knows that the client has ended.
    ClientEnd,
    /// What came of reading from the channel.
    ChannelRead,
    /// What came of writing so many bytes to the client.
    ClientWrite(usize),
    /// That the client knows that the channel has ended.
    ChannelEnd,
    /// The end of a rest.
    Resting,
    /// Nothing: the relay is over.
    Over,
}

/// Passes on what the client and the channel send each other until both have
/// ended or the tunnel stops.
#[derive(Debug, Clone, Copy, PartialEq, Eq, Structural)]
pub struct Relay {
    /// The client has sent all that it had.
    pub client_closed: bool,
    /// The channel has sent all that it had.
    pub channel_closed: bool,
    /// Something was passed on in this round.
    pub progressed: bool,
    pub phase: RelayPhase,
}

/// What came of the last thing that was to be done.
#[derive(Debug)]
pub enum RelayEvent {
    /// The tunnel is stopping, or is not.
    Stop(bool),
    /// So many bytes were read, at least one.
    Read(usize),
    /// No byte was read; the other end is known to have ended, or is not.
    Nothing(bool),
    /// What was to be done is done.
    Done,
    /// Reading failed.
    ReadFailed(IoFailure),
    /// Writing failed, for this reason.
    WriteFailed(String),
}

/// What is to be done next.
#[derive(Debug)]
pub enum RelayAction {
    /// Say whether the tunnel is stopping.
    AskStop,
    ReadClient,
    /// Write so many of the bytes read to the channel, all of them.
    WriteChannel(usize),
    /// Tell the channel that the client has ended.
    EndChannelInput,
    ReadChannel,
    /// Write so many of the bytes read to the client, all of them.
    WriteClient(usize),
    /// Tell the client that the channel has ended.
    EndClientInput,
    Rest,
    /// Close both sides: the relay is over.
    Finish,
    /// Give up, for this reason.
    Fail(String),
}

/// The content of a [`RelayEvent`].
pub enum RelayEventModel {
    Stop(bool),
    Read(usize),
    Nothing(bool),
    Done,
    ReadFailed(IoFailureModel),
    WriteFailed(Seq<char>),
}

/// The content of a [`RelayAction`].
pub enum RelayActionModel {
    AskStop,
    ReadClient,
    WriteChannel(usize),
    EndChannelInput,
    ReadChannel,
    WriteClient(usize),
    EndClientInput,
    Rest,
    Finish,
    Fail(Seq<char>),
}

impl View for RelayEvent {
    type V = RelayEventModel;

    open spec fn view(&self) -> RelayEventModel {
        match self {
            RelayEvent::Stop(yes) => RelayEventModel::Stop(*yes),
            RelayEvent::Read(count) => RelayEventModel::Read(*count),
            RelayEvent::Nothing(ended) => RelayEventModel::Nothing(*ended),
            RelayEvent::Done => RelayEventModel::Done,
            RelayEvent::ReadFailed(error) => RelayEventModel::ReadFailed(error@),
            RelayEvent::WriteFailed(reason) => RelayEventModel::WriteFailed(reason@),
        }
    }
}

impl View for RelayAction {
    type V = RelayActionModel;

    open spec fn view(&self) -> RelayActionModel {
        match self {
            RelayAction::AskStop => RelayActionModel::AskStop,
            RelayAction::ReadClient => RelayActionModel::ReadClient,
            RelayAction::WriteChannel(count) => RelayActionModel::WriteChannel(*count),
            RelayAction::EndChannelInput => RelayActionModel::EndChannelInput,
            RelayAction::ReadChannel => RelayActionModel::ReadChannel,
            RelayAction::WriteClient(count) => RelayActionModel::WriteClient(*count),
            RelayAction::EndClientInput => RelayActionModel::EndClientInput,
            RelayAction::Rest => RelayActionModel::Rest,
            RelayAction::Finish => RelayActionModel::Finish,
            RelayAction::Fail(message) => RelayActionModel::Fail(message@),
        }
    }
}

/// An event that the relay waits for.
pub open spec fn relay_fits(relay: Relay, event: RelayEventModel) -> bool {
    let reading = relay.phase is ClientRead || relay.phase is ChannelRead;
    let writing = relay.phase is ChannelWrite || relay.phase is ClientWrite;
    match event {
        RelayEventModel::Stop(_) => relay.phase is Asking,
        RelayEventModel::Read(count) => reading && 0 < count,
        RelayEventModel::Nothing(_) => reading,
        RelayEventModel::Done => writing || relay.phase is ClientEnd || relay.phase is ChannelEnd
            || relay.phase is Resting,
        RelayEventModel::ReadFailed(_) => reading,
        RelayEventModel::WriteFailed(_) => writing,
    }
}

/// The end of a round: a rest where nothing was passed on.
pub open spec fn round_end(relay: Relay) -> (Relay, RelayActionModel) {
    if relay.progressed {
        (Relay { phase: RelayPhase::Asking, ..relay }, RelayActionModel::AskStop)
    } else {
        (Relay { phase: RelayPhase::Resting, ..relay }, RelayActionModel::Rest)
    }
}

/// The second half of a round, in which the channel is read unless it has ended.
pub open spec fn channel_half(relay: Relay) -> (Relay, RelayActionModel) {
    if relay.channel_closed {
        round_end(relay)
    } else {
        (Relay { phase: RelayPhase::ChannelRead, ..relay }, RelayActionModel::ReadChannel)
    }
}

/// A round, which begins with the client unless it has ended.
pub open spec fn round_start(relay: Relay) -> (Relay, RelayActionModel) {
    let relay = Relay { progressed: false, ..relay };
    if relay.client_closed {
        channel_half(relay)
    } else {
        (Relay { phase: RelayPhase::ClientRead, ..relay }, RelayActionModel::ReadClient)
    }
}

/// The relay, given up.
pub open spec fn relay_given_up(relay: Relay, reason: Seq<char>) -> (Relay, RelayActionModel) {
    (Relay { phase: RelayPhase::Over, ..relay }, RelayActionModel::Fail(reason))
}

/// The relay and what it does next, after an event that it waited for.
pub open spec fn relay_next(relay: Relay, event: RelayEventModel) -> (Relay, RelayActionModel) {
    match event {
        RelayEventModel::Stop(stopping) => if stopping || (relay.client_closed
            && relay.channel_closed) {
            (Relay { phase: RelayPhase::Over, ..relay }, RelayActionModel::Finish)
        } else {
            round_start(relay)
        },
        RelayEventModel::Read(count) => if relay.phase is ClientRead {
            (
                Relay { phase: RelayPhase::ChannelWrite(count), ..relay },
                RelayActionModel::WriteChannel(count),
            )
        } else {
            (
                Relay { phase: RelayPhase::ClientWrite(count), ..relay },
                RelayActionModel::WriteClient(count),
            )
        },
        RelayEventModel::Nothing(ended) => if relay.phase is ClientRead {
            (
                Relay { client_closed: true, phase: RelayPhase::ClientEnd, ..relay },
                RelayActionModel::EndChannelInput,
            )
        } else if ended {
            (
                Relay { channel_closed: true, phase: RelayPhase::ChannelEnd, ..relay },
                RelayActionModel::EndClientInput,
            )
        } else {
            round_end(relay)
        },
        RelayEventModel::Done => match relay.phase {
            RelayPhase::ChannelWrite(_) => channel_half(Relay { progressed: true, ..relay }),
            RelayPhase::ClientEnd => channel_half(relay),
            RelayPhase::ClientWrite(_) => round_end(Relay { progressed: true, ..relay }),
            RelayPhase::ChannelEnd => round_end(relay),
            _ => (Relay { phase: RelayPhase::Asking, ..relay }, RelayActionModel::AskStop),
        },
        RelayEventModel::ReadFailed(error) => if relay.phase is ClientRead {
            if must_wait(error) {
                channel_half(relay)
            } else {
                relay_given_up(relay, "read from client failed: "@ + error.text)
            }
        } else if must_wait(error) {
            round_end(relay)
        } else {
            relay_given_up(relay, "read from SSH channel failed: "@ + error.text)
        },
        RelayEventModel::WriteFailed(reason) => if relay.phase is ChannelWrite {
            relay_given_up(relay, "write to SSH channel failed: "@ + reason)
        } else {
            relay_given_up(relay, "write to client failed: "@ + reason)
        },
    }
}

/// The bytes that an event adds to the count of those passed on: those of a write
/// that is done.
pub open spec fn passed_on(relay: Relay, event: RelayEventModel) -> nat {
    match event {
        RelayEventModel::Done => match relay.phase {
            RelayPhase::ChannelWrite(count) => count as nat,
            RelayPhase::ClientWrite(count) => count as nat,
            _ => 0,
        },
        _ => 0,
    }
}

fn told(what: &str, reason: &str) -> (message: String)
    ensures
        message@ == what@ + reason@,
{
    let mut message = what.to_string();
    message.append(reason);
    message
}

impl Relay {
    /// A side that has ended is not read any more.
    pub open spec fn wf(&self) -> bool {
        &&& self.phase is ClientRead || self.phase is ChannelWrite ==> !self.client_closed
        &&& self.phase is ChannelRead || self.phase is ClientWrite ==> !self.channel_closed
    }

    /// A relay at its beginning. It first asks whether the tunnel is stopping.
    pub fn new() -> (relay: Relay)
        ensures
            relay.wf(),
            relay == (Relay {
                client_closed: false,
                channel_closed: false,
                progressed: false,
                phase: RelayPhase::Asking,
            }),
    {
        Relay {
            client_closed: false,
            channel_closed: false,
            progressed: false,
            phase: RelayPhase::Asking,
        }
    }

    fn end_round(&mut self) -> (action: RelayAction)
        ensures
            (*final(self), action@) == round_end(*old(self)),
    {
        if self.progressed {
            self.phase = RelayPhase::Asking;
            RelayAction::AskStop
        } else {
            self.phase = RelayPhase::Resting;
            RelayAction::Rest
        }
    }

    fn read_channel(&mut self) -> (action: RelayAction)
        ensures
            (*final(self), action@) == channel_half(*old(self)),
    {
        if self.channel_closed {
            self.end_round()
        } else {
            self.phase = RelayPhase::ChannelRead;
            RelayAction::ReadChannel
        }
    }

    fn give_up(&mut self, what: &str, reason: &str) -> (action: RelayAction)
        ensures
            (*final(self), action@) == relay_given_up(*old(self), what@ + reason@),
    {
        self.phase = RelayPhase::Over;
        RelayAction::Fail(told(what, reason))
    }

    /// Takes in what came of the last thing to do; says what to do next, and how
    /// many bytes were passed on by it.
    pub fn step(&mut self, event: RelayEvent) -> (next: (RelayAction, usize))
        requires
            old(self).wf(),
            relay_fits(*old(self), event@),
        ensures
            final(self).wf(),
            (*final(self), next.0@) == relay_next(*old(self), event@),
            next.1 == passed_on(*old(self), event@),
    {
        match event {
            RelayEvent::Stop(stopping) => {
                if stopping || (self.client_closed && self.channel_closed) {
                    self.phase = RelayPhase::Over;
                    return (RelayAction::Finish, 0);
                }
                self.progressed = false;
                if self.client_closed {
                    (self.read_channel(), 0)
                } else {
                    self.phase = RelayPhase::ClientRead;
                    (RelayAction::ReadClient, 0)
                }
            },
            RelayEvent::Read(count) => {
                if self.phase == RelayPhase::ClientRead {
                    self.phase = RelayPhase::ChannelWrite(count);
                    (RelayAction::WriteChannel(count), 0)
                } else {
                    self.phase = RelayPhase::ClientWrite(count);
                    (RelayAction::WriteClient(count), 0)
                }
            },
            RelayEvent::Nothing(ended) => {
                if self.phase == RelayPhase::ClientRead {
                    self.client_closed = true;
                    self.phase = RelayPhase::ClientEnd;
                    (RelayAction::EndChannelInput, 0)
                } else if ended {
                    self.channel_closed = true;
                    self.phase = RelayPhase::ChannelEnd;
                    (RelayAction::EndClientInput, 0)
                } else {
                    (self.end_round(), 0)
                }
            },
            RelayEvent::Done => {
                match self.phase {
                    RelayPhase::ChannelWrite(count) => {
                        self.progressed = true;
                        (self.read_channel(), count)
                    },
                    RelayPhase::ClientEnd => (self.read_channel(), 0),
                    RelayPhase::ClientWrite(count) => {
                        self.progressed = true;
                        (self.end_round(), count)
                    },
                    RelayPhase::ChannelEnd => (self.end_round(), 0),
                    _ => {
                        self.phase = RelayPhase::Asking;
                        (RelayAction::AskStop, 0)
                    },
                }
            },
            RelayEvent::ReadFailed(error) => {
                let wait = is_would_block(&error);
                if self.phase == RelayPhase::ClientRead {
                    if wait {
                        (self.read_channel(), 0)
                    } else {
                        (self.give_up("read from client failed: ", error.text.as_str()), 0)
                    }
                } else if wait {
                    (self.end_round(), 0)
                } else {
                    (self.give_up("read from SSH channel failed: ", error.text.as_str()), 0)
                }
            },
            RelayEvent::WriteFailed(reason) => {
                if matches!(self.phase, RelayPhase::ChannelWrite(_)) {
                    (self.give_up("write to SSH channel failed: ", reason.as_str()), 0)
                } else {
                    (self.give_up("write to client failed: ", reason.as_str()), 0)
                }
            },
        }
    }
}

} // verus!
