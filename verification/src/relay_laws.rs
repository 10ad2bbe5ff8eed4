//! What holds of every run of the machines that move bytes.
use vstd::prelude::*;
use crate::relay;
use crate::relay::{
    NonblockingWriter, Relay, RelayAction, RelayActionModel, RelayEvent, RelayEventModel,
    RelayPhase, Sink, WriteAction, WriteActionModel, WriteEvent, WriteEventModel, WritePhase,
};
use crate::text_laws;

verus! {

/// A writer of some bytes after a row of events, and the bytes that were taken
/// from it.
pub open spec fn write_run(sink: Sink, data: Seq<u8>, events: Seq<WriteEventModel>) -> (
    NonblockingWriter,
    Seq<u8>,
)
    decreases events.len(),
{
    if events.len() == 0 {
        (
            NonblockingWriter {
                sink,
                len: data.len() as usize,
                written: 0,
                phase: WritePhase::Asking,
            },
            Seq::empty(),
        )
    } else {
        let (writer, sent) = write_run(sink, data, events.drop_last());
        let taken = match events.last() {
            WriteEventModel::Wrote(count) => data.subrange(
                writer.written as int,
                writer.written + count,
            ),
            _ => Seq::empty(),
        };
        (relay::write_next(writer, events.last()).0, sent + taken)
    }
}

/// Every event of a row is one that the writer waits for.
pub open spec fn write_run_fits(sink: Sink, data: Seq<u8>, events: Seq<WriteEventModel>) -> bool
    decreases events.len(),
{
    events.len() > 0 ==> {
        &&& write_run_fits(sink, data, events.drop_last())
        &&& relay::write_fits(write_run(sink, data, events.drop_last()).0, events.last())
    }
}

/// The last thing that a row of events led to.
pub open spec fn write_outcome(
    sink: Sink,
    data: Seq<u8>,
    events: Seq<WriteEventModel>,
) -> WriteActionModel {
    relay::write_next(write_run(sink, data, events.drop_last()).0, events.last()).1
}

proof fn lemma_write_run(sink: Sink, data: Seq<u8>, events: Seq<WriteEventModel>)
    requires
        data.len() <= usize::MAX,
        write_run_fits(sink, data, events),
    ensures
        ({
            let (writer, sent) = write_run(sink, data, events);
            &&& writer.wf()
            &&& writer.len == data.len()
            &&& sent == data.take(writer.written as int)
        }),
    decreases events.len(),
{
    let (writer, sent) = write_run(sink, data, events);
    if events.len() > 0 {
        lemma_write_run(sink, data, events.drop_last());
    }
    assert(sent =~= data.take(writer.written as int));
}

/// Whatever the sink does, the bytes that it takes are the first of the data, each
/// once and in order.
pub proof fn law_bytes_are_written_in_order(
    sink: Sink,
    data: Seq<u8>,
    events: Seq<WriteEventModel>,
)
    requires
        data.len() <= usize::MAX,
        write_run_fits(sink, data, events),
    ensures
        ({
            let (writer, sent) = write_run(sink, data, events);
            sent == data.take(writer.written as int) && writer.written <= data.len()
        }),
{
    lemma_write_run(sink, data, events);
}

/// A writer that finishes has written all of the data.
pub proof fn law_finished_writer_has_written_all(
    sink: Sink,
    data: Seq<u8>,
    events: Seq<WriteEventModel>,
)
    requires
        data.len() <= usize::MAX,
        events.len() > 0,
        write_run_fits(sink, data, events),
        write_outcome(sink, data, events) is Finish,
    ensures
        write_run(sink, data, events).1 == data,
{
    lemma_write_run(sink, data, events.drop_last());
    lemma_write_run(sink, data, events);
    assert(data.take(data.len() as int) =~= data);
}

/// Before each write and each flush it is asked whether the tunnel is stopping,
/// and one that is stopping is written no more.
pub proof fn law_stopping_ends_writing(writer: NonblockingWriter, event: WriteEventModel)
    requires
        writer.wf(),
        relay::write_fits(writer, event),
    ensures
        ({
            let (after, action) = relay::write_next(writer, event);
            &&& action is Write || action is Flush ==> event == WriteEventModel::Stop(false)
            &&& event == WriteEventModel::Stop(true) ==> after.phase == WritePhase::Over && action
                is Fail
        }),
{
}

/// A writer that is over waits for nothing more.
pub proof fn law_writer_ends_once(writer: NonblockingWriter, event: WriteEventModel)
    requires
        writer.phase == WritePhase::Over,
    ensures
        !relay::write_fits(writer, event),
{
}

/// A relay after a row of events, the bytes that it was given to read and those
/// that it counted as passed on.
pub open spec fn relay_run(events: Seq<RelayEventModel>) -> (Relay, nat, nat)
    decreases events.len(),
{
    if events.len() == 0 {
        (
            Relay {
                client_closed: false,
                channel_closed: false,
                progressed: false,
                phase: RelayPhase::Asking,
            },
            0,
            0,
        )
    } else {
        let (relay, read, passed) = relay_run(events.drop_last());
        let more = match events.last() {
            RelayEventModel::Read(count) => count as nat,
            _ => 0,
        };
        (
            relay::relay_next(relay, events.last()).0,
            read + more,
            passed + relay::passed_on(relay, events.last()),
        )
    }
}

/// Every event of a row is one that the relay waits for.
pub open spec fn relay_run_fits(events: Seq<RelayEventModel>) -> bool
    decreases events.len(),
{
    events.len() > 0 ==> {
        &&& relay_run_fits(events.drop_last())
        &&& relay::relay_fits(relay_run(events.drop_last()).0, events.last())
    }
}

/// The bytes that are being written.
pub open spec fn under_way(phase: RelayPhase) -> nat {
    match phase {
        RelayPhase::ChannelWrite(count) => count as nat,
        RelayPhase::ClientWrite(count) => count as nat,
        _ => 0,
    }
}

/// As long as a relay goes on, the bytes that were read are those counted as
/// passed on and those being written.
pub proof fn law_bytes_read_are_passed_on(events: Seq<RelayEventModel>)
    requires
        relay_run_fits(events),
        relay_run(events).0.phase != RelayPhase::Over,
    ensures
        ({
            let (relay, read, passed) = relay_run(events);
            read == passed + under_way(relay.phase)
        }),
    decreases events.len(),
{
    if events.len() > 0 {
        let before = relay_run(events.drop_last()).0;
        assert(before.phase != RelayPhase::Over);
        law_bytes_read_are_passed_on(events.drop_last());
    }
}

/// No more bytes are ever counted than were read.
pub proof fn law_count_is_no_more_than_read(events: Seq<RelayEventModel>)
    requires
        relay_run_fits(events),
    ensures
        relay_run(events).2 <= relay_run(events).1,
    decreases events.len(),
{
    if events.len() > 0 {
        let before = events.drop_last();
        assert(relay_run(before).0.phase != RelayPhase::Over);
        law_count_is_no_more_than_read(before);
        law_bytes_read_are_passed_on(before);
    }
}

/// What has gone through a relay.
#[verifier::ext_equal]
pub struct Trace {
    pub relay: Relay,
    /// What the client has sent.
    pub from_client: Seq<u8>,
    /// What the channel has got, in writes that are done.
    pub to_channel: Seq<u8>,
    /// What the channel has sent.
    pub from_channel: Seq<u8>,
    /// What the client has got, in writes that are done.
    pub to_client: Seq<u8>,
    /// What was read last.
    pub buffer: Seq<u8>,
}

/// What has gone through a relay after a row of events, each with the bytes that
/// were read in it, if any.
pub open spec fn traced(events: Seq<(RelayEventModel, Seq<u8>)>) -> Trace
    decreases events.len(),
{
    if events.len() == 0 {
        Trace {
            relay: Relay {
                client_closed: false,
                channel_closed: false,
                progressed: false,
                phase: RelayPhase::Asking,
            },
            from_client: Seq::empty(),
            to_channel: Seq::empty(),
            from_channel: Seq::empty(),
            to_client: Seq::empty(),
            buffer: Seq::empty(),
        }
    } else {
        let before = traced(events.drop_last());
        let (event, bytes) = events.last();
        let after = Trace { relay: relay::relay_next(before.relay, event).0, ..before };
        match (event, before.relay.phase) {
            (RelayEventModel::Read(_), RelayPhase::ClientRead) => Trace {
                from_client: before.from_client + bytes,
                buffer: bytes,
                ..after
            },
            (RelayEventModel::Read(_), _) => Trace {
                from_channel: before.from_channel + bytes,
                buffer: bytes,
                ..after
            },
            (RelayEventModel::Done, RelayPhase::ChannelWrite(count)) => Trace {
                to_channel: before.to_channel + before.buffer.take(count as int),
                ..after
            },
            (RelayEventModel::Done, RelayPhase::ClientWrite(count)) => Trace {
                to_client: before.to_client + before.buffer.take(count as int),
                ..after
            },
            _ => after,
        }
    }
}

/// Every event of a row is one that the relay waits for, and as many bytes were
/// read in each as it says.
pub open spec fn traced_fits(events: Seq<(RelayEventModel, Seq<u8>)>) -> bool
    decreases events.len(),
{
    events.len() > 0 ==> {
        &&& traced_fits(events.drop_last())
        &&& relay::relay_fits(traced(events.drop_last()).relay, events.last().0)
        &&& events.last().0 matches RelayEventModel::Read(count) ==> events.last().1.len() == count
    }
}

/// What is on its way to the channel.
pub open spec fn toward_channel(trace: Trace) -> Seq<u8> {
    if trace.relay.phase is ChannelWrite {
        trace.buffer
    } else {
        Seq::empty()
    }
}

/// What is on its way to the client.
pub open spec fn toward_client(trace: Trace) -> Seq<u8> {
    if trace.relay.phase is ClientWrite {
        trace.buffer
    } else {
        Seq::empty()
    }
}

proof fn lemma_traced(events: Seq<(RelayEventModel, Seq<u8>)>)
    requires
        traced_fits(events),
    ensures
        ({
            let trace = traced(events);
            let phase = trace.relay.phase;
            &&& trace.relay.wf()
            &&& phase matches RelayPhase::ChannelWrite(count) ==> trace.buffer.len() == count
            &&& phase matches RelayPhase::ClientWrite(count) ==> trace.buffer.len() == count
            &&& phase != RelayPhase::Over ==> trace.from_client == trace.to_channel
                + toward_channel(trace)
            &&& phase != RelayPhase::Over ==> trace.from_channel == trace.to_client
                + toward_client(trace)
            &&& trace.to_channel.is_prefix_of(trace.from_client)
            &&& trace.to_client.is_prefix_of(trace.from_channel)
        }),
    decreases events.len(),
{
    let trace = traced(events);
    if events.len() > 0 {
        let before = traced(events.drop_last());
        lemma_traced(events.drop_last());
        assert(before.relay.phase != RelayPhase::Over);
        if before.relay.phase is ChannelWrite || before.relay.phase is ClientWrite {
            assert(before.buffer.take(before.buffer.len() as int) =~= before.buffer);
        }
        assert(before.to_channel + Seq::<u8>::empty() =~= before.to_channel);
        assert(before.to_client + Seq::<u8>::empty() =~= before.to_client);
    }
    assert(trace.to_channel + Seq::<u8>::empty() =~= trace.to_channel);
    assert(trace.to_client + Seq::<u8>::empty() =~= trace.to_client);
}

/// In each direction, what arrives is what was sent, in order: as long as a relay
/// goes on, the channel has got all that the client has sent but for what is on
/// its way, and the client all that the channel has sent.
pub proof fn law_each_side_gets_what_the_other_sends(events: Seq<(RelayEventModel, Seq<u8>)>)
    requires
        traced_fits(events),
        traced(events).relay.phase != RelayPhase::Over,
    ensures
        ({
            let trace = traced(events);
            &&& trace.from_client == trace.to_channel + toward_channel(trace)
            &&& trace.from_channel == trace.to_client + toward_client(trace)
        }),
{
    lemma_traced(events);
}

/// However a relay ends, neither side has got anything but a beginning of what the
/// other has sent.
pub proof fn law_nothing_else_arrives(events: Seq<(RelayEventModel, Seq<u8>)>)
    requires
        traced_fits(events),
    ensures
        traced(events).to_channel.is_prefix_of(traced(events).from_client),
        traced(events).to_client.is_prefix_of(traced(events).from_channel),
{
    lemma_traced(events);
}

/// Over the whole run of a relay that finishes, the channel gets exactly what the
/// client has sent, and the client exactly what the channel has sent.
pub proof fn law_finished_relay_has_passed_on_all(events: Seq<(RelayEventModel, Seq<u8>)>)
    requires
        events.len() > 0,
        traced_fits(events),
        relay::relay_next(traced(events.drop_last()).relay, events.last().0).1 is Finish,
    ensures
        traced(events).to_channel == traced(events).from_client,
        traced(events).to_client == traced(events).from_channel,
{
    let before = traced(events.drop_last());
    lemma_traced(events.drop_last());
    assert(before.relay.phase is Asking);
    assert(before.to_channel + Seq::<u8>::empty() =~= before.to_channel);
    assert(before.to_client + Seq::<u8>::empty() =~= before.to_client);
}

/// A relay finishes only when the tunnel stops or when both sides have ended, and
/// then it does. A side that has ended stays so.
pub proof fn law_relay_finishes(relay: Relay, event: RelayEventModel)
    requires
        relay.wf(),
        relay::relay_fits(relay, event),
    ensures
        ({
            let (after, action) = relay::relay_next(relay, event);
            &&& action is Finish <==> event == RelayEventModel::Stop(true) || (event
                == RelayEventModel::Stop(false) && relay.client_closed && relay.channel_closed)
            &&& relay.client_closed ==> after.client_closed
            &&& relay.channel_closed ==> after.channel_closed
            &&& after.phase == RelayPhase::Over <==> action is Finish || action is Fail
        }),
{
}

/// What was read on one side is written to the other before anything else is
/// read, and the count of bytes is the same.
pub proof fn law_read_is_written_to_the_other_side(relay: Relay, count: usize)
    requires
        relay.wf(),
        relay::relay_fits(relay, RelayEventModel::Read(count)),
    ensures
        relay.phase == RelayPhase::ClientRead ==> relay::relay_next(
            relay,
            RelayEventModel::Read(count),
        ).1 == RelayActionModel::WriteChannel(count),
        relay.phase == RelayPhase::ChannelRead ==> relay::relay_next(
            relay,
            RelayEventModel::Read(count),
        ).1 == RelayActionModel::WriteClient(count),
{
}

/// A failure that only means waiting never ends a relay.
pub proof fn law_waiting_is_no_failure(relay: Relay, error: relay::IoFailureModel)
    requires
        relay.wf(),
        relay::relay_fits(relay, RelayEventModel::ReadFailed(error)),
        relay::must_wait(error),
    ensures
        relay::relay_next(relay, RelayEventModel::ReadFailed(error)).0.phase != RelayPhase::Over,
{
}

/// Every round reads each side that has not ended: as long as the tunnel is not
/// stopping, the client is read first, whether the channel has ended or not, and
/// once the client has ended the channel is.
pub proof fn law_every_round_reads_each_open_side(relay: Relay)
    requires
        relay.phase is Asking,
    ensures
        !relay.client_closed ==> ({
            let (after, action) = relay::relay_next(relay, RelayEventModel::Stop(false));
            &&& action == RelayActionModel::ReadClient
            &&& after.phase == RelayPhase::ClientRead
        }),
        relay.client_closed && !relay.channel_closed ==> ({
            let (after, action) = relay::relay_next(relay, RelayEventModel::Stop(false));
            &&& action == RelayActionModel::ReadChannel
            &&& after.phase == RelayPhase::ChannelRead
        }),
{
}

/// Once a round has done with the client, because its bytes are written on, or it
/// has nothing to say now, or its end is told, the round goes on with the channel
/// unless that has ended.
pub proof fn law_client_is_followed_by_channel(relay: Relay, event: RelayEventModel)
    requires
        relay.wf(),
        relay::relay_fits(relay, event),
        match event {
            RelayEventModel::Done => relay.phase is ChannelWrite || relay.phase is ClientEnd,
            RelayEventModel::ReadFailed(error) => relay.phase is ClientRead && relay::must_wait(
                error,
            ),
            _ => false,
        },
    ensures
        !relay.channel_closed ==> relay::relay_next(relay, event).1
            == RelayActionModel::ReadChannel && relay::relay_next(relay, event).0.phase
            == RelayPhase::ChannelRead,
        relay.channel_closed ==> relay::relay_next(relay, event).1 is AskStop
            || relay::relay_next(relay, event).1 is Rest,
{
}

/// Once a round has done with the channel it ends: nothing more is read before it
/// was asked whether the tunnel is stopping.
pub proof fn law_channel_ends_the_round(relay: Relay, event: RelayEventModel)
    requires
        relay.wf(),
        relay::relay_fits(relay, event),
        match event {
            RelayEventModel::Done => relay.phase is ClientWrite || relay.phase is ChannelEnd
                || relay.phase is Resting,
            RelayEventModel::Nothing(ended) => relay.phase is ChannelRead && !ended,
            RelayEventModel::ReadFailed(error) => relay.phase is ChannelRead && relay::must_wait(
                error,
            ),
            _ => false,
        },
    ensures
        ({
            let (after, action) = relay::relay_next(relay, event);
            &&& action is AskStop || action is Rest
            &&& action is AskStop <==> after.phase is Asking
            &&& action is Rest <==> after.phase is Resting
            &&& relay.phase is Resting || relay.phase is ClientWrite ==> action is AskStop
        }),
{
}

/// A relay rests only after a round in which nothing was passed on: a round starts
/// with nothing passed on, only a write that is done changes that, and a round
/// that has passed something on is followed by the next at once.
pub proof fn law_relay_rests_only_when_idle(relay: Relay, event: RelayEventModel)
    requires
        relay.wf(),
        relay::relay_fits(relay, event),
    ensures
        ({
            let (after, action) = relay::relay_next(relay, event);
            let writing = relay.phase is ChannelWrite || relay.phase is ClientWrite;
            &&& action is Rest ==> !after.progressed
            &&& action is AskStop ==> after.progressed || relay.phase is Resting
            &&& event == RelayEventModel::Done && writing ==> after.progressed
            &&& event == RelayEventModel::Stop(false) && !(action is Finish)
                ==> !after.progressed
            &&& !(event is Stop) && !(event is Done && writing) ==> after.progressed
                == relay.progressed
        }),
{
}

/// The end of each side is told to the other, once and nowhere else: that of the
/// client as soon as it gives nothing to read, that of the channel only where it
/// is known to have ended.
pub proof fn law_ends_are_told(relay: Relay, event: RelayEventModel)
    requires
        relay.wf(),
        relay::relay_fits(relay, event),
    ensures
        ({
            let (after, action) = relay::relay_next(relay, event);
            let client_ends = relay.phase is ClientRead && event is Nothing;
            let channel_ends = relay.phase is ChannelRead && event == RelayEventModel::Nothing(
                true,
            );
            &&& action is EndChannelInput <==> client_ends
            &&& action is EndClientInput <==> channel_ends
            &&& after.client_closed == (relay.client_closed || client_ends)
            &&& after.channel_closed == (relay.channel_closed || channel_ends)
        }),
{
}

/// Only an open side is read, and bytes are written only where they were read on
/// the other side.
pub proof fn law_only_open_sides_are_read(relay: Relay, event: RelayEventModel)
    requires
        relay.wf(),
        relay::relay_fits(relay, event),
    ensures
        ({
            let (after, action) = relay::relay_next(relay, event);
            &&& action is ReadClient <==> after.phase is ClientRead
            &&& action is ReadChannel <==> after.phase is ChannelRead
            &&& action is ReadClient ==> !after.client_closed && event == RelayEventModel::Stop(
                false,
            )
            &&& action is ReadChannel ==> !after.channel_closed
            &&& action is WriteChannel ==> relay.phase is ClientRead && event is Read
            &&& action is WriteClient ==> relay.phase is ChannelRead && event is Read
        }),
{
}

/// A relay that gives up says on which side it failed, in which direction, and
/// why; no reading that only has to wait makes it give up.
pub proof fn law_relay_tells_why_it_failed(relay: Relay, event: RelayEventModel)
    requires
        relay.wf(),
        relay::relay_fits(relay, event),
    ensures
        ({
            let action = relay::relay_next(relay, event).1;
            match event {
                RelayEventModel::WriteFailed(reason) => if relay.phase is ChannelWrite {
                    action == RelayActionModel::Fail("write to SSH channel failed: "@ + reason)
                } else {
                    action == RelayActionModel::Fail("write to client failed: "@ + reason)
                },
                RelayEventModel::ReadFailed(error) => if relay::must_wait(error) {
                    !(action is Fail)
                } else if relay.phase is ClientRead {
                    action == RelayActionModel::Fail("read from client failed: "@ + error.text)
                } else {
                    action == RelayActionModel::Fail(
                        "read from SSH channel failed: "@ + error.text,
                    )
                },
                _ => !(action is Fail),
            }
        }),
{
}

/// Exactly the bytes of a write that is done are counted, in either direction.
pub proof fn law_bytes_count_once_written(relay: Relay, event: RelayEventModel, count: usize)
    ensures
        relay::passed_on(
            Relay { phase: RelayPhase::ChannelWrite(count), ..relay },
            RelayEventModel::Done,
        ) == count,
        relay::passed_on(
            Relay { phase: RelayPhase::ClientWrite(count), ..relay },
            RelayEventModel::Done,
        ) == count,
        !(event is Done) ==> relay::passed_on(relay, event) == 0,
        !(relay.phase is ChannelWrite) && !(relay.phase is ClientWrite) ==> relay::passed_on(
            relay,
            event,
        ) == 0,
{
}

/// A failure means waiting where the system says so, and where its message, taken
/// apart somewhere, has `EAGAIN` or `WouldBlock` in the middle; no other does.
pub proof fn law_waiting_is_told_by_system_or_message(error: relay::IoFailureModel)
    ensures
        relay::must_wait(error) <==> {
            ||| error.would_block
            ||| exists|a: Seq<char>, b: Seq<char>| error.text == #[trigger] (a + "EAGAIN"@ + b)
            ||| exists|a: Seq<char>, b: Seq<char>| error.text == #[trigger] (a + "WouldBlock"@ + b)
        },
{
    text_laws::law_contains_is_a_middle(error.text, "EAGAIN"@);
    text_laws::law_contains_is_a_middle(error.text, "WouldBlock"@);
}

/// A writer that is not stopped offers the bytes from the first that is not
/// written yet, and flushes where none is left; what is taken is taken off, and
/// nothing else is.
pub proof fn law_writer_goes_on_where_it_was(writer: NonblockingWriter, event: WriteEventModel)
    requires
        writer.wf(),
        relay::write_fits(writer, event),
    ensures
        ({
            let (after, action) = relay::write_next(writer, event);
            &&& event == WriteEventModel::Stop(false) && writer.written < writer.len ==> action
                == WriteActionModel::Write(writer.written as nat) && after.phase
                == WritePhase::Writing
            &&& event == WriteEventModel::Stop(false) && writer.written == writer.len ==> action
                == WriteActionModel::Flush && after.phase == WritePhase::Flushing
            &&& event matches WriteEventModel::Wrote(count) ==> after.written == writer.written
                + count && action == WriteActionModel::AskStop && after.phase == WritePhase::Asking
            &&& !(event is Wrote) ==> after.written == writer.written
            &&& after.sink == writer.sink && after.len == writer.len
        }),
{
}

/// A sink that has to wait, and an SSH channel that takes nothing and has not
/// ended, are tried again after a rest; nothing that was written is lost or
/// repeated.
pub proof fn law_writer_waits_and_tries_again(writer: NonblockingWriter, event: WriteEventModel)
    requires
        writer.wf(),
        relay::write_fits(writer, event),
    ensures
        ({
            let (after, action) = relay::write_next(writer, event);
            let waits = match event {
                WriteEventModel::Failed(error) => relay::must_wait(error),
                WriteEventModel::Nothing(ended) => writer.sink == Sink::Channel && !ended,
                _ => false,
            };
            &&& action is Rest <==> waits
            &&& waits ==> after.phase == WritePhase::Resting
            &&& event is Done && writer.phase == WritePhase::Resting ==> action
                == WriteActionModel::AskStop && after.phase == WritePhase::Asking
            &&& event is Done && writer.phase == WritePhase::Flushing ==> action
                == WriteActionModel::Finish
            &&& action is Finish ==> event is Done && writer.phase == WritePhase::Flushing
        }),
{
}

/// A writer that gives up says why: that the tunnel stops, that a stream takes
/// nothing, that the channel has ended, or what went wrong.
pub proof fn law_writer_tells_why_it_failed(writer: NonblockingWriter, event: WriteEventModel)
    requires
        writer.wf(),
        relay::write_fits(writer, event),
    ensures
        relay::write_next(writer, event).1 matches WriteActionModel::Fail(reason) ==> match event {
            WriteEventModel::Stop(stopping) => stopping && reason == "tunnel is stopping"@,
            WriteEventModel::Nothing(ended) => if writer.sink == Sink::Stream {
                reason == "write returned zero"@
            } else {
                ended && reason == "ssh channel closed"@
            },
            WriteEventModel::Failed(error) => !relay::must_wait(error) && reason == error.text,
            _ => false,
        },
        event matches WriteEventModel::Failed(error) ==> (!relay::must_wait(error)
            ==> relay::write_next(writer, event).1 is Fail),
        event is Nothing && writer.sink == Sink::Stream ==> relay::write_next(writer, event).1
            is Fail,
        event == WriteEventModel::Nothing(true) ==> relay::write_next(writer, event).1 is Fail,
{
}

/// A sink that takes all bytes at once and is flushed gets all of them.
pub proof fn law_willing_sink_gets_everything(sink: Sink, data: Seq<u8>)
    requires
        0 < data.len() <= usize::MAX,
    ensures
        ({
            let events = seq![
                WriteEventModel::Stop(false),
                WriteEventModel::Wrote(data.len()),
                WriteEventModel::Stop(false),
                WriteEventModel::Done,
            ];
            &&& write_run_fits(sink, data, events)
            &&& write_outcome(sink, data, events) is Finish
            &&& write_run(sink, data, events).1 == data
        }),
{
    let none = Seq::<WriteEventModel>::empty();
    let one = none.push(WriteEventModel::Stop(false));
    let two = one.push(WriteEventModel::Wrote(data.len()));
    let three = two.push(WriteEventModel::Stop(false));
    let events = seq![
        WriteEventModel::Stop(false),
        WriteEventModel::Wrote(data.len()),
        WriteEventModel::Stop(false),
        WriteEventModel::Done,
    ];
    assert(one.drop_last() == none);
    assert(two.drop_last() == one);
    assert(three.drop_last() == two);
    assert(events.drop_last() == three);
    assert(write_run_fits(sink, data, none));
    assert(write_run_fits(sink, data, one));
    assert(write_run_fits(sink, data, two));
    assert(write_run_fits(sink, data, three));
    law_finished_writer_has_written_all(sink, data, events);
}

/// Bytes are moved in pieces of up to 32 kilobytes, and a rest takes five
/// milliseconds.
pub proof fn law_pieces_and_rests()
    ensures
        relay::RELAY_BUFFER == 32 * 1024,
        relay::RELAY_REST_MILLIS == 5,
{
}

/// Told that the tunnel is not stopping, a relay goes on to read the client unless
/// that has ended, whatever the channel has done, and otherwise the channel unless
/// that has ended too; nothing counts as passed on by it.
pub proof fn law_relay_reads_each_open_side(relay: &mut Relay, next: (RelayAction, usize))
    requires
        call_ensures(Relay::step, (relay, RelayEvent::Stop(false)), next),
        old(relay).phase is Asking,
    ensures
        !old(relay).client_closed ==> next.0 is ReadClient && final(relay).phase is ClientRead,
        old(relay).client_closed && !old(relay).channel_closed ==> next.0 is ReadChannel
            && final(relay).phase is ChannelRead,
        old(relay).client_closed && old(relay).channel_closed ==> next.0 is Finish,
        next.1 == 0,
        final(relay).client_closed == old(relay).client_closed,
        final(relay).channel_closed == old(relay).channel_closed,
{
}

/// Bytes that a relay is told of as read on one side it wants to have written to the
/// other, all of them, and they count once they are.
pub proof fn law_relay_writes_what_it_read(
    relay: &mut Relay,
    later: &mut Relay,
    count: usize,
    next: (RelayAction, usize),
    done: (RelayAction, usize),
)
    requires
        call_ensures(Relay::step, (relay, RelayEvent::Read(count)), next),
        call_ensures(Relay::step, (later, RelayEvent::Done), done),
        *old(later) == *final(relay),
        old(relay).phase is ClientRead || old(relay).phase is ChannelRead,
    ensures
        old(relay).phase is ClientRead ==> next.0 == RelayAction::WriteChannel(count),
        old(relay).phase is ChannelRead ==> next.0 == RelayAction::WriteClient(count),
        next.1 == 0,
        done.1 == count,
        final(later).progressed,
{
}

/// Told that the tunnel is not stopping, a writer offers what is left of its bytes,
/// or flushes where nothing is left.
pub proof fn law_writer_offers_what_is_left(writer: &mut NonblockingWriter, action: WriteAction)
    requires
        call_ensures(NonblockingWriter::step, (writer, WriteEvent::Stop(false)), action),
    ensures
        old(writer).written < old(writer).len ==> action == WriteAction::Write(
            old(writer).written,
        ),
        old(writer).written >= old(writer).len ==> action is Flush,
        final(writer).written == old(writer).written,
        final(writer).len == old(writer).len,
        final(writer).sink == old(writer).sink,
{
}

} // verus!
