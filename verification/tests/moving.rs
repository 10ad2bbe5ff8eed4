use wormhole::clients::{
    AcceptAction, AcceptEvent, AcceptLoop, AcceptPhase, ClientTask, Listening, TaskAction,
    TaskEvent, TaskPhase,
};
use wormhole::proxy::{ProxyProtocol, ProxyRequest};
use wormhole::relay::{
    is_would_block, IoFailure, NonblockingWriter, Relay, RelayAction, RelayEvent, RelayPhase, Sink,
    WriteAction, WriteEvent, WritePhase,
};

fn failure(would_block: bool, text: &str) -> IoFailure {
    IoFailure {
        would_block,
        text: text.to_string(),
    }
}

#[test]
fn failures_that_mean_waiting_are_told_apart() {
    assert!(is_would_block(&failure(true, "anything")));
    assert!(is_would_block(&failure(false, "os error EAGAIN (35)")));
    assert!(is_would_block(&failure(false, "WouldBlock")));
    assert!(!is_would_block(&failure(false, "wouldblock")));
    assert!(!is_would_block(&failure(false, "broken pipe")));
}

/// Writes to a sink that takes bytes by turns; gives what it got and the end.
fn write_in_turns(sink: Sink, data: &[u8], turns: &[usize]) -> (Vec<u8>, Result<(), String>) {
    let mut writer = NonblockingWriter::new(sink, data.len());
    let mut got = Vec::new();
    let mut turn = turns.iter();
    let mut action = WriteAction::AskStop;
    loop {
        let event = match action {
            WriteAction::AskStop => WriteEvent::Stop(false),
            WriteAction::Write(from) => match turn.next() {
                Some(0) => WriteEvent::Nothing(false),
                Some(99) => WriteEvent::Failed(failure(true, "")),
                Some(n) => {
                    let n = (*n).min(data.len() - from);
                    got.extend(&data[from..from + n]);
                    WriteEvent::Wrote(n)
                }
                None => WriteEvent::Nothing(true),
            },
            WriteAction::Flush | WriteAction::Rest => WriteEvent::Done,
            WriteAction::Finish => return (got, Ok(())),
            WriteAction::Fail(reason) => return (got, Err(reason)),
        };
        action = writer.step(event);
    }
}

#[test]
fn writer_writes_everything_once() {
    let data: Vec<u8> = (0..50).collect();
    let (got, end) = write_in_turns(Sink::Channel, &data, &[7, 0, 99, 1, 20, 0, 40]);
    assert_eq!(got, data);
    assert_eq!(end, Ok(()));
    let (got, end) = write_in_turns(Sink::Stream, &data, &[1, 99, 60]);
    assert_eq!(got, data);
    assert_eq!(end, Ok(()));
    assert_eq!(write_in_turns(Sink::Stream, &[], &[]), (vec![], Ok(())));
}

#[test]
fn writer_gives_up_on_a_sink_that_is_gone() {
    assert_eq!(
        write_in_turns(Sink::Channel, &[1, 2], &[1]),
        (vec![1], Err("ssh channel closed".to_string()))
    );
    assert_eq!(
        write_in_turns(Sink::Stream, &[1, 2], &[0]),
        (vec![], Err("write returned zero".to_string()))
    );
    let mut writer = NonblockingWriter::new(Sink::Stream, 4);
    assert!(matches!(
        writer.step(WriteEvent::Stop(false)),
        WriteAction::Write(0)
    ));
    match writer.step(WriteEvent::Failed(failure(false, "broken pipe"))) {
        WriteAction::Fail(reason) => assert_eq!(reason, "broken pipe"),
        other => panic!("{other:?}"),
    }
    assert_eq!(writer.phase, WritePhase::Over);
}

#[test]
fn stopping_tunnel_is_written_to_no_more() {
    let mut writer = NonblockingWriter::new(Sink::Channel, 3);
    writer.step(WriteEvent::Stop(false));
    assert!(matches!(
        writer.step(WriteEvent::Wrote(3)),
        WriteAction::AskStop
    ));
    match writer.step(WriteEvent::Stop(true)) {
        WriteAction::Fail(reason) => assert_eq!(reason, "tunnel is stopping"),
        other => panic!("{other:?}"),
    }
}

#[test]
fn relay_passes_bytes_both_ways() {
    let mut relay = Relay::new();
    let mut passed = 0;
    let mut step = |event| {
        let (action, count) = relay.step(event);
        passed += count;
        action
    };
    assert!(matches!(step(RelayEvent::Stop(false)), RelayAction::ReadClient));
    assert!(matches!(step(RelayEvent::Read(10)), RelayAction::WriteChannel(10)));
    assert!(matches!(step(RelayEvent::Done), RelayAction::ReadChannel));
    assert!(matches!(step(RelayEvent::Read(4)), RelayAction::WriteClient(4)));
    assert!(matches!(step(RelayEvent::Done), RelayAction::AskStop));
    assert!(matches!(step(RelayEvent::Stop(false)), RelayAction::ReadClient));
    assert!(matches!(
        step(RelayEvent::ReadFailed(failure(true, ""))),
        RelayAction::ReadChannel
    ));
    assert!(matches!(step(RelayEvent::Nothing(false)), RelayAction::Rest));
    assert!(matches!(step(RelayEvent::Done), RelayAction::AskStop));
    assert!(matches!(step(RelayEvent::Stop(false)), RelayAction::ReadClient));
    assert!(matches!(step(RelayEvent::Nothing(true)), RelayAction::EndChannelInput));
    assert!(matches!(step(RelayEvent::Done), RelayAction::ReadChannel));
    assert!(matches!(step(RelayEvent::Read(5)), RelayAction::WriteClient(5)));
    assert!(matches!(step(RelayEvent::Done), RelayAction::AskStop));
    assert!(matches!(step(RelayEvent::Stop(false)), RelayAction::ReadChannel));
    assert!(matches!(step(RelayEvent::Nothing(true)), RelayAction::EndClientInput));
    assert!(matches!(step(RelayEvent::Done), RelayAction::Rest));
    assert!(matches!(step(RelayEvent::Done), RelayAction::AskStop));
    assert!(matches!(step(RelayEvent::Stop(false)), RelayAction::Finish));
    assert_eq!(passed, 19);
    assert_eq!(relay.phase, RelayPhase::Over);
}

#[test]
fn relay_ends_when_the_tunnel_stops() {
    let mut relay = Relay::new();
    assert!(matches!(
        relay.step(RelayEvent::Stop(true)),
        (RelayAction::Finish, 0)
    ));
}

#[test]
fn relay_says_what_failed() {
    let reason = |steps: Vec<RelayEvent>| {
        let mut relay = Relay::new();
        let mut last = None;
        for event in steps {
            last = Some(relay.step(event).0);
        }
        match last {
            Some(RelayAction::Fail(reason)) => reason,
            other => panic!("{other:?}"),
        }
    };
    let start = || RelayEvent::Stop(false);
    let wait = || RelayEvent::ReadFailed(failure(false, "EAGAIN"));
    assert_eq!(
        reason(vec![start(), RelayEvent::ReadFailed(failure(false, "reset"))]),
        "read from client failed: reset"
    );
    assert_eq!(
        reason(vec![
            start(),
            wait(),
            RelayEvent::ReadFailed(failure(false, "gone"))
        ]),
        "read from SSH channel failed: gone"
    );
    assert_eq!(
        reason(vec![
            start(),
            RelayEvent::Read(1),
            RelayEvent::WriteFailed("ssh channel closed".to_string())
        ]),
        "write to SSH channel failed: ssh channel closed"
    );
    assert_eq!(
        reason(vec![
            start(),
            wait(),
            RelayEvent::Read(1),
            RelayEvent::WriteFailed("write returned zero".to_string())
        ]),
        "write to client failed: write returned zero"
    );
}

#[test]
fn local_tunnel_takes_clients_in() {
    let mut accepting = AcceptLoop::new(Listening::Local);
    assert_eq!(accepting.step(AcceptEvent::Stop(false)), AcceptAction::Accept);
    assert_eq!(accepting.step(AcceptEvent::NoClient(true)), AcceptAction::Rest(20));
    assert_eq!(accepting.step(AcceptEvent::Done), AcceptAction::AskStop);
    assert_eq!(accepting.step(AcceptEvent::Stop(false)), AcceptAction::Accept);
    assert_eq!(accepting.step(AcceptEvent::Client), AcceptAction::AskStop);
    assert_eq!(accepting.step(AcceptEvent::Stop(false)), AcceptAction::Track);
    assert_eq!(accepting.step(AcceptEvent::Room(true)), AcceptAction::Serve);
    assert_eq!(accepting.step(AcceptEvent::Done), AcceptAction::AskStop);
    assert_eq!(accepting.step(AcceptEvent::Stop(false)), AcceptAction::Accept);
    assert_eq!(accepting.step(AcceptEvent::Client), AcceptAction::AskStop);
    assert_eq!(accepting.step(AcceptEvent::Stop(false)), AcceptAction::Track);
    assert_eq!(accepting.step(AcceptEvent::Room(false)), AcceptAction::Reject);
    assert_eq!(accepting.step(AcceptEvent::Done), AcceptAction::AskStop);
    assert_eq!(accepting.step(AcceptEvent::Stop(false)), AcceptAction::Accept);
    assert_eq!(accepting.step(AcceptEvent::NoClient(false)), AcceptAction::End);
    assert_eq!(accepting.phase, AcceptPhase::Over);
}

#[test]
fn local_tunnel_drops_a_client_that_comes_too_late() {
    let mut accepting = AcceptLoop::new(Listening::Local);
    accepting.step(AcceptEvent::Stop(false));
    accepting.step(AcceptEvent::Client);
    assert_eq!(accepting.step(AcceptEvent::Stop(true)), AcceptAction::End);
}

#[test]
fn remote_tunnel_leads_clients_to_its_target() {
    let mut accepting = AcceptLoop::new(Listening::Remote);
    assert_eq!(accepting.step(AcceptEvent::Stop(false)), AcceptAction::Accept);
    assert_eq!(accepting.step(AcceptEvent::NoClient(false)), AcceptAction::Rest(40));
    assert_eq!(accepting.step(AcceptEvent::Done), AcceptAction::AskStop);
    accepting.step(AcceptEvent::Stop(false));
    assert_eq!(accepting.step(AcceptEvent::Client), AcceptAction::ConnectTarget);
    assert_eq!(accepting.step(AcceptEvent::Target(false)), AcceptAction::Reject);
    accepting.step(AcceptEvent::Done);
    accepting.step(AcceptEvent::Stop(false));
    accepting.step(AcceptEvent::Client);
    assert_eq!(accepting.step(AcceptEvent::Target(true)), AcceptAction::Track);
    assert_eq!(accepting.step(AcceptEvent::Room(true)), AcceptAction::Serve);
    accepting.step(AcceptEvent::Done);
    assert_eq!(accepting.step(AcceptEvent::Stop(true)), AcceptAction::End);
}

#[test]
fn client_of_a_fixed_target_is_served() {
    let mut task = ClientTask::to_target("db".to_string(), 5432);
    assert_eq!((task.host.as_str(), task.port), ("db", 5432));
    assert!(matches!(task.step(TaskEvent::Connected(false)), TaskAction::OpenChannel));
    assert!(matches!(task.step(TaskEvent::Done), TaskAction::Relay));
    assert!(matches!(task.step(TaskEvent::Done), TaskAction::Finish));
    assert_eq!(task.phase, TaskPhase::Over);
}

#[test]
fn proxy_client_hears_of_its_connection_first() {
    let mut task = ClientTask::for_request(ProxyRequest {
        protocol: ProxyProtocol::Socks5,
        host: "h".to_string(),
        port: 1,
        preface: vec![9],
    });
    assert_eq!(task.reply, [5, 0, 0, 1, 0, 0, 0, 0, 0, 0]);
    task.step(TaskEvent::Connected(true));
    assert!(matches!(task.step(TaskEvent::Done), TaskAction::SendReply));
    assert!(matches!(task.step(TaskEvent::Done), TaskAction::SendPreface));
    assert!(matches!(task.step(TaskEvent::Done), TaskAction::Relay));
}

#[test]
fn forwarded_request_is_not_answered_by_the_proxy() {
    let mut task = ClientTask::for_request(ProxyRequest {
        protocol: ProxyProtocol::HttpForward,
        host: "h".to_string(),
        port: 80,
        preface: b"GET / HTTP/1.1\r\n\r\n".to_vec(),
    });
    task.step(TaskEvent::Connected(false));
    assert!(matches!(task.step(TaskEvent::Done), TaskAction::SendPreface));
}

#[test]
fn old_connection_is_replaced_once() {
    let mut task = ClientTask::to_target("h".to_string(), 1);
    task.step(TaskEvent::Connected(true));
    assert!(matches!(
        task.step(TaskEvent::Failed("first".to_string())),
        TaskAction::Reconnect
    ));
    assert!(matches!(task.step(TaskEvent::Connected(true)), TaskAction::OpenChannel));
    match task.step(TaskEvent::Failed("second".to_string())) {
        TaskAction::Fail(reason) => assert_eq!(reason, "second"),
        other => panic!("{other:?}"),
    }

    let mut task = ClientTask::to_target("h".to_string(), 1);
    task.step(TaskEvent::Connected(false));
    match task.step(TaskEvent::Failed("only".to_string())) {
        TaskAction::Fail(reason) => assert_eq!(reason, "only"),
        other => panic!("{other:?}"),
    }
}

#[test]
fn relay_passes_on_exactly_what_was_sent() {
    let mut client_sends: Vec<&[u8]> = vec![b"GET / ", b"HTTP/1.1"];
    let mut channel_sends: Vec<&[u8]> = vec![b"2", b"00 ", b"OK"];
    client_sends.reverse();
    channel_sends.reverse();
    let mut client_got: Vec<u8> = Vec::new();
    let mut channel_got: Vec<u8> = Vec::new();
    let mut buffer: &[u8] = &[];
    let mut relay = Relay::new();
    let mut action = RelayAction::AskStop;
    loop {
        let event = match action {
            RelayAction::AskStop => RelayEvent::Stop(false),
            RelayAction::ReadClient => match client_sends.pop() {
                Some(bytes) => {
                    buffer = bytes;
                    RelayEvent::Read(bytes.len())
                }
                None => RelayEvent::Nothing(true),
            },
            RelayAction::ReadChannel => match channel_sends.pop() {
                Some(bytes) => {
                    buffer = bytes;
                    RelayEvent::Read(bytes.len())
                }
                None => RelayEvent::Nothing(true),
            },
            RelayAction::WriteChannel(count) => {
                channel_got.extend(&buffer[..count]);
                RelayEvent::Done
            }
            RelayAction::WriteClient(count) => {
                client_got.extend(&buffer[..count]);
                RelayEvent::Done
            }
            RelayAction::EndChannelInput | RelayAction::EndClientInput | RelayAction::Rest => {
                RelayEvent::Done
            }
            RelayAction::Finish => break,
            RelayAction::Fail(reason) => panic!("{reason}"),
        };
        action = relay.step(event).0;
    }
    assert_eq!(channel_got, b"GET / HTTP/1.1");
    assert_eq!(client_got, b"200 OK");
}
