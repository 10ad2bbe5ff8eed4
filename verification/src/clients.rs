//! Taking clients in and serving each of them.
//!
//! Each machine here says what is to be done next; whoever runs it does that, and
//! says what came of it.
use vstd::prelude::*;
use crate::proxy;
use crate::proxy::{proxy_success, ProxyRequest};

verus! {

/// Milliseconds to rest when no client waits at a tunnel on this machine.
pub const LOCAL_REST_MILLIS: u64 = 20;

/// Milliseconds to rest when no client waits at a tunnel on the server.
pub const REMOTE_REST_MILLIS: u64 = 40;

/// Where clients come from.
#[derive(Debug, Clone, Copy, PartialEq, Eq, Structural)]
pub enum Listening {
    /// From this machine.
    Local,
    /// From the server; each is led to a target.
    Remote,
}

/// What an [`AcceptLoop`] waits for.
#[derive(Debug, Clone, Copy, PartialEq, Eq, Structural)]
pub enum AcceptPhase {
    /// Whether the tunnel is stopping.
    Asking,
    /// A client.
    Accepting,
    /// Whether the tunnel is stopping, now that a client is there.
    AskingAgain,
    /// What came of connecting to the target.
    Connecting,
    /// Whether there was room for the client.
    Tracking,
    /// That the client is seen to.
    Settling,
    /// The end of a rest.
    Resting,
    /// Nothing: no more clients are taken in.
    Over,
}

/// Takes clients in, one after the other, until the tunnel stops.
#[derive(Debug, Clone, Copy, PartialEq, Eq, Structural)]
pub struct AcceptLoop {
    pub listening: Listening,
    pub phase: AcceptPhase,
}

/// What came of the last thing that was to be done.
#[derive(Debug, Clone, Copy, PartialEq, Eq, Structural)]
pub enum AcceptEvent {
    /// The tunnel is stopping, or is not.
    Stop(bool),
    /// A client is there.
    Client,
    /// No client is there; that is because none waits, or is not.
    NoClient(bool),
    /// The target was reached, or was not.
    Target(bool),
    /// There was room for the client, or was not.
    Room(bool),
    /// What was to be done is done.
    Done,
}

/// What is to be done next.
#[derive(Debug, Clone, Copy, PartialEq, Eq, Structural)]
pub enum AcceptAction {
    /// Say whether the tunnel is stopping.
    AskStop,
    /// Look for a client.
    Accept,
    /// Connect to the target.
    ConnectTarget,
    /// Take the client in, if there is room.
    Track,
    /// Serve the client, aside, and let it go at the end.
    Serve,
    /// Turn the client away.
    Reject,
    /// Rest for so many milliseconds.
    Rest(u64),
    /// Take in no more clients.
    End,
}

/// An event that the loop waits for.
pub open spec fn accept_fits(accepting: AcceptLoop, event: AcceptEvent) -> bool {
    match event {
        AcceptEvent::Stop(_) => accepting.phase == AcceptPhase::Asking || accepting.phase
            == AcceptPhase::AskingAgain,
        AcceptEvent::Client => accepting.phase == AcceptPhase::Accepting,
        AcceptEvent::NoClient(_) => accepting.phase == AcceptPhase::Accepting,
        AcceptEvent::Target(_) => accepting.phase == AcceptPhase::Connecting,
        AcceptEvent::Room(_) => accepting.phase == AcceptPhase::Tracking,
        AcceptEvent::Done => accepting.phase == AcceptPhase::Settling || accepting.phase
            == AcceptPhase::Resting,
    }
}

/// The phase of a loop and what it does next, after an event that it waited for.
pub open spec fn accept_next(accepting: AcceptLoop, event: AcceptEvent) -> (
    AcceptPhase,
    AcceptAction,
) {
    match event {
        AcceptEvent::Stop(true) => (AcceptPhase::Over, AcceptAction::End),
        AcceptEvent::Stop(false) => if accepting.phase == AcceptPhase::Asking {
            (AcceptPhase::Accepting, AcceptAction::Accept)
        } else {
            (AcceptPhase::Tracking, AcceptAction::Track)
        },
        AcceptEvent::Client => match accepting.listening {
            Listening::Local => (AcceptPhase::AskingAgain, AcceptAction::AskStop),
            Listening::Remote => (AcceptPhase::Connecting, AcceptAction::ConnectTarget),
        },
        AcceptEvent::NoClient(waiting) => match accepting.listening {
            Listening::Local => if waiting {
                (AcceptPhase::Resting, AcceptAction::Rest(LOCAL_REST_MILLIS))
            } else {
                (AcceptPhase::Over, AcceptAction::End)
            },
            Listening::Remote => (AcceptPhase::Resting, AcceptAction::Rest(REMOTE_REST_MILLIS)),
        },
        AcceptEvent::Target(reached) => if reached {
            (AcceptPhase::Tracking, AcceptAction::Track)
        } else {
            (AcceptPhase::Settling, AcceptAction::Reject)
        },
        AcceptEvent::Room(room) => if room {
            (AcceptPhase::Settling, AcceptAction::Serve)
        } else {
            (AcceptPhase::Settling, AcceptAction::Reject)
        },
        AcceptEvent::Done => (AcceptPhase::Asking, AcceptAction::AskStop),
    }
}

impl AcceptLoop {
    /// Only clients of this machine are asked about again, and only those of the
    /// server are led to a target.
    pub open spec fn wf(&self) -> bool {
        &&& self.phase == AcceptPhase::AskingAgain ==> self.listening == Listening::Local
        &&& self.phase == AcceptPhase::Connecting ==> self.listening == Listening::Remote
    }

    /// A loop at its beginning. It first asks whether the tunnel is stopping.
    pub fn new(listening: Listening) -> (accepting: AcceptLoop)
        ensures
            accepting.wf(),
            accepting == (AcceptLoop { listening, phase: AcceptPhase::Asking }),
    {
        AcceptLoop { listening, phase: AcceptPhase::Asking }
    }

    /// Takes in what came of the last thing to do; says what to do next.
    pub fn step(&mut self, event: AcceptEvent) -> (action: AcceptAction)
        requires
            old(self).wf(),
            accept_fits(*old(self), event),
        ensures
            final(self).wf(),
            final(self).listening == old(self).listening,
            (final(self).phase, action) == accept_next(*old(self), event),
    {
        let (phase, action) = match event {
            AcceptEvent::Stop(true) => (AcceptPhase::Over, AcceptAction::End),
            AcceptEvent::Stop(false) => if self.phase == AcceptPhase::Asking {
                (AcceptPhase::Accepting, AcceptAction::Accept)
            } else {
                (AcceptPhase::Tracking, AcceptAction::Track)
            },
            AcceptEvent::Client => match self.listening {
                Listening::Local => (AcceptPhase::AskingAgain, AcceptAction::AskStop),
                Listening::Remote => (AcceptPhase::Connecting, AcceptAction::ConnectTarget),
            },
            AcceptEvent::NoClient(waiting) => match self.listening {
                Listening::Local => if waiting {
                    (AcceptPhase::Resting, AcceptAction::Rest(LOCAL_REST_MILLIS))
                } else {
                    (AcceptPhase::Over, AcceptAction::End)
                },
                Listening::Remote => (
                    AcceptPhase::Resting,
                    AcceptAction::Rest(REMOTE_REST_MILLIS),
                ),
            },
            AcceptEvent::Target(reached) => if reached {
                (AcceptPhase::Tracking, AcceptAction::Track)
            } else {
                (AcceptPhase::Settling, AcceptAction::Reject)
            },
            AcceptEvent::Room(room) => if room {
                (AcceptPhase::Settling, AcceptAction::Serve)
            } else {
                (AcceptPhase::Settling, AcceptAction::Reject)
            },
            AcceptEvent::Done => (AcceptPhase::Asking, AcceptAction::AskStop),
        };
        self.phase = phase;
        action
    }
}

/// A client is served only if there was room for it, and no client is looked for
/// unless the tunnel was just found not to be stopping.
pub proof fn law_clients_are_served_with_room(accepting: AcceptLoop, event: AcceptEvent)
    requires
        accept_fits(accepting, event),
    ensures
        accept_next(accepting, event).1 == AcceptAction::Serve <==> event == AcceptEvent::Room(
            true,
        ),
        accept_next(accepting, event).1 == AcceptAction::Accept ==> event == AcceptEvent::Stop(
            false,
        ),
{
}

/// A tunnel on this machine takes a client in only if, now that it is there, the
/// tunnel is not stopping.
pub proof fn law_local_clients_are_asked_about(accepting: AcceptLoop, event: AcceptEvent)
    requires
        accepting.wf(),
        accept_fits(accepting, event),
        accepting.listening == Listening::Local,
    ensures
        accept_next(accepting, event).1 == AcceptAction::Track <==> accepting.phase
            == AcceptPhase::AskingAgain && event == AcceptEvent::Stop(false),
{
}

/// A tunnel on the server takes in clients until it is stopped: no failure ends
/// it.
pub proof fn law_remote_tunnel_ends_only_when_stopped(accepting: AcceptLoop, event: AcceptEvent)
    requires
        accept_fits(accepting, event),
        accepting.listening == Listening::Remote,
    ensures
        accept_next(accepting, event).1 == AcceptAction::End <==> event == AcceptEvent::Stop(
            true,
        ),
{
}

/// What a [`ClientTask`] waits for.
#[derive(Debug, Clone, Copy, PartialEq, Eq, Structural)]
pub enum TaskPhase {
    /// A connection to the SSH server.
    Connecting,
    /// What came of opening a channel over a connection, which stood before this
    /// client came, or did not.
    Opening(bool),
    /// A new connection to the SSH server.
    Reconnecting,
    /// That the client knows that its connection stands.
    Replying,
    /// That the host has got the first bytes.
    Prefacing,
    /// The end of what the client and the host have to say to each other.
    Relaying,
    /// Nothing: the client is served.
    Over,
}

/// Serves one client: leads it to a host and port over a channel of an SSH
/// connection.
#[derive(Debug)]
pub struct ClientTask {
    pub host: String,
    pub port: u16,
    /// Bytes that tell the client that its connection stands.
    pub reply: Vec<u8>,
    /// Bytes for the host, before anything that the client sends.
    pub preface: Vec<u8>,
    pub phase: TaskPhase,
}

/// What came of the last thing that was to be done.
#[derive(Debug)]
pub enum TaskEvent {
    /// A connection to the SSH server is there; it stood before this client came,
    /// or did not.
    Connected(bool),
    /// What was to be done is done.
    Done,
    /// It failed, for this reason.
    Failed(String),
}

/// What is to be done next.
#[derive(Debug)]
pub enum TaskAction {
    /// Open a channel to the host and port.
    OpenChannel,
    /// Make a new connection to the SSH server.
    Reconnect,
    /// Send the client the reply.
    SendReply,
    /// Send the host the first bytes.
    SendPreface,
    /// Pass on what the client and the host send each other.
    Relay,
    /// The client is served.
    Finish,
    /// Give up, for this reason.
    Fail(String),
}

/// The content of a [`TaskEvent`].
pub enum TaskEventModel {
    Connected(bool),
    Done,
    Failed(Seq<char>),
}

/// The content of a [`TaskAction`].
pub enum TaskActionModel {
    OpenChannel,
    Reconnect,
    SendReply,
    SendPreface,
    Relay,
    Finish,
    Fail(Seq<char>),
}

impl View for TaskEvent {
    type V = TaskEventModel;

    open spec fn view(&self) -> TaskEventModel {
        match self {
            TaskEvent::Connected(before) => TaskEventModel::Connected(*before),
            TaskEvent::Done => TaskEventModel::Done,
            TaskEvent::Failed(reason) => TaskEventModel::Failed(reason@),
        }
    }
}

impl View for TaskAction {
    type V = TaskActionModel;

    open spec fn view(&self) -> TaskActionModel {
        match self {
            TaskAction::OpenChannel => TaskActionModel::OpenChannel,
            TaskAction::Reconnect => TaskActionModel::Reconnect,
            TaskAction::SendReply => TaskActionModel::SendReply,
            TaskAction::SendPreface => TaskActionModel::SendPreface,
            TaskAction::Relay => TaskActionModel::Relay,
            TaskAction::Finish => TaskActionModel::Finish,
            TaskAction::Fail(reason) => TaskActionModel::Fail(reason@),
        }
    }
}

/// An event that the task waits for.
pub open spec fn task_fits(phase: TaskPhase, event: TaskEventModel) -> bool {
    let connecting = phase is Connecting || phase is Reconnecting;
    match event {
        TaskEventModel::Connected(_) => connecting,
        TaskEventModel::Done => !connecting && !(phase is Over),
        TaskEventModel::Failed(_) => !(phase is Over),
    }
}

/// What comes once the client knows that its connection stands: the first bytes
/// for the host, if there are any.
pub open spec fn after_reply(preface: Seq<u8>) -> (TaskPhase, TaskActionModel) {
    if preface.len() > 0 {
        (TaskPhase::Prefacing, TaskActionModel::SendPreface)
    } else {
        (TaskPhase::Relaying, TaskActionModel::Relay)
    }
}

/// The phase of a task and what it does next, after an event that it waited for.
/// A channel that does not open over a connection that stood before is tried
/// once more over a new one.
pub open spec fn task_next(
    reply: Seq<u8>,
    preface: Seq<u8>,
    phase: TaskPhase,
    event: TaskEventModel,
) -> (TaskPhase, TaskActionModel) {
    match event {
        TaskEventModel::Connected(before) => (
            TaskPhase::Opening(before && phase is Connecting),
            TaskActionModel::OpenChannel,
        ),
        TaskEventModel::Done => match phase {
            TaskPhase::Opening(_) => if reply.len() > 0 {
                (TaskPhase::Replying, TaskActionModel::SendReply)
            } else {
                after_reply(preface)
            },
            TaskPhase::Replying => after_reply(preface),
            TaskPhase::Prefacing => (TaskPhase::Relaying, TaskActionModel::Relay),
            _ => (TaskPhase::Over, TaskActionModel::Finish),
        },
        TaskEventModel::Failed(reason) => if phase == TaskPhase::Opening(true) {
            (TaskPhase::Reconnecting, TaskActionModel::Reconnect)
        } else {
            (TaskPhase::Over, TaskActionModel::Fail(reason))
        },
    }
}

impl ClientTask {
    /// Leads a client to a fixed host and port.
    pub fn to_target(host: String, port: u16) -> (task: ClientTask)
        ensures
            task.host@ == host@,
            task.port == port,
            task.reply@.len() == 0,
            task.preface@.len() == 0,
            task.phase == TaskPhase::Connecting,
    {
        ClientTask {
            host,
            port,
            reply: Vec::new(),
            preface: Vec::new(),
            phase: TaskPhase::Connecting,
        }
    }

    /// Leads a client where it has asked to go.
    pub fn for_request(request: ProxyRequest) -> (task: ClientTask)
        ensures
            task.host@ == request.host@,
            task.port == request.port,
            task.reply@ == proxy::success_reply(request.protocol),
            task.preface@ == request.preface@,
            task.phase == TaskPhase::Connecting,
    {
        ClientTask {
            host: request.host,
            port: request.port,
            reply: proxy_success(request.protocol),
            preface: request.preface,
            phase: TaskPhase::Connecting,
        }
    }

    fn go_on(&mut self) -> (action: TaskAction)
        ensures
            (final(self).phase, action@) == after_reply(old(self).preface@),
            final(self).host == old(self).host,
            final(self).port == old(self).port,
            final(self).reply == old(self).reply,
            final(self).preface == old(self).preface,
    {
        if self.preface.len() > 0 {
            self.phase = TaskPhase::Prefacing;
            TaskAction::SendPreface
        } else {
            self.phase = TaskPhase::Relaying;
            TaskAction::Relay
        }
    }

    /// Takes in what came of the last thing to do; says what to do next. The task
    /// begins by waiting for a connection to the SSH server.
    pub fn step(&mut self, event: TaskEvent) -> (action: TaskAction)
        requires
            task_fits(old(self).phase, event@),
        ensures
            (final(self).phase, action@) == task_next(
                old(self).reply@,
                old(self).preface@,
                old(self).phase,
                event@,
            ),
            final(self).host == old(self).host,
            final(self).port == old(self).port,
            final(self).reply == old(self).reply,
            final(self).preface == old(self).preface,
    {
        match event {
            TaskEvent::Connected(before) => {
                let first = self.phase == TaskPhase::Connecting;
                self.phase = TaskPhase::Opening(before && first);
                TaskAction::OpenChannel
            },
            TaskEvent::Done => {
                match self.phase {
                    TaskPhase::Opening(_) => {
                        if self.reply.len() > 0 {
                            self.phase = TaskPhase::Replying;
                            TaskAction::SendReply
                        } else {
                            self.go_on()
                        }
                    },
                    TaskPhase::Replying => self.go_on(),
                    TaskPhase::Prefacing => {
                        self.phase = TaskPhase::Relaying;
                        TaskAction::Relay
                    },
                    _ => {
                        self.phase = TaskPhase::Over;
                        TaskAction::Finish
                    },
                }
            },
            TaskEvent::Failed(reason) => {
                if self.phase == TaskPhase::Opening(true) {
                    self.phase = TaskPhase::Reconnecting;
                    TaskAction::Reconnect
                } else {
                    self.phase = TaskPhase::Over;
                    TaskAction::Fail(reason)
                }
            },
        }
    }
}

/// How much a task can still do: every step makes it less.
pub open spec fn task_rank(phase: TaskPhase) -> nat {
    match phase {
        TaskPhase::Connecting => 7,
        TaskPhase::Opening(true) => 6,
        TaskPhase::Reconnecting => 5,
        TaskPhase::Opening(false) => 4,
        TaskPhase::Replying => 3,
        TaskPhase::Prefacing => 2,
        TaskPhase::Relaying => 1,
        TaskPhase::Over => 0,
    }
}

/// A client is seen to in a few steps: no channel is tried more than twice.
pub proof fn law_task_comes_to_an_end(
    reply: Seq<u8>,
    preface: Seq<u8>,
    phase: TaskPhase,
    event: TaskEventModel,
)
    requires
        task_fits(phase, event),
    ensures
        task_rank(task_next(reply, preface, phase, event).0) < task_rank(phase),
{
}

/// A channel is tried again only where the connection stood before the client
/// came; every other failure ends the task and is told as it is.
pub proof fn law_only_an_old_connection_is_replaced(
    reply: Seq<u8>,
    preface: Seq<u8>,
    phase: TaskPhase,
    reason: Seq<char>,
)
    requires
        !(phase is Over),
    ensures
        task_next(reply, preface, phase, TaskEventModel::Failed(reason)).1 == if phase
            == TaskPhase::Opening(true) {
            TaskActionModel::Reconnect
        } else {
            TaskActionModel::Fail(reason)
        },
{
}

/// A client hears that its connection stands only once its channel is open, and
/// nothing of what it sends goes to the host before the first bytes.
pub proof fn law_reply_follows_channel(
    reply: Seq<u8>,
    preface: Seq<u8>,
    phase: TaskPhase,
    event: TaskEventModel,
)
    requires
        task_fits(phase, event),
    ensures
        task_next(reply, preface, phase, event).1 is SendReply ==> phase is Opening && event
            is Done,
        task_next(reply, preface, phase, event).1 is Relay ==> phase is Prefacing || preface.len()
            == 0,
        task_next(reply, preface, phase, event).1 is Finish ==> phase is Relaying && event is Done,
{
}

/// Before each client the loop asks whether the tunnel is stopping, and a tunnel
/// that is not stopping looks for one.
pub proof fn law_loop_looks_for_the_next_client(accepting: AcceptLoop)
    ensures
        accepting.phase == AcceptPhase::Asking ==> accept_next(accepting, AcceptEvent::Stop(false))
            == (AcceptPhase::Accepting, AcceptAction::Accept),
        accepting.phase == AcceptPhase::Settling || accepting.phase == AcceptPhase::Resting
            ==> accept_next(accepting, AcceptEvent::Done) == (
            AcceptPhase::Asking,
            AcceptAction::AskStop,
        ),
        accept_next(accepting, AcceptEvent::Stop(true)) == (AcceptPhase::Over, AcceptAction::End),
{
}

/// A client of this machine is taken in once the tunnel was asked again; one of the
/// server once its target was reached, and it is turned away where that fails.
pub proof fn law_client_is_taken_in(accepting: AcceptLoop)
    ensures
        accepting.listening == Listening::Local ==> accept_next(accepting, AcceptEvent::Client) == (
            AcceptPhase::AskingAgain,
            AcceptAction::AskStop,
        ),
        accepting.listening == Listening::Remote ==> accept_next(accepting, AcceptEvent::Client)
            == (AcceptPhase::Connecting, AcceptAction::ConnectTarget),
        accepting.phase == AcceptPhase::AskingAgain ==> accept_next(
            accepting,
            AcceptEvent::Stop(false),
        ) == (AcceptPhase::Tracking, AcceptAction::Track),
        accept_next(accepting, AcceptEvent::Target(true)) == (
            AcceptPhase::Tracking,
            AcceptAction::Track,
        ),
        accept_next(accepting, AcceptEvent::Target(false)) == (
            AcceptPhase::Settling,
            AcceptAction::Reject,
        ),
        accept_next(accepting, AcceptEvent::Room(true)) == (
            AcceptPhase::Settling,
            AcceptAction::Serve,
        ),
        accept_next(accepting, AcceptEvent::Room(false)) == (
            AcceptPhase::Settling,
            AcceptAction::Reject,
        ),
{
}

/// Where no client waits, a tunnel on this machine rests for 20 milliseconds and one
/// on the server for 40. A failure ends the first kind and not the second.
pub proof fn law_loop_rests_without_clients(accepting: AcceptLoop, waiting: bool)
    ensures
        accepting.listening == Listening::Local && waiting ==> accept_next(
            accepting,
            AcceptEvent::NoClient(waiting),
        ) == (AcceptPhase::Resting, AcceptAction::Rest(20)),
        accepting.listening == Listening::Local && !waiting ==> accept_next(
            accepting,
            AcceptEvent::NoClient(waiting),
        ) == (AcceptPhase::Over, AcceptAction::End),
        accepting.listening == Listening::Remote ==> accept_next(
            accepting,
            AcceptEvent::NoClient(waiting),
        ) == (AcceptPhase::Resting, AcceptAction::Rest(40)),
{
}

/// A connection to the server is used to open a channel, whether it is an old or a
/// new one; it counts as old only where it stood before the client came and was not
/// made for it.
pub proof fn law_connection_opens_a_channel(
    reply: Seq<u8>,
    preface: Seq<u8>,
    phase: TaskPhase,
    before: bool,
)
    ensures
        ({
            let (after, action) = task_next(
                reply,
                preface,
                phase,
                TaskEventModel::Connected(before),
            );
            &&& action is OpenChannel
            &&& after is Opening
            &&& after == TaskPhase::Opening(true) <==> before && phase is Connecting
        }),
{
}

/// Over an open channel the client is answered, then the host gets the first bytes,
/// then what both send is passed on; what there is nothing of is left out. When all
/// has been passed on, the client is served.
pub proof fn law_client_is_served_in_order(
    reply: Seq<u8>,
    preface: Seq<u8>,
    phase: TaskPhase,
)
    requires
        task_fits(phase, TaskEventModel::Done),
    ensures
        ({
            let (after, action) = task_next(reply, preface, phase, TaskEventModel::Done);
            let opened = phase is Opening;
            let answered = phase is Replying || (opened && reply.len() == 0);
            let told = phase is Prefacing || (answered && preface.len() == 0);
            &&& opened && reply.len() > 0 ==> action is SendReply && after is Replying
            &&& answered && preface.len() > 0 ==> action is SendPreface && after is Prefacing
            &&& told ==> action is Relay && after is Relaying
            &&& phase is Relaying ==> action is Finish && after is Over
        }),
{
}

/// A client that asked for a host and port is led there, is answered in the
/// protocol in which it asked, and what it sent for the host goes there first.
pub proof fn law_request_is_led_where_it_asks(request: ProxyRequest, task: ClientTask)
    requires
        call_ensures(ClientTask::for_request, (request,), task),
    ensures
        task.host@ == request.host@,
        task.port == request.port,
        task.preface@ == request.preface@,
        request.protocol == proxy::ProxyProtocol::HttpForward ==> task.reply@.len() == 0,
        request.protocol == proxy::ProxyProtocol::Socks5 ==> task.reply@.len() == 10
            && task.reply@[1] == 0,
        task.phase is Connecting,
{
}

/// A client of a tunnel with a fixed target is led there; it is told nothing, and the
/// host gets nothing that the client has not sent.
pub proof fn law_fixed_target(host: String, port: u16, task: ClientTask)
    requires
        call_ensures(ClientTask::to_target, (host, port), task),
    ensures
        task.host@ == host@,
        task.port == port,
        task.reply@.len() == 0,
        task.preface@.len() == 0,
        task.phase is Connecting,
{
}

} // verus!
