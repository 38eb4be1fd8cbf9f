//! The state machine of one terminal session. The hosting program owns the
//! network session, the pseudo-terminal, the child process and the reader
//! thread; it hands each thing that happens to [`TerminalSession::step`] as an
//! [`Event`] and performs the [`Action`]s that come back, in order.
use vstd::prelude::*;
use vstd::utf8::encode_utf8;
use crate::protocol::{classify_text, text_command, TextCommand};

verus! {

/// Columns of a fresh session's pseudo-terminal.
pub const DEFAULT_COLS: u16 = 80;

/// Rows of a fresh session's pseudo-terminal.
pub const DEFAULT_ROWS: u16 = 24;

#[derive(PartialEq, Eq, Structural, Clone, Copy, Debug)]
pub enum Phase {
    /// Admitted; the shell is being started.
    Establishing,
    /// Relaying bytes in both directions.
    Active,
    /// Teardown has been ordered; nothing more is sent.
    Closing,
    /// Every resource of the session has been released.
    Closed,
}

/// One session's state: its phase and the geometry last asked of the device.
#[derive(PartialEq, Eq, Structural, Clone, Copy, Debug)]
pub struct TerminalSession {
    pub phase: Phase,
    pub cols: u16,
    pub rows: u16,
}

/// A message read from the network session.
#[derive(Clone, Debug, PartialEq, Eq)]
pub enum Frame {
    Binary(Vec<u8>),
    Text(String),
    Ping(Vec<u8>),
    Pong(Vec<u8>),
    Close,
}

/// Something that happened to a session.
#[derive(Clone, Debug, PartialEq, Eq)]
pub enum Event {
    /// The pseudo-terminal, the shell and the output pump are running.
    ShellStarted,
    /// The pseudo-terminal or the shell could not be started.
    ShellFailed,
    /// A chunk of the shell's output, as the output pump read it.
    Output(Vec<u8>),
    /// The output pump stopped: the pseudo-terminal reached end-of-stream or
    /// failed to read.
    OutputEnded,
    /// The child process was seen to exit.
    ChildExited,
    /// A message arrived from the network session.
    Inbound(Frame),
    /// The network session's stream ended or failed.
    InboundEnded,
    /// Writing to the pseudo-terminal failed.
    WriteFailed,
    /// Sending on the network session failed.
    SendFailed,
    /// The device refused a new geometry.
    ResizeFailed,
    /// The hosting program has released the session's resources.
    TornDown,
}

/// Why a session closes its network session.
#[derive(PartialEq, Eq, Structural, Clone, Copy, Debug)]
pub enum CloseCause {
    /// The client asked to close: a clean close, with no reason given.
    ClientClosed,
    /// The shell's output ended or the child process exited.
    ShellEnded,
    /// Reading or writing the pseudo-terminal or the network failed.
    IoFailure,
    /// The shell could not be started.
    SpawnFailed,
}

/// What the hosting program is to do next.
#[derive(Clone, Debug, PartialEq, Eq)]
pub enum Action {
    /// Open a pseudo-terminal of this geometry, start a shell on it and start
    /// the output pump.
    Spawn { cols: u16, rows: u16 },
    /// Send these bytes to the client as one binary frame.
    SendBinary(Vec<u8>),
    /// Answer a ping with a pong that carries this payload.
    SendPong(Vec<u8>),
    /// Write these bytes, verbatim, to the shell's input.
    WriteInput(Vec<u8>),
    /// Set the pseudo-terminal's geometry.
    Resize { cols: u16, rows: u16 },
    /// Terminate the child process if it is still alive.
    KillChild,
    /// Close the network session.
    Close(CloseCause),
}

pub enum FrameView {
    Binary(Seq<u8>),
    /// A text frame, as its UTF-8 bytes.
    Text(Seq<u8>),
    Ping(Seq<u8>),
    Pong(Seq<u8>),
    Close,
}

pub enum EventView {
    ShellStarted,
    ShellFailed,
    Output(Seq<u8>),
    OutputEnded,
    ChildExited,
    Inbound(FrameView),
    InboundEnded,
    WriteFailed,
    SendFailed,
    ResizeFailed,
    TornDown,
}

pub enum ActionView {
    Spawn { cols: u16, rows: u16 },
    SendBinary(Seq<u8>),
    SendPong(Seq<u8>),
    WriteInput(Seq<u8>),
    Resize { cols: u16, rows: u16 },
    KillChild,
    Close(CloseCause),
}

impl View for Frame {
    type V = FrameView;

    open spec fn view(&self) -> FrameView {
        match self {
            Frame::Binary(b) => FrameView::Binary(b@),
            Frame::Text(t) => FrameView::Text(encode_utf8(t@)),
            Frame::Ping(p) => FrameView::Ping(p@),
            Frame::Pong(p) => FrameView::Pong(p@),
            Frame::Close => FrameView::Close,
        }
    }
}

impl View for Event {
    type V = EventView;

    open spec fn view(&self) -> EventView {
        match self {
            Event::ShellStarted => EventView::ShellStarted,
            Event::ShellFailed => EventView::ShellFailed,
            Event::Output(b) => EventView::Output(b@),
            Event::OutputEnded => EventView::OutputEnded,
            Event::ChildExited => EventView::ChildExited,
            Event::Inbound(f) => EventView::Inbound(f@),
            Event::InboundEnded => EventView::InboundEnded,
            Event::WriteFailed => EventView::WriteFailed,
            Event::SendFailed => EventView::SendFailed,
            Event::ResizeFailed => EventView::ResizeFailed,
            Event::TornDown => EventView::TornDown,
        }
    }
}

impl View for Action {
    type V = ActionView;

    open spec fn view(&self) -> ActionView {
        match self {
            Action::Spawn { cols, rows } => ActionView::Spawn { cols: *cols, rows: *rows },
            Action::SendBinary(b) => ActionView::SendBinary(b@),
            Action::SendPong(p) => ActionView::SendPong(p@),
            Action::WriteInput(b) => ActionView::WriteInput(b@),
            Action::Resize { cols, rows } => ActionView::Resize { cols: *cols, rows: *rows },
            Action::KillChild => ActionView::KillChild,
            Action::Close(c) => ActionView::Close(*c),
        }
    }
}

pub open spec fn action_views(actions: Seq<Action>) -> Seq<ActionView> {
    actions.map_values(|a: Action| a@)
}

pub open spec fn initial_session() -> TerminalSession {
    TerminalSession { phase: Phase::Establishing, cols: DEFAULT_COLS, rows: DEFAULT_ROWS }
}

/// What ending an active session orders: the child is killed and the
/// network session is closed.
pub open spec fn teardown(cause: CloseCause) -> Seq<ActionView> {
    seq![ActionView::KillChild, ActionView::Close(cause)]
}

pub open spec fn closing(s: TerminalSession) -> TerminalSession {
    TerminalSession { phase: Phase::Closing, ..s }
}

/// An active session's answer to a message from the network session.
pub open spec fn inbound_spec(s: TerminalSession, f: FrameView) -> (TerminalSession, Seq<ActionView>) {
    match f {
        FrameView::Binary(b) => (s, seq![ActionView::WriteInput(b)]),
        FrameView::Text(t) => match text_command(t) {
            TextCommand::Input => (s, seq![ActionView::WriteInput(t)]),
            TextCommand::Resize { cols, rows } => (
                TerminalSession { cols, rows, ..s },
                seq![ActionView::Resize { cols, rows }],
            ),
            TextCommand::Ignored => (s, seq![]),
        },
        FrameView::Ping(p) => (s, seq![ActionView::SendPong(p)]),
        FrameView::Pong(_) => (s, seq![]),
        FrameView::Close => (closing(s), teardown(CloseCause::ClientClosed)),
    }
}

/// The transition of a session on one event, and the actions it orders.
pub open spec fn step_spec(s: TerminalSession, e: EventView) -> (TerminalSession, Seq<ActionView>) {
    match s.phase {
        Phase::Establishing => match e {
            EventView::ShellStarted => (TerminalSession { phase: Phase::Active, ..s }, seq![]),
            EventView::ShellFailed => (closing(s), seq![ActionView::Close(CloseCause::SpawnFailed)]),
            _ => (s, seq![]),
        },
        Phase::Active => match e {
            EventView::Output(b) => (s, seq![ActionView::SendBinary(b)]),
            EventView::OutputEnded => (closing(s), teardown(CloseCause::ShellEnded)),
            EventView::ChildExited => (closing(s), teardown(CloseCause::ShellEnded)),
            EventView::Inbound(f) => inbound_spec(s, f),
            EventView::InboundEnded => (closing(s), teardown(CloseCause::IoFailure)),
            EventView::WriteFailed => (closing(s), teardown(CloseCause::IoFailure)),
            EventView::SendFailed => (closing(s), teardown(CloseCause::IoFailure)),
            _ => (s, seq![]),
        },
        Phase::Closing => match e {
            EventView::TornDown => (TerminalSession { phase: Phase::Closed, ..s }, seq![]),
            _ => (s, seq![]),
        },
        Phase::Closed => (s, seq![]),
    }
}

/// The state after a sequence of events, and every action ordered on the way,
/// in order.
pub open spec fn run(s: TerminalSession, events: Seq<EventView>) -> (TerminalSession, Seq<ActionView>)
    decreases events.len(),
{
    if events.len() == 0 {
        (s, seq![])
    } else {
        let before = run(s, events.drop_last());
        let last = step_spec(before.0, events.last());
        (last.0, before.1 + last.1)
    }
}

fn teardown_actions(cause: CloseCause) -> (r: Vec<Action>)
    ensures
        action_views(r@) == teardown(cause),
{
    let r = vec![Action::KillChild, Action::Close(cause)];
    assert(action_views(r@) =~= teardown(cause));
    r
}

fn single(a: Action) -> (r: Vec<Action>)
    ensures
        action_views(r@) == seq![a@],
{
    let r = vec![a];
    assert(action_views(r@) =~= seq![a@]);
    r
}

fn no_actions() -> (r: Vec<Action>)
    ensures
        action_views(r@) == Seq::<ActionView>::empty(),
{
    let r: Vec<Action> = Vec::new();
    assert(action_views(r@) =~= Seq::<ActionView>::empty());
    r
}

impl TerminalSession {
    /// A session that has just been admitted: establishing, 80 columns by 24 rows.
    pub fn new() -> (s: TerminalSession)
        ensures
            s == initial_session(),
    {
        TerminalSession { phase: Phase::Establishing, cols: DEFAULT_COLS, rows: DEFAULT_ROWS }
    }

    pub fn phase(&self) -> (p: Phase)
        ensures
            p == self.phase,
    {
        self.phase
    }

    /// The geometry last asked of the device, as `(cols, rows)`.
    pub fn geometry(&self) -> (g: (u16, u16))
        ensures
            g == (self.cols, self.rows),
    {
        (self.cols, self.rows)
    }

    pub fn is_closed(&self) -> (r: bool)
        ensures
            r == (self.phase == Phase::Closed),
    {
        self.phase == Phase::Closed
    }

    fn close_with(&mut self, cause: CloseCause) -> (r: Vec<Action>)
        ensures
            *final(self) == closing(*old(self)),
            action_views(r@) == teardown(cause),
    {
        self.phase = Phase::Closing;
        teardown_actions(cause)
    }

    fn on_inbound(&mut self, frame: Frame) -> (r: Vec<Action>)
        ensures
            (*final(self), action_views(r@)) == inbound_spec(*old(self), frame@),
    {
        match frame {
            Frame::Binary(b) => single(Action::WriteInput(b)),
            Frame::Text(t) => {
                let bytes = t.as_str().as_bytes();
                match classify_text(bytes) {
                    TextCommand::Input => single(Action::WriteInput(vstd::slice::slice_to_vec(bytes))),
                    TextCommand::Resize { cols, rows } => {
                        self.cols = cols;
                        self.rows = rows;
                        single(Action::Resize { cols, rows })
                    },
                    TextCommand::Ignored => no_actions(),
                }
            },
            Frame::Ping(p) => single(Action::SendPong(p)),
            Frame::Pong(_) => no_actions(),
            Frame::Close => self.close_with(CloseCause::ClientClosed),
        }
    }

    /// Applies one event and returns the actions it orders, to be performed
    /// in order.
    pub fn step(&mut self, event: Event) -> (r: Vec<Action>)
        ensures
            (*final(self), action_views(r@)) == step_spec(*old(self), event@),
    {
        match self.phase {
            Phase::Establishing => match event {
                Event::ShellStarted => {
                    self.phase = Phase::Active;
                    no_actions()
                },
                Event::ShellFailed => {
                    self.phase = Phase::Closing;
                    single(Action::Close(CloseCause::SpawnFailed))
                },
                _ => no_actions(),
            },
            Phase::Active => match event {
                Event::Output(b) => single(Action::SendBinary(b)),
                Event::OutputEnded => self.close_with(CloseCause::ShellEnded),
                Event::ChildExited => self.close_with(CloseCause::ShellEnded),
                Event::Inbound(f) => self.on_inbound(f),
                Event::InboundEnded => self.close_with(CloseCause::IoFailure),
                Event::WriteFailed => self.close_with(CloseCause::IoFailure),
                Event::SendFailed => self.close_with(CloseCause::IoFailure),
                _ => no_actions(),
            },
            Phase::Closing => match event {
                Event::TornDown => {
                    self.phase = Phase::Closed;
                    no_actions()
                },
                _ => no_actions(),
            },
            Phase::Closed => no_actions(),
        }
    }
}

/// Every byte sent to the client, in order: the payloads of the binary
/// frames among `actions`, concatenated.
pub open spec fn sent_bytes(actions: Seq<ActionView>) -> Seq<u8>
    decreases actions.len(),
{
    if actions.len() == 0 {
        seq![]
    } else {
        sent_bytes(actions.drop_last()) + match actions.last() {
            ActionView::SendBinary(b) => b,
            _ => Seq::<u8>::empty(),
        }
    }
}

/// Every byte the shell produced, in order: the payloads of the output
/// chunks among `events`, concatenated.
pub open spec fn output_bytes(events: Seq<EventView>) -> Seq<u8>
    decreases events.len(),
{
    if events.len() == 0 {
        seq![]
    } else {
        output_bytes(events.drop_last()) + match events.last() {
            EventView::Output(b) => b,
            _ => Seq::<u8>::empty(),
        }
    }
}

/// An event that does not end an active session.
pub open spec fn keeps_open(e: EventView) -> bool {
    match e {
        EventView::OutputEnded => false,
        EventView::ChildExited => false,
        EventView::InboundEnded => false,
        EventView::WriteFailed => false,
        EventView::SendFailed => false,
        EventView::Inbound(FrameView::Close) => false,
        _ => true,
    }
}

proof fn lemma_sent_bytes_append(a: Seq<ActionView>, b: Seq<ActionView>)
    ensures
        sent_bytes(a + b) == sent_bytes(a) + sent_bytes(b),
    decreases b.len(),
{
    if b.len() == 0 {
        assert(a + b =~= a);
        assert(sent_bytes(a) + sent_bytes(b) =~= sent_bytes(a));
    } else {
        lemma_sent_bytes_append(a, b.drop_last());
        assert((a + b).drop_last() =~= a + b.drop_last());
        assert((a + b).last() == b.last());
    }
}

proof fn lemma_sent_bytes_single(a: ActionView)
    ensures
        sent_bytes(seq![a]) == match a {
            ActionView::SendBinary(b) => b,
            _ => Seq::<u8>::empty(),
        },
{
    assert(seq![a].drop_last() =~= Seq::<ActionView>::empty());
    assert(sent_bytes(Seq::<ActionView>::empty()) == Seq::<u8>::empty());
    match a {
        ActionView::SendBinary(b) => assert(Seq::<u8>::empty() + b =~= b),
        _ => assert(Seq::<u8>::empty() + Seq::<u8>::empty() =~= Seq::<u8>::empty()),
    }
}

/// Byte order: as long as a session stays open, what it sends the client,
/// concatenated over every binary frame, is exactly what the shell produced,
/// in the order produced: nothing dropped, duplicated or reordered, whatever
/// input, resize, ping or pong messages come in between.
pub proof fn relay_preserves_output(s: TerminalSession, events: Seq<EventView>)
    requires
        s.phase == Phase::Active,
        forall|i: int| 0 <= i < events.len() ==> keeps_open(#[trigger] events[i]),
    ensures
        run(s, events).0.phase == Phase::Active,
        sent_bytes(run(s, events).1) == output_bytes(events),
    decreases events.len(),
{
    if events.len() == 0 {
        assert(sent_bytes(Seq::<ActionView>::empty()) =~= output_bytes(events));
    } else {
        let init = events.drop_last();
        assert forall|i: int| 0 <= i < init.len() implies keeps_open(#[trigger] init[i]) by {
            assert(init[i] == events[i]);
        }
        relay_preserves_output(s, init);
        let before = run(s, init);
        let e = events.last();
        assert(keeps_open(events[events.len() - 1]));
        let last = step_spec(before.0, e);
        lemma_sent_bytes_append(before.1, last.1);
        match e {
            EventView::Output(b) => {
                lemma_sent_bytes_single(ActionView::SendBinary(b));
            },
            EventView::Inbound(f) => {
                match f {
                    FrameView::Binary(b) => lemma_sent_bytes_single(ActionView::WriteInput(b)),
                    FrameView::Text(t) => match text_command(t) {
                        TextCommand::Input => lemma_sent_bytes_single(ActionView::WriteInput(t)),
                        TextCommand::Resize { cols, rows } => lemma_sent_bytes_single(
                            ActionView::Resize { cols, rows },
                        ),
                        TextCommand::Ignored => {},
                    },
                    FrameView::Ping(p) => lemma_sent_bytes_single(ActionView::SendPong(p)),
                    _ => {},
                }
            },
            _ => {},
        }
        assert(sent_bytes(before.1) + sent_bytes(last.1) =~= output_bytes(events));
    }
}

proof fn lemma_teardown_sends_nothing(cause: CloseCause)
    ensures
        sent_bytes(teardown(cause)) == Seq::<u8>::empty(),
{
    let kill = seq![ActionView::KillChild];
    let close = seq![ActionView::Close(cause)];
    assert(kill + close =~= teardown(cause));
    lemma_sent_bytes_append(kill, close);
    lemma_sent_bytes_single(ActionView::KillChild);
    lemma_sent_bytes_single(ActionView::Close(cause));
    assert(Seq::<u8>::empty() + Seq::<u8>::empty() =~= Seq::<u8>::empty());
}

/// Byte order across teardown: whatever events reach an active session,
/// including those that end it, what it has sent the client is a prefix of
/// what the shell produced, and all of it for as long as the session is
/// active. Output that arrives once teardown has begun is never sent.
pub proof fn relay_sends_a_prefix(s: TerminalSession, events: Seq<EventView>)
    requires
        s.phase == Phase::Active,
    ensures
        run(s, events).0.phase != Phase::Establishing,
        sent_bytes(run(s, events).1).len() <= output_bytes(events).len(),
        output_bytes(events).take(sent_bytes(run(s, events).1).len() as int) == sent_bytes(
            run(s, events).1,
        ),
        run(s, events).0.phase == Phase::Active ==> sent_bytes(run(s, events).1) == output_bytes(
            events,
        ),
    decreases events.len(),
{
    if events.len() == 0 {
        assert(sent_bytes(Seq::<ActionView>::empty()) =~= output_bytes(events));
        assert(output_bytes(events).take(0) =~= Seq::<u8>::empty());
    } else {
        let init = events.drop_last();
        relay_sends_a_prefix(s, init);
        let before = run(s, init);
        let e = events.last();
        let last = step_spec(before.0, e);
        let sent0 = sent_bytes(before.1);
        let out0 = output_bytes(init);
        let added = match e {
            EventView::Output(b) => b,
            _ => Seq::<u8>::empty(),
        };
        assert(output_bytes(events) == out0 + added);
        lemma_sent_bytes_append(before.1, last.1);
        if before.0.phase == Phase::Active {
            match e {
                EventView::Output(b) => lemma_sent_bytes_single(ActionView::SendBinary(b)),
                EventView::OutputEnded | EventView::ChildExited => lemma_teardown_sends_nothing(
                    CloseCause::ShellEnded,
                ),
                EventView::InboundEnded | EventView::WriteFailed | EventView::SendFailed => {
                    lemma_teardown_sends_nothing(CloseCause::IoFailure)
                },
                EventView::Inbound(f) => {
                    match f {
                        FrameView::Binary(b) => lemma_sent_bytes_single(ActionView::WriteInput(b)),
                        FrameView::Text(t) => match text_command(t) {
                            TextCommand::Input => lemma_sent_bytes_single(ActionView::WriteInput(t)),
                            TextCommand::Resize { cols, rows } => lemma_sent_bytes_single(
                                ActionView::Resize { cols, rows },
                            ),
                            TextCommand::Ignored => {},
                        },
                        FrameView::Ping(p) => lemma_sent_bytes_single(ActionView::SendPong(p)),
                        FrameView::Close => lemma_teardown_sends_nothing(CloseCause::ClientClosed),
                        _ => {},
                    }
                },
                _ => {},
            }
            if sent_bytes(last.1).len() == 0 {
                assert(sent0 + sent_bytes(last.1) =~= sent0);
                assert((out0 + added).take(sent0.len() as int) =~= sent0);
            } else {
                assert((out0 + added).take((sent0 + sent_bytes(last.1)).len() as int) =~= out0 + added);
            }
        } else {
            assert(sent_bytes(last.1) =~= Seq::<u8>::empty());
            assert(sent0 + sent_bytes(last.1) =~= sent0);
            assert((out0 + added).take(sent0.len() as int) =~= out0.take(sent0.len() as int));
        }
    }
}

proof fn lemma_closing_is_silent(s: TerminalSession, events: Seq<EventView>)
    requires
        s.phase == Phase::Closing || s.phase == Phase::Closed,
    ensures
        run(s, events).1 == Seq::<ActionView>::empty(),
        run(s, events).0.phase == Phase::Closing || run(s, events).0.phase == Phase::Closed,
    decreases events.len(),
{
    if events.len() > 0 {
        lemma_closing_is_silent(s, events.drop_last());
        let before = run(s, events.drop_last());
        assert(before.1 + step_spec(before.0, events.last()).1 =~= Seq::<ActionView>::empty());
    }
}

/// Teardown: when the shell's output ends, an active session at once orders
/// the child killed and the network session closed, reaches `Closed` as soon
/// as the resources are released, and orders nothing more, whatever events
/// follow.
pub proof fn shell_end_tears_down(s: TerminalSession, later: Seq<EventView>)
    requires
        s.phase == Phase::Active,
    ensures
        step_spec(s, EventView::OutputEnded).0.phase == Phase::Closing,
        step_spec(s, EventView::OutputEnded).1 == teardown(CloseCause::ShellEnded),
        step_spec(step_spec(s, EventView::OutputEnded).0, EventView::TornDown).0.phase
            == Phase::Closed,
        run(step_spec(s, EventView::OutputEnded).0, later).1 == Seq::<ActionView>::empty(),
{
    lemma_closing_is_silent(step_spec(s, EventView::OutputEnded).0, later);
}

/// Resizing: a well-formed resize message keeps an active session open,
/// records the new geometry and orders the device resize and nothing else;
/// sending the same message again changes nothing and orders the same resize.
pub proof fn resize_is_idempotent(s: TerminalSession, t: Seq<u8>, cols: u16, rows: u16)
    requires
        s.phase == Phase::Active,
        text_command(t) == (TextCommand::Resize { cols, rows }),
    ensures
        ({
            let e = EventView::Inbound(FrameView::Text(t));
            let first = step_spec(s, e);
            let second = step_spec(first.0, e);
            &&& keeps_open(e)
            &&& first.0 == TerminalSession { cols, rows, ..s }
            &&& first.1 == seq![ActionView::Resize { cols, rows }]
            &&& second.0 == first.0
            &&& second.1 == first.1
        }),
{
}

} // verus!
