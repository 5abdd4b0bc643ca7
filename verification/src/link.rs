use vstd::prelude::*;
use vstd::utf8::valid_utf8;

use crate::framing::{append_chunk, complete_lines, kept_after_framing, process_rx_buffer, RX_BUFFER_LIMIT};

verus! {

/// The serial port's baud rate.
pub const SERIAL_BAUD: u32 = 115200;
/// How long the port waits on a read before it reports that nothing came.
pub const PORT_TIMEOUT_MS: u64 = 5;
/// How long to wait before trying again to open a port that would not open.
pub const SERIAL_RETRY_MS: u64 = 1000;
/// How long to wait for a command to send while in fake-car mode.
pub const FAKE_COMMAND_WAIT_MS: u64 = 20;
/// How long to wait for a command to send to a real port.
pub const COMMAND_WAIT_MS: u64 = 5;

/// What the serial session reports to the shared snapshot: whether the link
/// is up, and how many errors and sent commands it has counted.
#[derive(Clone, Copy, Debug, PartialEq, Eq, Structural)]
pub struct LinkStatus {
    pub connected: bool,
    pub errors: u64,
    pub sent_commands: u64,
}

/// Where the session stands in its round: which event it waits for.
#[derive(Clone, Copy, Debug, PartialEq, Eq, Structural)]
pub enum LinkPhase {
    /// Waits for the configuration that the UI has set.
    Config,
    /// Fake-car mode: waits for a command to count.
    FakeWait,
    /// Waits for the port to open.
    Opening,
    /// Waits out the pause after a failed open.
    Sleeping,
    /// Waits for what a read from the port gave.
    Reading,
    /// Waits for a command to send.
    CommandWait,
    /// Waits for the result of writing a command.
    Writing,
}

/// What one read from the port gave. `Data` with no bytes is a read of zero
/// bytes; `Idle` is a read that timed out, would block or was interrupted.
pub enum ReadOutcome {
    Data(Vec<u8>),
    Idle,
    Failed,
}

/// What the outside world answers to the session's last action.
pub enum LinkEvent {
    /// The port name and fake-car flag currently set.
    Config { port_name: String, fake_car: bool },
    /// Whether a command arrived while in fake-car mode.
    FakeCommand { received: bool },
    /// Whether the port opened.
    Opened { ok: bool },
    /// The pause is over.
    Slept,
    /// What a read gave.
    Read(ReadOutcome),
    /// The command that arrived, if any did before the timeout.
    Command(Option<String>),
    /// Whether the command was written whole.
    Written { ok: bool },
}

/// What the session asks the outside world to do next.
pub enum LinkAction {
    ReadConfig,
    AwaitFakeCommand { timeout_ms: u64 },
    OpenPort { port_name: String, baud: u32, timeout_ms: u64 },
    Sleep { ms: u64 },
    ReadPort,
    AwaitCommand { timeout_ms: u64 },
    Write { command: String },
}

/// Which counter of the metrics a step bumps, if any.
#[derive(Clone, Copy, Debug, PartialEq, Eq, Structural)]
pub enum Tally {
    Nothing,
    Sent,
    Error,
}

/// The result of one step: the next action, the counter to bump, and the
/// complete telemetry lines that a read finished.
pub struct LinkOutput {
    pub action: LinkAction,
    pub tally: Tally,
    pub lines: Vec<Vec<u8>>,
}

/// The serial session: the port it works with, whether fake-car mode is on,
/// whether the port is open, the bytes received but not yet framed into
/// lines, and the event it waits for.
pub struct SerialSession {
    pub port_name: String,
    pub fake_car: bool,
    pub port_open: bool,
    pub line_buf: Vec<u8>,
    pub phase: LinkPhase,
}

/// `x + 1`, stopping at the largest value.
pub open spec fn sat_inc(x: u64) -> u64 {
    if x == u64::MAX {
        x
    } else {
        (x + 1) as u64
    }
}

/// Whether `event` answers what a session in `phase` waits for.
pub open spec fn expects(phase: LinkPhase, event: LinkEvent) -> bool {
    match phase {
        LinkPhase::Config => event is Config,
        LinkPhase::FakeWait => event is FakeCommand,
        LinkPhase::Opening => event is Opened,
        LinkPhase::Sleeping => event is Slept,
        LinkPhase::Reading => event is Read,
        LinkPhase::CommandWait => event is Command,
        LinkPhase::Writing => event is Written,
    }
}

/// The session's invariant: fake-car mode never has a port open and only
/// ever waits for the configuration or a command to count, and the receive
/// buffer stays within its limit.
pub open spec fn session_wf(s: SerialSession) -> bool {
    &&& s.fake_car ==> !s.port_open
    &&& s.fake_car ==> (s.phase == LinkPhase::Config || s.phase == LinkPhase::FakeWait)
    &&& s.line_buf@.len() <= RX_BUFFER_LIMIT
}

/// The action that starts a round's work once the configuration is known.
pub open spec fn round_action_matches(s: SerialSession, a: LinkAction) -> bool {
    if s.fake_car {
        a == LinkAction::AwaitFakeCommand { timeout_ms: FAKE_COMMAND_WAIT_MS } && s.phase
            == LinkPhase::FakeWait
    } else if !s.port_open {
        &&& a matches LinkAction::OpenPort { port_name, baud, timeout_ms } && port_name@
            == s.port_name@ && baud == SERIAL_BAUD && timeout_ms == PORT_TIMEOUT_MS
        &&& s.phase == LinkPhase::Opening
    } else {
        a is ReadPort && s.phase == LinkPhase::Reading
    }
}

impl SerialSession {
    /// A session with no port yet, waiting for its first configuration.
    pub fn new() -> (s: SerialSession)
        ensures
            s.port_name@ == Seq::<char>::empty(),
            !s.fake_car,
            !s.port_open,
            s.line_buf@ == Seq::<u8>::empty(),
            s.phase == LinkPhase::Config,
            session_wf(s),
    {
        SerialSession {
            port_name: String::new(),
            fake_car: false,
            port_open: false,
            line_buf: Vec::new(),
            phase: LinkPhase::Config,
        }
    }

    fn start_round(&mut self) -> (a: LinkAction)
        ensures
            round_action_matches(*final(self), a),
            final(self).port_name == old(self).port_name,
            final(self).fake_car == old(self).fake_car,
            final(self).port_open == old(self).port_open,
            final(self).line_buf == old(self).line_buf,
    {
        if self.fake_car {
            self.phase = LinkPhase::FakeWait;
            LinkAction::AwaitFakeCommand { timeout_ms: FAKE_COMMAND_WAIT_MS }
        } else if !self.port_open {
            self.phase = LinkPhase::Opening;
            LinkAction::OpenPort {
                port_name: self.port_name.clone(),
                baud: SERIAL_BAUD,
                timeout_ms: PORT_TIMEOUT_MS,
            }
        } else {
            self.phase = LinkPhase::Reading;
            LinkAction::ReadPort
        }
    }

    fn output(action: LinkAction, tally: Tally) -> (o: LinkOutput)
        ensures
            o.action == action,
            o.tally == tally,
            o.lines@.len() == 0,
    {
        LinkOutput { action, tally, lines: Vec::new() }
    }

    /// Takes the outside world's answer to the last action and decides what
    /// comes next, keeping the snapshot's link status as the serial thread
    /// does:
    /// - a changed configuration drops the port and the receive buffer, and
    ///   marks the link up exactly when fake-car mode is on;
    /// - in fake-car mode each command that arrives counts as sent;
    /// - a port that fails to open, read or write marks the link down and
    ///   counts an error; after a failed open the session pauses;
    /// - a read appends its bytes, when they are well-formed UTF-8, and hands
    ///   back the lines they complete;
    /// - a command is written only while the port is open;
    /// - an event that does not answer the last action starts the round again.
    pub fn step(&mut self, status: &mut LinkStatus, event: LinkEvent) -> (out: LinkOutput)
        ensures
            session_wf(*old(self)) ==> session_wf(*final(self)),
            final(status).errors >= old(status).errors,
            final(status).sent_commands >= old(status).sent_commands,
            session_wf(*old(self)) && final(self).fake_car ==> !(out.action is OpenPort) && !(
            out.action is Write) && !final(self).port_open,
            final(status).errors == if out.tally == Tally::Error {
                sat_inc(old(status).errors)
            } else {
                old(status).errors
            },
            final(status).sent_commands == if out.tally == Tally::Sent {
                sat_inc(old(status).sent_commands)
            } else {
                old(status).sent_commands
            },
            out.tally == Tally::Error ==> !final(status).connected && !final(self).port_open,
            !expects(old(self).phase, event) ==> {
                &&& final(self).port_name == old(self).port_name
                &&& final(self).fake_car == old(self).fake_car
                &&& final(self).port_open == old(self).port_open
                &&& final(self).line_buf == old(self).line_buf
                &&& final(self).phase == LinkPhase::Config
                &&& *final(status) == *old(status)
                &&& out.action is ReadConfig
                &&& out.tally == Tally::Nothing
                &&& out.lines@.len() == 0
            },
            expects(old(self).phase, event) ==> match event {
                LinkEvent::Config { port_name, fake_car } => {
                    let changed = port_name@ != old(self).port_name@ || fake_car != old(
                        self,
                    ).fake_car;
                    &&& final(self).port_name@ == port_name@
                    &&& final(self).fake_car == fake_car
                    &&& final(self).port_open == (old(self).port_open && !changed)
                    &&& final(self).line_buf@ == if changed {
                        Seq::<u8>::empty()
                    } else {
                        old(self).line_buf@
                    }
                    &&& final(status).connected == if changed {
                        fake_car
                    } else {
                        old(status).connected
                    }
                    &&& out.tally == Tally::Nothing
                    &&& out.lines@.len() == 0
                    &&& round_action_matches(*final(self), out.action)
                },
                LinkEvent::FakeCommand { received } => {
                    &&& final(self).port_name == old(self).port_name
                    &&& final(self).fake_car == old(self).fake_car
                    &&& final(self).port_open == old(self).port_open
                    &&& final(self).line_buf == old(self).line_buf
                    &&& final(self).phase == LinkPhase::Config
                    &&& out.action is ReadConfig
                    &&& out.lines@.len() == 0
                    &&& out.tally == if received {
                        Tally::Sent
                    } else {
                        Tally::Nothing
                    }
                    &&& final(status).connected == (received || old(status).connected)
                },
                LinkEvent::Opened { ok } => {
                    &&& final(self).port_name == old(self).port_name
                    &&& final(self).fake_car == old(self).fake_car
                    &&& final(self).line_buf == old(self).line_buf
                    &&& final(self).port_open == ok
                    &&& final(status).connected == ok
                    &&& out.lines@.len() == 0
                    &&& if ok {
                        out.tally == Tally::Nothing && out.action is ReadPort && final(self).phase
                            == LinkPhase::Reading
                    } else {
                        &&& out.tally == Tally::Error
                        &&& out.action == LinkAction::Sleep { ms: SERIAL_RETRY_MS }
                        &&& final(self).phase == LinkPhase::Sleeping
                    }
                },
                LinkEvent::Slept => {
                    &&& final(self).port_name == old(self).port_name
                    &&& final(self).fake_car == old(self).fake_car
                    &&& final(self).port_open == old(self).port_open
                    &&& final(self).line_buf == old(self).line_buf
                    &&& final(self).phase == LinkPhase::Config
                    &&& *final(status) == *old(status)
                    &&& out.action is ReadConfig
                    &&& out.tally == Tally::Nothing
                    &&& out.lines@.len() == 0
                },
                LinkEvent::Read(outcome) => {
                    &&& final(self).port_name == old(self).port_name
                    &&& final(self).fake_car == old(self).fake_car
                    &&& match outcome {
                        ReadOutcome::Data(bytes) => if bytes@.len() == 0 {
                            &&& final(self).port_open == old(self).port_open
                            &&& final(self).line_buf == old(self).line_buf
                            &&& *final(status) == *old(status)
                            &&& out.tally == Tally::Nothing
                            &&& out.lines@.len() == 0
                            &&& out.action == LinkAction::AwaitCommand {
                                timeout_ms: COMMAND_WAIT_MS,
                            }
                            &&& final(self).phase == LinkPhase::CommandWait
                        } else {
                            let received = old(self).line_buf@ + bytes@;
                            &&& final(self).port_open == old(self).port_open
                            &&& valid_utf8(bytes@) ==> {
                                &&& final(self).line_buf@ == kept_after_framing(received)
                                &&& out.lines@.len() == complete_lines(received).len()
                                &&& forall|i: int|
                                    0 <= i < out.lines@.len() ==> #[trigger] out.lines@[i]@
                                        == complete_lines(received)[i]
                            }
                            &&& !valid_utf8(bytes@) ==> final(self).line_buf@ == old(self).line_buf@
                                && out.lines@.len() == 0
                            &&& *final(status) == *old(status)
                            &&& out.tally == Tally::Nothing
                            &&& out.action is ReadPort
                            &&& final(self).phase == LinkPhase::Reading
                        },
                        ReadOutcome::Idle => {
                            &&& final(self).port_open == old(self).port_open
                            &&& final(self).line_buf == old(self).line_buf
                            &&& *final(status) == *old(status)
                            &&& out.tally == Tally::Nothing
                            &&& out.lines@.len() == 0
                            &&& out.action == LinkAction::AwaitCommand {
                                timeout_ms: COMMAND_WAIT_MS,
                            }
                            &&& final(self).phase == LinkPhase::CommandWait
                        },
                        ReadOutcome::Failed => {
                            &&& !final(self).port_open
                            &&& final(self).line_buf@ == Seq::<u8>::empty()
                            &&& !final(status).connected
                            &&& out.tally == Tally::Error
                            &&& out.lines@.len() == 0
                            &&& out.action == LinkAction::AwaitCommand {
                                timeout_ms: COMMAND_WAIT_MS,
                            }
                            &&& final(self).phase == LinkPhase::CommandWait
                        },
                    }
                },
                LinkEvent::Command(command) => {
                    &&& final(self).port_name == old(self).port_name
                    &&& final(self).fake_car == old(self).fake_car
                    &&& final(self).port_open == old(self).port_open
                    &&& final(self).line_buf == old(self).line_buf
                    &&& *final(status) == *old(status)
                    &&& out.tally == Tally::Nothing
                    &&& out.lines@.len() == 0
                    &&& match command {
                        Some(c) => if old(self).port_open {
                            &&& out.action matches LinkAction::Write { command: w } && w@ == c@
                            &&& final(self).phase == LinkPhase::Writing
                        } else {
                            out.action is ReadConfig && final(self).phase == LinkPhase::Config
                        },
                        None => out.action is ReadConfig && final(self).phase == LinkPhase::Config,
                    }
                },
                LinkEvent::Written { ok } => {
                    &&& final(self).port_name == old(self).port_name
                    &&& final(self).fake_car == old(self).fake_car
                    &&& final(self).line_buf == old(self).line_buf
                    &&& final(self).phase == LinkPhase::Config
                    &&& out.action is ReadConfig
                    &&& out.lines@.len() == 0
                    &&& if ok {
                        &&& final(self).port_open == old(self).port_open
                        &&& final(status).connected == old(status).connected
                        &&& out.tally == Tally::Sent
                    } else {
                        &&& !final(self).port_open
                        &&& !final(status).connected
                        &&& out.tally == Tally::Error
                    }
                },
            },
    {
        let phase = self.phase;
        match event {
            LinkEvent::Config { port_name, fake_car } => {
                if phase != LinkPhase::Config {
                    self.phase = LinkPhase::Config;
                    return Self::output(LinkAction::ReadConfig, Tally::Nothing);
                }
                if port_name != self.port_name || fake_car != self.fake_car {
                    self.port_name = port_name;
                    self.fake_car = fake_car;
                    self.port_open = false;
                    self.line_buf.clear();
                    status.connected = fake_car;
                }
                let action = self.start_round();
                Self::output(action, Tally::Nothing)
            },
            LinkEvent::FakeCommand { received } => {
                self.phase = LinkPhase::Config;
                if phase != LinkPhase::FakeWait || !received {
                    return Self::output(LinkAction::ReadConfig, Tally::Nothing);
                }
                status.connected = true;
                status.sent_commands = status.sent_commands.saturating_add(1);
                Self::output(LinkAction::ReadConfig, Tally::Sent)
            },
            LinkEvent::Opened { ok } => {
                if phase != LinkPhase::Opening {
                    self.phase = LinkPhase::Config;
                    return Self::output(LinkAction::ReadConfig, Tally::Nothing);
                }
                if ok {
                    self.port_open = true;
                    status.connected = true;
                    self.phase = LinkPhase::Reading;
                    Self::output(LinkAction::ReadPort, Tally::Nothing)
                } else {
                    self.port_open = false;
                    status.connected = false;
                    status.errors = status.errors.saturating_add(1);
                    self.phase = LinkPhase::Sleeping;
                    Self::output(LinkAction::Sleep { ms: SERIAL_RETRY_MS }, Tally::Error)
                }
            },
            LinkEvent::Slept => {
                self.phase = LinkPhase::Config;
                Self::output(LinkAction::ReadConfig, Tally::Nothing)
            },
            LinkEvent::Read(outcome) => {
                if phase != LinkPhase::Reading {
                    self.phase = LinkPhase::Config;
                    return Self::output(LinkAction::ReadConfig, Tally::Nothing);
                }
                match outcome {
                    ReadOutcome::Data(bytes) => {
                        if bytes.len() == 0 {
                            self.phase = LinkPhase::CommandWait;
                            return Self::output(
                                LinkAction::AwaitCommand { timeout_ms: COMMAND_WAIT_MS },
                                Tally::Nothing,
                            );
                        }
                        self.phase = LinkPhase::Reading;
                        if append_chunk(&mut self.line_buf, bytes.as_slice()) {
                            let lines = process_rx_buffer(&mut self.line_buf);
                            LinkOutput { action: LinkAction::ReadPort, tally: Tally::Nothing, lines }
                        } else {
                            Self::output(LinkAction::ReadPort, Tally::Nothing)
                        }
                    },
                    ReadOutcome::Idle => {
                        self.phase = LinkPhase::CommandWait;
                        Self::output(
                            LinkAction::AwaitCommand { timeout_ms: COMMAND_WAIT_MS },
                            Tally::Nothing,
                        )
                    },
                    ReadOutcome::Failed => {
                        status.connected = false;
                        status.errors = status.errors.saturating_add(1);
                        self.port_open = false;
                        self.line_buf.clear();
                        self.phase = LinkPhase::CommandWait;
                        Self::output(
                            LinkAction::AwaitCommand { timeout_ms: COMMAND_WAIT_MS },
                            Tally::Error,
                        )
                    },
                }
            },
            LinkEvent::Command(command) => {
                if phase != LinkPhase::CommandWait {
                    self.phase = LinkPhase::Config;
                    return Self::output(LinkAction::ReadConfig, Tally::Nothing);
                }
                match command {
                    Some(c) => {
                        if self.port_open {
                            self.phase = LinkPhase::Writing;
                            Self::output(LinkAction::Write { command: c }, Tally::Nothing)
                        } else {
                            self.phase = LinkPhase::Config;
                            Self::output(LinkAction::ReadConfig, Tally::Nothing)
                        }
                    },
                    None => {
                        self.phase = LinkPhase::Config;
                        Self::output(LinkAction::ReadConfig, Tally::Nothing)
                    },
                }
            },
            LinkEvent::Written { ok } => {
                self.phase = LinkPhase::Config;
                if phase != LinkPhase::Writing {
                    return Self::output(LinkAction::ReadConfig, Tally::Nothing);
                }
                if ok {
                    status.sent_commands = status.sent_commands.saturating_add(1);
                    Self::output(LinkAction::ReadConfig, Tally::Sent)
                } else {
                    status.connected = false;
                    status.errors = status.errors.saturating_add(1);
                    self.port_open = false;
                    Self::output(LinkAction::ReadConfig, Tally::Error)
                }
            },
        }
    }
}

} // verus!
