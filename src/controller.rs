//! The controller protocol: 8-byte command frames, and the decisions of a
//! client that keeps one authenticated connection and reuses it.
//!
//! The client's I/O (connect, write, read, their timeouts) is performed by
//! the caller; `Session` says at each point what to do next and what the
//! outcome of a command is.

use vstd::prelude::*;

verus! {

pub const CMD_PING: u8 = 0x01;
pub const CMD_KILL_PROCESS: u8 = 0x02;
pub const CMD_SHUTDOWN: u8 = 0x03;
pub const CMD_REBOOT: u8 = 0x04;

pub const RESP_OK: u8 = 0x00;
pub const RESP_ERROR_GENERIC: u8 = 0x01;
pub const RESP_ERROR_INVALID_CMD: u8 = 0x02;
pub const RESP_ERROR_INVALID_ARG: u8 = 0x03;
pub const RESP_ERROR_PERMISSION: u8 = 0x04;

/// The four bytes of `n`, least significant first.
pub open spec fn le_bytes(n: u32) -> Seq<u8> {
    seq![
        (n % 256) as u8,
        ((n / 256) % 256) as u8,
        ((n / 65536) % 256) as u8,
        (n / 16777216) as u8,
    ]
}

/// Relies on byteorder's `LittleEndian::write_u32`: it writes the four
/// bytes of `n`, least significant first, into a 4-byte buffer.
#[verifier::external_body]
fn u32_le(n: u32) -> (r: [u8; 4])
    ensures
        r@ == le_bytes(n),
{
    let mut b = [0u8; 4];
    <byteorder::LittleEndian as byteorder::ByteOrder>::write_u32(&mut b, n);
    b
}

/// The wire form of a command: its id, its argument little-endian, and
/// three zero bytes.
pub open spec fn frame_bytes(command_id: u8, arg1: u32) -> Seq<u8> {
    seq![command_id] + le_bytes(arg1) + seq![0u8, 0u8, 0u8]
}

#[derive(Debug, Clone, Copy)]
pub struct CommandPacket {
    pub command_id: u8,
    pub arg1: u32,
    pub padding: [u8; 3],
}

impl CommandPacket {
    pub fn new(command_id: u8, arg1: u32) -> (r: CommandPacket)
        ensures
            r.command_id == command_id,
            r.arg1 == arg1,
            r.padding@ == seq![0u8, 0u8, 0u8],
    {
        let r = CommandPacket { command_id, arg1, padding: [0u8; 3] };
        assert(r.padding@ =~= seq![0u8, 0u8, 0u8]);
        r
    }

    /// The 8 bytes sent for this command.
    pub fn serialize(&self) -> (r: [u8; 8])
        requires
            self.padding@ == seq![0u8, 0u8, 0u8],
        ensures
            r@ == frame_bytes(self.command_id, self.arg1),
    {
        let a = u32_le(self.arg1);
        let r = [
            self.command_id,
            a[0],
            a[1],
            a[2],
            a[3],
            self.padding[0],
            self.padding[1],
            self.padding[2],
        ];
        assert(r@ =~= frame_bytes(self.command_id, self.arg1));
        r
    }
}

/// What a command through the controller can fail with.
#[derive(Debug, Clone)]
pub enum ControlError {
    /// The configured host and port do not form an address.
    AddressResolution(String),
    /// The connection could not be made: the address and the cause.
    Connection(String, String),
    /// The key could not be written to a new connection.
    Authentication,
    /// Writing a command or reading its response failed.
    Io(String),
    /// A connect, the key, or a command took longer than its limit.
    Timeout,
    /// The controller answered with this non-success code.
    ControllerError(u8),
    /// A response of an unexpected shape.
    InvalidResponse,
    /// The client's own bookkeeping was inconsistent.
    InternalMutexError,
}

/// Whether a connection is cached, and then it is authenticated.
#[derive(Debug, Clone, Copy, PartialEq, Eq, Structural)]
pub enum Link {
    Disconnected,
    Authenticated,
}

/// Where a command stands.
#[derive(Debug, Clone, Copy, PartialEq, Eq, Structural)]
pub enum Phase {
    /// No command under way.
    Idle,
    /// Checking that the cached connection is still usable.
    Probing,
    /// Opening a new connection, under the connect limit.
    Connecting,
    /// Writing the key on the new connection, under the command limit.
    Authenticating,
    /// Writing the frame and reading the one-byte response.
    Exchanging,
}

/// The outcome of the last thing the caller did.
#[derive(Debug, Clone)]
pub enum Event {
    Done,
    Failed(String),
    TimedOut,
    /// The response byte of an exchange.
    Response(u8),
}

/// What the caller does next.
#[derive(Debug)]
pub enum Action {
    /// Check the cached connection (its peer address).
    Probe,
    /// Open a connection; the cached one, if any, is dropped.
    Connect,
    /// Write and flush `key_bytes` on the new connection.
    Authenticate,
    /// Write and flush `frame`, then read exactly one byte.
    Transmit,
    /// The command is over, with this result.
    Finish(Result<u8, ControlError>),
}

/// The phase and action that a command starts with.
pub open spec fn begin_step(link: Link) -> (Phase, Action) {
    match link {
        Link::Authenticated => (Phase::Probing, Action::Probe),
        Link::Disconnected => (Phase::Connecting, Action::Connect),
    }
}

pub open spec fn fail(e: ControlError) -> (Link, Phase, Action) {
    (Link::Disconnected, Phase::Idle, Action::Finish(Err(e)))
}

/// The link, phase and action after an event. Every failure leaves the
/// session disconnected, so the next command connects anew.
pub open spec fn step(link: Link, phase: Phase, addr: String, ev: Event) -> (Link, Phase, Action) {
    match (phase, ev) {
        (Phase::Probing, Event::Done) => (Link::Authenticated, Phase::Exchanging, Action::Transmit),
        (Phase::Probing, Event::Failed(_)) => (Link::Disconnected, Phase::Connecting, Action::Connect),
        (Phase::Connecting, Event::Done) => (
            Link::Disconnected,
            Phase::Authenticating,
            Action::Authenticate,
        ),
        (Phase::Connecting, Event::Failed(c)) => fail(ControlError::Connection(addr, c)),
        (Phase::Connecting, Event::TimedOut) => fail(ControlError::Timeout),
        (Phase::Authenticating, Event::Done) => (
            Link::Authenticated,
            Phase::Exchanging,
            Action::Transmit,
        ),
        (Phase::Authenticating, Event::Failed(_)) => fail(ControlError::Authentication),
        (Phase::Authenticating, Event::TimedOut) => fail(ControlError::Timeout),
        (Phase::Exchanging, Event::Response(code)) => if code == RESP_OK {
            (Link::Authenticated, Phase::Idle, Action::Finish(Ok(code)))
        } else {
            fail(ControlError::ControllerError(code))
        },
        (Phase::Exchanging, Event::Failed(c)) => fail(ControlError::Io(c)),
        (Phase::Exchanging, Event::TimedOut) => fail(ControlError::Timeout),
        _ => fail(ControlError::InternalMutexError),
    }
}

/// A non-success response byte ends the command with a remote-rejected
/// error carrying that byte, which is neither a timeout nor a connect error,
/// and the cached connection is dropped.
pub proof fn lemma_rejected_code(link: Link, addr: String, code: u8)
    requires
        code != RESP_OK,
    ensures
        step(link, Phase::Exchanging, addr, Event::Response(code)) == fail(
            ControlError::ControllerError(code),
        ),
        !(step(link, Phase::Exchanging, addr, Event::Response(code)).2 matches Action::Finish(
            Err(ControlError::Timeout),
        )),
        !(step(link, Phase::Exchanging, addr, Event::Response(code)).2 matches Action::Finish(
            Err(ControlError::Connection(_, _)),
        )),
{
}

/// After a successful command the next command does not connect or
/// authenticate again: it probes the cached connection and, when the probe
/// passes, transmits at once.
pub proof fn lemma_success_reuses_connection(link: Link, addr: String)
    ensures
        ({
            let (next_link, next_phase, next_action) = step(link, Phase::Exchanging, addr, Event::Response(RESP_OK));
            &&& next_phase == Phase::Idle
            &&& next_action matches Action::Finish(Ok(_))
            &&& begin_step(next_link).0 == Phase::Probing
            &&& begin_step(next_link).1 matches Action::Probe
            &&& step(next_link, Phase::Probing, addr, Event::Done).1 == Phase::Exchanging
            &&& step(next_link, Phase::Probing, addr, Event::Done).2 matches Action::Transmit
        }),
{
}

/// A timeout while connecting, authenticating or exchanging ends the
/// command with a timeout error. At any point a timeout drops the
/// connection, so the next command connects and authenticates anew.
pub proof fn lemma_timeout_forces_reconnect(link: Link, phase: Phase, addr: String)
    ensures
        ({
            let (next_link, next_phase, next_action) = step(link, phase, addr, Event::TimedOut);
            &&& next_link == Link::Disconnected
            &&& next_phase == Phase::Idle
            &&& phase != Phase::Probing && phase != Phase::Idle ==> (next_action matches Action::Finish(
                Err(ControlError::Timeout),
            ))
            &&& begin_step(next_link).0 == Phase::Connecting
            &&& begin_step(next_link).1 matches Action::Connect
        }),
{
}

/// A session is authenticated only once the key was written on a new
/// connection or a probe confirmed the cached one: a connect alone never
/// makes it so.
pub proof fn lemma_no_half_authenticated(link: Link, addr: String, ev: Event)
    ensures
        step(link, Phase::Connecting, addr, ev).0 == Link::Disconnected,
{
}

/// One client's connection state and the command under way.
pub struct Session {
    pub link: Link,
    pub phase: Phase,
    /// The controller's address, as reported in connection errors.
    pub addr: String,
    pub key: u32,
    pub packet: CommandPacket,
}

impl Session {
    /// A client that has not connected yet.
    pub fn new(addr: String, key: u32) -> (r: Session)
        ensures
            r.link == Link::Disconnected,
            r.phase == Phase::Idle,
            r.addr == addr,
            r.key == key,
            r.packet.padding@ == seq![0u8, 0u8, 0u8],
    {
        Session { link: Link::Disconnected, phase: Phase::Idle, addr, key, packet: CommandPacket::new(CMD_PING, 0) }
    }

    /// Starts a command: reuse the cached connection after a probe, or
    /// connect.
    pub fn begin(&mut self, command_id: u8, arg1: u32) -> (r: Action)
        requires
            old(self).phase == Phase::Idle,
        ensures
            (final(self).phase, r) == begin_step(old(self).link),
            final(self).link == old(self).link,
            final(self).addr == old(self).addr,
            final(self).key == old(self).key,
            final(self).packet.command_id == command_id,
            final(self).packet.arg1 == arg1,
            final(self).packet.padding@ == seq![0u8, 0u8, 0u8],
    {
        self.packet = CommandPacket::new(command_id, arg1);
        match self.link {
            Link::Authenticated => {
                self.phase = Phase::Probing;
                Action::Probe
            },
            Link::Disconnected => {
                self.phase = Phase::Connecting;
                Action::Connect
            },
        }
    }

    /// Takes the outcome of the last action and says what comes next.
    pub fn handle(&mut self, ev: Event) -> (r: Action)
        ensures
            (final(self).link, final(self).phase, r) == step(
                old(self).link,
                old(self).phase,
                old(self).addr,
                ev,
            ),
            final(self).addr == old(self).addr,
            final(self).key == old(self).key,
            final(self).packet == old(self).packet,
    {
        let (link, phase, action) = match (self.phase, ev) {
            (Phase::Probing, Event::Done) => (Link::Authenticated, Phase::Exchanging, Action::Transmit),
            (Phase::Probing, Event::Failed(_)) => (Link::Disconnected, Phase::Connecting, Action::Connect),
            (Phase::Connecting, Event::Done) => (
                Link::Disconnected,
                Phase::Authenticating,
                Action::Authenticate,
            ),
            (Phase::Connecting, Event::Failed(c)) => (
                Link::Disconnected,
                Phase::Idle,
                Action::Finish(Err(ControlError::Connection(self.addr.clone(), c))),
            ),
            (Phase::Connecting, Event::TimedOut) => (
                Link::Disconnected,
                Phase::Idle,
                Action::Finish(Err(ControlError::Timeout)),
            ),
            (Phase::Authenticating, Event::Done) => (
                Link::Authenticated,
                Phase::Exchanging,
                Action::Transmit,
            ),
            (Phase::Authenticating, Event::Failed(_)) => (
                Link::Disconnected,
                Phase::Idle,
                Action::Finish(Err(ControlError::Authentication)),
            ),
            (Phase::Authenticating, Event::TimedOut) => (
                Link::Disconnected,
                Phase::Idle,
                Action::Finish(Err(ControlError::Timeout)),
            ),
            (Phase::Exchanging, Event::Response(code)) => {
                if code == RESP_OK {
                    (Link::Authenticated, Phase::Idle, Action::Finish(Ok(code)))
                } else {
                    (
                        Link::Disconnected,
                        Phase::Idle,
                        Action::Finish(Err(ControlError::ControllerError(code))),
                    )
                }
            },
            (Phase::Exchanging, Event::Failed(c)) => (
                Link::Disconnected,
                Phase::Idle,
                Action::Finish(Err(ControlError::Io(c))),
            ),
            (Phase::Exchanging, Event::TimedOut) => (
                Link::Disconnected,
                Phase::Idle,
                Action::Finish(Err(ControlError::Timeout)),
            ),
            _ => (
                Link::Disconnected,
                Phase::Idle,
                Action::Finish(Err(ControlError::InternalMutexError)),
            ),
        };
        self.link = link;
        self.phase = phase;
        action
    }

    /// The bytes that authenticate a new connection: the key, little-endian.
    pub fn key_bytes(&self) -> (r: [u8; 4])
        ensures
            r@ == le_bytes(self.key),
    {
        u32_le(self.key)
    }

    /// The frame of the command under way.
    pub fn frame(&self) -> (r: [u8; 8])
        requires
            self.packet.padding@ == seq![0u8, 0u8, 0u8],
        ensures
            r@ == frame_bytes(self.packet.command_id, self.packet.arg1),
    {
        self.packet.serialize()
    }
}

} // verus!
