//! The modem's session: power-up, registration, connection, and the packets sent over it.
use vstd::prelude::*;

use crate::decimal;
use crate::fixed;
use crate::gsm::at;
use crate::gsm::packet;

verus! {

/// How often the modem's status is looked at again after its power key was pressed.
pub const BOOT_POLLS: u32 = 50;

/// How many seconds the server is listened to between two packets.
pub const LISTEN_SECS: u64 = 60;

/// Where the session stands.
#[derive(Clone, Copy, Debug, PartialEq, Eq, Structural)]
pub enum Stage {
    /// The control lines are driven low.
    LowerLines,
    /// The status line is read to see whether the modem is on.
    FirstStatus,
    /// The power key is pressed.
    KeyDown,
    /// The power key is held.
    KeyHold,
    /// The power key is let go.
    KeyUp,
    /// The status line is read again, after so many waits.
    BootPoll(u32),
    /// A wait for the modem to come on, after so many before.
    BootWait(u32),
    /// The modem is given time to start.
    Settle,
    /// What it said meanwhile is read away.
    Purge,
    /// The modem is asked for a sign of life.
    Sync,
    /// A pause before it is asked again.
    SyncPause,
    /// The echo is switched off.
    EchoOff,
    /// Old bytes are read away before the network is asked about.
    RegPurge,
    /// The state of the SIM card is asked for.
    PinAsk,
    /// The answer is read away.
    PinRead,
    /// Registration in the packet network is asked for.
    EpsAsk,
    /// The answer is read.
    EpsRead,
    /// Registration in the circuit network is asked for.
    CsAsk,
    /// The answer is read.
    CsRead,
    /// A pause before the networks are asked about again.
    RegPause,
    /// The access point is set.
    Context,
    /// The context is activated.
    Activate,
    /// A connection left over is closed.
    CloseStale,
    /// The network service left over is closed.
    NetClose,
    /// The network service is opened.
    NetOpen,
    /// A pause before the server is called.
    NetPause,
    /// The server is called.
    Connect,
    /// The latest readings are taken.
    Sample,
    /// A packet is announced.
    Prompt,
    /// The packet is sent.
    Deliver,
    /// The time to listen to the server begins.
    ListenStart,
    /// The clock is read to see whether it is over.
    ListenClock,
    /// The server is listened to.
    ListenRead,
    /// The connection is closed.
    Hangup,
    /// A pause before everything from registration on is done again.
    Redial,
}

/// What the session asks to be done next.
pub enum ModemAction<'a> {
    /// Drive the power key, the reset line and the DTR line low.
    LowerLines,
    /// Read the status line.
    ReadStatus,
    /// Drive the power key high or low.
    SetPowerKey(bool),
    /// Let so many milliseconds pass.
    Sleep(u64),
    /// Read what comes, for at most so many milliseconds.
    Read(u64),
    /// Write a command, whatever comes of it.
    Write(&'a str),
    /// Carry out an exchange with this command, expected text and time in milliseconds.
    Exchange(&'a str, &'a str, u64),
    /// Take the latest readings.
    ReadSensors,
    /// Start the clock.
    StartClock,
    /// Say how many whole seconds have passed since the clock was started.
    ReadClock,
}

/// What came of an action.
pub enum ModemEvent<'a> {
    /// It was done.
    Done,
    /// The status line was high, or low.
    Status(bool),
    /// Bytes were read.
    Received(&'a [u8]),
    /// Nothing was read in time, or the line reported an error.
    NothingReceived,
    /// The exchange succeeded, or failed.
    Exchanged(bool),
    /// Voltage, current and potential in thousandths.
    Readings(i64, i64, i64),
    /// So many whole seconds have passed.
    Elapsed(u64),
}

/// What a session is about: its stage, and the packet and its announcement made last.
pub struct Session {
    pub stage: Stage,
    pub command: Seq<char>,
    pub packet: Seq<char>,
}

/// Whether `action` writes `command`.
pub open spec fn is_write(action: ModemAction, command: Seq<char>) -> bool {
    action matches ModemAction::Write(c) && c@ == command
}

/// Whether `action` is an exchange with this command, expected text and time.
pub open spec fn is_exchange(
    action: ModemAction,
    command: Seq<char>,
    expected: Seq<char>,
    wait_ms: u64,
) -> bool {
    action matches ModemAction::Exchange(c, e, w) && c@ == command && e@ == expected && w
        == wait_ms
}

/// Whether `action` is the one that a session asks for.
pub open spec fn asks_for(s: Session, action: ModemAction) -> bool {
    match s.stage {
        Stage::LowerLines => action == ModemAction::LowerLines,
        Stage::FirstStatus => action == ModemAction::ReadStatus,
        Stage::KeyDown => action == ModemAction::SetPowerKey(true),
        Stage::KeyHold => action == ModemAction::Sleep(1000),
        Stage::KeyUp => action == ModemAction::SetPowerKey(false),
        Stage::BootPoll(_) => action == ModemAction::ReadStatus,
        Stage::BootWait(_) => action == ModemAction::Sleep(100),
        Stage::Settle => action == ModemAction::Sleep(3000),
        Stage::Purge => action == ModemAction::Read(500),
        Stage::Sync => is_exchange(action, "AT\r\n"@, "OK"@, 1000),
        Stage::SyncPause => action == ModemAction::Sleep(500),
        Stage::EchoOff => is_exchange(action, "ATE0\r\n"@, "OK"@, 1000),
        Stage::RegPurge => action == ModemAction::Read(50),
        Stage::PinAsk => is_write(action, "AT+CPIN?\r\n"@),
        Stage::PinRead => action == ModemAction::Read(1000),
        Stage::EpsAsk => is_write(action, "AT+CEREG?\r\n"@),
        Stage::EpsRead => action == ModemAction::Read(1000),
        Stage::CsAsk => is_write(action, "AT+CREG?\r\n"@),
        Stage::CsRead => action == ModemAction::Read(1000),
        Stage::RegPause => action == ModemAction::Sleep(3000),
        Stage::Context => is_exchange(
            action,
            "AT+CGDCONT=1,\"IP\",\"www\"\r\n"@,
            "OK"@,
            2000,
        ),
        Stage::Activate => is_exchange(action, "AT+CGACT=1,1\r\n"@, "OK"@, 5000),
        Stage::CloseStale => is_exchange(action, "AT+CIPCLOSE=0\r\n"@, "OK"@, 1500),
        Stage::NetClose => is_exchange(action, "AT+NETCLOSE\r\n"@, "OK"@, 1500),
        Stage::NetOpen => is_exchange(action, "AT+NETOPEN\r\n"@, "OK"@, 5000),
        Stage::NetPause => action == ModemAction::Sleep(1000),
        Stage::Connect => is_exchange(
            action,
            "AT+CIPOPEN=0,\"TCP\",\"scz.pge.md\",16992\r\n"@,
            "+CIPOPEN: 0,0"@,
            15000,
        ),
        Stage::Sample => action == ModemAction::ReadSensors,
        Stage::Prompt => is_exchange(action, s.command, ">"@, 2000),
        Stage::Deliver => is_exchange(action, s.packet, "OK"@, 10000),
        Stage::ListenStart => action == ModemAction::StartClock,
        Stage::ListenClock => action == ModemAction::ReadClock,
        Stage::ListenRead => action == ModemAction::Read(500),
        Stage::Hangup => is_exchange(action, "AT+CIPCLOSE=0\r\n"@, "OK"@, 2000),
        Stage::Redial => action == ModemAction::Sleep(10000),
    }
}

/// Whether `event` says that a read has ended, with bytes or without.
pub open spec fn read_ended(event: ModemEvent) -> bool {
    event is Received || event is NothingReceived
}

/// The stage after `event`. An event that does not answer the action asked for changes nothing.
pub open spec fn next_stage(stage: Stage, event: ModemEvent) -> Stage {
    match stage {
        Stage::LowerLines => if event is Done { Stage::FirstStatus } else { stage },
        Stage::FirstStatus => match event {
            ModemEvent::Status(high) => if high { Stage::Settle } else { Stage::KeyDown },
            _ => stage,
        },
        Stage::KeyDown => if event is Done { Stage::KeyHold } else { stage },
        Stage::KeyHold => if event is Done { Stage::KeyUp } else { stage },
        Stage::KeyUp => if event is Done { Stage::BootPoll(0) } else { stage },
        Stage::BootPoll(polls) => match event {
            ModemEvent::Status(high) => if !high && polls < BOOT_POLLS {
                Stage::BootWait(polls)
            } else {
                Stage::Settle
            },
            _ => stage,
        },
        Stage::BootWait(polls) => if event is Done {
            Stage::BootPoll((polls + 1) as u32)
        } else {
            stage
        },
        Stage::Settle => if event is Done { Stage::Purge } else { stage },
        Stage::Purge => if read_ended(event) { Stage::Sync } else { stage },
        Stage::Sync => match event {
            ModemEvent::Exchanged(ok) => if ok { Stage::EchoOff } else { Stage::SyncPause },
            _ => stage,
        },
        Stage::SyncPause => if event is Done { Stage::Sync } else { stage },
        Stage::EchoOff => if event is Exchanged { Stage::RegPurge } else { stage },
        Stage::RegPurge => if read_ended(event) { Stage::PinAsk } else { stage },
        Stage::PinAsk => if event is Done { Stage::PinRead } else { stage },
        Stage::PinRead => if read_ended(event) { Stage::EpsAsk } else { stage },
        Stage::EpsAsk => if event is Done { Stage::EpsRead } else { stage },
        Stage::EpsRead => match event {
            ModemEvent::Received(bytes) => if at::reports_eps(bytes@) {
                Stage::Context
            } else {
                Stage::CsAsk
            },
            ModemEvent::NothingReceived => Stage::CsAsk,
            _ => stage,
        },
        Stage::CsAsk => if event is Done { Stage::CsRead } else { stage },
        Stage::CsRead => match event {
            ModemEvent::Received(bytes) => if at::reports_cs(bytes@) {
                Stage::Context
            } else {
                Stage::RegPause
            },
            ModemEvent::NothingReceived => Stage::RegPause,
            _ => stage,
        },
        Stage::RegPause => if event is Done { Stage::RegPurge } else { stage },
        Stage::Context => if event is Exchanged { Stage::Activate } else { stage },
        Stage::Activate => if event is Exchanged { Stage::CloseStale } else { stage },
        Stage::CloseStale => if event is Exchanged { Stage::NetClose } else { stage },
        Stage::NetClose => if event is Exchanged { Stage::NetOpen } else { stage },
        Stage::NetOpen => if event is Exchanged { Stage::NetPause } else { stage },
        Stage::NetPause => if event is Done { Stage::Connect } else { stage },
        Stage::Connect => match event {
            ModemEvent::Exchanged(ok) => if ok { Stage::Sample } else { Stage::Hangup },
            _ => stage,
        },
        Stage::Sample => if event is Readings { Stage::Prompt } else { stage },
        Stage::Prompt => match event {
            ModemEvent::Exchanged(ok) => if ok { Stage::Deliver } else { Stage::Hangup },
            _ => stage,
        },
        Stage::Deliver => match event {
            ModemEvent::Exchanged(ok) => if ok { Stage::ListenStart } else { Stage::Hangup },
            _ => stage,
        },
        Stage::ListenStart => if event is Done { Stage::ListenClock } else { stage },
        Stage::ListenClock => match event {
            ModemEvent::Elapsed(secs) => if secs < LISTEN_SECS {
                Stage::ListenRead
            } else {
                Stage::Sample
            },
            _ => stage,
        },
        Stage::ListenRead => if read_ended(event) { Stage::ListenClock } else { stage },
        Stage::Hangup => if event is Exchanged { Stage::Redial } else { stage },
        Stage::Redial => if event is Done { Stage::RegPurge } else { stage },
    }
}

/// The session after `event`: where it awaited readings and got them, the packet made of them
/// and its announcement are ready to be sent.
pub open spec fn session_after(s: Session, event: ModemEvent) -> Session {
    match event {
        ModemEvent::Readings(u, i, p) if s.stage is Sample => {
            let text = packet::packet(u as int, i as int, p as int);
            Session {
                stage: Stage::Prompt,
                command: packet::announcement(fixed::byte_len(text)),
                packet: text,
            }
        },
        _ => Session { stage: next_stage(s.stage, event), ..s },
    }
}

/// Whether `text` is the packet of some readings.
pub open spec fn is_packet(text: Seq<char>) -> bool {
    exists|u: i64, i: i64, p: i64| text == #[trigger] packet::packet(u as int, i as int, p as int)
}

/// What every session keeps: the polls after power-up are counted up to their limit, and while
/// a packet is announced or sent it is one with its checksum, and its announcement names its
/// length.
pub open spec fn sound(s: Session) -> bool {
    &&& s.stage matches Stage::BootPoll(polls) ==> polls <= BOOT_POLLS
    &&& s.stage matches Stage::BootWait(polls) ==> polls < BOOT_POLLS
    &&& s.stage is Prompt || s.stage is Deliver ==> is_packet(s.packet) && s.command
        == packet::announcement(fixed::byte_len(s.packet))
}

/// A session with the modem.
pub struct Modem {
    stage: Stage,
    command: heapless::String<32>,
    packet: heapless::String<256>,
}

impl View for Modem {
    type V = Session;

    closed spec fn view(&self) -> Session {
        Session {
            stage: self.stage,
            command: fixed::text32(self.command),
            packet: fixed::text256(self.packet),
        }
    }
}

impl Modem {
    /// A session before the modem was touched.
    pub fn new() -> (r: Modem)
        ensures
            r@ == (Session {
                stage: Stage::LowerLines,
                command: Seq::empty(),
                packet: Seq::empty(),
            }),
            sound(r@),
    {
        Modem { stage: Stage::LowerLines, command: fixed::new32(), packet: fixed::new256() }
    }

    /// Where the session stands.
    pub fn stage(&self) -> (r: Stage)
        ensures
            r == self@.stage,
    {
        self.stage
    }

    /// What is to be done now.
    pub fn action(&self) -> (r: ModemAction)
        ensures
            asks_for(self@, r),
    {
        match self.stage {
            Stage::LowerLines => ModemAction::LowerLines,
            Stage::FirstStatus => ModemAction::ReadStatus,
            Stage::KeyDown => ModemAction::SetPowerKey(true),
            Stage::KeyHold => ModemAction::Sleep(1000),
            Stage::KeyUp => ModemAction::SetPowerKey(false),
            Stage::BootPoll(_) => ModemAction::ReadStatus,
            Stage::BootWait(_) => ModemAction::Sleep(100),
            Stage::Settle => ModemAction::Sleep(3000),
            Stage::Purge => ModemAction::Read(500),
            Stage::Sync => ModemAction::Exchange("AT\r\n", "OK", 1000),
            Stage::SyncPause => ModemAction::Sleep(500),
            Stage::EchoOff => ModemAction::Exchange("ATE0\r\n", "OK", 1000),
            Stage::RegPurge => ModemAction::Read(50),
            Stage::PinAsk => ModemAction::Write("AT+CPIN?\r\n"),
            Stage::PinRead => ModemAction::Read(1000),
            Stage::EpsAsk => ModemAction::Write("AT+CEREG?\r\n"),
            Stage::EpsRead => ModemAction::Read(1000),
            Stage::CsAsk => ModemAction::Write("AT+CREG?\r\n"),
            Stage::CsRead => ModemAction::Read(1000),
            Stage::RegPause => ModemAction::Sleep(3000),
            Stage::Context => {
                ModemAction::Exchange("AT+CGDCONT=1,\"IP\",\"www\"\r\n", "OK", 2000)
            },
            Stage::Activate => ModemAction::Exchange("AT+CGACT=1,1\r\n", "OK", 5000),
            Stage::CloseStale => ModemAction::Exchange("AT+CIPCLOSE=0\r\n", "OK", 1500),
            Stage::NetClose => ModemAction::Exchange("AT+NETCLOSE\r\n", "OK", 1500),
            Stage::NetOpen => ModemAction::Exchange("AT+NETOPEN\r\n", "OK", 5000),
            Stage::NetPause => ModemAction::Sleep(1000),
            Stage::Connect => ModemAction::Exchange(
                "AT+CIPOPEN=0,\"TCP\",\"scz.pge.md\",16992\r\n",
                "+CIPOPEN: 0,0",
                15000,
            ),
            Stage::Sample => ModemAction::ReadSensors,
            Stage::Prompt => ModemAction::Exchange(fixed::str32(&self.command), ">", 2000),
            Stage::Deliver => ModemAction::Exchange(fixed::str256(&self.packet), "OK", 10000),
            Stage::ListenStart => ModemAction::StartClock,
            Stage::ListenClock => ModemAction::ReadClock,
            Stage::ListenRead => ModemAction::Read(500),
            Stage::Hangup => ModemAction::Exchange("AT+CIPCLOSE=0\r\n", "OK", 2000),
            Stage::Redial => ModemAction::Sleep(10000),
        }
    }

    /// Takes in what came of the action.
    pub fn step(&mut self, event: ModemEvent)
        requires
            sound(old(self)@),
        ensures
            final(self)@ == session_after(old(self)@, event),
            sound(final(self)@),
    {
        match event {
            ModemEvent::Done => {
                self.stage = match self.stage {
                    Stage::LowerLines => Stage::FirstStatus,
                    Stage::KeyDown => Stage::KeyHold,
                    Stage::KeyHold => Stage::KeyUp,
                    Stage::KeyUp => Stage::BootPoll(0),
                    Stage::BootWait(polls) => Stage::BootPoll(polls + 1),
                    Stage::Settle => Stage::Purge,
                    Stage::SyncPause => Stage::Sync,
                    Stage::PinAsk => Stage::PinRead,
                    Stage::EpsAsk => Stage::EpsRead,
                    Stage::CsAsk => Stage::CsRead,
                    Stage::RegPause => Stage::RegPurge,
                    Stage::NetPause => Stage::Connect,
                    Stage::ListenStart => Stage::ListenClock,
                    Stage::Redial => Stage::RegPurge,
                    stage => stage,
                };
            },
            ModemEvent::Status(high) => {
                self.stage = match self.stage {
                    Stage::FirstStatus => if high { Stage::Settle } else { Stage::KeyDown },
                    Stage::BootPoll(polls) => if !high && polls < BOOT_POLLS {
                        Stage::BootWait(polls)
                    } else {
                        Stage::Settle
                    },
                    stage => stage,
                };
            },
            ModemEvent::Received(bytes) => {
                self.stage = match self.stage {
                    Stage::EpsRead => if at::eps_registered(bytes) {
                        Stage::Context
                    } else {
                        Stage::CsAsk
                    },
                    Stage::CsRead => if at::cs_registered(bytes) {
                        Stage::Context
                    } else {
                        Stage::RegPause
                    },
                    stage => after_read(stage),
                };
            },
            ModemEvent::NothingReceived => {
                self.stage = match self.stage {
                    Stage::EpsRead => Stage::CsAsk,
                    Stage::CsRead => Stage::RegPause,
                    stage => after_read(stage),
                };
            },
            ModemEvent::Exchanged(ok) => {
                self.stage = match self.stage {
                    Stage::Sync => if ok { Stage::EchoOff } else { Stage::SyncPause },
                    Stage::EchoOff => Stage::RegPurge,
                    Stage::Context => Stage::Activate,
                    Stage::Activate => Stage::CloseStale,
                    Stage::CloseStale => Stage::NetClose,
                    Stage::NetClose => Stage::NetOpen,
                    Stage::NetOpen => Stage::NetPause,
                    Stage::Connect => if ok { Stage::Sample } else { Stage::Hangup },
                    Stage::Prompt => if ok { Stage::Deliver } else { Stage::Hangup },
                    Stage::Deliver => if ok { Stage::ListenStart } else { Stage::Hangup },
                    Stage::Hangup => Stage::Redial,
                    stage => stage,
                };
            },
            ModemEvent::Readings(u1_mv, i1_mv, p1_mv) => {
                if let Stage::Sample = self.stage {
                    self.packet = packet::telemetry_packet(u1_mv, i1_mv, p1_mv);
                    self.command = packet::send_command(&self.packet);
                    self.stage = Stage::Prompt;
                    assert(is_packet(self@.packet));
                }
            },
            ModemEvent::Elapsed(secs) => {
                if let Stage::ListenClock = self.stage {
                    self.stage = if secs < LISTEN_SECS {
                        Stage::ListenRead
                    } else {
                        Stage::Sample
                    };
                }
            },
        }
    }
}

/// The stage after a read whose bytes decide nothing.
fn after_read(stage: Stage) -> (r: Stage)
    ensures
        r == (match stage {
            Stage::Purge => Stage::Sync,
            Stage::RegPurge => Stage::PinAsk,
            Stage::PinRead => Stage::EpsAsk,
            Stage::ListenRead => Stage::ListenClock,
            _ => stage,
        }),
{
    match stage {
        Stage::Purge => Stage::Sync,
        Stage::RegPurge => Stage::PinAsk,
        Stage::PinRead => Stage::EpsAsk,
        Stage::ListenRead => Stage::ListenClock,
        _ => stage,
    }
}

/// Whether the connection to the server is up.
pub open spec fn connected(stage: Stage) -> bool {
    stage is Sample || stage is Prompt || stage is Deliver || stage is ListenStart
        || stage is ListenClock || stage is ListenRead
}

/// Whether the modem is being powered up.
pub open spec fn starting_up(stage: Stage) -> bool {
    stage is LowerLines || stage is FirstStatus || stage is KeyDown || stage is KeyHold
        || stage is KeyUp || stage is BootPoll || stage is BootWait || stage is Settle
        || stage is Purge
}

/// Whether the modem answers but is not registered yet.
pub open spec fn registering(stage: Stage) -> bool {
    stage is RegPurge || stage is PinAsk || stage is PinRead || stage is EpsAsk || stage is EpsRead
        || stage is CsAsk || stage is CsRead || stage is RegPause
}

/// Whether the modem is on but has not been asked about the network yet.
pub open spec fn synchronising(stage: Stage) -> bool {
    stage is Sync || stage is SyncPause || stage is EchoOff
}

/// The connection comes up in one way, by an accepted request to connect, and goes down in one
/// way, by a failed exchange, after which it is closed and tried anew from registration on.
pub proof fn connection_comes_and_goes(stage: Stage, event: ModemEvent)
    ensures
        !connected(stage) && connected(next_stage(stage, event)) ==> stage is Connect && event
            == ModemEvent::Exchanged(true) && next_stage(stage, event) is Sample,
        connected(stage) && !connected(next_stage(stage, event)) ==> event
            == ModemEvent::Exchanged(false) && next_stage(stage, event) is Hangup,
        next_stage(Stage::Hangup, ModemEvent::Exchanged(true)) is Redial,
        next_stage(Stage::Hangup, ModemEvent::Exchanged(false)) is Redial,
        next_stage(Stage::Redial, ModemEvent::Done) is RegPurge,
{
}

/// A packet is sent only when the modem has prompted for it, and announced only when it was
/// freshly made of readings.
pub proof fn packet_waits_for_the_prompt(stage: Stage, event: ModemEvent)
    ensures
        !(stage is Deliver) && next_stage(stage, event) is Deliver ==> stage is Prompt && event
            == ModemEvent::Exchanged(true),
        !(stage is Prompt) && next_stage(stage, event) is Prompt ==> stage is Sample
            && event is Readings,
{
}

/// How many answers power-up may still take.
pub open spec fn startup_steps(stage: Stage) -> int {
    match stage {
        Stage::LowerLines => 2 * BOOT_POLLS + 8,
        Stage::FirstStatus => 2 * BOOT_POLLS + 7,
        Stage::KeyDown => 2 * BOOT_POLLS + 6,
        Stage::KeyHold => 2 * BOOT_POLLS + 5,
        Stage::KeyUp => 2 * BOOT_POLLS + 4,
        Stage::BootPoll(polls) => 2 * (BOOT_POLLS - polls) + 3,
        Stage::BootWait(polls) => 2 * (BOOT_POLLS - polls) + 2,
        Stage::Settle => 2,
        Stage::Purge => 1,
        _ => 0,
    }
}

/// Power-up always comes to an end, whatever the modem's status line does: each answer leaves
/// fewer to be awaited, and no stage outside power-up leads back into it.
pub proof fn power_up_comes_to_an_end(s: Session, event: ModemEvent)
    requires
        sound(s),
    ensures
        starting_up(s.stage) ==> 0 < startup_steps(s.stage) <= 2 * BOOT_POLLS + 8,
        starting_up(s.stage) && next_stage(s.stage, event) != s.stage ==> startup_steps(
            next_stage(s.stage, event),
        ) < startup_steps(s.stage),
        !starting_up(s.stage) ==> !starting_up(next_stage(s.stage, event)),
{
}

/// The power key is pressed only to start a modem that was found switched off, and it is let go
/// again after it was held.
pub proof fn power_key_is_let_go(stage: Stage, event: ModemEvent)
    ensures
        !(stage is KeyDown) && next_stage(stage, event) is KeyDown ==> stage is FirstStatus
            && event == ModemEvent::Status(false),
        next_stage(Stage::KeyDown, ModemEvent::Done) is KeyHold,
        next_stage(Stage::KeyHold, ModemEvent::Done) is KeyUp,
        stage is KeyDown ==> next_stage(stage, event) is KeyDown || next_stage(
            stage,
            event,
        ) is KeyHold,
        stage is KeyHold ==> next_stage(stage, event) is KeyHold || next_stage(
            stage,
            event,
        ) is KeyUp,
{
}

/// The stage that a session has reached after `events`.
pub open spec fn stage_run(events: Seq<ModemEvent>) -> Stage
    decreases events.len(),
{
    if events.len() == 0 {
        Stage::LowerLines
    } else {
        next_stage(stage_run(events.drop_last()), events.last())
    }
}

/// Whether `event` reports registration to a session that reads the answer at `stage`: in the
/// packet network or, asked about after it, in the circuit network.
pub open spec fn reports_registration(stage: Stage, event: ModemEvent) -> bool {
    event matches ModemEvent::Received(bytes) && (stage is EpsRead && at::reports_eps(bytes@)
        || stage is CsRead && at::reports_cs(bytes@))
}

/// Whether a session at `stage` has been told that the modem is registered, and does not ask
/// again.
pub open spec fn registered(stage: Stage) -> bool {
    !starting_up(stage) && !synchronising(stage) && !registering(stage)
}

/// Whether a session was past registration throughout `events`, behind the first `from` of them.
#[verifier::opaque]
pub open spec fn registered_since(events: Seq<ModemEvent>, from: int) -> bool {
    forall|m: int| from <= m <= events.len() ==> registered(#[trigger] stage_run(events.take(m)))
}

/// Whether a session was connected throughout `events`, behind the first `from` of them.
#[verifier::opaque]
pub open spec fn connected_since(events: Seq<ModemEvent>, from: int) -> bool {
    forall|m: int| from <= m <= events.len() ==> connected(#[trigger] stage_run(events.take(m)))
}

/// Whether a session was at `stage` throughout `events`, behind the first `from` of them.
#[verifier::opaque]
pub open spec fn at_stage_since(stage: Stage, events: Seq<ModemEvent>, from: int) -> bool {
    forall|m: int| from <= m <= events.len() ==> #[trigger] stage_run(events.take(m)) == stage
}

/// Whether registration was reported in `events` when it was asked for, and not asked for since.
pub open spec fn was_registered(events: Seq<ModemEvent>) -> bool {
    exists|i: int|
        0 <= i < events.len() && reports_registration(
            stage_run(events.take(i)),
            #[trigger] events[i],
        ) && registered_since(events, i + 1)
}

/// Whether the server was called in `events` with success, by a registered modem, and the
/// connection kept since.
pub open spec fn was_connected(events: Seq<ModemEvent>) -> bool {
    exists|j: int|
        0 <= j < events.len() && #[trigger] events[j] == ModemEvent::Exchanged(true)
            && was_registered(events.take(j)) && stage_run(events.take(j)) is Connect
            && connected_since(events, j + 1)
}

/// Whether readings were taken in `events` over a connection, and nothing done since but to
/// announce their packet.
pub open spec fn was_sampled(events: Seq<ModemEvent>) -> bool {
    exists|k: int|
        0 <= k < events.len() && #[trigger] events[k] is Readings && was_connected(events.take(k))
            && stage_run(events.take(k)) is Sample && at_stage_since(Stage::Prompt, events, k + 1)
}

/// Whether the modem prompted in `events` for a packet of readings just taken, and nothing was
/// done since but to send it.
pub open spec fn was_prompted(events: Seq<ModemEvent>) -> bool {
    exists|k: int|
        0 <= k < events.len() && #[trigger] events[k] == ModemEvent::Exchanged(true)
            && was_sampled(events.take(k)) && stage_run(events.take(k)) is Prompt
            && at_stage_since(Stage::Deliver, events, k + 1)
}

/// What a session was throughout shorter events, it was throughout longer ones where it is so at
/// their end.
proof fn lemma_since(events: Seq<ModemEvent>, from: int, stage: Stage)
    requires
        0 < from <= events.len(),
    ensures
        registered_since(events, from) <==> registered(stage_run(events)) && (from < events.len()
            ==> registered_since(events.drop_last(), from)),
        connected_since(events, from) <==> connected(stage_run(events)) && (from < events.len()
            ==> connected_since(events.drop_last(), from)),
        at_stage_since(stage, events, from) <==> stage_run(events) == stage && (from
            < events.len() ==> at_stage_since(stage, events.drop_last(), from)),
{
    reveal(registered_since);
    reveal(connected_since);
    reveal(at_stage_since);
    let shorter = events.drop_last();
    assert(events.take(events.len() as int) =~= events);
    assert forall|m: int| 0 <= m <= shorter.len() implies #[trigger] stage_run(events.take(m))
        == stage_run(shorter.take(m)) by {
        assert(shorter.take(m) =~= events.take(m));
    }
    assert forall|m: int| 0 <= m <= shorter.len() implies #[trigger] stage_run(shorter.take(m))
        == stage_run(events.take(m)) by {
        assert(shorter.take(m) =~= events.take(m));
    }
}

proof fn lemma_stays_registered(events: Seq<ModemEvent>)
    requires
        events.len() > 0,
        was_registered(events.drop_last()),
        registered(stage_run(events)),
    ensures
        was_registered(events),
{
    let shorter = events.drop_last();
    let i = choose|i: int|
        0 <= i < shorter.len() && reports_registration(
            stage_run(shorter.take(i)),
            #[trigger] shorter[i],
        ) && registered_since(shorter, i + 1);
    assert(shorter.take(i) =~= events.take(i));
    assert(events[i] == shorter[i]);
    lemma_since(events, i + 1, Stage::Context);
}

proof fn lemma_stays_connected(events: Seq<ModemEvent>)
    requires
        events.len() > 0,
        was_connected(events.drop_last()),
        connected(stage_run(events)),
    ensures
        was_connected(events),
{
    let shorter = events.drop_last();
    let j = choose|j: int|
        0 <= j < shorter.len() && #[trigger] shorter[j] == ModemEvent::Exchanged(true)
            && was_registered(shorter.take(j)) && stage_run(shorter.take(j)) is Connect
            && connected_since(shorter, j + 1);
    assert(shorter.take(j) =~= events.take(j));
    assert(events[j] == shorter[j]);
    lemma_since(events, j + 1, Stage::Sample);
}

proof fn lemma_stays_sampled(events: Seq<ModemEvent>)
    requires
        events.len() > 0,
        was_sampled(events.drop_last()),
        stage_run(events) is Prompt,
    ensures
        was_sampled(events),
{
    let shorter = events.drop_last();
    let k = choose|k: int|
        0 <= k < shorter.len() && #[trigger] shorter[k] is Readings && was_connected(
            shorter.take(k),
        ) && stage_run(shorter.take(k)) is Sample && at_stage_since(Stage::Prompt, shorter, k + 1);
    assert(shorter.take(k) =~= events.take(k));
    assert(events[k] == shorter[k]);
    lemma_since(events, k + 1, Stage::Prompt);
}

proof fn lemma_stays_prompted(events: Seq<ModemEvent>)
    requires
        events.len() > 0,
        was_prompted(events.drop_last()),
        stage_run(events) is Deliver,
    ensures
        was_prompted(events),
{
    let shorter = events.drop_last();
    let k = choose|k: int|
        0 <= k < shorter.len() && #[trigger] shorter[k] == ModemEvent::Exchanged(true)
            && was_sampled(shorter.take(k)) && stage_run(shorter.take(k)) is Prompt
            && at_stage_since(Stage::Deliver, shorter, k + 1);
    assert(shorter.take(k) =~= events.take(k));
    assert(events[k] == shorter[k]);
    lemma_since(events, k + 1, Stage::Deliver);
}

/// What was reported, called, taken or prompted for in `events` still holds at their end.
proof fn lemma_history_holds(events: Seq<ModemEvent>)
    ensures
        was_registered(events) ==> registered(stage_run(events)),
        was_connected(events) ==> connected(stage_run(events)),
        was_sampled(events) ==> stage_run(events) is Prompt,
        was_prompted(events) ==> stage_run(events) is Deliver,
{
    if was_registered(events) {
        let i = choose|i: int|
            0 <= i < events.len() && reports_registration(
                stage_run(events.take(i)),
                #[trigger] events[i],
            ) && registered_since(events, i + 1);
        lemma_since(events, i + 1, Stage::Context);
    }
    if was_connected(events) {
        let j = choose|j: int|
            0 <= j < events.len() && #[trigger] events[j] == ModemEvent::Exchanged(true)
                && was_registered(events.take(j)) && stage_run(events.take(j)) is Connect
                && connected_since(events, j + 1);
        lemma_since(events, j + 1, Stage::Sample);
    }
    if was_sampled(events) {
        let k = choose|k: int|
            0 <= k < events.len() && #[trigger] events[k] is Readings && was_connected(
                events.take(k),
            ) && stage_run(events.take(k)) is Sample && at_stage_since(
                Stage::Prompt,
                events,
                k + 1,
            );
        lemma_since(events, k + 1, Stage::Prompt);
    }
    if was_prompted(events) {
        let k = choose|k: int|
            0 <= k < events.len() && #[trigger] events[k] == ModemEvent::Exchanged(true)
                && was_sampled(events.take(k)) && stage_run(events.take(k)) is Prompt
                && at_stage_since(Stage::Deliver, events, k + 1);
        lemma_since(events, k + 1, Stage::Deliver);
    }
}

/// A session gets nowhere by itself: it is past registration exactly where a reply to its
/// question reported it and it has not asked since, connected exactly where a registered modem
/// has called the server and kept the connection, at announcing a packet exactly where the
/// readings of it were just taken over that connection, and at sending it exactly where the modem
/// has just prompted for it.
pub proof fn session_goes_step_by_step(events: Seq<ModemEvent>)
    ensures
        registered(stage_run(events)) <==> was_registered(events),
        connected(stage_run(events)) <==> was_connected(events),
        stage_run(events) is Prompt <==> was_sampled(events),
        stage_run(events) is Deliver <==> was_prompted(events),
    decreases events.len(),
{
    lemma_history_holds(events);
    if events.len() > 0 {
        let end = events.len() - 1;
        session_goes_step_by_step(events.drop_last());
        if was_registered(events.drop_last()) && registered(stage_run(events)) {
            lemma_stays_registered(events);
        }
        if was_connected(events.drop_last()) && connected(stage_run(events)) {
            lemma_stays_connected(events);
        }
        if was_sampled(events.drop_last()) && stage_run(events) is Prompt {
            lemma_stays_sampled(events);
        }
        if was_prompted(events.drop_last()) && stage_run(events) is Deliver {
            lemma_stays_prompted(events);
        }
        lemma_since(events, end + 1, Stage::Prompt);
        lemma_since(events, end + 1, Stage::Deliver);
        assert(events.take(end) =~= events.drop_last());
        assert(events[end] == events.last());
    }
}

/// Whether `event` is an answer to `action`: what was to be done was done, and what was asked for
/// is told.
pub open spec fn answers(action: ModemAction, event: ModemEvent) -> bool {
    match action {
        ModemAction::LowerLines => event is Done,
        ModemAction::ReadStatus => event is Status,
        ModemAction::SetPowerKey(_) => event is Done,
        ModemAction::Sleep(_) => event is Done,
        ModemAction::Read(_) => event is Received || event is NothingReceived,
        ModemAction::Write(_) => event is Done,
        ModemAction::Exchange(_, _, _) => event is Exchanged,
        ModemAction::ReadSensors => event is Readings,
        ModemAction::StartClock => event is Done,
        ModemAction::ReadClock => event is Elapsed,
    }
}

/// A session moves on with every answer to what it asks for, and with nothing else: an event
/// that answers something else leaves it as it was.
pub proof fn only_an_answer_moves_the_session(s: Session, action: ModemAction, event: ModemEvent)
    requires
        sound(s),
        asks_for(s, action),
    ensures
        next_stage(s.stage, event) != s.stage <==> answers(action, event),
        session_after(s, event).stage == next_stage(s.stage, event),
        !answers(action, event) ==> session_after(s, event) == s,
{
}

/// What is announced and sent changes only when readings are taken for a new packet.
pub proof fn packet_is_kept_until_the_next_readings(s: Session, event: ModemEvent)
    ensures
        !(s.stage is Sample && event is Readings) ==> session_after(s, event).packet == s.packet
            && session_after(s, event).command == s.command,
{
}

/// The readings taken are the ones that are sent: with them the modem is asked to announce as many
/// bytes as it is then, when it has prompted, asked to send, and those are the packet of these
/// readings.
pub proof fn readings_taken_are_sent(
    s: Session,
    u: i64,
    i: i64,
    p: i64,
    announce: ModemAction,
    send: ModemAction,
)
    requires
        s.stage is Sample,
        asks_for(session_after(s, ModemEvent::Readings(u, i, p)), announce),
        asks_for(
            session_after(
                session_after(s, ModemEvent::Readings(u, i, p)),
                ModemEvent::Exchanged(true),
            ),
            send,
        ),
    ensures
        announce is Exchange,
        announce->Exchange_0@ == "AT+CIPSEND=0,"@ + decimal::decimal(
            fixed::byte_len(send->Exchange_0@),
        ) + "\r\n"@,
        announce->Exchange_1@ == ">"@,
        announce->Exchange_2 == 2000,
        send is Exchange,
        send->Exchange_0@ == packet::packet(u as int, i as int, p as int),
        send->Exchange_1@ == "OK"@,
        send->Exchange_2 == 10000,
{
}

/// A delivered packet is followed by listening: the clock is started, and read again after
/// every read, whether anything came or not; while fewer than sixty seconds have passed the
/// server is listened to, for half a second at a time, and once they have, new readings are taken.
pub proof fn server_is_listened_to_for_sixty_seconds(
    bytes: &[u8],
    secs: u64,
    s: Session,
    action: ModemAction,
)
    requires
        asks_for(s, action),
    ensures
        next_stage(Stage::Deliver, ModemEvent::Exchanged(true)) is ListenStart,
        next_stage(Stage::ListenStart, ModemEvent::Done) is ListenClock,
        next_stage(Stage::ListenRead, ModemEvent::Received(bytes)) is ListenClock,
        next_stage(Stage::ListenRead, ModemEvent::NothingReceived) is ListenClock,
        secs < 60 ==> next_stage(Stage::ListenClock, ModemEvent::Elapsed(secs)) is ListenRead,
        secs >= 60 ==> next_stage(Stage::ListenClock, ModemEvent::Elapsed(secs)) is Sample,
        s.stage is ListenStart <==> action is StartClock,
        s.stage is ListenClock <==> action is ReadClock,
        s.stage is ListenRead ==> action == ModemAction::Read(500),
        s.stage is Sample <==> action is ReadSensors,
{
}

proof fn lemma_step(events: Seq<ModemEvent>, k: int)
    requires
        0 <= k < events.len(),
    ensures
        stage_run(events.take(k + 1)) == next_stage(stage_run(events.take(k)), events[k]),
{
    assert(events.take(k + 1).drop_last() =~= events.take(k));
    assert(events.take(k + 1).last() == events[k]);
}

/// A session that is listening after `events` delivered a packet in them, started the clock after
/// that, and has done nothing since but read the clock and listen.
proof fn lemma_clock_was_started(events: Seq<ModemEvent>) -> (j: int)
    requires
        stage_run(events) is ListenClock || stage_run(events) is ListenRead,
    ensures
        0 < j < events.len(),
        stage_run(events.take(j)) is ListenStart,
        events[j] is Done,
        forall|m: int|
            j < m <= events.len() ==> (#[trigger] stage_run(events.take(m))) is ListenClock
                || stage_run(events.take(m)) is ListenRead,
    decreases events.len(),
{
    let end = events.len() - 1;
    let shorter = events.drop_last();
    assert(events.take(events.len() as int) =~= events);
    assert(events.take(end) =~= shorter);
    if stage_run(shorter) is ListenStart {
        if end == 0 {
            assert(shorter.len() == 0);
        }
        end
    } else {
        let j = lemma_clock_was_started(shorter);
        assert(shorter.take(j) =~= events.take(j));
        assert(shorter[j] == events[j]);
        assert forall|m: int| j < m <= events.len() implies (#[trigger] stage_run(
            events.take(m),
        )) is ListenClock || stage_run(events.take(m)) is ListenRead by {
            if m < events.len() {
                assert(shorter.take(m) =~= events.take(m));
            }
        }
        j
    }
}

/// Packets over one connection are sixty seconds apart: where a session comes to take readings
/// other than by having just connected, the clock that it started after the delivery before was
/// read and showed sixty seconds or more, and nothing else was done in between but to read the
/// clock and to listen.
pub proof fn packets_are_sixty_seconds_apart(events: Seq<ModemEvent>, k: int) -> (j: int)
    requires
        0 <= k < events.len(),
        stage_run(events.take(k + 1)) is Sample,
        stage_run(events.take(k)) !is Sample,
        !(stage_run(events.take(k)) is Connect),
    ensures
        events[k] matches ModemEvent::Elapsed(secs) && secs >= 60,
        0 < j < k,
        stage_run(events.take(j)) is ListenStart,
        events[j] is Done,
        forall|m: int|
            j < m <= k ==> (#[trigger] stage_run(events.take(m))) is ListenClock || stage_run(
                events.take(m),
            ) is ListenRead,
{
    lemma_step(events, k);
    let before = events.take(k);
    let j = lemma_clock_was_started(before);
    assert(before.take(j) =~= events.take(j));
    assert forall|m: int| j < m <= k implies (#[trigger] stage_run(events.take(m))) is ListenClock
        || stage_run(events.take(m)) is ListenRead by {
        assert(before.take(m) =~= events.take(m));
    }
    j
}

/// The clock of listening is started only by a session whose packet was accepted right before.
pub proof fn clock_is_started_after_a_delivery(stage: Stage, event: ModemEvent)
    ensures
        stage !is ListenStart && next_stage(stage, event) is ListenStart ==> stage is Deliver
            && event == ModemEvent::Exchanged(true),
        stage !is ListenClock && next_stage(stage, event) is ListenClock ==> (stage is ListenStart
            && event is Done) || stage is ListenRead,
        stage !is ListenRead && next_stage(stage, event) is ListenRead ==> stage is ListenClock && (
        event matches ModemEvent::Elapsed(secs) && secs < 60),
{
}

/// What an exchange comes to matters at four places alone: when the modem is asked for a sign of
/// life, when the server is called, and when a packet is announced or sent. Everywhere else the
/// session goes on to the same, whether the modem accepts the command or not.
pub proof fn outcome_matters_at_four_places(stage: Stage)
    ensures
        next_stage(stage, ModemEvent::Exchanged(true)) != next_stage(
            stage,
            ModemEvent::Exchanged(false),
        ) <==> stage is Sync || stage is Connect || stage is Prompt || stage is Deliver,
{
}

/// Synchronisation and set-up go on step by step: the modem is asked until it answers, the echo
/// is switched off before registration, and after registration the access point is set, the
/// context activated, what was left over closed, and the network opened before the server is
/// called.
pub proof fn set_up_goes_step_by_step(ok: bool)
    ensures
        next_stage(Stage::Sync, ModemEvent::Exchanged(true)) is EchoOff,
        next_stage(Stage::Sync, ModemEvent::Exchanged(false)) is SyncPause,
        next_stage(Stage::SyncPause, ModemEvent::Done) is Sync,
        next_stage(Stage::EchoOff, ModemEvent::Exchanged(ok)) is RegPurge,
        next_stage(Stage::Context, ModemEvent::Exchanged(ok)) is Activate,
        next_stage(Stage::Activate, ModemEvent::Exchanged(ok)) is CloseStale,
        next_stage(Stage::CloseStale, ModemEvent::Exchanged(ok)) is NetClose,
        next_stage(Stage::NetClose, ModemEvent::Exchanged(ok)) is NetOpen,
        next_stage(Stage::NetOpen, ModemEvent::Exchanged(ok)) is NetPause,
        next_stage(Stage::NetPause, ModemEvent::Done) is Connect,
{
}

/// A connection that is accepted leads to readings, these to an announcement, a prompt to the
/// packet. Where the server is not reached, the modem does not prompt or the packet is not
/// accepted, the connection is closed, and after a pause everything from registration on is done
/// anew, whatever closing it came to.
pub proof fn failed_exchange_ends_the_connection(ok: bool, u: i64, i: i64, p: i64)
    ensures
        next_stage(Stage::Connect, ModemEvent::Exchanged(true)) is Sample,
        next_stage(Stage::Sample, ModemEvent::Readings(u, i, p)) is Prompt,
        next_stage(Stage::Prompt, ModemEvent::Exchanged(true)) is Deliver,
        next_stage(Stage::Connect, ModemEvent::Exchanged(false)) is Hangup,
        next_stage(Stage::Prompt, ModemEvent::Exchanged(false)) is Hangup,
        next_stage(Stage::Deliver, ModemEvent::Exchanged(false)) is Hangup,
        next_stage(Stage::Hangup, ModemEvent::Exchanged(ok)) is Redial,
        next_stage(Stage::Redial, ModemEvent::Done) is RegPurge,
{
}

/// Whatever the line brings, a round of registration reads away what is old, asks about the SIM
/// card, then about the packet network, and, where that does not report registration, about the
/// circuit network; where neither does, it pauses and begins again.
pub proof fn registration_goes_round(bytes: &[u8])
    ensures
        next_stage(Stage::RegPurge, ModemEvent::Received(bytes)) is PinAsk,
        next_stage(Stage::RegPurge, ModemEvent::NothingReceived) is PinAsk,
        next_stage(Stage::PinAsk, ModemEvent::Done) is PinRead,
        next_stage(Stage::PinRead, ModemEvent::Received(bytes)) is EpsAsk,
        next_stage(Stage::PinRead, ModemEvent::NothingReceived) is EpsAsk,
        next_stage(Stage::EpsAsk, ModemEvent::Done) is EpsRead,
        at::reports_eps(bytes@) ==> next_stage(
            Stage::EpsRead,
            ModemEvent::Received(bytes),
        ) is Context,
        !at::reports_eps(bytes@) ==> next_stage(
            Stage::EpsRead,
            ModemEvent::Received(bytes),
        ) is CsAsk,
        next_stage(Stage::EpsRead, ModemEvent::NothingReceived) is CsAsk,
        next_stage(Stage::CsAsk, ModemEvent::Done) is CsRead,
        at::reports_cs(bytes@) ==> next_stage(
            Stage::CsRead,
            ModemEvent::Received(bytes),
        ) is Context,
        !at::reports_cs(bytes@) ==> next_stage(
            Stage::CsRead,
            ModemEvent::Received(bytes),
        ) is RegPause,
        next_stage(Stage::CsRead, ModemEvent::NothingReceived) is RegPause,
        next_stage(Stage::RegPause, ModemEvent::Done) is RegPurge,
{
}

/// A modem found on is not touched; one found off is started with its power key and then looked at
/// until it is on, fifty times more at most and a tenth of a second apart. Either way it is then
/// given three seconds, and what it said meanwhile is read away before it is asked anything.
pub proof fn modem_is_started_when_off(polls: u32, bytes: &[u8], s: Session, action: ModemAction)
    requires
        asks_for(s, action),
    ensures
        next_stage(Stage::LowerLines, ModemEvent::Done) is FirstStatus,
        next_stage(Stage::FirstStatus, ModemEvent::Status(true)) is Settle,
        next_stage(Stage::FirstStatus, ModemEvent::Status(false)) is KeyDown,
        next_stage(Stage::KeyUp, ModemEvent::Done) == Stage::BootPoll(0),
        next_stage(Stage::BootPoll(polls), ModemEvent::Status(true)) is Settle,
        polls < 50 ==> next_stage(Stage::BootPoll(polls), ModemEvent::Status(false))
            == Stage::BootWait(polls),
        polls >= 50 ==> next_stage(Stage::BootPoll(polls), ModemEvent::Status(false)) is Settle,
        polls < 50 ==> next_stage(Stage::BootWait(polls), ModemEvent::Done) == Stage::BootPoll(
            (polls + 1) as u32,
        ),
        next_stage(Stage::Settle, ModemEvent::Done) is Purge,
        next_stage(Stage::Purge, ModemEvent::Received(bytes)) is Sync,
        next_stage(Stage::Purge, ModemEvent::NothingReceived) is Sync,
        s.stage is BootPoll ==> action is ReadStatus,
        s.stage is BootWait ==> action == ModemAction::Sleep(100),
        s.stage is Settle ==> action == ModemAction::Sleep(3000),
        action == ModemAction::SetPowerKey(true) <==> s.stage is KeyDown,
        action == ModemAction::SetPowerKey(false) <==> s.stage is KeyUp,
{
}

/// Whether `event` is as good as it can be at `stage`: the modem is on, what it is asked to do it
/// does, it is registered, and the time to listen is over.
pub open spec fn goes_well(stage: Stage, event: ModemEvent) -> bool {
    match event {
        ModemEvent::Done => true,
        ModemEvent::Status(high) => high,
        ModemEvent::Received(bytes) => (stage is EpsRead ==> at::reports_eps(bytes@)) && (
        stage is CsRead ==> at::reports_cs(bytes@)),
        ModemEvent::NothingReceived => !(stage is EpsRead) && !(stage is CsRead),
        ModemEvent::Exchanged(ok) => ok,
        ModemEvent::Readings(_, _, _) => true,
        ModemEvent::Elapsed(secs) => secs >= 60,
    }
}

/// How many answers a session is away from taking readings for a packet, if all goes well.
pub open spec fn answers_to_readings(stage: Stage) -> int {
    match stage {
        Stage::KeyDown => 20,
        Stage::KeyHold => 19,
        Stage::KeyUp => 18,
        Stage::LowerLines => 18,
        Stage::BootWait(_) => 18,
        Stage::BootPoll(_) => 17,
        Stage::FirstStatus => 17,
        Stage::Settle => 16,
        Stage::Purge => 15,
        Stage::SyncPause => 15,
        Stage::Sync => 14,
        Stage::Hangup => 14,
        Stage::EchoOff => 13,
        Stage::RegPause => 13,
        Stage::Redial => 13,
        Stage::RegPurge => 12,
        Stage::PinAsk => 11,
        Stage::PinRead => 10,
        Stage::EpsAsk => 9,
        Stage::CsAsk => 9,
        Stage::EpsRead => 8,
        Stage::CsRead => 8,
        Stage::Context => 7,
        Stage::Activate => 6,
        Stage::CloseStale => 5,
        Stage::NetClose => 4,
        Stage::NetOpen => 3,
        Stage::NetPause => 2,
        Stage::Connect => 1,
        Stage::Sample => 0,
        Stage::Prompt => 4,
        Stage::Deliver => 3,
        Stage::ListenStart => 2,
        Stage::ListenRead => 2,
        Stage::ListenClock => 1,
    }
}

/// Every answer that is as good as it can be brings a session one step nearer to a packet: it
/// never goes round in a circle, nor leaves out a step, while the modem does what it is asked.
pub proof fn good_answers_lead_to_a_packet(s: Session, action: ModemAction, event: ModemEvent)
    requires
        sound(s),
        asks_for(s, action),
        answers(action, event),
        goes_well(s.stage, event),
        !(s.stage is Sample),
    ensures
        answers_to_readings(next_stage(s.stage, event)) == answers_to_readings(s.stage) - 1,
{
}

/// With a modem that is on and does what it is asked, a new session takes readings for its first
/// packet after eighteen answers, and not before.
pub proof fn working_modem_connects(events: Seq<ModemEvent>)
    requires
        events.len() <= 18,
        forall|k: int|
            0 <= k < events.len() ==> goes_well(
                #[trigger] stage_run(events.take(k)),
                events[k],
            ) && stage_run(events.take(k + 1)) != stage_run(events.take(k)),
    ensures
        answers_to_readings(stage_run(events)) == 18 - events.len(),
        stage_run(events) is Sample <==> events.len() == 18,
    decreases events.len(),
{
    assert(events.take(events.len() as int) =~= events);
    if events.len() > 0 {
        let shorter = events.drop_last();
        let end = events.len() - 1;
        assert(events.take(end) =~= shorter);
        assert forall|k: int| 0 <= k < shorter.len() implies goes_well(
            #[trigger] stage_run(shorter.take(k)),
            shorter[k],
        ) && stage_run(shorter.take(k + 1)) != stage_run(shorter.take(k)) by {
            assert(shorter.take(k) =~= events.take(k));
            assert(shorter.take(k + 1) =~= events.take(k + 1));
            assert(goes_well(stage_run(events.take(k)), events[k]));
        }
        working_modem_connects(shorter);
        assert(goes_well(stage_run(events.take(end)), events[end]));
        lemma_step(events, end);
    }
}

} // verus!
