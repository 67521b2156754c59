//! The decisions of the thread that owns a CAN socket: which frames go out, how incoming frames are
//! reported, and what to do next.

use socketcan::{CanFrame, EmbeddedFrame, ExtendedId, Id, StandardId};
use vstd::array::array_as_slice;
use vstd::prelude::*;
use vstd::slice::slice_to_vec;
use crate::bytes::i32_wire;
use crate::mit_protocol::{
    feedback_of, packed, unpack_reply, MitCodes, MitFeedback, MotorLimits,
};
use crate::servo_can::{
    can_id_of, function_id, origin_data, parse_upload, pos_spd_data, upload_of, CanPacketId,
    ServoCanValues, UPLOAD_FUNCTION_ID,
};
use crate::text::{decimal, decimal_string, join2, join4};

verus! {

/// Which protocol runs over the connection, with what is needed to decode its frames.
pub enum CanProtocol {
    Mit(MotorLimits),
    ServoCan,
}

/// A command to the worker.
pub enum ToCanWorker {
    /// Send a frame with a standard identifier, as MIT mode does.
    SendStd(u16, [u8; 8]),
    /// Send a frame with an extended identifier, as servo mode does.
    SendExt(u32, Vec<u8>),
    Disconnect,
}

/// A report of the worker.
pub enum FromCanWorker {
    Connected,
    Disconnected(String),
    MitFeedback(MitFeedback),
    ServoValues(ServoCanValues),
    Log(String),
}

/// A report, with its text as characters.
pub ghost enum CanReport {
    Connected,
    Disconnected(Seq<char>),
    MitFeedback(MitFeedback),
    ServoValues(ServoCanValues),
    Log(Seq<char>),
}

impl View for FromCanWorker {
    type V = CanReport;

    open spec fn view(&self) -> CanReport {
        match *self {
            FromCanWorker::Connected => CanReport::Connected,
            FromCanWorker::Disconnected(reason) => CanReport::Disconnected(reason@),
            FromCanWorker::MitFeedback(feedback) => CanReport::MitFeedback(feedback),
            FromCanWorker::ServoValues(values) => CanReport::ServoValues(values),
            FromCanWorker::Log(line) => CanReport::Log(line@),
        }
    }
}

/// A frame identifier.
#[derive(Clone, Copy, Debug, PartialEq, Eq, Structural)]
pub enum CanId {
    /// Standard, 11 bits.
    Standard(u16),
    /// Extended, 29 bits.
    Extended(u32),
}

impl CanId {
    /// The identifier fits its width.
    pub open spec fn wf(self) -> bool {
        match self {
            CanId::Standard(raw) => raw <= 0x7FF,
            CanId::Extended(raw) => raw <= 0x1FFF_FFFF,
        }
    }
}

/// The largest number of data bytes in a frame.
pub const CAN_DATA_MAX: usize = 8;

/// `StandardId::new` of `socketcan`: it gives an identifier for every number of at most 11 bits,
/// and for no other.
#[verifier::external_body]
fn is_standard_id(raw: u16) -> (ok: bool)
    ensures
        ok == CanId::Standard(raw).wf(),
{
    StandardId::new(raw).is_some()
}

/// `ExtendedId::new` of `socketcan`: it gives an identifier for every number of at most 29 bits,
/// and for no other.
#[verifier::external_body]
fn is_extended_id(raw: u32) -> (ok: bool)
    ensures
        ok == CanId::Extended(raw).wf(),
{
    ExtendedId::new(raw).is_some()
}

/// `CanFrame::new` of `socketcan`: under any identifier it builds a data frame around every slice
/// of at most eight bytes, and around no other.
#[verifier::external_body]
fn builds_frame(id: CanId, data: &[u8]) -> (ok: bool)
    requires
        id.wf(),
    ensures
        ok == (data@.len() <= CAN_DATA_MAX),
{
    let id: Id = match id {
        CanId::Standard(raw) => Id::Standard(StandardId::new(raw).unwrap()),
        CanId::Extended(raw) => Id::Extended(ExtendedId::new(raw).unwrap()),
    };
    CanFrame::new(id, data).is_some()
}

/// What can happen to the worker.
pub enum CanInput {
    /// The interface could not be opened.
    OpenFailed(String),
    /// The read timeout could not be set.
    TimeoutFailed(String),
    /// The socket is ready.
    Opened,
    /// A command has arrived.
    Command(ToCanWorker),
    /// No command is waiting.
    NoCommand,
    /// Nobody can send commands any more.
    CommandsClosed,
    /// The frame has been written.
    Written,
    /// Writing failed.
    WriteFailed(String),
    /// A data frame has been read.
    Data(CanId, Vec<u8>),
    /// A frame of another kind has been read.
    OtherFrame,
    /// No frame arrived in time.
    ReadTimedOut,
    /// Reading failed.
    ReadFailed(String),
}

/// What the worker does next.
pub enum CanAction {
    /// Look for a command.
    PollCommands,
    /// Write a data frame.
    Write(CanId, Vec<u8>),
    /// Read a frame.
    Read,
    /// Close the socket and end.
    Stop,
}

/// The report to send, if any, and the next action.
pub struct CanStep {
    pub event: Option<FromCanWorker>,
    pub action: CanAction,
}

/// An input, with its text as characters and its bytes as a sequence.
pub ghost enum CanHappening {
    OpenFailed(Seq<char>),
    TimeoutFailed(Seq<char>),
    Opened,
    Send(CanId, Seq<u8>),
    Disconnect,
    NoCommand,
    CommandsClosed,
    Written,
    WriteFailed(Seq<char>),
    Data(CanId, Seq<u8>),
    OtherFrame,
    ReadTimedOut,
    ReadFailed(Seq<char>),
}

impl View for CanInput {
    type V = CanHappening;

    open spec fn view(&self) -> CanHappening {
        match *self {
            CanInput::OpenFailed(error) => CanHappening::OpenFailed(error@),
            CanInput::TimeoutFailed(error) => CanHappening::TimeoutFailed(error@),
            CanInput::Opened => CanHappening::Opened,
            CanInput::Command(ToCanWorker::SendStd(id, data)) => CanHappening::Send(
                CanId::Standard(id),
                data@,
            ),
            CanInput::Command(ToCanWorker::SendExt(id, data)) => CanHappening::Send(
                CanId::Extended(id),
                data@,
            ),
            CanInput::Command(ToCanWorker::Disconnect) => CanHappening::Disconnect,
            CanInput::NoCommand => CanHappening::NoCommand,
            CanInput::CommandsClosed => CanHappening::CommandsClosed,
            CanInput::Written => CanHappening::Written,
            CanInput::WriteFailed(error) => CanHappening::WriteFailed(error@),
            CanInput::Data(id, data) => CanHappening::Data(id, data@),
            CanInput::OtherFrame => CanHappening::OtherFrame,
            CanInput::ReadTimedOut => CanHappening::ReadTimedOut,
            CanInput::ReadFailed(error) => CanHappening::ReadFailed(error@),
        }
    }
}

/// An action, with its bytes as a sequence.
pub ghost enum CanDeed {
    PollCommands,
    Write(CanId, Seq<u8>),
    Read,
    Stop,
}

impl View for CanAction {
    type V = CanDeed;

    open spec fn view(&self) -> CanDeed {
        match *self {
            CanAction::PollCommands => CanDeed::PollCommands,
            CanAction::Write(id, data) => CanDeed::Write(id, data@),
            CanAction::Read => CanDeed::Read,
            CanAction::Stop => CanDeed::Stop,
        }
    }
}

/// The report in an option.
pub open spec fn report_in(event: Option<FromCanWorker>) -> Option<CanReport> {
    match event {
        Some(event) => Some(event@),
        None => None,
    }
}

/// What a data frame is reported as, if anything. MIT feedback comes under standard identifiers
/// and servo telemetry under extended ones, and both have eight bytes: the kind of the identifier
/// keeps one from being read as the other.
pub open spec fn frame_report(protocol: CanProtocol, id: CanId, data: Seq<u8>) -> Option<
    CanReport,
> {
    match (protocol, id) {
        (CanProtocol::Mit(limits), CanId::Standard(_)) => if data.len() == 8 {
            Some(CanReport::MitFeedback(feedback_of(limits, data)))
        } else {
            None
        },
        (CanProtocol::ServoCan, CanId::Extended(raw)) => if raw as int / 256 == UPLOAD_FUNCTION_ID
            && data.len() == 8 {
            Some(CanReport::ServoValues(upload_of(data)))
        } else {
            None
        },
        _ => None,
    }
}

/// The complaint about an identifier that does not fit its width.
pub open spec fn invalid_id_line(id: CanId) -> Seq<char> {
    match id {
        CanId::Standard(raw) => "Invalid standard CAN id: "@ + decimal(raw as nat),
        CanId::Extended(raw) => "Invalid extended CAN id: "@ + decimal(raw as nat),
    }
}

/// The report and the next action for a happening.
pub open spec fn can_step_of(
    iface: Seq<char>,
    protocol: CanProtocol,
    happening: CanHappening,
) -> (Option<CanReport>, CanDeed) {
    match happening {
        CanHappening::OpenFailed(error) => (
            Some(
                CanReport::Disconnected(
                    "Failed to open CAN interface "@ + iface + ": "@ + error,
                ),
            ),
            CanDeed::Stop,
        ),
        CanHappening::TimeoutFailed(error) => (
            Some(
                CanReport::Disconnected(
                    "Failed to set read timeout on "@ + iface + ": "@ + error,
                ),
            ),
            CanDeed::Stop,
        ),
        CanHappening::Opened => (Some(CanReport::Connected), CanDeed::PollCommands),
        CanHappening::Send(id, data) => if !id.wf() {
            (Some(CanReport::Log(invalid_id_line(id))), CanDeed::PollCommands)
        } else if data.len() > CAN_DATA_MAX {
            (Some(CanReport::Log("Failed to build CAN frame"@)), CanDeed::Read)
        } else {
            (None, CanDeed::Write(id, data))
        },
        CanHappening::Disconnect => (
            Some(CanReport::Disconnected("Disconnected"@)),
            CanDeed::Stop,
        ),
        CanHappening::NoCommand => (None, CanDeed::Read),
        CanHappening::CommandsClosed => (None, CanDeed::Stop),
        CanHappening::Written => (None, CanDeed::Read),
        CanHappening::WriteFailed(error) => (
            Some(CanReport::Disconnected("CAN write error: "@ + error)),
            CanDeed::Stop,
        ),
        CanHappening::Data(id, data) => (
            frame_report(protocol, id, data),
            CanDeed::PollCommands,
        ),
        CanHappening::OtherFrame => (None, CanDeed::PollCommands),
        CanHappening::ReadTimedOut => (None, CanDeed::PollCommands),
        CanHappening::ReadFailed(error) => (
            Some(CanReport::Disconnected("CAN read error: "@ + error)),
            CanDeed::Stop,
        ),
    }
}

/// Why no interface can be opened on a platform without SocketCAN.
pub const NO_SOCKETCAN: &'static str =
    "CAN control requires SocketCAN, which is Linux-only. Use a Serial transport instead on this platform.";

/// What the worker knows.
pub struct CanWorker {
    pub iface: String,
    pub protocol: CanProtocol,
}

impl CanWorker {
    /// The worker for an interface that is about to be opened.
    pub fn new(iface: String, protocol: CanProtocol) -> (worker: Self)
        ensures
            worker.iface == iface,
            worker.protocol == protocol,
    {
        CanWorker { iface, protocol }
    }

    /// Reports a received data frame, if it is one that the protocol knows.
    fn report_frame(&self, id: CanId, data: &[u8]) -> (event: Option<FromCanWorker>)
        ensures
            report_in(event) == frame_report(self.protocol, id, data@),
    {
        match &self.protocol {
            CanProtocol::Mit(limits) => match id {
                CanId::Standard(_) => {
                    if data.len() != 8 {
                        return None;
                    }
                    let reply: [u8; 8] = [
                        data[0],
                        data[1],
                        data[2],
                        data[3],
                        data[4],
                        data[5],
                        data[6],
                        data[7],
                    ];
                    assert(reply@ =~= data@);
                    Some(FromCanWorker::MitFeedback(unpack_reply(limits, &reply)))
                },
                CanId::Extended(_) => None,
            },
            CanProtocol::ServoCan => match id {
                CanId::Standard(_) => None,
                CanId::Extended(raw) => {
                    if function_id(raw) != UPLOAD_FUNCTION_ID {
                        return None;
                    }
                    match parse_upload(data) {
                        Some(values) => Some(FromCanWorker::ServoValues(values)),
                        None => None,
                    }
                },
            },
        }
    }

    /// Decides what becomes of a frame with a proper identifier that is to be sent.
    fn send(&self, id: CanId, data: Vec<u8>) -> (step: CanStep)
        requires
            id.wf(),
        ensures
            (report_in(step.event), step.action@) == can_step_of(
                self.iface@,
                self.protocol,
                CanHappening::Send(id, data@),
            ),
    {
        if builds_frame(id, data.as_slice()) {
            CanStep { event: None, action: CanAction::Write(id, data) }
        } else {
            CanStep {
                event: Some(FromCanWorker::Log("Failed to build CAN frame".to_owned())),
                action: CanAction::Read,
            }
        }
    }

    /// Answers for a platform without SocketCAN, where no interface can be opened.
    pub fn no_socketcan(&self) -> (step: CanStep)
        ensures
            (report_in(step.event), step.action@) == (
                Some(
                    CanReport::Disconnected(
                        "Failed to open CAN interface "@ + self.iface@ + ": "@
                            + NO_SOCKETCAN@,
                    ),
                ),
                CanDeed::Stop,
            ),
    {
        self.step(CanInput::OpenFailed(NO_SOCKETCAN.to_owned()))
    }

    /// Decides what an input is answered with.
    pub fn step(&self, input: CanInput) -> (step: CanStep)
        ensures
            (report_in(step.event), step.action@) == can_step_of(
                self.iface@,
                self.protocol,
                input@,
            ),
    {
        match input {
            CanInput::OpenFailed(error) => CanStep {
                event: Some(
                    FromCanWorker::Disconnected(
                        join4(
                            "Failed to open CAN interface ",
                            self.iface.as_str(),
                            ": ",
                            error.as_str(),
                        ),
                    ),
                ),
                action: CanAction::Stop,
            },
            CanInput::TimeoutFailed(error) => CanStep {
                event: Some(
                    FromCanWorker::Disconnected(
                        join4(
                            "Failed to set read timeout on ",
                            self.iface.as_str(),
                            ": ",
                            error.as_str(),
                        ),
                    ),
                ),
                action: CanAction::Stop,
            },
            CanInput::Opened => CanStep {
                event: Some(FromCanWorker::Connected),
                action: CanAction::PollCommands,
            },
            CanInput::Command(ToCanWorker::SendStd(id, data)) => {
                if !is_standard_id(id) {
                    let number: String = decimal_string(id as usize);
                    return CanStep {
                        event: Some(
                            FromCanWorker::Log(
                                join2("Invalid standard CAN id: ", number.as_str()),
                            ),
                        ),
                        action: CanAction::PollCommands,
                    };
                }
                self.send(CanId::Standard(id), slice_to_vec(array_as_slice(&data)))
            },
            CanInput::Command(ToCanWorker::SendExt(id, data)) => {
                if !is_extended_id(id) {
                    let number: String = decimal_string(id as usize);
                    return CanStep {
                        event: Some(
                            FromCanWorker::Log(
                                join2("Invalid extended CAN id: ", number.as_str()),
                            ),
                        ),
                        action: CanAction::PollCommands,
                    };
                }
                self.send(CanId::Extended(id), data)
            },
            CanInput::Command(ToCanWorker::Disconnect) => CanStep {
                event: Some(FromCanWorker::Disconnected("Disconnected".to_owned())),
                action: CanAction::Stop,
            },
            CanInput::NoCommand => CanStep { event: None, action: CanAction::Read },
            CanInput::CommandsClosed => CanStep { event: None, action: CanAction::Stop },
            CanInput::Written => CanStep { event: None, action: CanAction::Read },
            CanInput::WriteFailed(error) => CanStep {
                event: Some(
                    FromCanWorker::Disconnected(join2("CAN write error: ", error.as_str())),
                ),
                action: CanAction::Stop,
            },
            CanInput::Data(id, data) => CanStep {
                event: self.report_frame(id, data.as_slice()),
                action: CanAction::PollCommands,
            },
            CanInput::OtherFrame => CanStep { event: None, action: CanAction::PollCommands },
            CanInput::ReadTimedOut => CanStep { event: None, action: CanAction::PollCommands },
            CanInput::ReadFailed(error) => CanStep {
                event: Some(
                    FromCanWorker::Disconnected(join2("CAN read error: ", error.as_str())),
                ),
                action: CanAction::Stop,
            },
        }
    }
}

/// Telemetry under an extended identifier is never read as MIT feedback, and a frame under a
/// standard identifier is never read as servo telemetry.
pub proof fn lemma_protocols_do_not_mix(protocol: CanProtocol, id: CanId, data: Seq<u8>)
    ensures
        id is Extended ==> !(frame_report(protocol, id, data) matches Some(
            CanReport::MitFeedback(_),
        )),
        id is Standard ==> !(frame_report(protocol, id, data) matches Some(
            CanReport::ServoValues(_),
        )),
{
}

/// Every frame that the servo commands make, for every motor and every value, is one that can be
/// sent.
pub proof fn lemma_servo_commands_are_sent(
    iface: Seq<char>,
    protocol: CanProtocol,
    mode: CanPacketId,
    motor_id: u8,
    data: Seq<u8>,
    value: i32,
    erpm: i32,
    accel: i32,
    permanent: bool,
)
    requires
        data == i32_wire(value) || data == pos_spd_data(value, erpm, accel) || data == origin_data(
            permanent,
        ),
    ensures
        ({
            let id = CanId::Extended(can_id_of(mode, motor_id) as u32);
            can_step_of(iface, protocol, CanHappening::Send(id, data)) == (
                None::<CanReport>,
                CanDeed::Write(id, data),
            )
        }),
{
}

/// Every MIT-mode frame, a mode switch or a command with any codes, is sent under every identifier
/// of at most 11 bits.
pub proof fn lemma_mit_frames_are_sent(
    iface: Seq<char>,
    protocol: CanProtocol,
    raw: u16,
    data: [u8; 8],
    codes: MitCodes,
)
    requires
        raw <= 0x7FF,
    ensures
        ({
            let id = CanId::Standard(raw);
            &&& can_step_of(iface, protocol, CanHappening::Send(id, data@)) == (
                None::<CanReport>,
                CanDeed::Write(id, data@),
            )
            &&& can_step_of(iface, protocol, CanHappening::Send(id, packed(codes))) == (
                None::<CanReport>,
                CanDeed::Write(id, packed(codes)),
            )
        }),
{
}

/// Only frames with proper identifiers and at most eight bytes are written, and they are written
/// as they were given.
pub proof fn lemma_written_frames_are_proper(
    iface: Seq<char>,
    protocol: CanProtocol,
    happening: CanHappening,
    id: CanId,
    data: Seq<u8>,
)
    requires
        can_step_of(iface, protocol, happening).1 == CanDeed::Write(id, data),
    ensures
        id.wf(),
        data.len() <= CAN_DATA_MAX,
        happening == CanHappening::Send(id, data),
{
}

/// The worker ends exactly when it reports that the connection is gone or when nobody can send it
/// commands any more.
pub proof fn lemma_can_worker_ends_with_a_report(
    iface: Seq<char>,
    protocol: CanProtocol,
    happening: CanHappening,
)
    ensures
        can_step_of(iface, protocol, happening).1 is Stop <==> happening is CommandsClosed
            || can_step_of(iface, protocol, happening).0 matches Some(CanReport::Disconnected(_)),
{
}

/// The happening is the outcome of the action.
pub open spec fn can_answers(action: CanDeed, happening: CanHappening) -> bool {
    match action {
        CanDeed::PollCommands => happening is Send || happening is Disconnect || happening
            is NoCommand || happening is CommandsClosed,
        CanDeed::Write(_, _) => happening is Written || happening is WriteFailed,
        CanDeed::Read => happening is Data || happening is OtherFrame || happening is ReadTimedOut
            || happening is ReadFailed,
        CanDeed::Stop => false,
    }
}

/// The report in an option, as a list.
pub open spec fn reported(report: Option<CanReport>) -> Seq<CanReport> {
    match report {
        Some(report) => seq![report],
        None => Seq::empty(),
    }
}

/// What a worker has reported after all the happenings.
pub open spec fn can_run_reports(
    iface: Seq<char>,
    protocol: CanProtocol,
    happenings: Seq<CanHappening>,
) -> Seq<CanReport>
    decreases happenings.len(),
{
    if happenings.len() == 0 {
        Seq::empty()
    } else {
        can_run_reports(iface, protocol, happenings.drop_last()) + reported(
            can_step_of(iface, protocol, happenings.last()).0,
        )
    }
}

/// The happenings can befall a worker from its start on: the socket is made ready or not, and every
/// later happening is the outcome of the action that the worker chose before.
pub open spec fn is_can_run(
    iface: Seq<char>,
    protocol: CanProtocol,
    happenings: Seq<CanHappening>,
) -> bool {
    &&& happenings.len() > 0
    &&& happenings[0] is Opened || happenings[0] is OpenFailed || happenings[0] is TimeoutFailed
    &&& forall|i: int|
        0 < i < happenings.len() ==> can_answers(
            can_step_of(iface, protocol, happenings[i - 1]).1,
            #[trigger] happenings[i],
        )
}

/// Over a whole run, `Connected` is reported first and once if the socket was made ready, and not
/// at all otherwise. `Disconnected` is reported at most once, as the last report, and only by a
/// worker that ends. A worker ends only so or because nobody can send it commands any more, and a
/// command to disconnect ends it so.
pub proof fn lemma_can_run_reports(
    iface: Seq<char>,
    protocol: CanProtocol,
    happenings: Seq<CanHappening>,
)
    requires
        is_can_run(iface, protocol, happenings),
    ensures
        ({
            let r = can_run_reports(iface, protocol, happenings);
            let action = can_step_of(iface, protocol, happenings.last()).1;
            &&& happenings[0] is Opened ==> r.len() > 0 && r[0] is Connected
            &&& !(happenings[0] is Opened) ==> r.len() == 1 && r[0] is Disconnected
            &&& forall|i: int| 0 < i < r.len() ==> !(#[trigger] r[i] is Connected)
            &&& forall|i: int|
                0 <= i < r.len() && #[trigger] r[i] is Disconnected ==> i == r.len() - 1 && action
                    is Stop
            &&& action is Stop ==> happenings.last() is CommandsClosed || r.last() is Disconnected
            &&& happenings.last() is Disconnect ==> r.last() == CanReport::Disconnected(
                "Disconnected"@,
            )
        }),
    decreases happenings.len(),
{
    let front = happenings.drop_last();
    let before = can_run_reports(iface, protocol, front);
    let last = reported(can_step_of(iface, protocol, happenings.last()).0);
    let r = before + last;
    if happenings.len() == 1 {
        assert(front.len() == 0);
        assert(r =~= last);
    } else {
        assert forall|i: int| 0 < i < front.len() implies can_answers(
            can_step_of(iface, protocol, front[i - 1]).1,
            #[trigger] front[i],
        ) by {
            assert(front[i] == happenings[i]);
        }
        assert(front[0] == happenings[0]);
        lemma_can_run_reports(iface, protocol, front);
        let end = happenings.len() - 1;
        assert(can_answers(can_step_of(iface, protocol, happenings[end - 1]).1, happenings[end]));
        assert(front.last() == happenings[end - 1]);
        assert forall|i: int| 0 < i < r.len() implies !(#[trigger] r[i] is Connected) by {
            if i < before.len() {
                assert(r[i] == before[i]);
            }
        }
        assert forall|i: int| 0 <= i < r.len() && #[trigger] r[i] is Disconnected implies i
            == r.len() - 1 && can_step_of(iface, protocol, happenings.last()).1 is Stop by {
            if i < before.len() {
                assert(before[i] is Disconnected);
            }
        }
    }
}

/// The identifiers that fit: 11 bits and 29 bits; and a frame's eight bytes.
pub proof fn lemma_can_limits(standard: u16, extended: u32)
    ensures
        CanId::Standard(standard).wf() <==> standard < 2048,
        CanId::Extended(extended).wf() <==> extended < 536_870_912,
        CAN_DATA_MAX == 8,
{
}

/// What becomes of a frame that is to be sent: an identifier that does not fit is named in a log
/// line and skipped, a frame that is too long is logged, and every other frame is written as it is.
pub proof fn lemma_what_becomes_of_a_frame(
    iface: Seq<char>,
    protocol: CanProtocol,
    standard: u16,
    extended: u32,
    data: Seq<u8>,
)
    ensures
        ({
            let s = can_step_of(
                iface,
                protocol,
                CanHappening::Send(CanId::Standard(standard), data),
            );
            &&& standard >= 2048 ==> s.1 == CanDeed::PollCommands && s.0 == Some(
                CanReport::Log("Invalid standard CAN id: "@ + decimal(standard as nat)),
            )
            &&& standard < 2048 && data.len() > 8 ==> s.1 == CanDeed::Read && s.0 == Some(
                CanReport::Log("Failed to build CAN frame"@),
            )
            &&& standard < 2048 && data.len() <= 8 ==> s.0 is None && s.1 == CanDeed::Write(
                CanId::Standard(standard),
                data,
            )
        }),
        ({
            let s = can_step_of(
                iface,
                protocol,
                CanHappening::Send(CanId::Extended(extended), data),
            );
            &&& extended >= 536_870_912 ==> s.1 == CanDeed::PollCommands && s.0 == Some(
                CanReport::Log("Invalid extended CAN id: "@ + decimal(extended as nat)),
            )
            &&& extended < 536_870_912 && data.len() > 8 ==> s.1 == CanDeed::Read && s.0 == Some(
                CanReport::Log("Failed to build CAN frame"@),
            )
            &&& extended < 536_870_912 && data.len() <= 8 ==> s.0 is None && s.1 == CanDeed::Write(
                CanId::Extended(extended),
                data,
            )
        }),
{
}

/// What a received data frame is reported as, under each protocol and kind of identifier: eight
/// bytes under a standard identifier are MIT feedback, eight bytes under an extended identifier
/// from 0x2900 to 0x29FF are servo telemetry, and everything else is passed over. The worker then
/// looks for commands.
pub proof fn lemma_received_frames(
    iface: Seq<char>,
    limits: MotorLimits,
    standard: u16,
    extended: u32,
    data: Seq<u8>,
)
    ensures
        ({
            let mit = CanProtocol::Mit(limits);
            let on_standard = CanHappening::Data(CanId::Standard(standard), data);
            let on_extended = CanHappening::Data(CanId::Extended(extended), data);
            &&& can_step_of(iface, mit, on_standard) == (
                if data.len() == 8 {
                    Some(CanReport::MitFeedback(feedback_of(limits, data)))
                } else {
                    None
                },
                CanDeed::PollCommands,
            )
            &&& can_step_of(iface, mit, on_extended) == (None::<CanReport>, CanDeed::PollCommands)
            &&& can_step_of(iface, CanProtocol::ServoCan, on_standard) == (
                None::<CanReport>,
                CanDeed::PollCommands,
            )
            &&& can_step_of(iface, CanProtocol::ServoCan, on_extended) == (
                if data.len() == 8 && 0x2900 <= extended <= 0x29FF {
                    Some(CanReport::ServoValues(upload_of(data)))
                } else {
                    None
                },
                CanDeed::PollCommands,
            )
        }),
{
}

/// What the worker says when the connection comes or goes: each failure is reported with its own
/// words before the error's, and ends the worker.
pub proof fn lemma_can_worker_announcements(
    iface: Seq<char>,
    protocol: CanProtocol,
    error: Seq<char>,
)
    ensures
        can_step_of(iface, protocol, CanHappening::Opened) == (
            Some(CanReport::Connected),
            CanDeed::PollCommands,
        ),
        can_step_of(iface, protocol, CanHappening::OpenFailed(error)) == (
            Some(
                CanReport::Disconnected(
                    "Failed to open CAN interface "@ + iface + ": "@ + error,
                ),
            ),
            CanDeed::Stop,
        ),
        can_step_of(iface, protocol, CanHappening::TimeoutFailed(error)) == (
            Some(
                CanReport::Disconnected(
                    "Failed to set read timeout on "@ + iface + ": "@ + error,
                ),
            ),
            CanDeed::Stop,
        ),
        can_step_of(iface, protocol, CanHappening::WriteFailed(error)) == (
            Some(CanReport::Disconnected("CAN write error: "@ + error)),
            CanDeed::Stop,
        ),
        can_step_of(iface, protocol, CanHappening::ReadFailed(error)) == (
            Some(CanReport::Disconnected("CAN read error: "@ + error)),
            CanDeed::Stop,
        ),
        can_step_of(iface, protocol, CanHappening::Disconnect) == (
            Some(CanReport::Disconnected("Disconnected"@)),
            CanDeed::Stop,
        ),
        NO_SOCKETCAN@
            == "CAN control requires SocketCAN, which is Linux-only. Use a Serial transport instead on this platform."@,
{
}

/// The worker's round, without any report: look for a command, read after there was none or after
/// a frame was written, look again after a read that brought nothing; and end silently when nobody
/// can send commands any more.
pub proof fn lemma_can_worker_round(iface: Seq<char>, protocol: CanProtocol)
    ensures
        can_step_of(iface, protocol, CanHappening::NoCommand) == (
            None::<CanReport>,
            CanDeed::Read,
        ),
        can_step_of(iface, protocol, CanHappening::Written) == (None::<CanReport>, CanDeed::Read),
        can_step_of(iface, protocol, CanHappening::OtherFrame) == (
            None::<CanReport>,
            CanDeed::PollCommands,
        ),
        can_step_of(iface, protocol, CanHappening::ReadTimedOut) == (
            None::<CanReport>,
            CanDeed::PollCommands,
        ),
        can_step_of(iface, protocol, CanHappening::CommandsClosed) == (
            None::<CanReport>,
            CanDeed::Stop,
        ),
{
}

/// The views hide nothing: every report, input and action is seen as what it is, with its own text
/// or bytes.
pub proof fn lemma_can_views(event: FromCanWorker, input: CanInput, action: CanAction)
    ensures
        event is Connected ==> event@ is Connected,
        event matches FromCanWorker::Disconnected(t) ==> event@ == CanReport::Disconnected(t@),
        event matches FromCanWorker::MitFeedback(f) ==> event@ == CanReport::MitFeedback(f),
        event matches FromCanWorker::ServoValues(v) ==> event@ == CanReport::ServoValues(v),
        event matches FromCanWorker::Log(t) ==> event@ == CanReport::Log(t@),
        report_in(Some(event)) == Some(event@),
        report_in(None) is None,
        input matches CanInput::OpenFailed(t) ==> input@ == CanHappening::OpenFailed(t@),
        input matches CanInput::TimeoutFailed(t) ==> input@ == CanHappening::TimeoutFailed(t@),
        input is Opened ==> input@ is Opened,
        input matches CanInput::Command(ToCanWorker::SendStd(id, d)) ==> input@
            == CanHappening::Send(CanId::Standard(id), d@),
        input matches CanInput::Command(ToCanWorker::SendExt(id, d)) ==> input@
            == CanHappening::Send(CanId::Extended(id), d@),
        input matches CanInput::Command(ToCanWorker::Disconnect) ==> input@ is Disconnect,
        input is NoCommand ==> input@ is NoCommand,
        input is CommandsClosed ==> input@ is CommandsClosed,
        input is Written ==> input@ is Written,
        input matches CanInput::WriteFailed(t) ==> input@ == CanHappening::WriteFailed(t@),
        input matches CanInput::Data(id, d) ==> input@ == CanHappening::Data(id, d@),
        input is OtherFrame ==> input@ is OtherFrame,
        input is ReadTimedOut ==> input@ is ReadTimedOut,
        input matches CanInput::ReadFailed(t) ==> input@ == CanHappening::ReadFailed(t@),
        action is PollCommands ==> action@ is PollCommands,
        action matches CanAction::Write(id, d) ==> action@ == CanDeed::Write(id, d@),
        action is Read ==> action@ is Read,
        action is Stop ==> action@ is Stop,
{
}

/// What each operation does: a new worker keeps what it is given, a step reports and acts as the
/// happening calls for, and without SocketCAN the worker says why and ends.
pub proof fn lemma_can_worker_operations(
    iface: String,
    protocol: CanProtocol,
    new: CanWorker,
    worker: &CanWorker,
    input: CanInput,
    step: CanStep,
)
    ensures
        call_ensures(CanWorker::new, (iface, protocol), new) ==> new.iface == iface && new.protocol
            == protocol,
        call_ensures(CanWorker::step, (worker, input), step) ==> (
            report_in(step.event),
            step.action@,
        ) == can_step_of(worker.iface@, worker.protocol, input@),
        call_ensures(CanWorker::no_socketcan, (worker,), step) ==> (
            report_in(step.event),
            step.action@,
        ) == can_step_of(
            worker.iface@,
            worker.protocol,
            CanHappening::OpenFailed(NO_SOCKETCAN@),
        ),
{
}

} // verus!
