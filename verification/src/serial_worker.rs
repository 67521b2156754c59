//! The decisions of the thread that owns the serial port: which events to report and what to do
//! next, for everything that can happen to the port and to the command channel.

use vstd::prelude::*;
use crate::framing::{
    extract, frame_of, frames_in, lemma_extract_settles, lemma_extract_shrinks,
    lemma_frames_in_pieces, lemma_nothing_in_nothing, lemma_single_frame, FrameParser,
};
use crate::protocol::{
    is_print, is_values, parse_get_values, parse_print, text_of, values_of, MotorValues,
};
use crate::text::{decimal, decimal_string, hex, hex_of, join2, join4};

verus! {

/// A command to the worker.
pub enum ToWorker {
    Send(Vec<u8>),
    Disconnect,
}

/// A report of the worker.
pub enum FromWorker {
    Connected,
    Disconnected(String),
    Values(MotorValues),
    Log(String),
}

/// A report, with its text as characters.
pub ghost enum Report {
    Connected,
    Disconnected(Seq<char>),
    Values(MotorValues),
    Log(Seq<char>),
}

impl View for FromWorker {
    type V = Report;

    open spec fn view(&self) -> Report {
        match *self {
            FromWorker::Connected => Report::Connected,
            FromWorker::Disconnected(reason) => Report::Disconnected(reason@),
            FromWorker::Values(values) => Report::Values(values),
            FromWorker::Log(line) => Report::Log(line@),
        }
    }
}

/// The reports in a list.
pub open spec fn reports(events: Seq<FromWorker>) -> Seq<Report> {
    events.map_values(|event: FromWorker| event@)
}

/// What one received payload is reported as: values, console text, or else a dump of its bytes.
pub open spec fn report_of(payload: Seq<u8>) -> Report {
    if is_values(payload) {
        Report::Values(values_of(payload))
    } else if is_print(payload) {
        Report::Log(text_of(payload.skip(1)))
    } else {
        Report::Log(
            "RX frame ("@ + decimal(payload.len()) + " bytes): "@ + hex_of(payload),
        )
    }
}

/// What received payloads are reported as, one report for each, in order.
pub open spec fn reports_of(payloads: Seq<Seq<u8>>) -> Seq<Report> {
    payloads.map_values(|payload: Seq<u8>| report_of(payload))
}

/// Reports one received payload.
pub fn report_payload(payload: &[u8]) -> (event: FromWorker)
    ensures
        event@ == report_of(payload@),
{
    if let Some(values) = parse_get_values(payload) {
        FromWorker::Values(values)
    } else if let Some(text) = parse_print(payload) {
        FromWorker::Log(text)
    } else {
        let len: String = decimal_string(payload.len());
        let dump: String = hex(payload);
        FromWorker::Log(join4("RX frame (", len.as_str(), " bytes): ", dump.as_str()))
    }
}

/// What can happen to the worker.
pub enum SerialInput {
    /// The port could not be opened.
    OpenFailed(String),
    /// The port is open.
    Opened,
    /// A command has arrived.
    Command(ToWorker),
    /// No command is waiting.
    NoCommand,
    /// Nobody can send commands any more.
    CommandsClosed,
    /// The bytes have been written.
    Written,
    /// Writing failed.
    WriteFailed(String),
    /// Bytes have been read, possibly none.
    Received(Vec<u8>),
    /// No byte arrived in time.
    ReadTimedOut,
    /// Reading failed.
    ReadFailed(String),
}

/// What the worker does next.
pub enum SerialAction {
    /// Look for a command.
    PollCommands,
    /// Write these bytes to the port.
    Write(Vec<u8>),
    /// Read from the port.
    Read,
    /// Close the port and end.
    Stop,
}

/// The reports to send and the next action.
pub struct SerialStep {
    pub events: Vec<FromWorker>,
    pub action: SerialAction,
}

/// An input, with its text as characters and its bytes as a sequence.
pub ghost enum Happening {
    OpenFailed(Seq<char>),
    Opened,
    Send(Seq<u8>),
    Disconnect,
    NoCommand,
    CommandsClosed,
    Written,
    WriteFailed(Seq<char>),
    Received(Seq<u8>),
    ReadTimedOut,
    ReadFailed(Seq<char>),
}

impl View for SerialInput {
    type V = Happening;

    open spec fn view(&self) -> Happening {
        match *self {
            SerialInput::OpenFailed(error) => Happening::OpenFailed(error@),
            SerialInput::Opened => Happening::Opened,
            SerialInput::Command(ToWorker::Send(bytes)) => Happening::Send(bytes@),
            SerialInput::Command(ToWorker::Disconnect) => Happening::Disconnect,
            SerialInput::NoCommand => Happening::NoCommand,
            SerialInput::CommandsClosed => Happening::CommandsClosed,
            SerialInput::Written => Happening::Written,
            SerialInput::WriteFailed(error) => Happening::WriteFailed(error@),
            SerialInput::Received(bytes) => Happening::Received(bytes@),
            SerialInput::ReadTimedOut => Happening::ReadTimedOut,
            SerialInput::ReadFailed(error) => Happening::ReadFailed(error@),
        }
    }
}

/// An action, with its bytes as a sequence.
pub ghost enum Action {
    PollCommands,
    Write(Seq<u8>),
    Read,
    Stop,
}

impl View for SerialAction {
    type V = Action;

    open spec fn view(&self) -> Action {
        match *self {
            SerialAction::PollCommands => Action::PollCommands,
            SerialAction::Write(bytes) => Action::Write(bytes@),
            SerialAction::Read => Action::Read,
            SerialAction::Stop => Action::Stop,
        }
    }
}

/// What the worker knows: the name of its port and the received bytes that wait for the rest of
/// their frame.
pub ghost struct WorkerState {
    pub port_name: Seq<char>,
    pub pending: Seq<u8>,
}

/// The outcome of one step.
pub ghost struct StepOutcome {
    pub reports: Seq<Report>,
    pub action: Action,
    pub state: WorkerState,
}

/// The reports, the next action and the new state for a happening.
pub open spec fn step_of(state: WorkerState, happening: Happening) -> StepOutcome {
    match happening {
        Happening::OpenFailed(error) => StepOutcome {
            reports: seq![
                Report::Disconnected("Failed to open "@ + state.port_name + ": "@ + error),
            ],
            action: Action::Stop,
            state,
        },
        Happening::Opened => StepOutcome {
            reports: seq![Report::Connected],
            action: Action::PollCommands,
            state,
        },
        Happening::Send(bytes) => StepOutcome {
            reports: Seq::empty(),
            action: Action::Write(bytes),
            state,
        },
        Happening::Disconnect => StepOutcome {
            reports: seq![Report::Disconnected("Disconnected"@)],
            action: Action::Stop,
            state,
        },
        Happening::NoCommand => StepOutcome {
            reports: Seq::empty(),
            action: Action::Read,
            state,
        },
        Happening::CommandsClosed => StepOutcome {
            reports: Seq::empty(),
            action: Action::Stop,
            state,
        },
        Happening::Written => StepOutcome {
            reports: Seq::empty(),
            action: Action::Read,
            state,
        },
        Happening::WriteFailed(error) => StepOutcome {
            reports: seq![Report::Disconnected("Write error: "@ + error)],
            action: Action::Stop,
            state,
        },
        Happening::Received(bytes) => StepOutcome {
            reports: reports_of(frames_in(state.pending + bytes).0),
            action: Action::PollCommands,
            state: WorkerState { pending: frames_in(state.pending + bytes).1, ..state },
        },
        Happening::ReadTimedOut => StepOutcome {
            reports: Seq::empty(),
            action: Action::PollCommands,
            state,
        },
        Happening::ReadFailed(error) => StepOutcome {
            reports: seq![Report::Disconnected("Read error: "@ + error)],
            action: Action::Stop,
            state,
        },
    }
}

/// The worker's memory between two steps.
pub struct SerialWorker {
    port_name: String,
    parser: FrameParser,
}

impl View for SerialWorker {
    type V = WorkerState;

    closed spec fn view(&self) -> WorkerState {
        WorkerState { port_name: self.port_name@, pending: self.parser@ }
    }
}

/// A list with one report.
fn one(event: FromWorker) -> (events: Vec<FromWorker>)
    ensures
        reports(events@) == seq![event@],
{
    let mut events: Vec<FromWorker> = Vec::new();
    events.push(event);
    assert(reports(events@) =~= seq![event@]);
    events
}

/// A list with no report.
fn none() -> (events: Vec<FromWorker>)
    ensures
        reports(events@) == Seq::<Report>::empty(),
{
    let events: Vec<FromWorker> = Vec::new();
    assert(reports(events@) =~= Seq::<Report>::empty());
    events
}

impl SerialWorker {
    /// The worker for a port that is about to be opened.
    pub fn new(port_name: String) -> (worker: Self)
        ensures
            worker@ == (WorkerState { port_name: port_name@, pending: Seq::empty() }),
    {
        SerialWorker { port_name, parser: FrameParser::new() }
    }

    /// Takes in received bytes and reports every frame that they complete.
    fn receive(&mut self, bytes: &[u8]) -> (events: Vec<FromWorker>)
        ensures
            reports(events@) == reports_of(frames_in(old(self)@.pending + bytes@).0),
            final(self)@ == (WorkerState {
                pending: frames_in(old(self)@.pending + bytes@).1,
                ..old(self)@
            }),
    {
        let mut events: Vec<FromWorker> = Vec::new();
        let ghost whole = self.parser@ + bytes@;
        let ghost mut done: Seq<Seq<u8>> = Seq::empty();
        self.parser.feed(bytes);
        assert(done + frames_in(whole).0 =~= frames_in(whole).0);
        assert(reports(events@) =~= reports_of(done));
        let mut more: bool = true;
        while more
            invariant
                self.port_name == old(self).port_name,
                more ==> frames_in(whole) == (
                    done + frames_in(self.parser@).0,
                    frames_in(self.parser@).1,
                ),
                !more ==> frames_in(whole) == (done, self.parser@),
                reports(events@) == reports_of(done),
            decreases more as int, self.parser@.len(),
        {
            let ghost before = self.parser@;
            proof {
                lemma_extract_shrinks(before);
            }
            match self.parser.next_frame() {
                Some(payload) => {
                    let event: FromWorker = report_payload(payload.as_slice());
                    proof {
                        let later = frames_in(self.parser@).0;
                        assert(done + (seq![payload@] + later) =~= done.push(payload@) + later);
                        assert(reports(events@.push(event)) =~= reports(events@).push(event@));
                        assert(reports_of(done.push(payload@)) =~= reports_of(done).push(
                            report_of(payload@),
                        ));
                        done = done.push(payload@);
                    }
                    events.push(event);
                },
                None => {
                    assert(done + Seq::<Seq<u8>>::empty() =~= done);
                    more = false;
                },
            }
        }
        events
    }

    /// Decides what an input is answered with.
    pub fn step(&mut self, input: SerialInput) -> (step: SerialStep)
        ensures
            (StepOutcome {
                reports: reports(step.events@),
                action: step.action@,
                state: final(self)@,
            }) == step_of(old(self)@, input@),
    {
        match input {
            SerialInput::OpenFailed(error) => SerialStep {
                events: one(
                    FromWorker::Disconnected(
                        join4("Failed to open ", self.port_name.as_str(), ": ", error.as_str()),
                    ),
                ),
                action: SerialAction::Stop,
            },
            SerialInput::Opened => SerialStep {
                events: one(FromWorker::Connected),
                action: SerialAction::PollCommands,
            },
            SerialInput::Command(ToWorker::Send(bytes)) => SerialStep {
                events: none(),
                action: SerialAction::Write(bytes),
            },
            SerialInput::Command(ToWorker::Disconnect) => SerialStep {
                events: one(FromWorker::Disconnected("Disconnected".to_owned())),
                action: SerialAction::Stop,
            },
            SerialInput::NoCommand => SerialStep { events: none(), action: SerialAction::Read },
            SerialInput::CommandsClosed => SerialStep {
                events: none(),
                action: SerialAction::Stop,
            },
            SerialInput::Written => SerialStep { events: none(), action: SerialAction::Read },
            SerialInput::WriteFailed(error) => SerialStep {
                events: one(FromWorker::Disconnected(join2("Write error: ", error.as_str()))),
                action: SerialAction::Stop,
            },
            SerialInput::Received(bytes) => {
                let events: Vec<FromWorker> = self.receive(bytes.as_slice());
                SerialStep { events, action: SerialAction::PollCommands }
            },
            SerialInput::ReadTimedOut => SerialStep {
                events: none(),
                action: SerialAction::PollCommands,
            },
            SerialInput::ReadFailed(error) => SerialStep {
                events: one(FromWorker::Disconnected(join2("Read error: ", error.as_str()))),
                action: SerialAction::Stop,
            },
        }
    }
}

/// No complete frame and no rejected start byte is waiting.
pub open spec fn drained(state: WorkerState) -> bool {
    extract(state.pending) == (None::<Seq<u8>>, state.pending)
}

/// A new worker has nothing to deliver, and no step leaves anything that could be delivered.
pub proof fn lemma_worker_stays_drained(state: WorkerState, happening: Happening)
    ensures
        drained(WorkerState { port_name: state.port_name, pending: Seq::empty() }),
        drained(state) ==> drained(step_of(state, happening).state),
{
    lemma_nothing_in_nothing();
    if happening is Received {
        lemma_frames_in_drains(state.pending + happening->Received_0);
    }
}

proof fn lemma_frames_in_drains(buf: Seq<u8>)
    ensures
        extract(frames_in(buf).1) == (None::<Seq<u8>>, frames_in(buf).1),
    decreases buf.len(),
{
    lemma_extract_shrinks(buf);
    if extract(buf).0 is Some {
        lemma_frames_in_drains(extract(buf).1);
    } else {
        lemma_extract_settles(buf);
    }
}

/// A read that brings no bytes reports nothing and changes nothing.
pub proof fn lemma_empty_read_is_ignored(state: WorkerState)
    requires
        drained(state),
    ensures
        step_of(state, Happening::Received(Seq::empty())) == step_of(
            state,
            Happening::ReadTimedOut,
        ),
{
    assert(state.pending + Seq::<u8>::empty() =~= state.pending);
    assert(reports_of(Seq::empty()) =~= Seq::<Report>::empty());
}

/// How the port cuts the stream into reads does not matter: two reads are reported as one read of
/// all their bytes is.
pub proof fn lemma_reads_can_be_split(state: WorkerState, first: Seq<u8>, second: Seq<u8>)
    ensures
        ({
            let one = step_of(state, Happening::Received(first));
            let two = step_of(one.state, Happening::Received(second));
            let both = step_of(state, Happening::Received(first + second));
            both.reports == one.reports + two.reports && both.state == two.state
        }),
{
    lemma_frames_in_pieces(state.pending + first, second);
    assert(state.pending + (first + second) =~= state.pending + first + second);
    let one = frames_in(state.pending + first).0;
    let two = frames_in(frames_in(state.pending + first).1 + second).0;
    assert(reports_of(one + two) =~= reports_of(one) + reports_of(two));
}

/// A frame that arrives when nothing is pending is reported, once, as what its payload says.
pub proof fn lemma_frame_is_reported(state: WorkerState, payload: Seq<u8>)
    requires
        state.pending == Seq::<u8>::empty(),
        payload.len() <= 255,
    ensures
        ({
            let outcome = step_of(state, Happening::Received(frame_of(payload)));
            outcome.reports == seq![report_of(payload)] && outcome.state == state
        }),
{
    lemma_single_frame(payload);
    assert(state.pending + frame_of(payload) =~= frame_of(payload));
    assert(reports_of(seq![payload]) =~= seq![report_of(payload)]);
}

/// The worker ends exactly when it reports that the connection is gone or when nobody can send it
/// commands any more, and what it is asked to send is what it writes.
pub proof fn lemma_worker_ends_with_a_report(state: WorkerState, happening: Happening)
    ensures
        step_of(state, happening).action is Stop <==> happening is CommandsClosed || exists|i: int|
            0 <= i < step_of(state, happening).reports.len() && (#[trigger] step_of(
                state,
                happening,
            ).reports[i]) is Disconnected,
        happening matches Happening::Send(bytes) ==> step_of(state, happening).action
            == Action::Write(bytes),
{
    let outcome = step_of(state, happening);
    if happening is Received {
        assert forall|i: int| 0 <= i < outcome.reports.len() implies !((
        #[trigger] outcome.reports[i]) is Disconnected) by {
        }
    } else if outcome.reports.len() == 1 {
        assert(outcome.reports[0] == outcome.reports.first());
    }
}

/// The happening is the outcome of the action.
pub open spec fn answers(action: Action, happening: Happening) -> bool {
    match action {
        Action::PollCommands => happening is Send || happening is Disconnect || happening
            is NoCommand || happening is CommandsClosed,
        Action::Write(_) => happening is Written || happening is WriteFailed,
        Action::Read => happening is Received || happening is ReadTimedOut || happening
            is ReadFailed,
        Action::Stop => false,
    }
}

/// What a worker has reported after all the happenings, with its next action and its state.
pub open spec fn run_of(state: WorkerState, happenings: Seq<Happening>) -> StepOutcome
    decreases happenings.len(),
{
    if happenings.len() <= 1 {
        step_of(state, happenings[0])
    } else {
        let before = run_of(state, happenings.drop_last());
        let last = step_of(before.state, happenings.last());
        StepOutcome { reports: before.reports + last.reports, ..last }
    }
}

/// The happenings can befall a worker from its start on: the port is opened or not, and every
/// later happening is the outcome of the action that the worker chose before.
pub open spec fn is_run(state: WorkerState, happenings: Seq<Happening>) -> bool
    decreases happenings.len(),
{
    if happenings.len() == 0 {
        false
    } else if happenings.len() == 1 {
        happenings[0] is Opened || happenings[0] is OpenFailed
    } else {
        &&& is_run(state, happenings.drop_last())
        &&& answers(run_of(state, happenings.drop_last()).action, happenings.last())
    }
}

/// Over a whole run, `Connected` is reported first and once if the port was opened, and not at all
/// otherwise. `Disconnected` is reported at most once, as the last report, and only by a worker that
/// ends. A worker ends only so or because nobody can send it commands any more, and a command to
/// disconnect ends it so.
pub proof fn lemma_run_reports(state: WorkerState, happenings: Seq<Happening>)
    requires
        is_run(state, happenings),
    ensures
        ({
            let run = run_of(state, happenings);
            let r = run.reports;
            &&& happenings[0] is Opened ==> r.len() > 0 && r[0] is Connected
            &&& happenings[0] is OpenFailed ==> r.len() == 1 && r[0] is Disconnected
            &&& forall|i: int| 0 < i < r.len() ==> !(#[trigger] r[i] is Connected)
            &&& forall|i: int|
                0 <= i < r.len() && #[trigger] r[i] is Disconnected ==> i == r.len() - 1
                    && run.action is Stop
            &&& run.action is Stop ==> happenings.last() is CommandsClosed || r.last()
                is Disconnected
            &&& happenings.last() is Disconnect ==> r.last() == Report::Disconnected(
                "Disconnected"@,
            )
        }),
    decreases happenings.len(),
{
    if happenings.len() > 1 {
        let front = happenings.drop_last();
        let before = run_of(state, front);
        let last = step_of(before.state, happenings.last());
        let r = before.reports + last.reports;
        lemma_run_reports(state, front);
        assert(front[0] == happenings[0]);
        assert forall|i: int| 0 <= i < last.reports.len() implies !(#[trigger] last.reports[i]
            is Connected) && (last.reports[i] is Disconnected ==> last.reports.len() == 1
            && last.action is Stop) by {
        }
        assert forall|i: int| 0 < i < r.len() implies !(#[trigger] r[i] is Connected) by {
            if i >= before.reports.len() {
                assert(r[i] == last.reports[i - before.reports.len()]);
            }
        }
        assert forall|i: int| 0 <= i < r.len() && #[trigger] r[i] is Disconnected implies i
            == r.len() - 1 && last.action is Stop by {
            if i >= before.reports.len() {
                assert(r[i] == last.reports[i - before.reports.len()]);
            } else {
                assert(before.reports[i] is Disconnected);
            }
        }
    }
}

/// A payload is reported as its values where it is a long enough reply, as its text where it is
/// console output, and otherwise as a line with its length and all its bytes.
pub proof fn lemma_payload_reports(payload: Seq<u8>)
    ensures
        payload.len() >= 73 && payload[0] == 4 ==> report_of(payload) == Report::Values(
            values_of(payload),
        ),
        payload.len() >= 1 && payload[0] == 21 ==> report_of(payload) == Report::Log(
            text_of(payload.skip(1)),
        ),
        !(payload.len() >= 73 && payload[0] == 4) && !(payload.len() >= 1 && payload[0] == 21)
            ==> report_of(payload) == Report::Log(
            "RX frame ("@ + decimal(payload.len()) + " bytes): "@ + hex_of(payload),
        ),
{
}

/// Received bytes are reported payload by payload: as many reports as there are complete frames in
/// what was pending and what came, in their order, and what is left over is pending.
pub proof fn lemma_received_bytes_are_reported(state: WorkerState, bytes: Seq<u8>, i: int)
    ensures
        ({
            let outcome = step_of(state, Happening::Received(bytes));
            let (payloads, rest) = frames_in(state.pending + bytes);
            &&& outcome.reports.len() == payloads.len()
            &&& 0 <= i < payloads.len() ==> outcome.reports[i] == report_of(payloads[i])
            &&& outcome.state.pending == rest
            &&& outcome.state.port_name == state.port_name
            &&& outcome.action == Action::PollCommands
        }),
{
}

/// Nothing but received bytes changes what the worker knows.
pub proof fn lemma_only_reads_change_the_worker(state: WorkerState, happening: Happening)
    requires
        !(happening is Received),
    ensures
        step_of(state, happening).state == state,
{
}

/// What the worker says when the connection comes or goes: each failure is reported once, with its
/// own words before the error's, and ends the worker.
pub proof fn lemma_worker_announcements(state: WorkerState, error: Seq<char>)
    ensures
        step_of(state, Happening::Opened).reports == seq![Report::Connected],
        step_of(state, Happening::Opened).action == Action::PollCommands,
        step_of(state, Happening::OpenFailed(error)).reports == seq![
            Report::Disconnected("Failed to open "@ + state.port_name + ": "@ + error),
        ],
        step_of(state, Happening::OpenFailed(error)).action == Action::Stop,
        step_of(state, Happening::WriteFailed(error)).reports == seq![
            Report::Disconnected("Write error: "@ + error),
        ],
        step_of(state, Happening::WriteFailed(error)).action == Action::Stop,
        step_of(state, Happening::ReadFailed(error)).reports == seq![
            Report::Disconnected("Read error: "@ + error),
        ],
        step_of(state, Happening::ReadFailed(error)).action == Action::Stop,
        step_of(state, Happening::Disconnect).reports == seq![
            Report::Disconnected("Disconnected"@),
        ],
        step_of(state, Happening::Disconnect).action == Action::Stop,
{
}

/// The worker's round: look for a command, write what it says, read, and look again, all without
/// any report; and end silently when nobody can send commands any more.
pub proof fn lemma_worker_round(state: WorkerState, bytes: Seq<u8>)
    ensures
        step_of(state, Happening::Send(bytes)).action == Action::Write(bytes),
        step_of(state, Happening::Send(bytes)).reports.len() == 0,
        step_of(state, Happening::NoCommand).action == Action::Read,
        step_of(state, Happening::NoCommand).reports.len() == 0,
        step_of(state, Happening::Written).action == Action::Read,
        step_of(state, Happening::Written).reports.len() == 0,
        step_of(state, Happening::ReadTimedOut).action == Action::PollCommands,
        step_of(state, Happening::ReadTimedOut).reports.len() == 0,
        step_of(state, Happening::CommandsClosed).action == Action::Stop,
        step_of(state, Happening::CommandsClosed).reports.len() == 0,
{
}

/// The views hide nothing: every report, input and action is seen as what it is, with its own text
/// or bytes, and a list of reports is seen report by report.
pub proof fn lemma_serial_views(
    event: FromWorker,
    input: SerialInput,
    action: SerialAction,
    events: Seq<FromWorker>,
    i: int,
)
    ensures
        event is Connected ==> event@ is Connected,
        event matches FromWorker::Disconnected(t) ==> event@ == Report::Disconnected(t@),
        event matches FromWorker::Values(v) ==> event@ == Report::Values(v),
        event matches FromWorker::Log(t) ==> event@ == Report::Log(t@),
        input matches SerialInput::OpenFailed(t) ==> input@ == Happening::OpenFailed(t@),
        input is Opened ==> input@ is Opened,
        input matches SerialInput::Command(ToWorker::Send(b)) ==> input@ == Happening::Send(b@),
        input matches SerialInput::Command(ToWorker::Disconnect) ==> input@ is Disconnect,
        input is NoCommand ==> input@ is NoCommand,
        input is CommandsClosed ==> input@ is CommandsClosed,
        input is Written ==> input@ is Written,
        input matches SerialInput::WriteFailed(t) ==> input@ == Happening::WriteFailed(t@),
        input matches SerialInput::Received(b) ==> input@ == Happening::Received(b@),
        input is ReadTimedOut ==> input@ is ReadTimedOut,
        input matches SerialInput::ReadFailed(t) ==> input@ == Happening::ReadFailed(t@),
        action is PollCommands ==> action@ is PollCommands,
        action matches SerialAction::Write(b) ==> action@ == Action::Write(b@),
        action is Read ==> action@ is Read,
        action is Stop ==> action@ is Stop,
        reports(events).len() == events.len(),
        0 <= i < events.len() ==> reports(events)[i] == events[i]@,
{
}

/// What each operation does: a new worker has nothing pending, and a step reports, acts and changes
/// the worker as the happening calls for.
pub proof fn lemma_serial_worker_operations(
    payload: &[u8],
    event: FromWorker,
    port_name: String,
    new: SerialWorker,
    worker: &mut SerialWorker,
    input: SerialInput,
    step: SerialStep,
)
    ensures
        call_ensures(report_payload, (payload,), event) ==> event@ == report_of(payload@),
        call_ensures(SerialWorker::new, (port_name,), new) ==> new@.port_name == port_name@
            && new@.pending.len() == 0,
        call_ensures(SerialWorker::step, (worker, input), step) ==> {
            let outcome = step_of(old(worker)@, input@);
            &&& reports(step.events@) == outcome.reports
            &&& step.action@ == outcome.action
            &&& final(worker)@ == outcome.state
        },
{
}

} // verus!
