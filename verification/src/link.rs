//! What the application knows of one connection: whether a worker is attached, whether it is
//! connected, a status line and a bounded log.

use vstd::prelude::*;

verus! {

/// The largest number of lines that a log keeps.
pub const LOG_CAPACITY: usize = 200;

/// The log after `line` has been added: a log that is now too long loses its oldest line.
pub open spec fn logged(log: Seq<Seq<char>>, line: Seq<char>) -> Seq<Seq<char>> {
    if log.len() + 1 > LOG_CAPACITY {
        log.push(line).drop_first()
    } else {
        log.push(line)
    }
}

/// The lines of a log.
pub open spec fn lines(log: Seq<String>) -> Seq<Seq<char>> {
    log.map_values(|line: String| line@)
}

/// Adds a line to a log and drops the oldest one when the log is full.
pub fn push_capped(log: &mut Vec<String>, msg: String)
    ensures
        lines(final(log)@) == logged(lines(old(log)@), msg@),
{
    log.push(msg);
    assert(lines(log@) =~= lines(old(log)@).push(msg@));
    if log.len() > LOG_CAPACITY {
        let ghost full = log@;
        let _oldest: String = log.remove(0);
        assert(lines(log@) =~= lines(full).drop_first());
    }
}

/// The state of a connection, with its texts as characters.
pub ghost struct LinkState {
    /// A worker holds the other ends of the channels.
    pub attached: bool,
    /// The worker has reported that it is connected.
    pub connected: bool,
    pub status: Seq<char>,
    pub log: Seq<Seq<char>>,
}

impl LinkState {
    /// Only an attached worker can be connected, and the log is bounded.
    pub open spec fn wf(self) -> bool {
        &&& self.connected ==> self.attached
        &&& self.log.len() <= LOG_CAPACITY
    }

    /// Before the first connection.
    pub open spec fn idle() -> LinkState {
        LinkState {
            attached: false,
            connected: false,
            status: "Not connected"@,
            log: Seq::empty(),
        }
    }

    /// After a worker has been started.
    pub open spec fn started(self) -> LinkState {
        LinkState { attached: true, status: "Connecting..."@, ..self }
    }

    /// After the user has disconnected.
    pub open spec fn released(self) -> LinkState {
        LinkState { attached: false, connected: false, status: "Not connected"@, ..self }
    }

    /// After an attempt to send something.
    pub open spec fn asked(self) -> LinkState {
        if self.attached {
            self
        } else {
            LinkState { status: "Not connected"@, ..self }
        }
    }

    /// After the worker has reported that it is connected.
    pub open spec fn opened(self) -> LinkState {
        LinkState { connected: true, status: "Connected"@, ..self }
    }

    /// After the worker has reported a line for the log.
    pub open spec fn noted(self, line: Seq<char>) -> LinkState {
        LinkState { log: logged(self.log, line), ..self }
    }

    /// After the worker has reported that the connection is gone.
    pub open spec fn lost(self, reason: Seq<char>) -> LinkState {
        LinkState {
            attached: false,
            connected: false,
            status: reason,
            log: logged(self.log, reason),
        }
    }
}

/// The state of a connection.
pub struct Link {
    pub attached: bool,
    pub connected: bool,
    pub status: String,
    pub log: Vec<String>,
}

impl View for Link {
    type V = LinkState;

    open spec fn view(&self) -> LinkState {
        LinkState {
            attached: self.attached,
            connected: self.connected,
            status: self.status@,
            log: lines(self.log@),
        }
    }
}

impl Link {
    /// A connection that was never made.
    pub fn new() -> (link: Self)
        ensures
            link@ == LinkState::idle(),
    {
        let link = Link {
            attached: false,
            connected: false,
            status: "Not connected".to_owned(),
            log: Vec::new(),
        };
        assert(lines(link.log@) =~= Seq::<Seq<char>>::empty());
        link
    }

    /// A worker has been started.
    pub fn start(&mut self)
        ensures
            final(self)@ == old(self)@.started(),
    {
        self.attached = true;
        self.status = "Connecting...".to_owned();
    }

    /// The user disconnects. Tells whether there is a worker to be told so.
    pub fn release(&mut self) -> (told: bool)
        ensures
            told == old(self)@.attached,
            final(self)@ == old(self)@.released(),
    {
        let told: bool = self.attached;
        self.attached = false;
        self.connected = false;
        self.status = "Not connected".to_owned();
        told
    }

    /// Something is to be sent. Tells whether there is a worker to take it.
    pub fn ask(&mut self) -> (granted: bool)
        ensures
            granted == old(self)@.attached,
            final(self)@ == old(self)@.asked(),
    {
        if !self.attached {
            self.status = "Not connected".to_owned();
        }
        self.attached
    }

    /// The worker is connected.
    pub fn open(&mut self)
        ensures
            final(self)@ == old(self)@.opened(),
    {
        self.connected = true;
        self.status = "Connected".to_owned();
    }

    /// The worker has a line for the log.
    pub fn note(&mut self, line: String)
        ensures
            final(self)@ == old(self)@.noted(line@),
    {
        push_capped(&mut self.log, line);
    }

    /// The connection is gone.
    pub fn lose(&mut self, reason: String)
        ensures
            final(self)@ == old(self)@.lost(reason@),
    {
        self.connected = false;
        self.status = reason.clone();
        push_capped(&mut self.log, reason);
        self.attached = false;
    }
}

/// A log never holds more lines than its capacity, the newest line is its last, and the lines that
/// stay keep their order.
pub proof fn lemma_log_is_bounded(log: Seq<Seq<char>>, line: Seq<char>)
    requires
        log.len() <= LOG_CAPACITY,
    ensures
        logged(log, line).len() <= LOG_CAPACITY,
        logged(log, line).last() == line,
        log.len() < LOG_CAPACITY ==> logged(log, line).drop_last() == log,
        log.len() == LOG_CAPACITY ==> logged(log, line).drop_last() == log.drop_first(),
{
    if log.len() < LOG_CAPACITY {
        assert(log.push(line).drop_last() =~= log);
    } else {
        assert(log.push(line).drop_first().drop_last() =~= log.drop_first());
    }
}

/// Everything that happens to a proper link leaves it proper. (A worker's report of being connected
/// comes only from a worker that is attached.)
pub proof fn lemma_link_stays_wf(link: LinkState, text: Seq<char>)
    requires
        link.wf(),
    ensures
        LinkState::idle().wf(),
        link.started().wf(),
        link.released().wf(),
        link.asked().wf(),
        link.attached ==> link.opened().wf(),
        link.noted(text).wf(),
        link.lost(text).wf(),
{
}

/// After a disconnection, by the user or by the worker, nothing can be sent until a worker is
/// started again, and an attempt is answered with the status `Not connected`.
pub proof fn lemma_nothing_is_sent_after_disconnection(link: LinkState, reason: Seq<char>)
    ensures
        !link.released().attached,
        !link.lost(reason).attached,
        !link.released().asked().attached,
        !link.lost(reason).asked().attached,
        link.released().asked().status == "Not connected"@,
        link.lost(reason).asked().status == "Not connected"@,
        link.lost(reason).started().attached,
{
}

/// A log of fewer than 200 lines grows by the new line; a full one gives up its first line for it.
pub proof fn lemma_log_keeps_two_hundred_lines(log: Seq<Seq<char>>, line: Seq<char>)
    ensures
        log.len() < 200 ==> logged(log, line) == log.push(line),
        log.len() >= 200 ==> logged(log, line) == log.subrange(1, log.len() as int).push(line),
{
    if log.len() >= 200 {
        assert(log.push(line).drop_first() =~= log.subrange(1, log.len() as int).push(line));
    }
}

/// What each thing that can happen does to a connection, field by field. A log line is never lost
/// but by a full log, and only the worker's own reports make a connection connected.
pub proof fn lemma_link_changes(link: LinkState, text: Seq<char>)
    ensures
        ({
            let new = LinkState::idle();
            &&& !new.attached && !new.connected && new.log.len() == 0
            &&& new.status == "Not connected"@
        }),
        ({
            let l = link.started();
            &&& l.attached && l.connected == link.connected && l.log == link.log
            &&& l.status == "Connecting..."@
        }),
        ({
            let l = link.released();
            &&& !l.attached && !l.connected && l.log == link.log
            &&& l.status == "Not connected"@
        }),
        link.attached ==> link.asked() == link,
        !link.attached ==> ({
            let l = link.asked();
            &&& !l.attached && l.connected == link.connected && l.log == link.log
            &&& l.status == "Not connected"@
        }),
        ({
            let l = link.opened();
            &&& l.attached == link.attached && l.connected && l.log == link.log
            &&& l.status == "Connected"@
        }),
        ({
            let l = link.noted(text);
            &&& l.attached == link.attached && l.connected == link.connected
            &&& l.status == link.status
            &&& l.log == logged(link.log, text)
        }),
        ({
            let l = link.lost(text);
            &&& !l.attached && !l.connected && l.status == text
            &&& l.log == logged(link.log, text)
        }),
{
}

/// The view hides nothing: it has every field, and every line of the log in its place.
pub proof fn lemma_link_view(link: Link, log: Seq<String>, i: int)
    ensures
        lines(log).len() == log.len(),
        0 <= i < log.len() ==> lines(log)[i] == log[i]@,
        link@.attached == link.attached,
        link@.connected == link.connected,
        link@.status == link.status@,
        link@.log.len() == link.log@.len(),
        0 <= i < link.log@.len() ==> link@.log[i] == link.log@[i]@,
        LOG_CAPACITY == 200,
{
}

/// What each operation does to a connection, and whether there was a worker to tell or to take
/// something.
pub proof fn lemma_link_operations(
    log: &mut Vec<String>,
    new: Link,
    link: &mut Link,
    text: String,
    answer: bool,
)
    ensures
        call_ensures(push_capped, (log, text), ()) ==> lines(final(log)@) == logged(
            lines(old(log)@),
            text@,
        ),
        call_ensures(Link::new, (), new) ==> new@ == LinkState::idle(),
        call_ensures(Link::start, (link,), ()) ==> final(link)@ == old(link)@.started(),
        call_ensures(Link::release, (link,), answer) ==> answer == old(link).attached && final(link)@
            == old(link)@.released(),
        call_ensures(Link::ask, (link,), answer) ==> answer == old(link).attached && final(link)@
            == old(link)@.asked(),
        call_ensures(Link::open, (link,), ()) ==> final(link)@ == old(link)@.opened(),
        call_ensures(Link::note, (link, text), ()) ==> final(link)@ == old(link)@.noted(text@),
        call_ensures(Link::lose, (link, text), ()) ==> final(link)@ == old(link)@.lost(text@),
{
}

} // verus!
