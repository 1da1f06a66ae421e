//! The loop around the screen: when to poll, and when a poll counts.

use crate::app::{logged, seeded, App, AppModel};
use crate::mifare::MAX_SECTORS;
use crate::worker::{Event, EventModel, Pad, PadModel};
use vstd::prelude::*;

verus! {

/// Milliseconds of quiet the reader gets between polls, for its own detection
/// to run. Erring long is the safe direction.
pub const IDLE_GAP: u64 = 1500;

/// Milliseconds the pad has to read empty before that counts. A stale tag for
/// three seconds costs nothing; flickering costs a lot.
pub const EMPTY_HOLD: u64 = 3000;

/// One command per poll is the budget, so the 13.56 MHz side gets every
/// fourth.
pub const HF_EVERY: u64 = 4;

/// Times are milliseconds since some moment.
pub struct Session {
    pub idle_gap: u64,
    /// A poll is outstanding. One at a time, or the worker piles up stale
    /// reads.
    pub polling: bool,
    pub next_poll: u64,
    /// When the pad first read empty, if that is how it reads now.
    pub empty_since: Option<u64>,
}

/// Since when the pad has read empty, given what it reads as now.
pub open spec fn empty_from(since: Option<u64>, p: PadModel, now: u64) -> Option<u64> {
    if p is Empty {
        match since {
            Some(t) => Some(t),
            None => Some(now),
        }
    } else {
        None
    }
}

/// What the pad reads as counts. Anything shorter than the hold is a dropped
/// command, and acting on it flashes "empty" under a still tag.
pub open spec fn settled(since: Option<u64>, p: PadModel, now: u64) -> bool {
    match empty_from(since, p, now) {
        None => true,
        Some(t) => now - t >= EMPTY_HOLD,
    }
}

/// The app once a poll has brought what lies on the pad.
pub open spec fn pad_taken(m: AppModel, p: PadModel, counts: bool) -> AppModel {
    let n = if counts {
        let placed = AppModel { pad: p, ..m };
        match p {
            PadModel::Lf { id, freq } => seeded(placed, id),
            _ => placed,
        }
    } else {
        m
    };
    AppModel { polls: (n.polls + 1) as u64, ..n }
}

/// Session and app once an event has been taken in.
pub open spec fn event_taken(s: Session, m: AppModel, ev: EventModel, now: u64) -> (
    Session,
    AppModel,
) {
    match ev {
        EventModel::Pad(p) => (
            Session {
                empty_since: empty_from(s.empty_since, p, now),
                polling: false,
                next_poll: (now + s.idle_gap) as u64,
                ..s
            },
            pad_taken(m, p, settled(s.empty_since, p, now)),
        ),
        EventModel::Log(text, bad) => (s, logged(m, text, bad)),
        EventModel::Busy(what) => (s, AppModel { busy: Some(what), ..m }),
        EventModel::Idle => (
            Session { empty_since: None, next_poll: (now + 2 * s.idle_gap) as u64, ..s },
            AppModel { busy: None, ..m },
        ),
        EventModel::Sector(sector) => (s, AppModel { dump: m.dump.push(sector), ..m }),
    }
}

/// The clock has not run back, and has room for the gaps.
pub open spec fn clock_ok(s: Session, now: u64) -> bool {
    &&& now + 2 * s.idle_gap <= u64::MAX
    &&& s.empty_since matches Some(t) ==> t <= now
}

/// Whether it is time for a poll.
pub open spec fn poll_is_due(s: Session, m: AppModel, now: u64) -> bool {
    !s.polling && m.busy is None && now >= s.next_poll
}

impl Session {
    /// The first poll goes out at once.
    pub fn new(idle_gap: u64, now: u64) -> (r: Session)
        ensures
            r == (Session { idle_gap, polling: true, next_poll: now, empty_since: None }),
    {
        Session { idle_gap, polling: true, next_poll: now, empty_since: None }
    }

    /// Take in what the worker reports.
    pub fn take(&mut self, app: &mut App, ev: Event, now: u64)
        requires
            old(app)@.wf(),
            clock_ok(*old(self), now),
            old(app)@.polls < u64::MAX,
            ev matches Event::Sector(s) ==> s.number < MAX_SECTORS,
        ensures
            (*final(self), final(app)@) == event_taken(*old(self), old(app)@, ev@, now),
            final(app)@.wf(),
            old(app)@.edit_wf() ==> final(app)@.edit_wf(),
    {
        match ev {
            Event::Pad(p) => {
                let empty = match &p {
                    Pad::Empty => true,
                    _ => false,
                };
                self.empty_since = if empty {
                    match self.empty_since {
                        Some(t) => Some(t),
                        None => Some(now),
                    }
                } else {
                    None
                };
                let counts = match self.empty_since {
                    None => true,
                    Some(t) => now - t >= EMPTY_HOLD,
                };
                if counts {
                    let seed = match &p {
                        Pad::Lf { id, .. } => Some(*id),
                        _ => None,
                    };
                    app.pad = p;
                    match seed {
                        Some(id) => app.seed(id),
                        None => {},
                    }
                }
                app.polls = app.polls + 1;
                self.polling = false;
                self.next_poll = now + self.idle_gap;
            },
            Event::Log(m, bad) => app.log(m, bad),
            Event::Busy(w) => {
                app.busy = Some(w);
            },
            Event::Idle => {
                app.busy = None;
                self.empty_since = None;
                self.next_poll = now + 2 * self.idle_gap;
            },
            Event::Sector(s) => {
                let ghost before = app@.dump;
                app.dump.push(s);
                assert(crate::app::dump_view(app.dump@) =~= before.push(s@));
                assert forall|i: int| 0 <= i < app@.dump.len() implies (
                    #[trigger] app@.dump[i]).number < MAX_SECTORS by {
                    if i < before.len() {
                        assert(app@.dump[i] == before[i]);
                    }
                }
            },
        }
    }

    /// The poll to send now, if it is time for one: true if it is to check for
    /// a card too.
    pub fn poll_due(&mut self, app: &App, now: u64) -> (r: Option<bool>)
        ensures
            r == if poll_is_due(*old(self), app@, now) {
                Some(app@.polls as int % HF_EVERY as int == 0)
            } else {
                None
            },
            *final(self) == (Session {
                polling: old(self).polling || poll_is_due(*old(self), app@, now),
                ..*old(self)
            }),
            r matches Some(hf) ==> (hf <==> app@.polls % 4 == 0),
    {
        if !self.polling && app.busy.is_none() && now >= self.next_poll {
            self.polling = true;
            Some(app.polls % HF_EVERY == 0)
        } else {
            None
        }
    }
}

// ---- laws ----

/// A pad that reads empty for less than the hold stays as it was.
pub proof fn a_short_silence_does_not_clear_the_pad(s: Session, m: AppModel, now: u64)
    requires
        match s.empty_since {
            None => true,
            Some(t) => now - t < EMPTY_HOLD,
        },
    ensures
        event_taken(s, m, EventModel::Pad(PadModel::Empty), now).1.pad == m.pad,
        event_taken(s, m, EventModel::Pad(PadModel::Empty), now).1.id == m.id,
{
}

/// A tag that reads always counts, and ends any run of empty reads.
pub proof fn a_tag_shows_at_once(s: Session, m: AppModel, p: PadModel, now: u64)
    requires
        !(p is Empty),
    ensures
        event_taken(s, m, EventModel::Pad(p), now).1.pad == p,
        event_taken(s, m, EventModel::Pad(p), now).0.empty_since is None,
{
}

/// An ID that was captured or typed survives whatever comes and goes on the
/// pad.
pub proof fn events_do_not_clobber_the_buffer(s: Session, m: AppModel, ev: EventModel, now: u64)
    requires
        !(m.origin is Blank) || m.editing,
    ensures
        event_taken(s, m, ev, now).1.id == m.id,
        event_taken(s, m, ev, now).1.field == m.field,
{
}

/// Session and app once a run of events, each with its time, has been taken in.
pub open spec fn events_taken(s: Session, m: AppModel, evs: Seq<(EventModel, u64)>) -> (
    Session,
    AppModel,
)
    decreases evs.len(),
{
    if evs.len() == 0 {
        (s, m)
    } else {
        let (p, a) = events_taken(s, m, evs.drop_last());
        event_taken(p, a, evs.last().0, evs.last().1)
    }
}

/// No poll goes out over the top of real work: from the moment the worker says
/// that it is busy until it says that it is idle, none is due.
pub proof fn no_poll_while_the_worker_is_busy(
    s: Session,
    m: AppModel,
    evs: Seq<(EventModel, u64)>,
    later: u64,
)
    requires
        evs.len() > 0,
        evs[0].0 is Busy,
        forall|i: int| 0 <= i < evs.len() ==> !((#[trigger] evs[i]).0 is Idle),
    ensures
        events_taken(s, m, evs).1.busy is Some,
        !poll_is_due(events_taken(s, m, evs).0, events_taken(s, m, evs).1, later),
    decreases evs.len(),
{
    if evs.len() > 1 {
        let p = evs.drop_last();
        assert forall|i: int| 0 <= i < p.len() implies !((#[trigger] p[i]).0 is Idle) by {
            assert(p[i] == evs[i]);
        }
        no_poll_while_the_worker_is_busy(s, m, p, later);
    }
    assert(!(evs[evs.len() - 1].0 is Idle));
}

/// After a poll has come back the reader is left alone for the gap, after real
/// work for twice the gap.
pub proof fn the_reader_gets_its_quiet(s: Session, m: AppModel, p: PadModel, now: u64, later: u64)
    requires
        clock_ok(s, now),
    ensures
        ({
            let (n, a) = event_taken(s, m, EventModel::Pad(p), now);
            poll_is_due(n, a, later) ==> later >= now + s.idle_gap
        }),
        ({
            let (n, a) = event_taken(s, m, EventModel::Idle, now);
            poll_is_due(n, a, later) ==> later >= now + 2 * s.idle_gap
        }),
{
}

/// The pad counts as empty only once it has read so for three seconds; the time
/// is counted from the first empty read.
pub proof fn a_long_silence_clears_the_pad(s: Session, m: AppModel, now: u64, since: u64)
    requires
        since <= now,
    ensures
        ({
            let (n, a) = event_taken(s, m, EventModel::Pad(PadModel::Empty), now);
            &&& s.empty_since is None ==> n.empty_since == Some(now) && a.pad == m.pad
            &&& s.empty_since == Some(since) ==> n.empty_since == Some(since)
            &&& s.empty_since == Some(since) && now - since >= 3000 ==> a.pad is Empty
            &&& s.empty_since == Some(since) && now - since < 3000 ==> a.pad == m.pad
        }),
{
}

/// A poll that comes back is counted, makes way for the next one, and touches
/// nothing of the app but the pad and an untouched buffer. A card does not get
/// into the buffer.
pub proof fn a_poll_is_counted(s: Session, m: AppModel, p: PadModel, now: u64)
    requires
        clock_ok(s, now),
        m.polls < u64::MAX,
    ensures
        ({
            let (n, a) = event_taken(s, m, EventModel::Pad(p), now);
            &&& a.polls == m.polls + 1
            &&& !n.polling
            &&& n.next_poll == now + s.idle_gap
            &&& n.idle_gap == s.idle_gap
            &&& a.log == m.log && a.busy == m.busy && a.outbox == m.outbox && a.confirm == m.confirm
                && a.dump == m.dump
            &&& !(p is Lf) ==> a.id == m.id && a.origin == m.origin && a.field == m.field
            &&& p matches PadModel::Lf { id, freq } ==> (m.origin is Blank && !m.editing ==> a.id
                == id && a.origin is Captured)
        }),
{
}

/// The other events: a line goes into the log, the worker is busy with what it
/// says, is idle again, or has one more sector of a dump.
pub proof fn events_change_what_they_speak_of(
    s: Session,
    m: AppModel,
    now: u64,
    text: Seq<char>,
    bad: bool,
    sector: crate::worker::SectorModel,
)
    requires
        clock_ok(s, now),
        m.log.len() < crate::app::LOG_MAX,
    ensures
        event_taken(s, m, EventModel::Log(text, bad), now) == (
            s,
            AppModel { log: m.log.push((text, bad)), ..m },
        ),
        event_taken(s, m, EventModel::Busy(text), now) == (s, AppModel { busy: Some(text), ..m }),
        event_taken(s, m, EventModel::Idle, now) == (
            Session { empty_since: None, next_poll: (now + 2 * s.idle_gap) as u64, ..s },
            AppModel { busy: None, ..m },
        ),
        event_taken(s, m, EventModel::Sector(sector), now) == (
            s,
            AppModel { dump: m.dump.push(sector), ..m },
        ),
{
}

/// A poll is due exactly if none is outstanding, the worker is idle and the
/// time has come.
pub proof fn when_a_poll_is_due(s: Session, m: AppModel, now: u64)
    ensures
        s.polling ==> !poll_is_due(s, m, now),
        m.busy is Some ==> !poll_is_due(s, m, now),
        now < s.next_poll ==> !poll_is_due(s, m, now),
        !s.polling && m.busy is None && now >= s.next_poll ==> poll_is_due(s, m, now),
{
}

/// The times that polling goes by, in milliseconds, and how often it looks for
/// a card.
pub proof fn polling_goes_by_these_times()
    ensures
        IDLE_GAP == 1500,
        EMPTY_HOLD == 3000,
        HF_EVERY == 4,
{
}

} // verus!
