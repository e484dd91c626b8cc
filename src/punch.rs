//! Punches and the reconciler that records a new punch into a day's log.

use vstd::prelude::*;
use crate::time::Time;

verus! {

/// Tolerance given to every new punch: 15 minutes.
pub const DEFAULT_TOLERANCE: u32 = 900;

/// Whether a punch opens or closes a work interval.
#[derive(Clone, Copy, Debug, PartialEq, Eq, Structural, PartialOrd, Ord, Hash)]
pub enum TimeStampType {
    Start,
    End,
}

/// One punch: its kind, its time of day, and the number of seconds after it
/// during which a later punch is merged into it rather than recorded anew.
#[derive(Clone, Copy, Debug, PartialEq, Eq, Structural)]
pub struct TimeStamp {
    pub typ: TimeStampType,
    pub time: Time,
    pub tolerance: u32,
}

impl TimeStamp {
    pub fn is_start(&self) -> (r: bool)
        ensures
            r == (self.typ == TimeStampType::Start),
    {
        self.typ == TimeStampType::Start
    }

    pub fn is_end(&self) -> (r: bool)
        ensures
            r == (self.typ == TimeStampType::End),
    {
        self.typ == TimeStampType::End
    }
}

/// Whether `now` falls within the tolerance window of the punch `p`. The window
/// is measured on the seconds of the same day: a window reaching past
/// midnight covers the rest of the day.
pub open spec fn within_tolerance(p: TimeStamp, now: Time) -> bool {
    now.secs <= p.time.secs + p.tolerance
}

/// The punch appended at `now`.
pub open spec fn fresh(typ: TimeStampType, now: Time) -> TimeStamp {
    TimeStamp { typ, time: now, tolerance: DEFAULT_TOLERANCE }
}

/// The day log after a punch at `now`: a punch within the tolerance of a last
/// `End` moves that `End` to `now`; otherwise an `End` is appended after a last
/// `Start`, and a `Start` after anything else.
pub open spec fn reconciled(log: Seq<TimeStamp>, now: Time) -> Seq<TimeStamp> {
    if log.len() > 0 && log.last().typ == TimeStampType::End && within_tolerance(log.last(), now) {
        log.update(log.len() - 1, TimeStamp { time: now, ..log.last() })
    } else if log.len() > 0 && log.last().typ == TimeStampType::Start {
        log.push(fresh(TimeStampType::End, now))
    } else {
        log.push(fresh(TimeStampType::Start, now))
    }
}

/// Records a punch at `now` into a day's log.
pub fn reconcile(day: &mut Vec<TimeStamp>, now: Time)
    ensures
        final(day)@ == reconciled(old(day)@, now),
{
    let n = day.len();
    if n > 0 {
        let last = day[n - 1];
        if last.is_end() && (now.secs as u64) <= (last.time.secs as u64) + (last.tolerance as u64) {
            day.set(n - 1, TimeStamp { time: now, ..last });
            return;
        }
    }
    let typ = if n > 0 && day[n - 1].is_start() {
        TimeStampType::End
    } else {
        TimeStampType::Start
    };
    day.push(TimeStamp { typ, time: now, tolerance: DEFAULT_TOLERANCE });
}

/// The kinds alternate `Start, End, Start, ...` from the first punch on.
pub open spec fn alternates(log: Seq<TimeStamp>) -> bool {
    forall|i: int|
        0 <= i < log.len() ==> (#[trigger] log[i]).typ == (if i % 2 == 0 {
            TimeStampType::Start
        } else {
            TimeStampType::End
        })
}

/// The day log built by punches at each of `times` in turn, from an empty log.
pub open spec fn replay(times: Seq<Time>) -> Seq<TimeStamp>
    decreases times.len(),
{
    if times.len() == 0 {
        Seq::empty()
    } else {
        reconciled(replay(times.drop_last()), times.last())
    }
}

/// A punch keeps an alternating day log alternating.
pub proof fn lemma_reconcile_alternates(log: Seq<TimeStamp>, now: Time)
    requires
        alternates(log),
    ensures
        alternates(reconciled(log, now)),
{
    let r = reconciled(log, now);
    assert forall|i: int| 0 <= i < r.len() implies (#[trigger] r[i]).typ == (if i % 2 == 0 {
        TimeStampType::Start
    } else {
        TimeStampType::End
    }) by {
        if i == log.len() && log.len() > 0 {
            assert(log[log.len() - 1] == log.last());
        }
    }
}

/// Any day log built by punches alone alternates `Start, End, Start, ...`,
/// ending on either kind.
pub proof fn law_replay_alternates(times: Seq<Time>)
    ensures
        alternates(replay(times)),
    decreases times.len(),
{
    if times.len() > 0 {
        law_replay_alternates(times.drop_last());
        lemma_reconcile_alternates(replay(times.drop_last()), times.last());
    }
}

/// A punch within the tolerance of a last `End` keeps the length and only
/// moves that `End` to the new time.
pub proof fn law_debounce(log: Seq<TimeStamp>, now: Time)
    requires
        log.len() > 0,
        log.last().typ == TimeStampType::End,
        within_tolerance(log.last(), now),
    ensures
        reconciled(log, now).len() == log.len(),
        reconciled(log, now) == log.update(log.len() - 1, TimeStamp { time: now, ..log.last() }),
{
}

/// On an empty day log, or beyond the tolerance of a last `End`, a punch
/// appends exactly one `Start`.
pub proof fn law_new_start(log: Seq<TimeStamp>, now: Time)
    requires
        log.len() == 0 || (log.last().typ == TimeStampType::End && !within_tolerance(log.last(), now)),
    ensures
        reconciled(log, now).len() == log.len() + 1,
        reconciled(log, now) == log.push(fresh(TimeStampType::Start, now)),
        reconciled(log, now).last().typ == TimeStampType::Start,
{
}

/// After a last `Start`, a punch appends exactly one `End`.
pub proof fn law_closes_start(log: Seq<TimeStamp>, now: Time)
    requires
        log.len() > 0,
        log.last().typ == TimeStampType::Start,
    ensures
        reconciled(log, now).len() == log.len() + 1,
        reconciled(log, now) == log.push(fresh(TimeStampType::End, now)),
        reconciled(log, now).last().typ == TimeStampType::End,
{
}

} // verus!
