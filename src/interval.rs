//! Reconstruction of work intervals from a day's punches, and their total.

use vstd::prelude::*;
use crate::punch::{TimeStamp, TimeStampType};
use crate::time::Time;

verus! {

/// A closed work interval.
#[derive(Clone, Copy, Debug, PartialEq, Eq, Structural)]
pub struct Item {
    pub start: Time,
    pub end: Time,
}

impl Item {
    pub open spec fn span(&self) -> int {
        self.end.secs - self.start.secs
    }

    /// The signed length of the interval in seconds.
    pub fn duration(&self) -> (r: i64)
        ensures
            r == self.span(),
    {
        self.end.secs as i64 - self.start.secs as i64
    }
}

/// One step of the walk over a day's punches. `open` holds the start of the
/// interval in progress, or `None` while looking for the next `Start`: a
/// `Start` (re)sets it, an `End` closes the interval in progress and is
/// otherwise skipped.
pub open spec fn step(state: (Seq<Item>, Option<Time>), p: TimeStamp) -> (Seq<Item>, Option<Time>) {
    if p.typ == TimeStampType::Start {
        (state.0, Some(p.time))
    } else {
        match state.1 {
            Some(s) => (state.0.push(Item { start: s, end: p.time }), None),
            None => state,
        }
    }
}

/// The closed intervals of a day's punches, in order, and the start of a
/// trailing open interval. Walking starts at the first `Start`; every `End`
/// closes an interval from the latest `Start` before it.
pub open spec fn intervals(punches: Seq<TimeStamp>) -> (Seq<Item>, Option<Time>)
    decreases punches.len(),
{
    if punches.len() == 0 {
        (Seq::empty(), None)
    } else {
        step(intervals(punches.drop_last()), punches.last())
    }
}

/// Whether a day's punches hold any `Start`.
pub open spec fn has_start(punches: Seq<TimeStamp>) -> bool {
    exists|i: int| 0 <= i < punches.len() && (#[trigger] punches[i]).typ == TimeStampType::Start
}

/// The sum of the intervals' lengths in seconds.
pub open spec fn total(items: Seq<Item>) -> int
    decreases items.len(),
{
    if items.len() == 0 {
        0
    } else {
        total(items.drop_last()) + items.last().span()
    }
}

/// Whether any punch of `punches` is a `Start`.
pub fn any_start(punches: &Vec<TimeStamp>) -> (r: bool)
    ensures
        r == has_start(punches@),
{
    let mut i: usize = 0;
    while i < punches.len()
        invariant
            i <= punches@.len(),
            forall|j: int| 0 <= j < i ==> (#[trigger] punches@[j]).typ != TimeStampType::Start,
        decreases punches@.len() - i,
    {
        if punches[i].is_start() {
            return true;
        }
        i = i + 1;
    }
    false
}

/// Reconstructs the closed intervals of a day and the start of a trailing
/// open interval.
pub fn get_times(punches: &Vec<TimeStamp>) -> (r: (Vec<Item>, Option<Time>))
    ensures
        r.0@ == intervals(punches@).0,
        r.1 == intervals(punches@).1,
        r.0@.len() <= punches@.len(),
{
    let mut items: Vec<Item> = Vec::new();
    let mut open: Option<Time> = None;
    let mut i: usize = 0;
    while i < punches.len()
        invariant
            i <= punches@.len(),
            (items@, open) == intervals(punches@.subrange(0, i as int)),
            items@.len() <= i,
        decreases punches@.len() - i,
    {
        let p = punches[i];
        assert(punches@.subrange(0, i + 1).drop_last() =~= punches@.subrange(0, i as int));
        if p.is_start() {
            open = Some(p.time);
        } else {
            match open {
                Some(s) => {
                    items.push(Item { start: s, end: p.time });
                    open = None;
                },
                None => {},
            }
        }
        i = i + 1;
    }
    assert(punches@.subrange(0, punches@.len() as int) =~= punches@);
    (items, open)
}

proof fn lemma_total_bound(items: Seq<Item>)
    ensures
        -(items.len() * 0x1_0000_0000) <= total(items) <= items.len() * 0x1_0000_0000,
    decreases items.len(),
{
    if items.len() > 0 {
        lemma_total_bound(items.drop_last());
    }
}

/// The total length of the intervals in seconds.
pub fn total_seconds(items: &Vec<Item>) -> (r: i128)
    ensures
        r == total(items@),
{
    let mut sum: i128 = 0;
    let mut i: usize = 0;
    while i < items.len()
        invariant
            i <= items@.len(),
            sum == total(items@.subrange(0, i as int)),
        decreases items@.len() - i,
    {
        proof {
            lemma_total_bound(items@.subrange(0, i as int));
            assert(items@.subrange(0, i + 1).drop_last() =~= items@.subrange(0, i as int));
        }
        sum = sum + items[i].duration() as i128;
        i = i + 1;
    }
    assert(items@.subrange(0, items@.len() as int) =~= items@);
    sum
}

} // verus!
