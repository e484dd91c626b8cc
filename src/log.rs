//! The log: per project, per calendar date, the day's punches.

use vstd::prelude::*;
use vstd::map::*;
use crate::punch::{reconcile, reconciled, TimeStamp};
use crate::time::{date_before, local_now, Date, Time};

verus! {

/// The punches of one calendar date.
#[derive(Debug)]
pub struct Entry {
    pub date: Date,
    pub timestamps: Vec<TimeStamp>,
}

/// The days of one project, in ascending order of date.
#[derive(Debug)]
pub struct Project {
    pub entries: Vec<Entry>,
}

/// Position of the entry for `d`; meaningful when there is one.
pub open spec fn date_index(entries: Seq<Entry>, d: Date) -> int {
    choose|i: int| 0 <= i < entries.len() && entries[i].date == d
}

impl View for Project {
    type V = Map<Date, Seq<TimeStamp>>;

    open spec fn view(&self) -> Map<Date, Seq<TimeStamp>> {
        Map::new(
            |d: Date| exists|i: int| 0 <= i < self.entries@.len() && self.entries@[i].date == d,
            |d: Date| self.entries@[date_index(self.entries@, d)].timestamps@,
        )
    }
}

/// Copies a day's punches.
pub fn copy_punches(v: &Vec<TimeStamp>) -> (r: Vec<TimeStamp>)
    ensures
        r@ == v@,
{
    let mut r: Vec<TimeStamp> = Vec::new();
    let mut i: usize = 0;
    while i < v.len()
        invariant
            i <= v@.len(),
            r@ == v@.subrange(0, i as int),
        decreases v@.len() - i,
    {
        r.push(v[i]);
        i = i + 1;
        assert(r@ =~= v@.subrange(0, i as int));
    }
    assert(v@.subrange(0, v@.len() as int) =~= v@);
    r
}

impl Project {
    /// Dates strictly ascending, hence unique.
    pub open spec fn wf(&self) -> bool {
        forall|i: int, j: int|
            0 <= i < j < self.entries@.len() ==> date_before(
                #[trigger] self.entries@[i].date,
                #[trigger] self.entries@[j].date,
            )
    }

    pub proof fn lemma_view_at(&self, i: int)
        requires
            self.wf(),
            0 <= i < self.entries@.len(),
        ensures
            self@.contains_key(self.entries@[i].date),
            self@[self.entries@[i].date] == self.entries@[i].timestamps@,
            date_index(self.entries@, self.entries@[i].date) == i,
    {
        let d = self.entries@[i].date;
        assert(self@.contains_key(d));
        let j = date_index(self.entries@, d);
        if j < i {
            assert(date_before(self.entries@[j].date, self.entries@[i].date));
        } else if j > i {
            assert(date_before(self.entries@[i].date, self.entries@[j].date));
        }
    }

    pub fn new() -> (r: Project)
        ensures
            r.wf(),
            r@ == Map::<Date, Seq<TimeStamp>>::empty(),
    {
        let r = Project { entries: Vec::new() };
        assert(r@ =~= Map::<Date, Seq<TimeStamp>>::empty());
        r
    }

    /// The punches recorded for `date`, empty if there are none.
    pub fn day(&self, date: Date) -> (r: Vec<TimeStamp>)
        requires
            self.wf(),
        ensures
            r@ == (if self@.contains_key(date) { self@[date] } else { Seq::empty() }),
    {
        let mut i: usize = 0;
        while i < self.entries.len()
            invariant
                self.wf(),
                i <= self.entries@.len(),
                forall|j: int| 0 <= j < i ==> (#[trigger] self.entries@[j]).date != date,
            decreases self.entries@.len() - i,
        {
            if self.entries[i].date == date {
                proof {
                    self.lemma_view_at(i as int);
                }
                return copy_punches(&self.entries[i].timestamps);
            }
            i = i + 1;
        }
        Vec::new()
    }

    /// Sets the punches of `date`, adding the date in its place if it is new.
    pub fn set_day(&mut self, date: Date, punches: Vec<TimeStamp>)
        requires
            old(self).wf(),
        ensures
            final(self).wf(),
            final(self)@ == old(self)@.insert(date, punches@),
    {
        let ghost old_entries = self.entries@;
        let ghost target = punches@;
        let mut p: usize = 0;
        while p < self.entries.len() && self.entries[p].date.is_before(&date)
            invariant
                p <= self.entries@.len(),
                self.entries@ == old_entries,
                self.wf(),
                forall|j: int| 0 <= j < p ==> date_before(#[trigger] old_entries[j].date, date),
            decreases self.entries@.len() - p,
        {
            p = p + 1;
        }
        let ghost old_self = *self;
        if p < self.entries.len() && self.entries[p].date == date {
            self.entries.set(p, Entry { date, timestamps: punches });
            assert(self.wf()) by {
                assert forall|i: int, j: int| 0 <= i < j < self.entries@.len() implies date_before(
                    #[trigger] self.entries@[i].date,
                    #[trigger] self.entries@[j].date,
                ) by {
                    assert(date_before(old_entries[i].date, old_entries[j].date));
                }
            }
            assert forall|k: Date| #[trigger] self@.contains_key(k) <==> old_self@.insert(date, target).contains_key(k) by {
                if self@.contains_key(k) {
                    let i = choose|i: int| 0 <= i < self.entries@.len() && self.entries@[i].date == k;
                    if i != p {
                        assert(old_entries[i].date == k);
                    }
                }
                if k == date {
                    assert(self.entries@[p as int].date == date);
                }
                if old_self@.contains_key(k) {
                    let i = choose|i: int| 0 <= i < old_entries.len() && old_entries[i].date == k;
                    assert(self.entries@[i].date == k);
                }
            }
            assert forall|k: Date| #[trigger] self@.contains_key(k) implies self@[k] == old_self@.insert(date, target)[k] by {
                let i = choose|i: int| 0 <= i < self.entries@.len() && self.entries@[i].date == k;
                self.lemma_view_at(i);
                if i != p {
                    old_self.lemma_view_at(i);
                }
            }
            assert(self@ =~= old_self@.insert(date, target));
        } else {
            self.entries.insert(p, Entry { date, timestamps: punches });
            assert forall|j: int| p <= j < old_entries.len() implies date_before(date, #[trigger] old_entries[j].date) by {
                assert(!date_before(old_entries[p as int].date, date));
                if j > p {
                    assert(date_before(old_entries[p as int].date, old_entries[j].date));
                }
            }
            assert(self.wf()) by {
                assert forall|i: int, j: int| 0 <= i < j < self.entries@.len() implies date_before(
                    #[trigger] self.entries@[i].date,
                    #[trigger] self.entries@[j].date,
                ) by {
                    if i < p && j < p {
                        assert(date_before(old_entries[i].date, old_entries[j].date));
                    } else if i < p && j == p {
                    } else if i < p {
                        assert(date_before(old_entries[i].date, date));
                        assert(date_before(date, old_entries[j - 1].date));
                    } else if i == p {
                        assert(date_before(date, old_entries[j - 1].date));
                    } else {
                        assert(date_before(old_entries[i - 1].date, old_entries[j - 1].date));
                    }
                }
            }
            assert forall|k: Date| #[trigger] self@.contains_key(k) <==> old_self@.insert(date, target).contains_key(k) by {
                if self@.contains_key(k) {
                    let i = choose|i: int| 0 <= i < self.entries@.len() && self.entries@[i].date == k;
                    if i < p {
                        assert(old_entries[i].date == k);
                    } else if i > p {
                        assert(old_entries[i - 1].date == k);
                    }
                }
                if k == date {
                    assert(self.entries@[p as int].date == date);
                }
                if old_self@.contains_key(k) {
                    let i = choose|i: int| 0 <= i < old_entries.len() && old_entries[i].date == k;
                    if i < p {
                        assert(self.entries@[i].date == k);
                    } else {
                        assert(self.entries@[i + 1].date == k);
                    }
                }
            }
            assert forall|k: Date| #[trigger] self@.contains_key(k) implies self@[k] == old_self@.insert(date, target)[k] by {
                let i = choose|i: int| 0 <= i < self.entries@.len() && self.entries@[i].date == k;
                self.lemma_view_at(i);
                if i < p {
                    old_self.lemma_view_at(i);
                } else if i > p {
                    old_self.lemma_view_at(i - 1);
                }
            }
            assert(self@ =~= old_self@.insert(date, target));
        }
    }
}

/// The whole log: each project under a name that occurs once.
#[derive(Debug)]
pub struct Log {
    pub projects: Vec<(String, Project)>,
}

/// Position of the project named `k`; meaningful when there is one.
pub open spec fn name_index(ps: Seq<(String, Project)>, k: Seq<char>) -> int {
    choose|i: int| 0 <= i < ps.len() && ps[i].0@ == k
}

impl View for Log {
    type V = Map<Seq<char>, Map<Date, Seq<TimeStamp>>>;

    open spec fn view(&self) -> Map<Seq<char>, Map<Date, Seq<TimeStamp>>> {
        Map::new(
            |k: Seq<char>| exists|i: int| 0 <= i < self.projects@.len() && self.projects@[i].0@ == k,
            |k: Seq<char>| self.projects@[name_index(self.projects@, k)].1@,
        )
    }
}

/// The days of a project as a map, empty for a project not in the log.
pub open spec fn days_of(log: Map<Seq<char>, Map<Date, Seq<TimeStamp>>>, name: Seq<char>) -> Map<Date, Seq<TimeStamp>> {
    if log.contains_key(name) { log[name] } else { Map::empty() }
}

/// The punches of a day as a sequence, empty for a day not in the project.
pub open spec fn punches_of(days: Map<Date, Seq<TimeStamp>>, date: Date) -> Seq<TimeStamp> {
    if days.contains_key(date) { days[date] } else { Seq::empty() }
}

impl Log {
    /// Names unique, and each project's dates in ascending order.
    pub open spec fn wf(&self) -> bool {
        &&& forall|i: int, j: int|
            0 <= i < self.projects@.len() && 0 <= j < self.projects@.len() && i != j
                ==> (#[trigger] self.projects@[i]).0@ != (#[trigger] self.projects@[j]).0@
        &&& forall|i: int| 0 <= i < self.projects@.len() ==> (#[trigger] self.projects@[i]).1.wf()
    }

    /// The project named `k`, as stored.
    pub open spec fn project_of(&self, k: Seq<char>) -> Project {
        self.projects@[name_index(self.projects@, k)].1
    }

    pub proof fn lemma_view_at(&self, i: int)
        requires
            self.wf(),
            0 <= i < self.projects@.len(),
        ensures
            self@.contains_key(self.projects@[i].0@),
            name_index(self.projects@, self.projects@[i].0@) == i,
            self.project_of(self.projects@[i].0@) == self.projects@[i].1,
            self@[self.projects@[i].0@] == self.projects@[i].1@,
    {
        let k = self.projects@[i].0@;
        assert(self@.contains_key(k));
        let j = name_index(self.projects@, k);
        assert(self.projects@[j].0@ == k);
    }

    pub fn new() -> (r: Log)
        ensures
            r.wf(),
            r@ == Map::<Seq<char>, Map<Date, Seq<TimeStamp>>>::empty(),
    {
        let r = Log { projects: Vec::new() };
        assert(r@ =~= Map::<Seq<char>, Map<Date, Seq<TimeStamp>>>::empty());
        r
    }

    /// Position of the project named `name`, if there is one.
    pub fn find(&self, name: &String) -> (r: Option<usize>)
        requires
            self.wf(),
        ensures
            r.is_some() <==> self@.contains_key(name@),
            r.is_some() ==> r.unwrap() < self.projects@.len() && self.projects@[r.unwrap() as int].0@ == name@,
    {
        let mut i: usize = 0;
        while i < self.projects.len()
            invariant
                i <= self.projects@.len(),
                forall|j: int| 0 <= j < i ==> (#[trigger] self.projects@[j]).0@ != name@,
            decreases self.projects@.len() - i,
        {
            if self.projects[i].0 == *name {
                return Some(i);
            }
            i = i + 1;
        }
        None
    }

    /// The project named `name`, if there is one.
    pub fn get(&self, name: &str) -> (r: Option<&Project>)
        requires
            self.wf(),
        ensures
            r.is_some() <==> self@.contains_key(name@),
            r.is_some() ==> *r.unwrap() == self.project_of(name@) && r.unwrap().wf()
                && r.unwrap()@ == self@[name@],
    {
        let key = String::from_str(name);
        match self.find(&key) {
            Some(i) => {
                proof {
                    self.lemma_view_at(i as int);
                }
                Some(&self.projects[i].1)
            },
            None => None,
        }
    }

    /// Sets the punches of `date` in the project `name`, adding the project or
    /// the date where it is new.
    pub fn set_day(&mut self, name: String, date: Date, punches: Vec<TimeStamp>)
        requires
            old(self).wf(),
        ensures
            final(self).wf(),
            final(self)@ == old(self)@.insert(name@, days_of(old(self)@, name@).insert(date, punches@)),
    {
        let ghost old_self = *self;
        let ghost key = name@;
        let ghost days = days_of(old_self@, key).insert(date, punches@);
        match self.find(&name) {
            Some(i) => {
                proof {
                    old_self.lemma_view_at(i as int);
                }
                let (n, mut project) = self.projects.remove(i);
                project.set_day(date, punches);
                self.projects.insert(i, (n, project));
                assert(self.projects@ =~= old_self.projects@.update(i as int, (n, project)));
                assert(self.wf()) by {
                    assert forall|a: int, b: int|
                        0 <= a < self.projects@.len() && 0 <= b < self.projects@.len() && a != b
                            implies (#[trigger] self.projects@[a]).0@ != (#[trigger] self.projects@[b]).0@ by {
                        assert(old_self.projects@[a].0@ != old_self.projects@[b].0@);
                    }
                    assert forall|a: int| 0 <= a < self.projects@.len() implies (#[trigger] self.projects@[a]).1.wf() by {
                        assert(old_self.projects@[a].1.wf());
                    }
                }
                assert forall|k: Seq<char>| #[trigger] self@.contains_key(k) <==> old_self@.insert(key, days).contains_key(k) by {
                    if self@.contains_key(k) {
                        let a = choose|a: int| 0 <= a < self.projects@.len() && self.projects@[a].0@ == k;
                        assert(old_self.projects@[a].0@ == k);
                    }
                    if old_self@.contains_key(k) {
                        let a = choose|a: int| 0 <= a < old_self.projects@.len() && old_self.projects@[a].0@ == k;
                        assert(self.projects@[a].0@ == k);
                    }
                }
                assert forall|k: Seq<char>| #[trigger] self@.contains_key(k) implies self@[k] == old_self@.insert(key, days)[k] by {
                    let a = choose|a: int| 0 <= a < self.projects@.len() && self.projects@[a].0@ == k;
                    self.lemma_view_at(a);
                    old_self.lemma_view_at(a);
                }
                assert(self@ =~= old_self@.insert(key, days));
            },
            None => {
                let mut project = Project::new();
                project.set_day(date, punches);
                assert(project@ =~= days);
                self.projects.push((name, project));
                assert(self.projects@ =~= old_self.projects@.push((name, project)));
                let ghost last = old_self.projects@.len() as int;
                assert(self.wf()) by {
                    assert forall|a: int, b: int|
                        0 <= a < self.projects@.len() && 0 <= b < self.projects@.len() && a != b
                            implies (#[trigger] self.projects@[a]).0@ != (#[trigger] self.projects@[b]).0@ by {
                        if a < last && b < last {
                            assert(old_self.projects@[a].0@ != old_self.projects@[b].0@);
                        } else if a < last {
                            assert(!old_self@.contains_key(key));
                            assert(old_self.projects@[a].0@ != key);
                        } else if b < last {
                            assert(!old_self@.contains_key(key));
                            assert(old_self.projects@[b].0@ != key);
                        }
                    }
                    assert forall|a: int| 0 <= a < self.projects@.len() implies (#[trigger] self.projects@[a]).1.wf() by {
                        if a < last {
                            assert(old_self.projects@[a].1.wf());
                        }
                    }
                }
                assert forall|k: Seq<char>| #[trigger] self@.contains_key(k) <==> old_self@.insert(key, days).contains_key(k) by {
                    if self@.contains_key(k) {
                        let a = choose|a: int| 0 <= a < self.projects@.len() && self.projects@[a].0@ == k;
                        if a < last {
                            assert(old_self.projects@[a].0@ == k);
                        }
                    }
                    if old_self@.contains_key(k) {
                        let a = choose|a: int| 0 <= a < old_self.projects@.len() && old_self.projects@[a].0@ == k;
                        assert(self.projects@[a].0@ == k);
                    }
                    if k == key {
                        assert(self.projects@[last].0@ == key);
                    }
                }
                assert forall|k: Seq<char>| #[trigger] self@.contains_key(k) implies self@[k] == old_self@.insert(key, days)[k] by {
                    let a = choose|a: int| 0 <= a < self.projects@.len() && self.projects@[a].0@ == k;
                    self.lemma_view_at(a);
                    if a < last {
                        old_self.lemma_view_at(a);
                    }
                }
                assert(self@ =~= old_self@.insert(key, days));
            },
        }
    }
}

/// A recording session: the log, and the date and time of the punch to record.
#[derive(Debug)]
pub struct Record {
    pub log: Log,
    pub date: Date,
    pub time: Time,
}

impl Record {
    /// A session over `log` at the current local date and time.
    pub fn open(log: Log) -> (r: Record)
        ensures
            r.log == log,
            r.date.wf(),
            r.time.wf(),
    {
        let (date, time) = local_now();
        Record { log, date, time }
    }

    /// Records a punch at the session's time into the day of `project`,
    /// creating the project and the day where they are new.
    pub fn insert(&mut self, project: String)
        requires
            old(self).log.wf(),
        ensures
            final(self).log.wf(),
            final(self).date == old(self).date,
            final(self).time == old(self).time,
            final(self).log@ == old(self).log@.insert(
                project@,
                days_of(old(self).log@, project@).insert(
                    old(self).date,
                    reconciled(punches_of(days_of(old(self).log@, project@), old(self).date), old(self).time),
                ),
            ),
    {
        let mut day = match self.log.get(project.as_str()) {
            Some(p) => p.day(self.date),
            None => Vec::new(),
        };
        reconcile(&mut day, self.time);
        self.log.set_day(project, self.date, day);
    }
}

} // verus!
