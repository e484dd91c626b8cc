//! The per-day report of a project: a header with the day's total, then one
//! line per interval.

use vstd::prelude::*;
use vstd::string::*;
use crate::format::{decimal_text, human_text, push_decimal_hours, push_human};
use crate::punch::TimeStamp;
use crate::interval::{any_start, get_times, has_start, intervals, total, total_seconds, Item};
use crate::log::{Entry, Log};
use crate::text::push_str;
use crate::time::{date_text, time_text, Date, Time};

verus! {

/// Why a report could not be made.
#[derive(Clone, Copy, Debug, PartialEq, Eq, Structural)]
pub enum ShowError {
    /// The log holds no project of the requested name.
    ProjectNotFound,
}

/// The characters of each string.
pub open spec fn texts(v: Seq<String>) -> Seq<Seq<char>> {
    v.map_values(|s: String| s@)
}

pub open spec fn duration_text(secs: int, decimal: bool) -> Seq<char> {
    if decimal { decimal_text(secs) } else { human_text(secs) }
}

/// `<date> (<total>):`
pub open spec fn header_text(date: Date, secs: int, decimal: bool) -> Seq<char> {
    date_text(date) + seq![' ', '('] + duration_text(secs, decimal) + seq![')', ':']
}

/// `  - <start> - <end>`
pub open spec fn item_text(it: Item) -> Seq<char> {
    seq![' ', ' ', '-', ' '] + time_text(it.start) + seq![' ', '-', ' '] + time_text(it.end)
}

/// `  - <start> - `, an interval still in progress.
pub open spec fn open_text(start: Time) -> Seq<char> {
    seq![' ', ' ', '-', ' '] + time_text(start) + seq![' ', '-', ' ']
}

/// The lines of one day; none for a day without any `Start`.
pub open spec fn day_lines(date: Date, punches: Seq<TimeStamp>, decimal: bool) -> Seq<Seq<char>> {
    if !has_start(punches) {
        Seq::empty()
    } else {
        let (items, open) = intervals(punches);
        seq![header_text(date, total(items), decimal)] + items.map_values(|it: Item| item_text(it)) + match open {
            Some(s) => seq![open_text(s)],
            None => Seq::empty(),
        }
    }
}

/// The lines of all the days, in the order of the entries.
pub open spec fn report_lines(entries: Seq<Entry>, decimal: bool) -> Seq<Seq<char>>
    decreases entries.len(),
{
    if entries.len() == 0 {
        Seq::empty()
    } else {
        report_lines(entries.drop_last(), decimal) + day_lines(
            entries.last().date,
            entries.last().timestamps@,
            decimal,
        )
    }
}

fn push_interval_line(out: &mut String, start: Time, end: Option<Time>)
    ensures
        final(out)@ == old(out)@ + match end {
            Some(e) => item_text(Item { start, end: e }),
            None => open_text(start),
        },
{
    proof {
        reveal_strlit("  - ");
        reveal_strlit(" - ");
    }
    let ghost before = out@;
    push_str(out, "  - ");
    let s = start.to_string();
    push_str(out, s.as_str());
    push_str(out, " - ");
    match end {
        Some(e) => {
            let t = e.to_string();
            push_str(out, t.as_str());
            assert(out@ =~= before + item_text(Item { start, end: e }));
        },
        None => {
            assert(out@ =~= before + open_text(start));
        },
    }
}

/// The report lines of one day.
pub fn report_day(entry: &Entry, decimal: bool) -> (r: Vec<String>)
    ensures
        texts(r@) == day_lines(entry.date, entry.timestamps@, decimal),
{
    let mut lines: Vec<String> = Vec::new();
    if !any_start(&entry.timestamps) {
        assert(texts(lines@) =~= Seq::<Seq<char>>::empty());
        return lines;
    }
    let (items, open) = get_times(&entry.timestamps);
    let secs = total_seconds(&items);
    proof {
        reveal_strlit(" (");
        reveal_strlit("):");
    }
    let mut header = entry.date.to_string();
    push_str(&mut header, " (");
    if decimal {
        push_decimal_hours(&mut header, secs);
    } else {
        push_human(&mut header, secs);
    }
    push_str(&mut header, "):");
    assert(header@ =~= header_text(entry.date, total(items@), decimal));
    lines.push(header);
    let ghost head = seq![header_text(entry.date, total(items@), decimal)];
    let mut i: usize = 0;
    while i < items.len()
        invariant
            i <= items@.len(),
            texts(lines@) == head + items@.subrange(0, i as int).map_values(|it: Item| item_text(it)),
        decreases items@.len() - i,
    {
        let mut line = String::new();
        push_interval_line(&mut line, items[i].start, Some(items[i].end));
        let ghost prev = lines@;
        let ghost text = line@;
        lines.push(line);
        assert(texts(lines@) =~= texts(prev).push(text));
        assert(items@.subrange(0, i + 1) =~= items@.subrange(0, i as int).push(items@[i as int]));
        i = i + 1;
        assert(texts(lines@) =~= head + items@.subrange(0, i as int).map_values(|it: Item| item_text(it)));
    }
    assert(items@.subrange(0, items@.len() as int) =~= items@);
    let ghost body = head + items@.map_values(|it: Item| item_text(it));
    match open {
        Some(s) => {
            let mut line = String::new();
            push_interval_line(&mut line, s, None);
            lines.push(line);
            assert(texts(lines@) =~= body + seq![open_text(s)]);
        },
        None => {
            assert(texts(lines@) =~= body + Seq::<Seq<char>>::empty());
        },
    }
    lines
}

/// The report of the project `project`: for each of its days in ascending
/// order of date, that day's lines. Fails, and reports nothing, when the log
/// has no such project.
pub fn show(log: &Log, project: &str, decimal: bool) -> (r: Result<Vec<String>, ShowError>)
    requires
        log.wf(),
    ensures
        r.is_err() <==> !log@.contains_key(project@),
        r.is_err() ==> r == Err::<Vec<String>, ShowError>(ShowError::ProjectNotFound),
        r.is_ok() ==> texts(r.unwrap()@) == report_lines(log.project_of(project@).entries@, decimal),
{
    let p = match log.get(project) {
        Some(p) => p,
        None => return Err(ShowError::ProjectNotFound),
    };
    let mut lines: Vec<String> = Vec::new();
    let mut i: usize = 0;
    while i < p.entries.len()
        invariant
            i <= p.entries@.len(),
            texts(lines@) == report_lines(p.entries@.subrange(0, i as int), decimal),
        decreases p.entries@.len() - i,
    {
        let day = report_day(&p.entries[i], decimal);
        let ghost before = lines@;
        let mut j: usize = 0;
        while j < day.len()
            invariant
                j <= day@.len(),
                texts(lines@) == texts(before) + texts(day@.subrange(0, j as int)),
            decreases day@.len() - j,
        {
            let mut s = String::new();
            push_str(&mut s, day[j].as_str());
            assert(s@ =~= day@[j as int]@);
            let ghost prev = lines@;
            let ghost text = s@;
            lines.push(s);
            assert(texts(lines@) =~= texts(prev).push(text));
            assert(day@.subrange(0, j + 1) =~= day@.subrange(0, j as int).push(day@[j as int]));
            assert(texts(day@.subrange(0, j + 1)) =~= texts(day@.subrange(0, j as int)).push(text));
            j = j + 1;
            assert(texts(lines@) =~= texts(before) + texts(day@.subrange(0, j as int)));
        }
        assert(day@.subrange(0, day@.len() as int) =~= day@);
        assert(p.entries@.subrange(0, i + 1).drop_last() =~= p.entries@.subrange(0, i as int));
        i = i + 1;
    }
    assert(p.entries@.subrange(0, p.entries@.len() as int) =~= p.entries@);
    Ok(lines)
}

} // verus!
