//! Renderings of a time span, and expansion of report templates.

use vstd::prelude::*;
use vstd::string::*;
use crate::text::{decimal, padded, push_decimal, push_padded, push_signed, push_str, signed_decimal};
use crate::time::{date_text, year_text, Date};

verus! {

/// Integer division rounding toward zero.
pub open spec fn trunc_div(a: int, b: int) -> int {
    if a >= 0 { a / b } else { -((-a) / b) }
}

/// Remainder of the division rounding toward zero; it takes the sign of `a`.
pub open spec fn trunc_rem(a: int, b: int) -> int {
    a - b * trunc_div(a, b)
}

/// Whole hours in a span of `secs` seconds.
pub open spec fn whole_hours(secs: int) -> int {
    trunc_div(secs, 3600)
}

/// Whole minutes in a span of `secs` seconds.
pub open spec fn whole_minutes(secs: int) -> int {
    trunc_div(secs, 60)
}

/// `<hours>h<minutes>min`, the hour part left out when it is zero.
pub open spec fn human_text(secs: int) -> Seq<char> {
    let h = whole_hours(secs);
    let m = trunc_rem(whole_minutes(secs), 60);
    (if h != 0 { signed_decimal(h) + seq!['h'] } else { Seq::empty() }) + signed_decimal(m) + seq![
        'm',
        'i',
        'n',
    ]
}

/// Hundredths of an hour in `minutes` (taken positive), rounded to nearest.
/// A third never lies halfway between two hundredths, so no tie arises.
pub open spec fn hundredths(minutes: nat) -> nat {
    (5 * minutes + 1) / 3
}

/// Total minutes divided by 60, with two decimal digits.
pub open spec fn decimal_text(secs: int) -> Seq<char> {
    let m = whole_minutes(secs);
    let c = hundredths(if m < 0 { (-m) as nat } else { m as nat });
    (if m < 0 { seq!['-'] } else { Seq::empty() }) + decimal(c / 100) + seq!['.'] + padded(c % 100, 2)
}

fn div_toward_zero(a: i128, b: i128) -> (r: i128)
    requires
        b >= 2,
    ensures
        r == trunc_div(a as int, b as int),
{
    if a >= 0 {
        a / b
    } else if a > -b {
        proof {
            let n = -(a as int);
            assert(n / (b as int) == 0) by (nonlinear_arith)
                requires
                    0 < n < b,
            ;
        }
        0
    } else {
        let q: i128 = (-(a + b)) / b + 1;
        proof {
            let n = -(a as int);
            assert((n - b) / (b as int) + 1 == n / (b as int)) by (nonlinear_arith)
                requires
                    b >= 2,
                    n >= b,
            ;
            assert(n / (b as int) <= n) by (nonlinear_arith)
                requires
                    b >= 2,
                    n >= b,
            ;
        }
        -q
    }
}

/// Appends the human rendering of a span of `secs` seconds.
pub fn push_human(out: &mut String, secs: i128)
    ensures
        final(out)@ == old(out)@ + human_text(secs as int),
{
    proof {
        reveal_strlit("h");
        reveal_strlit("min");
    }
    let ghost start = out@;
    let h = div_toward_zero(secs, 3600);
    let minutes = div_toward_zero(secs, 60);
    let m = minutes - 60 * div_toward_zero(minutes, 60);
    if h != 0 {
        push_signed(out, h);
        push_str(out, "h");
    }
    push_signed(out, m);
    push_str(out, "min");
    assert(out@ =~= start + human_text(secs as int));
}

/// Appends the decimal rendering of a span of `secs` seconds.
pub fn push_decimal_hours(out: &mut String, secs: i128)
    ensures
        final(out)@ == old(out)@ + decimal_text(secs as int),
{
    proof {
        reveal_strlit("-");
        reveal_strlit(".");
    }
    let ghost start = out@;
    let m = div_toward_zero(secs, 60);
    let a: u128 = if m < 0 { (-m) as u128 } else { m as u128 };
    let c: u128 = (5 * a + 1) / 3;
    if m < 0 {
        push_str(out, "-");
    }
    push_decimal(out, c / 100);
    push_str(out, ".");
    push_padded(out, c % 100, 2);
    assert(out@ =~= start + decimal_text(secs as int));
}

/// A span of `secs` seconds rendered as `1h30min`.
pub fn human(secs: i128) -> (r: String)
    ensures
        r@ == human_text(secs as int),
{
    let mut out = String::new();
    push_human(&mut out, secs);
    out
}

/// A span of `secs` seconds rendered as decimal hours, `1.50`.
pub fn decimal_hours(secs: i128) -> (r: String)
    ensures
        r@ == decimal_text(secs as int),
{
    let mut out = String::new();
    push_decimal_hours(&mut out, secs);
    out
}

/// A template that failed to expand.
#[derive(Clone, Copy, Debug, PartialEq, Eq, Structural)]
pub enum FormatError {
    /// A `%` followed by a character that names no directive, or by nothing.
    UnknownDirective,
}

/// What the directive `%c` expands to, if `c` names one.
pub open spec fn directive_text(c: char, date: Date, secs: int, project: Seq<char>) -> Option<Seq<char>> {
    if c == '%' {
        Some(seq!['%'])
    } else if c == 'd' {
        Some(date_text(date))
    } else if c == 'Y' {
        Some(year_text(date.year as int))
    } else if c == 'M' {
        Some(padded(date.month as nat, 2))
    } else if c == 'D' {
        Some(padded(date.day as nat, 2))
    } else if c == 't' {
        Some(decimal_text(secs))
    } else if c == 'h' {
        Some(signed_decimal(whole_hours(secs)))
    } else if c == 'm' {
        Some(signed_decimal(whole_minutes(secs)))
    } else if c == 'P' {
        Some(project)
    } else {
        None
    }
}

pub open spec fn prefixed(a: Seq<char>, rest: Option<Seq<char>>) -> Option<Seq<char>> {
    match rest {
        Some(r) => Some(a + r),
        None => None,
    }
}

/// The expansion of a template, scanned left to right; `None` when a `%`
/// is followed by no directive.
pub open spec fn expand(fmt: Seq<char>, date: Date, secs: int, project: Seq<char>) -> Option<Seq<char>>
    decreases fmt.len(),
{
    if fmt.len() == 0 {
        Some(Seq::empty())
    } else if fmt[0] != '%' {
        prefixed(seq![fmt[0]], expand(fmt.drop_first(), date, secs, project))
    } else if fmt.len() < 2 {
        None
    } else {
        match directive_text(fmt[1], date, secs, project) {
            Some(t) => prefixed(t, expand(fmt.skip(2), date, secs, project)),
            None => None,
        }
    }
}

/// A report template together with the values its directives stand for.
pub struct Formatter<'a> {
    pub date: Date,
    /// The span of time, in seconds.
    pub duration: i128,
    pub format: &'a str,
    pub project: &'a str,
}

impl<'a> Formatter<'a> {
    pub open spec fn expanded(&self) -> Option<Seq<char>> {
        expand(self.format@, self.date, self.duration as int, self.project@)
    }

    /// Appends what the directive `%c` expands to; `false` if `c` names none.
    fn push_directive(&self, out: &mut String, c: char) -> (r: bool)
        ensures
            r == directive_text(c, self.date, self.duration as int, self.project@).is_some(),
            r ==> final(out)@ == old(out)@ + directive_text(
                c,
                self.date,
                self.duration as int,
                self.project@,
            ).unwrap(),
    {
        proof {
            reveal_strlit("%");
        }
        if c == '%' {
            push_str(out, "%");
        } else if c == 'd' {
            let d = self.date.to_string();
            push_str(out, d.as_str());
        } else if c == 'Y' {
            self.date.push_year(out);
        } else if c == 'M' {
            push_padded(out, self.date.month as u128, 2);
        } else if c == 'D' {
            push_padded(out, self.date.day as u128, 2);
        } else if c == 't' {
            push_decimal_hours(out, self.duration);
        } else if c == 'h' {
            push_signed(out, div_toward_zero(self.duration, 3600));
        } else if c == 'm' {
            push_signed(out, div_toward_zero(self.duration, 60));
        } else if c == 'P' {
            push_str(out, self.project);
        } else {
            return false;
        }
        true
    }

    /// Expands the template: each `%` and the character after it become the
    /// directive's text, every other character stays as it is.
    pub fn render(&self) -> (r: Result<String, FormatError>)
        ensures
            r.is_ok() <==> self.expanded().is_some(),
            r.is_ok() ==> r.unwrap()@ == self.expanded().unwrap(),
            r.is_err() ==> r == Err::<String, FormatError>(FormatError::UnknownDirective),
    {
        let fmt = self.format;
        let n = fmt.unicode_len();
        let ghost date = self.date;
        let ghost secs = self.duration as int;
        let ghost project = self.project@;
        let mut out = String::new();
        let mut i: usize = 0;
        proof {
            assert(fmt@.skip(0) =~= fmt@);
            match expand(fmt@, date, secs, project) {
                Some(x) => {
                    assert(out@ + x =~= x);
                },
                None => {},
            }
        }
        while i < n
            invariant
                n == fmt@.len(),
                fmt == self.format,
                i <= n,
                date == self.date,
                secs == self.duration as int,
                project == self.project@,
                expand(fmt@, date, secs, project) == prefixed(out@, expand(fmt@.skip(i as int), date, secs, project)),
            decreases n - i,
        {
            let ghost rest = fmt@.skip(i as int);
            let ghost before = out@;
            let c = fmt.get_char(i);
            assert(rest[0] == c);
            if c != '%' {
                out.append(fmt.substring_char(i, i + 1));
                assert(rest.drop_first() =~= fmt@.skip(i + 1));
                assert(fmt@.subrange(i as int, i + 1) =~= seq![c]);
                assert(out@ == before + seq![c]);
                proof {
                    match expand(fmt@.skip(i + 1 as int), date, secs, project) {
                        Some(x) => {
                            assert(before + (seq![c] + x) =~= (before + seq![c]) + x);
                        },
                        None => {},
                    }
                }
                i = i + 1;
            } else {
                if i + 1 >= n {
                    return Err(FormatError::UnknownDirective);
                }
                let d = fmt.get_char(i + 1);
                assert(rest[1] == d);
                if !self.push_directive(&mut out, d) {
                    return Err(FormatError::UnknownDirective);
                }
                assert(rest.skip(2) =~= fmt@.skip(i + 2));
                let ghost t = directive_text(d, date, secs, project).unwrap();
                proof {
                    match expand(fmt@.skip(i + 2 as int), date, secs, project) {
                        Some(x) => {
                            assert(before + (t + x) =~= (before + t) + x);
                        },
                        None => {},
                    }
                }
                i = i + 2;
            }
        }
        assert(fmt@.skip(n as int) =~= Seq::<char>::empty());
        assert(out@ + Seq::<char>::empty() =~= out@);
        Ok(out)
    }
}

} // verus!
