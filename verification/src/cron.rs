//! Reading cron: crontab text turned into the same [`Job`] shape launchd
//! produces.

use vstd::prelude::*;

use crate::paths::{short_source, short_source_of};
use crate::policy::{cron_permissions, Permission, Permissions, Refusal, Status};
use crate::text::{
    chars_of, contains_char, decimal, eq_str, extend, extend_str, first_word, first_word_chars, fmt_pad2,
    fmt_u64, lines_of, pad2, parse_i64, parse_i64_chars, split_lines, splitn, splitn_chars,
    string_from, string_of, trim, trim_chars, Sep,
};
use crate::types::{jobs_view, weekday_name, weekday_text, Job, JobView, Scope};

verus! {

/// What a cron `@` shorthand means in English; an unknown keyword is kept.
pub open spec fn keyword_text(kw: Seq<char>) -> Seq<char> {
    if kw == "@reboot"@ {
        "At startup"@
    } else if kw == "@yearly"@ || kw == "@annually"@ {
        "Yearly (Jan 1, 00:00)"@
    } else if kw == "@monthly"@ {
        "Monthly (day 1, 00:00)"@
    } else if kw == "@weekly"@ {
        "Weekly (Sunday 00:00)"@
    } else if kw == "@daily"@ || kw == "@midnight"@ {
        "Daily at 00:00"@
    } else if kw == "@hourly"@ {
        "Hourly (at :00)"@
    } else {
        kw
    }
}

fn keyword_chars(kw: &Vec<char>) -> (r: Vec<char>)
    ensures
        r@ == keyword_text(kw@),
{
    if eq_str(kw, "@reboot") {
        chars_of("At startup")
    } else if eq_str(kw, "@yearly") || eq_str(kw, "@annually") {
        chars_of("Yearly (Jan 1, 00:00)")
    } else if eq_str(kw, "@monthly") {
        chars_of("Monthly (day 1, 00:00)")
    } else if eq_str(kw, "@weekly") {
        chars_of("Weekly (Sunday 00:00)")
    } else if eq_str(kw, "@daily") || eq_str(kw, "@midnight") {
        chars_of("Daily at 00:00")
    } else if eq_str(kw, "@hourly") {
        chars_of("Hourly (at :00)")
    } else {
        crate::text::slice(kw, 0, kw.len())
    }
}

/// Expand a cron `@` shorthand into English, e.g. `"@daily"` -> `"Daily at 00:00"`.
pub fn decode_cron_keyword(kw: &str) -> (r: String)
    ensures
        r@ == keyword_text(kw@),
{
    let k = chars_of(kw);
    let t = keyword_chars(&k);
    string_of(&t)
}

/// The five schedule fields in English. Only the common shapes are
/// put into words; anything else is shown raw after `"cron: "`.
pub open spec fn cron_text(m: Seq<char>, h: Seq<char>, dom: Seq<char>, mon: Seq<char>, dow: Seq<char>) -> Seq<char> {
    let every_day = dom == "*"@ && mon == "*"@ && dow == "*"@;
    let one_weekday = dom == "*"@ && mon == "*"@ && dow != "*"@;
    if every_day && parse_i64(m) is Some && parse_i64(h) is Some {
        "Daily at "@ + pad2(parse_i64(h)->0 as int) + ":"@ + pad2(parse_i64(m)->0 as int)
    } else if every_day && h == "*"@ && m == "*"@ {
        "Every minute"@
    } else if every_day && h == "*"@ && parse_i64(m) is Some {
        "Every hour at :"@ + pad2(parse_i64(m)->0 as int)
    } else if one_weekday && parse_i64(m) is Some && parse_i64(h) is Some && parse_i64(dow) is Some {
        "Every "@ + weekday_text(parse_i64(dow)->0 as int) + " at "@ + pad2(parse_i64(h)->0 as int) + ":"@
            + pad2(parse_i64(m)->0 as int)
    } else {
        "cron: "@ + m + " "@ + h + " "@ + dom + " "@ + mon + " "@ + dow
    }
}

fn cron_chars(m: &Vec<char>, h: &Vec<char>, dom: &Vec<char>, mon: &Vec<char>, dow: &Vec<char>) -> (r: Vec<char>)
    ensures
        r@ == cron_text(m@, h@, dom@, mon@, dow@),
{
    let mm = parse_i64_chars(m);
    let hh = parse_i64_chars(h);
    let dd = parse_i64_chars(dow);
    let every_day = eq_str(dom, "*") && eq_str(mon, "*") && eq_str(dow, "*");
    let one_weekday = eq_str(dom, "*") && eq_str(mon, "*") && !eq_str(dow, "*");
    if every_day {
        if let (Some(mv), Some(hv)) = (mm, hh) {
            let mut v = chars_of("Daily at ");
            extend(&mut v, &fmt_pad2(hv));
            extend_str(&mut v, ":");
            extend(&mut v, &fmt_pad2(mv));
            return v;
        }
        if eq_str(h, "*") && eq_str(m, "*") {
            return chars_of("Every minute");
        }
        if eq_str(h, "*") {
            if let Some(mv) = mm {
                let mut v = chars_of("Every hour at :");
                extend(&mut v, &fmt_pad2(mv));
                return v;
            }
        }
    }
    if one_weekday {
        if let (Some(mv), Some(hv), Some(dv)) = (mm, hh, dd) {
            let mut v = chars_of("Every ");
            extend_str(&mut v, weekday_name(dv).as_str());
            extend_str(&mut v, " at ");
            extend(&mut v, &fmt_pad2(hv));
            extend_str(&mut v, ":");
            extend(&mut v, &fmt_pad2(mv));
            return v;
        }
    }
    let mut v = chars_of("cron: ");
    extend(&mut v, m);
    extend_str(&mut v, " ");
    extend(&mut v, h);
    extend_str(&mut v, " ");
    extend(&mut v, dom);
    extend_str(&mut v, " ");
    extend(&mut v, mon);
    extend_str(&mut v, " ");
    extend(&mut v, dow);
    v
}

/// Describe the five cron schedule fields in English, e.g. `"Daily at 09:30"`.
pub fn decode_cron(m: &str, h: &str, dom: &str, mon: &str, dow: &str) -> (r: String)
    ensures
        r@ == cron_text(m@, h@, dom@, mon@, dow@),
{
    let v = cron_chars(&chars_of(m), &chars_of(h), &chars_of(dom), &chars_of(mon), &chars_of(dow));
    string_of(&v)
}


/// The rest of a `splitn(2, ..)` cut, trimmed, or empty when there was no cut.
pub open spec fn second_trimmed(p: Seq<Seq<char>>) -> Seq<char> {
    if p.len() > 1 {
        trim(p[1])
    } else {
        Seq::<char>::empty()
    }
}

/// The schedule and command of one trimmed crontab line, or `None` for a
/// blank line, a comment, an environment assignment (`FOO=bar`) or a line
/// with fewer than five schedule fields before its command.
pub open spec fn cron_line(line: Seq<char>, has_user_field: bool) -> Option<(Seq<char>, Seq<char>)> {
    if line.len() == 0 || line[0] == '#' {
        None
    } else if line[0] != '@' && first_word(line).contains('=') {
        None
    } else if line[0] == '@' {
        let p = splitn(line, 2, Sep::Whitespace);
        Some((keyword_text(p[0]), second_trimmed(p)))
    } else {
        let f = splitn(line, 6, Sep::Whitespace);
        if f.len() < 6 {
            None
        } else {
            let remainder = trim(f[5]);
            let command = if has_user_field {
                let q = splitn(remainder, 2, Sep::Whitespace);
                "["@ + q[0] + "] "@ + second_trimmed(q)
            } else {
                remainder
            };
            Some((cron_text(f[0], f[1], f[2], f[3], f[4]), command))
        }
    }
}

/// Both actions refused: cron is read, never written.
pub open spec fn cron_refused() -> Permissions {
    Permissions {
        toggle: Permission::Refused { reason: Refusal::Unsupported },
        delete: Permission::Refused { reason: Refusal::Unsupported },
    }
}

/// The job that line `index` (counted from 0) of a crontab from `source`
/// describes. Its label is the source's file name and the 1-based line number.
pub open spec fn cron_job(index: int, raw: Seq<char>, source: Seq<char>, has_user_field: bool) -> Option<JobView> {
    match cron_line(trim(raw), has_user_field) {
        Some((schedule, command)) => Some(
            JobView {
                label: short_source_of(source) + ":"@ + decimal(index + 1),
                kind: "cron"@,
                scope: if has_user_field {
                    Scope::System
                } else {
                    Scope::User
                },
                source_path: source,
                source_group: "Cron"@,
                program: command,
                args: Seq::<Seq<char>>::empty(),
                schedule_human: schedule,
                stdout_path: None,
                stderr_path: None,
                status: Status::Scheduled,
                permissions: cron_refused(),
            },
        ),
        None => None,
    }
}

/// The jobs of `lines`, in order.
pub open spec fn cron_jobs_of(lines: Seq<Seq<char>>, source: Seq<char>, has_user_field: bool) -> Seq<JobView>
    decreases lines.len(),
{
    if lines.len() == 0 {
        Seq::<JobView>::empty()
    } else {
        let before = cron_jobs_of(lines.drop_last(), source, has_user_field);
        match cron_job(lines.len() - 1, lines.last(), source, has_user_field) {
            Some(j) => before.push(j),
            None => before,
        }
    }
}

/// The jobs a crontab text from `source` describes, one per schedule line.
pub open spec fn cron_jobs(text: Seq<char>, source: Seq<char>, has_user_field: bool) -> Seq<JobView> {
    cron_jobs_of(split_lines(text), source, has_user_field)
}

fn second_trimmed_exec(p: &Vec<Vec<char>>) -> (r: Vec<char>)
    ensures
        r@ == second_trimmed(p@.map_values(|v: Vec<char>| v@)),
{
    if p.len() > 1 {
        assert(p@.map_values(|v: Vec<char>| v@)[1] == p@[1]@);
        trim_chars(&p[1])
    } else {
        Vec::new()
    }
}

fn cron_line_exec(line: &Vec<char>, has_user_field: bool) -> (r: Option<(Vec<char>, Vec<char>)>)
    ensures
        match r {
            Some((a, b)) => cron_line(line@, has_user_field) == Some((a@, b@)),
            None => cron_line(line@, has_user_field) is None,
        },
{
    if line.len() == 0 || line[0] == '#' {
        return None;
    }
    if line[0] != '@' && contains_char(&first_word_chars(line), '=') {
        return None;
    }
    if line[0] == '@' {
        let p = splitn_chars(line, 2, Sep::Whitespace);
        assert(p@.map_values(|v: Vec<char>| v@)[0] == p@[0]@);
        let kw = keyword_chars(&p[0]);
        let rest = second_trimmed_exec(&p);
        return Some((kw, rest));
    }
    let f = splitn_chars(line, 6, Sep::Whitespace);
    let ghost fs = f@.map_values(|v: Vec<char>| v@);
    if f.len() < 6 {
        return None;
    }
    assert(fs[0] == f@[0]@ && fs[1] == f@[1]@ && fs[2] == f@[2]@ && fs[3] == f@[3]@ && fs[4] == f@[4]@
        && fs[5] == f@[5]@);
    let remainder = trim_chars(&f[5]);
    let command = if has_user_field {
        let q = splitn_chars(&remainder, 2, Sep::Whitespace);
        assert(q@.map_values(|v: Vec<char>| v@)[0] == q@[0]@);
        let mut c = chars_of("[");
        extend(&mut c, &q[0]);
        extend_str(&mut c, "] ");
        let rest = second_trimmed_exec(&q);
        extend(&mut c, &rest);
        c
    } else {
        remainder
    };
    let schedule = cron_chars(&f[0], &f[1], &f[2], &f[3], &f[4]);
    Some((schedule, command))
}

/// Parse crontab text, appending one [`Job`] per schedule line.
///
/// `source` becomes each job's source path and, shortened, part of its label;
/// `has_user_field` is true for system crontabs, which put a user name
/// between the schedule and the command.
pub fn parse_cron_text(text: &str, source: &str, has_user_field: bool, jobs: &mut Vec<Job>)
    ensures
        jobs_view(final(jobs)@) == jobs_view(old(jobs)@) + cron_jobs(text@, source@, has_user_field),
{
    let t = chars_of(text);
    let lines = lines_of(&t);
    let ghost ls = lines@.map_values(|v: Vec<char>| v@);
    let ghost start = jobs_view(jobs@);
    let short = short_source(source);
    assert(cron_jobs_of(ls.take(0), source@, has_user_field) =~= Seq::<JobView>::empty());
    assert(jobs_view(jobs@) =~= start + Seq::<JobView>::empty());
    for i in 0..lines.len()
        invariant
            ls == lines@.map_values(|v: Vec<char>| v@),
            short@ == short_source_of(source@),
            jobs_view(jobs@) == start + cron_jobs_of(ls.take(i as int), source@, has_user_field),
    {
        assert(ls.take(i + 1).drop_last() =~= ls.take(i as int));
        assert(ls.take(i + 1).last() == lines@[i as int]@);
        let line = trim_chars(&lines[i]);
        match cron_line_exec(&line, has_user_field) {
            Some((schedule, command)) => {
                let mut label = chars_of(short.as_str());
                extend_str(&mut label, ":");
                let n = fmt_u64((i + 1) as u64);
                extend(&mut label, &n);
                let job = Job {
                    label: string_of(&label),
                    kind: string_from("cron"),
                    scope: if has_user_field {
                        Scope::System
                    } else {
                        Scope::User
                    },
                    source_path: string_from(source),
                    source_group: string_from("Cron"),
                    program: string_of(&command),
                    args: Vec::new(),
                    schedule_human: string_of(&schedule),
                    stdout_path: None,
                    stderr_path: None,
                    status: Status::Scheduled,
                    permissions: cron_permissions(),
                };
                let ghost before = jobs_view(jobs@);
                assert(job@.args =~= Seq::<Seq<char>>::empty());
                jobs.push(job);
                assert(jobs_view(jobs@) =~= before.push(job@));
                assert(before.push(job@) =~= start + cron_jobs_of(ls.take(i + 1), source@, has_user_field));
            },
            None => {},
        }
    }
    assert(ls.take(lines.len() as int) =~= ls);
}

/// One crontab to read: its text, where it came from, and whether it is a
/// system crontab with a user field.
pub struct CronSource {
    pub text: String,
    pub source: String,
    pub has_user_field: bool,
}

/// The jobs of every source, in order.
pub open spec fn sources_jobs(sources: Seq<CronSource>) -> Seq<JobView>
    decreases sources.len(),
{
    if sources.len() == 0 {
        Seq::<JobView>::empty()
    } else {
        let s = sources.last();
        sources_jobs(sources.drop_last()) + cron_jobs(s.text@, s.source@, s.has_user_field)
    }
}

/// Every cron job in the given crontabs, source by source.
pub fn list_cron_jobs(sources: &Vec<CronSource>) -> (r: Vec<Job>)
    ensures
        jobs_view(r@) == sources_jobs(sources@),
{
    let mut jobs: Vec<Job> = Vec::new();
    assert(jobs_view(jobs@) =~= Seq::<JobView>::empty());
    for i in 0..sources.len()
        invariant
            jobs_view(jobs@) == sources_jobs(sources@.take(i as int)),
    {
        assert(sources@.take(i + 1).drop_last() =~= sources@.take(i as int));
        assert(sources@.take(i + 1).last() == sources@[i as int]);
        let s = &sources[i];
        parse_cron_text(s.text.as_str(), s.source.as_str(), s.has_user_field, &mut jobs);
    }
    assert(sources@.take(sources.len() as int) =~= sources@);
    jobs
}

} // verus!
