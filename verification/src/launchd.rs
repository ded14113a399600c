//! Reading launchd: the directories jobs live in, what `launchctl` reports,
//! and each plist turned into a [`Job`] with its schedule in English.
//!
//! Everything here is read-only and best-effort: a malformed plist or an
//! unreadable line is skipped rather than failing the whole listing.

use vstd::prelude::*;

use crate::paths::file_stem;
use crate::plist::{
    dict_get, key_bool, key_int, key_string, key_strings, parse_plist_bytes, plist_of_bytes, Dictionary, PlistValue,
};
use crate::text::{
    chars_of, decimal, extend, extend_str, fmt_i64, fmt_pad2, join, join_chars, lines_of, pad2, parse_i64,
    parse_i64_chars, slice, split_lines, split_once, split_once_chars, splitn, splitn_chars, starts_with,
    strip_char, strip_char_chars, string_from, string_of, trim, trim_chars, Sep,
};
use crate::policy::{apple_prefix, launchd_permissions, permission_of, status_of, LaunchdState, Permissions};
use crate::table::LabelMap;
use crate::types::{jobs_view, weekday_text, Action, Domain, Job, JobView, Scope};

verus! {

// ---------------------------------------------------------------------------
// Schedules
// ---------------------------------------------------------------------------

/// The plural suffix for `n`.
pub open spec fn plural_of(n: int) -> Seq<char> {
    if n == 1 {
        ""@
    } else {
        "s"@
    }
}

/// The plural suffix for `n`: empty for one, `"s"` otherwise.
pub fn plural(n: i64) -> (r: &'static str)
    ensures
        r@ == plural_of(n as int),
{
    if n == 1 {
        ""
    } else {
        "s"
    }
}

/// The unit a `StartInterval` of `secs` seconds is shown in: the largest of
/// day, hour and minute that is not longer than the interval, and only when
/// the interval is a whole number of it. So 7200 is "2 hours", while 5400,
/// which is not a whole number of hours, stays "5400 seconds".
pub open spec fn duration_unit(secs: int) -> int {
    if secs >= 86400 {
        if secs % 86400 == 0 { 86400 } else { 1 }
    } else if secs >= 3600 {
        if secs % 3600 == 0 { 3600 } else { 1 }
    } else if secs >= 60 {
        if secs % 60 == 0 { 60 } else { 1 }
    } else {
        1
    }
}

/// The English name of a duration unit.
pub open spec fn unit_name(unit: int) -> Seq<char> {
    if unit == 86400 {
        " day"@
    } else if unit == 3600 {
        " hour"@
    } else if unit == 60 {
        " minute"@
    } else {
        " second"@
    }
}

/// A `StartInterval` as a bare quantity in its [`duration_unit`]; a
/// non-positive interval is shown raw with an `s`.
pub open spec fn duration_text(secs: int) -> Seq<char> {
    if secs <= 0 {
        decimal(secs) + "s"@
    } else {
        let unit = duration_unit(secs);
        decimal(secs / unit) + unit_name(unit) + plural_of(secs / unit)
    }
}

/// Turn a `StartInterval` in seconds into a bare quantity like `"2 hours"`.
///
/// Only exact multiples are promoted, and only to the largest unit that fits:
/// 7200 is `"2 hours"`, but 5400 stays `"5400 seconds"`, because "1.5 hours"
/// reads worse than the raw number and rounding would misstate the schedule.
pub fn human_duration(secs: i64) -> (r: String)
    ensures
        r@ == duration_text(secs as int),
{
    let (n, unit): (i64, &str) = if secs <= 0 {
        let mut v = fmt_i64(secs);
        extend_str(&mut v, "s");
        return string_of(&v);
    } else if secs >= 86400 && secs % 86400 == 0 {
        (secs / 86400, " day")
    } else if secs < 86400 && secs >= 3600 && secs % 3600 == 0 {
        (secs / 3600, " hour")
    } else if secs < 3600 && secs >= 60 && secs % 60 == 0 {
        (secs / 60, " minute")
    } else {
        (secs, " second")
    };
    let mut v = fmt_i64(n);
    extend_str(&mut v, unit);
    extend_str(&mut v, plural(n));
    string_of(&v)
}

/// The English name of month `m` (1-based), or `"month <m>"` out of range.
pub open spec fn month_text(m: int) -> Seq<char> {
    if m == 1 {
        "January"@
    } else if m == 2 {
        "February"@
    } else if m == 3 {
        "March"@
    } else if m == 4 {
        "April"@
    } else if m == 5 {
        "May"@
    } else if m == 6 {
        "June"@
    } else if m == 7 {
        "July"@
    } else if m == 8 {
        "August"@
    } else if m == 9 {
        "September"@
    } else if m == 10 {
        "October"@
    } else if m == 11 {
        "November"@
    } else if m == 12 {
        "December"@
    } else {
        "month "@ + decimal(m)
    }
}

/// Name of a month from its 1-based number, e.g. `1` -> `"January"`.
pub fn month_name(m: i64) -> (r: String)
    ensures
        r@ == month_text(m as int),
{
    let name = if m == 1 {
        "January"
    } else if m == 2 {
        "February"
    } else if m == 3 {
        "March"
    } else if m == 4 {
        "April"
    } else if m == 5 {
        "May"
    } else if m == 6 {
        "June"
    } else if m == 7 {
        "July"
    } else if m == 8 {
        "August"
    } else if m == 9 {
        "September"
    } else if m == 10 {
        "October"
    } else if m == 11 {
        "November"
    } else if m == 12 {
        "December"
    } else {
        let mut v = chars_of("month ");
        let d = fmt_i64(m);
        extend(&mut v, &d);
        return string_of(&v);
    };
    string_from(name)
}

/// The time of day a calendar entry names: `HH:MM`, `HH:00` for an hour
/// alone, `every hour at :MM` for a minute alone, and empty for neither.
pub open spec fn calendar_time(hour: Option<i64>, minute: Option<i64>) -> Seq<char> {
    match (hour, minute) {
        (Some(h), Some(m)) => pad2(h as int) + ":"@ + pad2(m as int),
        (Some(h), None) => pad2(h as int) + ":00"@,
        (None, Some(m)) => "every hour at :"@ + pad2(m as int),
        (None, None) => Seq::<char>::empty(),
    }
}

/// `t`, or midnight when `t` is empty.
pub open spec fn or_midnight(t: Seq<char>) -> Seq<char> {
    if t.len() == 0 {
        "00:00"@
    } else {
        t
    }
}

/// One `StartCalendarInterval` dictionary in English. An absent key is a
/// wildcard, so weekday is checked first, then day of month, then time alone.
pub open spec fn calendar_text(d: Seq<(String, PlistValue)>) -> Seq<char> {
    let time = calendar_time(key_int(d, "Hour"@), key_int(d, "Minute"@));
    match key_int(d, "Weekday"@) {
        Some(w) => "Every "@ + weekday_text(w as int) + " at "@ + or_midnight(time),
        None => match key_int(d, "Day"@) {
            Some(day) => {
                let when = match key_int(d, "Month"@) {
                    Some(mo) => month_text(mo as int) + " "@ + decimal(day as int),
                    None => "day "@ + decimal(day as int) + " of the month"@,
                };
                "On "@ + when + " at "@ + or_midnight(time)
            },
            None => if "every hour"@.is_prefix_of(time) {
                "Every hour"@ + time.subrange("every hour"@.len() as int, time.len() as int)
            } else if time.len() > 0 {
                "Daily at "@ + time
            } else {
                "On a calendar schedule"@
            },
        },
    }
}

fn clock_text(hour: Option<i64>, minute: Option<i64>) -> (r: Vec<char>)
    ensures
        r@ == calendar_time(hour, minute),
{
    match (hour, minute) {
        (Some(h), Some(m)) => {
            let mut v = fmt_pad2(h);
            extend_str(&mut v, ":");
            let mm = fmt_pad2(m);
            extend(&mut v, &mm);
            v
        },
        (Some(h), None) => {
            let mut v = fmt_pad2(h);
            extend_str(&mut v, ":00");
            v
        },
        (None, Some(m)) => {
            let mut v = chars_of("every hour at :");
            let mm = fmt_pad2(m);
            extend(&mut v, &mm);
            v
        },
        (None, None) => Vec::new(),
    }
}

fn or_midnight_exec(t: Vec<char>) -> (r: Vec<char>)
    ensures
        r@ == or_midnight(t@),
{
    if t.len() == 0 {
        chars_of("00:00")
    } else {
        t
    }
}

fn calendar_chars(d: &Dictionary) -> (r: Vec<char>)
    ensures
        r@ == calendar_text(d.entries@),
{
    let minute = d.get_int("Minute");
    let hour = d.get_int("Hour");
    let day = d.get_int("Day");
    let weekday = d.get_int("Weekday");
    let month = d.get_int("Month");
    let time = clock_text(hour, minute);
    if let Some(w) = weekday {
        let mut v = chars_of("Every ");
        extend_str(&mut v, weekday_name_str(w).as_str());
        extend_str(&mut v, " at ");
        let t = or_midnight_exec(time);
        extend(&mut v, &t);
        return v;
    }
    if let Some(dy) = day {
        let mut when = match month {
            Some(mo) => {
                let mut w = chars_of(month_name(mo).as_str());
                extend_str(&mut w, " ");
                let dd = fmt_i64(dy);
                extend(&mut w, &dd);
                w
            },
            None => {
                let mut w = chars_of("day ");
                let dd = fmt_i64(dy);
                extend(&mut w, &dd);
                extend_str(&mut w, " of the month");
                w
            },
        };
        let mut v = chars_of("On ");
        extend(&mut v, &when);
        extend_str(&mut v, " at ");
        let t = or_midnight_exec(time);
        extend(&mut v, &t);
        return v;
    }
    let every = chars_of("every hour");
    if starts_with(&time, &every) {
        let mut v = chars_of("Every hour");
        let rest = slice(&time, every.len(), time.len());
        extend(&mut v, &rest);
        return v;
    }
    if time.len() > 0 {
        let mut v = chars_of("Daily at ");
        extend(&mut v, &time);
        return v;
    }
    chars_of("On a calendar schedule")
}

fn weekday_name_str(w: i64) -> (r: String)
    ensures
        r@ == weekday_text(w as int),
{
    crate::types::weekday_name(w)
}

/// Render one `StartCalendarInterval` dictionary as English, e.g.
/// `{Hour: 9, Minute: 30}` -> `"Daily at 09:30"`.
pub fn decode_calendar(d: &Dictionary) -> (r: String)
    ensures
        r@ == calendar_text(d.entries@),
{
    let v = calendar_chars(d);
    string_of(&v)
}


/// The English of each dictionary among `items` (`filter_map(as_dictionary)`
/// then [`calendar_text`]).
pub open spec fn calendar_texts(items: Seq<PlistValue>) -> Seq<Seq<char>>
    decreases items.len(),
{
    if items.len() == 0 {
        Seq::<Seq<char>>::empty()
    } else {
        let rest = calendar_texts(items.drop_last());
        match items.last() {
            PlistValue::Dictionary(c) => rest.push(calendar_text(c.entries@)),
            _ => rest,
        }
    }
}

/// The clause for `StartCalendarInterval`: one dictionary, or an array of
/// them joined with `"; "`.
pub open spec fn calendar_part(d: Seq<(String, PlistValue)>) -> Seq<Seq<char>> {
    match dict_get(d, "StartCalendarInterval"@) {
        Some(PlistValue::Dictionary(c)) => seq![calendar_text(c.entries@)],
        Some(PlistValue::Array(a)) => {
            let each = calendar_texts(a@);
            if each.len() > 0 {
                seq![join(each, "; "@)]
            } else {
                Seq::<Seq<char>>::empty()
            }
        },
        _ => Seq::<Seq<char>>::empty(),
    }
}

/// The clause for a list of paths, when there is at least one.
pub open spec fn paths_part(paths: Option<Seq<Seq<char>>>, lead: Seq<char>) -> Seq<Seq<char>> {
    match paths {
        Some(p) => if p.len() > 0 {
            seq![lead + join(p, ", "@)]
        } else {
            Seq::<Seq<char>>::empty()
        },
        None => Seq::<Seq<char>>::empty(),
    }
}

/// `KeepAlive` is `true` or a dictionary of conditions.
pub open spec fn keeps_alive(v: Option<PlistValue>) -> bool {
    match v {
        Some(PlistValue::Boolean(b)) => b,
        Some(PlistValue::Dictionary(_)) => true,
        _ => false,
    }
}

/// A one-clause list when `b` holds.
pub open spec fn clause_if(b: bool, text: Seq<char>) -> Seq<Seq<char>> {
    if b {
        seq![text]
    } else {
        Seq::<Seq<char>>::empty()
    }
}

/// One clause per trigger key present, in a fixed order.
pub open spec fn schedule_parts(d: Seq<(String, PlistValue)>) -> Seq<Seq<char>> {
    clause_if(key_bool(d, "RunAtLoad"@) == Some(true), "At login/boot"@) + match key_int(
        d,
        "StartInterval"@,
    ) {
        Some(iv) => seq!["Every "@ + duration_text(iv as int)],
        None => Seq::<Seq<char>>::empty(),
    } + calendar_part(d) + paths_part(key_strings(d, "WatchPaths"@), "When path changes: "@)
        + paths_part(key_strings(d, "QueueDirectories"@), "When files queued in: "@) + clause_if(
        key_bool(d, "StartOnMount"@) == Some(true),
        "On volume mount"@,
    ) + clause_if(keeps_alive(dict_get(d, "KeepAlive"@)), "Kept running (restarted if it exits)"@)
}

/// A plist's schedule keys as one sentence: the clauses joined with `" · "`,
/// or `"On demand / manual"` when there is no trigger at all.
pub open spec fn schedule_text(d: Seq<(String, PlistValue)>) -> Seq<char> {
    if schedule_parts(d).len() == 0 {
        "On demand / manual"@
    } else {
        join(schedule_parts(d), " · "@)
    }
}

/// The characters of each piece.
pub open spec fn pieces_chars(v: Seq<Vec<char>>) -> Seq<Seq<char>> {
    v.map_values(|p: Vec<char>| p@)
}

fn push_piece(parts: &mut Vec<Vec<char>>, p: Vec<char>)
    ensures
        pieces_chars(final(parts)@) == pieces_chars(old(parts)@).push(p@),
{
    parts.push(p);
    assert(pieces_chars(parts@) =~= pieces_chars(old(parts)@).push(p@));
}

fn calendar_list(items: &Vec<PlistValue>) -> (r: Vec<Vec<char>>)
    ensures
        pieces_chars(r@) == calendar_texts(items@),
{
    let mut out: Vec<Vec<char>> = Vec::new();
    for i in 0..items.len()
        invariant
            pieces_chars(out@) == calendar_texts(items@.take(i as int)),
    {
        assert(items@.take(i + 1).drop_last() =~= items@.take(i as int));
        assert(items@.take(i + 1).last() == items@[i as int]);
        match &items[i] {
            PlistValue::Dictionary(c) => {
                let t = calendar_chars(c);
                push_piece(&mut out, t);
            },
            _ => {},
        }
    }
    assert(items@.take(items.len() as int) =~= items@);
    out
}

fn paths_clause(parts: &mut Vec<Vec<char>>, paths: Option<Vec<String>>, lead: &str)
    ensures
        pieces_chars(final(parts)@) == pieces_chars(old(parts)@) + paths_part(
            match paths {
                Some(p) => Some(p@.map_values(|s: String| s@)),
                None => None,
            },
            lead@,
        ),
{
    match paths {
        Some(p) => {
            if p.len() > 0 {
                let mut pieces: Vec<Vec<char>> = Vec::new();
                for i in 0..p.len()
                    invariant
                        pieces_chars(pieces@) == p@.map_values(|s: String| s@).take(i as int),
                {
                    let c = chars_of(p[i].as_str());
                    push_piece(&mut pieces, c);
                    assert(p@.map_values(|s: String| s@).take(i + 1) =~= p@.map_values(
                        |s: String| s@,
                    ).take(i as int).push(p@[i as int]@));
                }
                assert(p@.map_values(|s: String| s@).take(p.len() as int) =~= p@.map_values(
                    |s: String| s@,
                ));
                let mut line = chars_of(lead);
                let joined = join_chars(&pieces, ", ");
                extend(&mut line, &joined);
                push_piece(parts, line);
            } else {
                assert(pieces_chars(parts@) =~= pieces_chars(parts@) + Seq::<Seq<char>>::empty());
            }
        },
        None => {
            assert(pieces_chars(parts@) =~= pieces_chars(parts@) + Seq::<Seq<char>>::empty());
        },
    }
}

fn clause_when(parts: &mut Vec<Vec<char>>, b: bool, text: &str)
    ensures
        pieces_chars(final(parts)@) == pieces_chars(old(parts)@) + clause_if(b, text@),
{
    if b {
        let t = chars_of(text);
        push_piece(parts, t);
        assert(pieces_chars(old(parts)@).push(text@) =~= pieces_chars(old(parts)@) + seq![text@]);
    } else {
        assert(pieces_chars(parts@) =~= pieces_chars(parts@) + Seq::<Seq<char>>::empty());
    }
}

/// Render a plist's schedule keys as one plain-English sentence.
///
/// A job can carry several triggers at once, so each recognised key
/// contributes a clause and the clauses are joined with `·`.
pub fn decode_launchd_schedule(dict: &Dictionary) -> (r: String)
    ensures
        r@ == schedule_text(dict.entries@),
{
    let ghost d = dict.entries@;
    let mut parts: Vec<Vec<char>> = Vec::new();
    assert(pieces_chars(parts@) =~= Seq::<Seq<char>>::empty());

    let run_at_load = match dict.get_bool("RunAtLoad") {
        Some(b) => b,
        None => false,
    };
    clause_when(&mut parts, run_at_load, "At login/boot");
    let ghost p1 = pieces_chars(parts@);

    match dict.get_int("StartInterval") {
        Some(iv) => {
            let mut t = chars_of("Every ");
            let dur = human_duration(iv);
            extend_str(&mut t, dur.as_str());
            push_piece(&mut parts, t);
            assert(p1.push("Every "@ + duration_text(iv as int)) =~= p1 + seq!["Every "@ + duration_text(iv as int)]);
        },
        None => {
            assert(p1 =~= p1 + Seq::<Seq<char>>::empty());
        },
    }
    let ghost p2 = pieces_chars(parts@);

    match dict.get("StartCalendarInterval") {
        Some(PlistValue::Dictionary(c)) => {
            let t = calendar_chars(c);
            push_piece(&mut parts, t);
            assert(p2.push(t@) =~= p2 + seq![t@]);
        },
        Some(PlistValue::Array(arr)) => {
            let each = calendar_list(arr);
            if each.len() > 0 {
                let t = join_chars(&each, "; ");
                push_piece(&mut parts, t);
                assert(p2.push(t@) =~= p2 + seq![t@]);
            } else {
                assert(p2 =~= p2 + Seq::<Seq<char>>::empty());
            }
        },
        _ => {
            assert(p2 =~= p2 + Seq::<Seq<char>>::empty());
        },
    }
    assert(pieces_chars(parts@) == p2 + calendar_part(d));

    let watch = dict.get_strings("WatchPaths");
    paths_clause(&mut parts, watch, "When path changes: ");
    let queue = dict.get_strings("QueueDirectories");
    paths_clause(&mut parts, queue, "When files queued in: ");

    let on_mount = match dict.get_bool("StartOnMount") {
        Some(b) => b,
        None => false,
    };
    clause_when(&mut parts, on_mount, "On volume mount");

    let keep_alive = match dict.get("KeepAlive") {
        Some(PlistValue::Boolean(b)) => *b,
        Some(PlistValue::Dictionary(_)) => true,
        _ => false,
    };
    clause_when(&mut parts, keep_alive, "Kept running (restarted if it exits)");

    assert(pieces_chars(parts@) =~= schedule_parts(d));
    if parts.len() == 0 {
        string_from("On demand / manual")
    } else {
        let joined = join_chars(&parts, " · ");
        string_of(&joined)
    }
}


// ---------------------------------------------------------------------------
// What launchctl reports
// ---------------------------------------------------------------------------

/// What `launchctl list` says of one job: its pid and last exit status.
pub type Runtime = (Option<i64>, Option<i64>);

/// The entry one `launchctl list` row describes: tab-separated pid, status
/// and label, where `-` (or anything else that is not a number) means none.
pub open spec fn runtime_row(line: Seq<char>) -> Option<(Seq<char>, Runtime)> {
    let cols = splitn(line, 3, Sep::Char('\t'));
    if cols.len() < 3 {
        None
    } else {
        let label = trim(cols[2]);
        if label.len() == 0 {
            None
        } else {
            Some((label, (parse_i64(trim(cols[0])), parse_i64(trim(cols[1])))))
        }
    }
}

/// The rows of `lines`, each recorded in turn, a later row for a label
/// replacing an earlier one.
pub open spec fn runtime_rows(lines: Seq<Seq<char>>) -> Map<Seq<char>, Runtime>
    decreases lines.len(),
{
    if lines.len() == 0 {
        Map::empty()
    } else {
        let before = runtime_rows(lines.drop_last());
        match runtime_row(lines.last()) {
            Some((label, rt)) => before.insert(label, rt),
            None => before,
        }
    }
}

/// All lines of `text` but the first.
pub open spec fn after_header(lines: Seq<Seq<char>>) -> Seq<Seq<char>> {
    if lines.len() == 0 {
        lines
    } else {
        lines.drop_first()
    }
}

/// What the output of `launchctl list` records, below its header row.
pub open spec fn runtime_table(text: Seq<char>) -> Map<Seq<char>, Runtime> {
    runtime_rows(after_header(split_lines(text)))
}

/// Parse the output of `launchctl list` into `label => (pid, last exit)`.
///
/// Presence of a label at all is what says a job is loaded.
pub fn parse_launchctl_list(text: &str) -> (r: crate::table::LabelMap<Runtime>)
    ensures
        r.view() == runtime_table(text@),
{
    let t = chars_of(text);
    let lines = lines_of(&t);
    let ghost ls = lines@.map_values(|v: Vec<char>| v@);
    let mut map: crate::table::LabelMap<Runtime> = crate::table::LabelMap::new();
    if lines.len() == 0 {
        return map;
    }
    let ghost body = ls.drop_first();
    assert(runtime_rows(body.take(0)) =~= map.view());
    for i in 1..lines.len()
        invariant
            ls == lines@.map_values(|v: Vec<char>| v@),
            body == ls.drop_first(),
            lines.len() >= 1,
            map.view() == runtime_rows(body.take(i - 1)),
    {
        assert(body.take(i as int).drop_last() =~= body.take(i - 1));
        assert(body.take(i as int).last() == lines@[i as int]@);
        let cols = splitn_chars(&lines[i], 3, Sep::Char('\t'));
        assert(cols@.map_values(|v: Vec<char>| v@).len() == cols.len());
        if cols.len() >= 3 {
            assert(cols@.map_values(|v: Vec<char>| v@)[2] == cols@[2]@);
            assert(cols@.map_values(|v: Vec<char>| v@)[0] == cols@[0]@);
            assert(cols@.map_values(|v: Vec<char>| v@)[1] == cols@[1]@);
            let label = trim_chars(&cols[2]);
            if label.len() > 0 {
                let pid = parse_i64_chars(&trim_chars(&cols[0]));
                let status = parse_i64_chars(&trim_chars(&cols[1]));
                map.insert(string_of(&label), (pid, status));
            }
        }
    }
    assert(body.take(lines.len() - 1) =~= body);
    map
}

/// The entry one `launchctl print-disabled` line records: a quoted label, `=>`,
/// and `disabled`/`true` (switched off) or `enabled`/`false` (switched on).
pub open spec fn disabled_row(line: Seq<char>) -> Option<(Seq<char>, bool)> {
    match split_once(line, "=>"@) {
        Some((lhs, rhs)) => {
            let label = strip_char(trim(lhs), '"');
            let word = trim(rhs);
            if label.len() == 0 {
                None
            } else if word == "disabled"@ || word == "true"@ {
                Some((label, true))
            } else if word == "enabled"@ || word == "false"@ {
                Some((label, false))
            } else {
                None
            }
        },
        None => None,
    }
}

/// The rows of `lines`, each recorded in turn.
pub open spec fn disabled_rows(lines: Seq<Seq<char>>) -> Map<Seq<char>, bool>
    decreases lines.len(),
{
    if lines.len() == 0 {
        Map::empty()
    } else {
        let before = disabled_rows(lines.drop_last());
        match disabled_row(lines.last()) {
            Some((label, off)) => before.insert(label, off),
            None => before,
        }
    }
}

/// What the output of `launchctl print-disabled` records.
pub open spec fn disabled_table(text: Seq<char>) -> Map<Seq<char>, bool> {
    disabled_rows(split_lines(text))
}

/// Parse the body of `launchctl print-disabled` into `label => is disabled`.
///
/// Both spellings are accepted (`disabled`/`enabled` and the older
/// `true`/`false`); any other right-hand side is skipped.
pub fn parse_disabled_text(text: &str) -> (r: crate::table::LabelMap<bool>)
    ensures
        r.view() == disabled_table(text@),
{
    let t = chars_of(text);
    let lines = lines_of(&t);
    let ghost ls = lines@.map_values(|v: Vec<char>| v@);
    let mut map: crate::table::LabelMap<bool> = crate::table::LabelMap::new();
    assert(disabled_rows(ls.take(0)) =~= map.view());
    for i in 0..lines.len()
        invariant
            ls == lines@.map_values(|v: Vec<char>| v@),
            map.view() == disabled_rows(ls.take(i as int)),
    {
        assert(ls.take(i + 1).drop_last() =~= ls.take(i as int));
        assert(ls.take(i + 1).last() == lines@[i as int]@);
        match split_once_chars(&lines[i], "=>") {
            Some((lhs, rhs)) => {
                let label = strip_char_chars(&trim_chars(&lhs), '"');
                let word = trim_chars(&rhs);
                if label.len() > 0 {
                    if crate::text::eq_str(&word, "disabled") || crate::text::eq_str(&word, "true") {
                        map.insert(string_of(&label), true);
                    } else if crate::text::eq_str(&word, "enabled") || crate::text::eq_str(&word, "false") {
                        map.insert(string_of(&label), false);
                    }
                }
            },
            None => {},
        }
    }
    assert(ls.take(lines.len() as int) =~= ls);
    map
}


// ---------------------------------------------------------------------------
// Jobs
// ---------------------------------------------------------------------------

/// Every directory launchd loads job definitions from, in display order.
///
/// These five paths are fixed by macOS; the first is relative to the home
/// directory.
pub fn launchd_domains() -> (r: Vec<Domain>)
    ensures
        r@.len() == 5,
        r@[0].dir@ == "Library/LaunchAgents"@ && r@[0].scope == Scope::User && r@[0].group@
            == "User Agents"@ && r@[0].home && !r@[0].daemon,
        r@[1].dir@ == "/Library/LaunchAgents"@ && r@[1].scope == Scope::Global && r@[1].group@
            == "Global Agents"@ && !r@[1].home && !r@[1].daemon,
        r@[2].dir@ == "/Library/LaunchDaemons"@ && r@[2].scope == Scope::System && r@[2].group@
            == "System Daemons"@ && !r@[2].home && r@[2].daemon,
        r@[3].dir@ == "/System/Library/LaunchAgents"@ && r@[3].scope == Scope::Apple && r@[3].group@
            == "Apple Agents"@ && !r@[3].home && !r@[3].daemon,
        r@[4].dir@ == "/System/Library/LaunchDaemons"@ && r@[4].scope == Scope::Apple && r@[4].group@
            == "Apple Daemons"@ && !r@[4].home && r@[4].daemon,
{
    let mut v: Vec<Domain> = Vec::new();
    v.push(Domain { dir: "Library/LaunchAgents", scope: Scope::User, group: "User Agents", home: true, daemon: false });
    v.push(Domain { dir: "/Library/LaunchAgents", scope: Scope::Global, group: "Global Agents", home: false, daemon: false });
    v.push(Domain { dir: "/Library/LaunchDaemons", scope: Scope::System, group: "System Daemons", home: false, daemon: true });
    v.push(Domain { dir: "/System/Library/LaunchAgents", scope: Scope::Apple, group: "Apple Agents", home: false, daemon: false });
    v.push(Domain { dir: "/System/Library/LaunchDaemons", scope: Scope::Apple, group: "Apple Daemons", home: false, daemon: true });
    v
}

/// A plist's label: its `Label` key, else the file name without extension,
/// else `"?"`, as launchd itself falls back.
pub open spec fn plist_label(path: Seq<char>, e: Seq<(String, PlistValue)>) -> Seq<char> {
    match key_string(e, "Label"@) {
        Some(l) => l,
        None => match file_stem(path) {
            Some(st) => st,
            None => "?"@,
        },
    }
}

/// The arguments in `ProgramArguments`.
pub open spec fn plist_args(e: Seq<(String, PlistValue)>) -> Seq<Seq<char>> {
    match key_strings(e, "ProgramArguments"@) {
        Some(a) => a,
        None => Seq::<Seq<char>>::empty(),
    }
}

/// The executable: `Program`, else the first argument, else empty.
pub open spec fn plist_program(e: Seq<(String, PlistValue)>) -> Seq<char> {
    match key_string(e, "Program"@) {
        Some(p) => p,
        None => if plist_args(e).len() > 0 {
            plist_args(e)[0]
        } else {
            Seq::<char>::empty()
        },
    }
}

/// A job's scope: Apple whenever its label is Apple's, wherever it was found.
pub open spec fn plist_scope(label: Seq<char>, d: Domain) -> Scope {
    if apple_prefix().is_prefix_of(label) {
        Scope::Apple
    } else {
        d.scope
    }
}

/// The launchd facts about `label` gathered from the plist and `launchctl`.
pub open spec fn plist_state(
    label: Seq<char>,
    e: Seq<(String, PlistValue)>,
    runtime: Map<Seq<char>, Runtime>,
    disabled: Map<Seq<char>, bool>,
) -> LaunchdState {
    LaunchdState {
        disabled_key: key_bool(e, "Disabled"@) == Some(true),
        disabled_override: if disabled.contains_key(label) {
            Some(disabled[label])
        } else {
            None
        },
        loaded: runtime.contains_key(label),
        pid: if runtime.contains_key(label) {
            runtime[label].0
        } else {
            None
        },
        last_exit: if runtime.contains_key(label) {
            runtime[label].1
        } else {
            None
        },
    }
}

/// The job a plist at `path` in domain `d` describes, when it is a dictionary.
pub open spec fn plist_job(
    path: Seq<char>,
    d: Domain,
    runtime: Map<Seq<char>, Runtime>,
    disabled: Map<Seq<char>, bool>,
    value: PlistValue,
) -> Option<JobView> {
    match value {
        PlistValue::Dictionary(dict) => {
            let e = dict.entries@;
            let label = plist_label(path, e);
            let scope = plist_scope(label, d);
            Some(
                JobView {
                    label,
                    kind: "launchd"@,
                    scope,
                    source_path: path,
                    source_group: d.group@,
                    program: plist_program(e),
                    args: plist_args(e),
                    schedule_human: schedule_text(e),
                    stdout_path: key_string(e, "StandardOutPath"@),
                    stderr_path: key_string(e, "StandardErrorPath"@),
                    status: status_of(plist_state(label, e, runtime, disabled)),
                    permissions: Permissions {
                        toggle: permission_of(label, path, scope, Action::Toggle),
                        delete: permission_of(label, path, scope, Action::Delete),
                    },
                },
            )
        },
        _ => None,
    }
}

/// The job a plist file at `path` with contents `bytes` describes: `None`
/// when the bytes do not read as a plist, or it is not a dictionary.
pub open spec fn plist_file_job(
    path: Seq<char>,
    bytes: Seq<u8>,
    d: Domain,
    runtime: Map<Seq<char>, Runtime>,
    disabled: Map<Seq<char>, bool>,
) -> Option<JobView> {
    match plist_of_bytes(bytes) {
        Some(v) => plist_job(path, d, runtime, disabled, v),
        None => None,
    }
}

/// Read one `.plist` file's contents into a [`Job`].
///
/// `runtime` is what `launchctl list` reported and `disabled_db` the disabled
/// database of the domain the file was found in. `None` when the bytes are
/// not a readable plist, or hold no dictionary at the top level.
pub fn parse_launchd_plist(
    path: &str,
    d: &Domain,
    runtime: &LabelMap<Runtime>,
    disabled_db: &LabelMap<bool>,
    bytes: &[u8],
) -> (r: Option<Job>)
    ensures
        match r {
            Some(j) => plist_file_job(path@, bytes@, *d, runtime.view(), disabled_db.view()) == Some(j@),
            None => plist_file_job(path@, bytes@, *d, runtime.view(), disabled_db.view()) is None,
        },
{
    match parse_plist_bytes(bytes) {
        Some(v) => job_of_plist(path, d, runtime, disabled_db, &v),
        None => None,
    }
}

/// Turn one parsed plist into a [`Job`].
///
/// `None` when the plist is not a dictionary at the top level.
pub fn job_of_plist(
    path: &str,
    d: &Domain,
    runtime: &LabelMap<Runtime>,
    disabled_db: &LabelMap<bool>,
    value: &PlistValue,
) -> (r: Option<Job>)
    ensures
        match r {
            Some(j) => plist_job(path@, *d, runtime.view(), disabled_db.view(), *value) == Some(j@),
            None => plist_job(path@, *d, runtime.view(), disabled_db.view(), *value) is None,
        },
{
    let dict = match value {
        PlistValue::Dictionary(dict) => dict,
        _ => return None,
    };
    let label = match dict.get_string("Label") {
        Some(l) => l,
        None => {
            let p = chars_of(path);
            match crate::paths::file_stem_of(&p) {
                Some(st) => string_of(&st),
                None => string_from("?"),
            }
        },
    };
    let apple = starts_with(&chars_of(label.as_str()), &chars_of("com.apple."));
    let scope = if apple {
        Scope::Apple
    } else {
        d.scope
    };

    let args: Vec<String> = match dict.get_strings("ProgramArguments") {
        Some(a) => a,
        None => Vec::new(),
    };
    assert(args@.map_values(|s: String| s@) =~= plist_args(dict.entries@));
    let program = match dict.get_string("Program") {
        Some(p) => p,
        None => if args.len() > 0 {
            assert(args@.map_values(|s: String| s@)[0] == args@[0]@);
            args[0].clone()
        } else {
            String::new()
        },
    };

    let disabled_key = match dict.get_bool("Disabled") {
        Some(b) => b,
        None => false,
    };
    let stdout_path = dict.get_string("StandardOutPath");
    let stderr_path = dict.get_string("StandardErrorPath");

    let (pid, last_exit) = match runtime.get(label.as_str()) {
        Some(rt) => *rt,
        None => (None, None),
    };
    let loaded = runtime.contains_key(label.as_str());
    let disabled_override = match disabled_db.get(label.as_str()) {
        Some(b) => Some(*b),
        None => None,
    };
    let state = LaunchdState { disabled_key, disabled_override, loaded, pid, last_exit };
    let status = state.status();
    let permissions = launchd_permissions(label.as_str(), path, scope);
    let schedule_human = decode_launchd_schedule(dict);
    let job = Job {
        label,
        kind: string_from("launchd"),
        scope,
        source_path: string_from(path),
        source_group: string_from(d.group),
        program,
        args,
        schedule_human,
        stdout_path,
        stderr_path,
        status,
        permissions,
    };
    proof {
        let e = dict.entries@;
        assert(job@.stdout_path == key_string(e, "StandardOutPath"@));
        assert(job@.stderr_path == key_string(e, "StandardErrorPath"@));
        assert(state == plist_state(job.label@, e, runtime.view(), disabled_db.view()));
        assert(job@.args == plist_args(e));
    }
    Some(job)
}

/// A file found in one of the launchd directories, with its bytes when it
/// could be read.
pub struct PlistFile {
    pub path: String,
    pub bytes: Option<Vec<u8>>,
}

/// The files found in one launchd directory.
pub struct DomainScan {
    pub domain: Domain,
    pub files: Vec<PlistFile>,
}

/// The jobs among the files of one directory: every `.plist` that could be
/// read, reads as a plist and holds a dictionary, in directory order.
pub open spec fn scan_jobs(
    files: Seq<PlistFile>,
    d: Domain,
    runtime: Map<Seq<char>, Runtime>,
    disabled: Map<Seq<char>, bool>,
) -> Seq<JobView>
    decreases files.len(),
{
    if files.len() == 0 {
        Seq::<JobView>::empty()
    } else {
        let before = scan_jobs(files.drop_last(), d, runtime, disabled);
        let f = files.last();
        if crate::paths::extension(f.path@) == Some("plist"@) {
            match f.bytes {
                Some(b) => match plist_file_job(f.path@, b@, d, runtime, disabled) {
                    Some(j) => before.push(j),
                    None => before,
                },
                None => before,
            }
        } else {
            before
        }
    }
}

/// The jobs of every directory in order, each looked up in the disabled
/// database of its own launchd domain.
pub open spec fn listing_jobs(
    scans: Seq<DomainScan>,
    runtime: Map<Seq<char>, Runtime>,
    disabled_gui: Map<Seq<char>, bool>,
    disabled_sys: Map<Seq<char>, bool>,
) -> Seq<JobView>
    decreases scans.len(),
{
    if scans.len() == 0 {
        Seq::<JobView>::empty()
    } else {
        let sc = scans.last();
        listing_jobs(scans.drop_last(), runtime, disabled_gui, disabled_sys) + scan_jobs(
            sc.files@,
            sc.domain,
            runtime,
            if sc.domain.daemon {
                disabled_sys
            } else {
                disabled_gui
            },
        )
    }
}

/// Every launchd job across the scanned directories.
///
/// The two `launchctl` answers are gathered once by the caller and shared by
/// every file. Unreadable, unparsable or non-dictionary plists are skipped.
pub fn list_launchd_jobs(
    scans: &Vec<DomainScan>,
    runtime: &LabelMap<Runtime>,
    disabled_gui: &LabelMap<bool>,
    disabled_sys: &LabelMap<bool>,
) -> (r: Vec<Job>)
    ensures
        jobs_view(r@) == listing_jobs(scans@, runtime.view(), disabled_gui.view(), disabled_sys.view()),
{
    let mut jobs: Vec<Job> = Vec::new();
    for i in 0..scans.len()
        invariant
            jobs_view(jobs@) == listing_jobs(
                scans@.take(i as int),
                runtime.view(),
                disabled_gui.view(),
                disabled_sys.view(),
            ),
    {
        assert(scans@.take(i + 1).drop_last() =~= scans@.take(i as int));
        assert(scans@.take(i + 1).last() == scans@[i as int]);
        let sc = &scans[i];
        let db = if sc.domain.daemon {
            disabled_sys
        } else {
            disabled_gui
        };
        let ghost start = jobs_view(jobs@);
        for k in 0..sc.files.len()
            invariant
                db.view() == (if sc.domain.daemon {
                    disabled_sys.view()
                } else {
                    disabled_gui.view()
                }),
                jobs_view(jobs@) == start + scan_jobs(sc.files@.take(k as int), sc.domain, runtime.view(), db.view()),
        {
            let f = &sc.files[k];
            assert(sc.files@.take(k + 1).drop_last() =~= sc.files@.take(k as int));
            assert(sc.files@.take(k + 1).last() == sc.files@[k as int]);
            let ghost before = jobs_view(jobs@);
            if crate::paths::is_plist_path(f.path.as_str()) {
                match &f.bytes {
                    Some(b) => match parse_launchd_plist(f.path.as_str(), &sc.domain, runtime, db, b.as_slice()) {
                        Some(j) => {
                            jobs.push(j);
                            assert(jobs_view(jobs@) =~= before.push(j@));
                        },
                        None => {},
                    },
                    None => {},
                }
            }
        }
        assert(sc.files@.take(sc.files.len() as int) =~= sc.files@);
    }
    assert(scans@.take(scans.len() as int) =~= scans@);
    jobs
}

} // verus!
