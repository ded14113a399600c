//! Properties that hold across the library's functions, proved over the
//! spec functions their contracts are written in.

use vstd::prelude::*;

use crate::actions::{
    applescript_escaped, applescript_of, chain, direct_error, direct_run, direct_steps_run, guard_of, is_list, quote_body, reads_as_built, script_of, shell_quoted,
    delete_steps, privileged_error, shell_run, shell_text, step_command, succeeded, toggle_run, toggle_steps, StepOutcome,
};
use crate::policy::{
    apple_prefix, is_disabled, permission_of, refusal_message, refusal_of, status_of, LaunchdState, Permission,
    Refusal, Status,
};
use crate::cron::{cron_job, cron_jobs, cron_jobs_of, cron_refused, cron_text};
use crate::launchd::{
    disabled_row, disabled_rows, disabled_table, plist_job, scan_jobs, schedule_parts, schedule_text, PlistFile, Runtime,
};
use crate::paths::short_source_of;
use crate::plist::{dict_get, plist_of_bytes, strings_in, Dictionary, PlistValue};
use crate::text::{decimal, digit_char, first_word, join, nat_digits, split_lines, splitn, trim, Sep};
use crate::types::{scope_name, weekday_text, Action, Domain, Scope};

verus! {

/// What the UI is told about a launchd job is what the actions do with it.
///
/// A change is refused exactly when the permission for it says `Refused`, and
/// with that reason's message; when it is not refused, a toggle runs with
/// administrator rights exactly when the toggle permission says `NeedsAdmin`
/// (the scope is `"system"`), and a delete exactly when the delete permission
/// says so (the scope is anything but `"user"`).
pub proof fn law_permissions_match_actions(label: Seq<char>, path: Seq<char>, scope: Scope)
    ensures
        guard_of(label, path, scope_name(scope)) == match refusal_of(label, path, scope) {
            Some(r) => Some(refusal_message(r)),
            None => None,
        },
        forall|a: Action| (#[trigger] permission_of(label, path, scope, a) is Refused) == (guard_of(
            label,
            path,
            scope_name(scope),
        ) is Some),
        (permission_of(label, path, scope, Action::Toggle) == Permission::NeedsAdmin) == (guard_of(
            label,
            path,
            scope_name(scope),
        ) is None && scope_name(scope) == "system"@),
        (permission_of(label, path, scope, Action::Delete) == Permission::NeedsAdmin) == (guard_of(
            label,
            path,
            scope_name(scope),
        ) is None && scope_name(scope) != "user"@),
{
    reveal_strlit("user");
    reveal_strlit("global");
    reveal_strlit("system");
    reveal_strlit("apple");
    let n = scope_name(scope);
    assert(n.len() > 0);
    assert(n[0] == 'u' <==> scope == Scope::User);
    assert(n[0] == 's' <==> scope == Scope::System);
    assert(n[0] == 'a' <==> scope == Scope::Apple);
    assert(("apple"@)[0] == 'a' && ("system"@)[0] == 's' && ("user"@)[0] == 'u');
    assert(n == "apple"@ <==> scope == Scope::Apple);
    assert(n == "system"@ <==> scope == Scope::System);
    assert(n == "user"@ <==> scope == Scope::User);
}

/// launchd's disabled database decides whether a job is off whenever it has
/// an entry, and a job that is off shows as disabled even while it still
/// has a pid.
pub proof fn law_disabled_database_wins(st: LaunchdState)
    ensures
        st.disabled_override == Some(true) ==> status_of(st) == Status::Disabled,
        st.disabled_override == Some(false) ==> status_of(st) != Status::Disabled,
        st.disabled_override is None ==> ((status_of(st) == Status::Disabled) == st.disabled_key),
        !is_disabled(st) && st.pid is Some ==> status_of(st) == (Status::Running { pid: st.pid->0 }),
{
}

/// An Apple label is refused for every action, wherever the job lives, and
/// Apple is reported before the sealed volume.
pub proof fn law_apple_always_refused(label: Seq<char>, path: Seq<char>, scope: Scope, a: Action)
    requires
        apple_prefix().is_prefix_of(label) || scope == Scope::Apple,
    ensures
        permission_of(label, path, scope, a) == (Permission::Refused { reason: Refusal::Apple }),
{
}

/// Weekday numbers wrap modulo 7: 0 and 7 are both Sunday, and adding a
/// week names the same day.
pub proof fn law_weekday_wraps(w: int)
    ensures
        weekday_text(w) == weekday_text(w + 7),
        weekday_text(0) == "Sunday"@,
        weekday_text(7) == "Sunday"@,
{
    assert((w + 7) % 7 == w % 7);
}

/// The text a shell reads from a word, starting inside single quotes, where
/// every character but `'` stands for itself.
pub open spec fn read_quoted(q: Seq<char>) -> Seq<char>
    decreases q.len(), 1nat,
{
    if q.len() == 0 {
        Seq::<char>::empty()
    } else if q[0] == '\'' {
        read_bare(q.drop_first())
    } else {
        seq![q[0]] + read_quoted(q.drop_first())
    }
}

/// The text a shell reads from a word outside quotes, where `'` opens a
/// quoted run and `\` makes the next character stand for itself.
pub open spec fn read_bare(q: Seq<char>) -> Seq<char>
    decreases q.len(), 0nat,
{
    if q.len() == 0 {
        Seq::<char>::empty()
    } else if q[0] == '\'' {
        read_quoted(q.drop_first())
    } else if q[0] == '\\' && q.len() > 1 {
        seq![q[1]] + read_bare(q.subrange(2, q.len() as int))
    } else {
        seq![q[0]] + read_bare(q.drop_first())
    }
}

proof fn lemma_read_quoted_body(s: Seq<char>, t: Seq<char>)
    ensures
        read_quoted(quote_body(s) + t) == s + read_quoted(t),
    decreases s.len(),
{
    if s.len() == 0 {
        assert(quote_body(s) + t =~= t);
        assert(s + read_quoted(t) =~= read_quoted(t));
    } else {
        let c = s.last();
        let piece = if c == '\'' {
            seq!['\'', '\\', '\'', '\'']
        } else {
            seq![c]
        };
        assert(quote_body(s) + t =~= quote_body(s.drop_last()) + (piece + t));
        lemma_read_quoted_body(s.drop_last(), piece + t);
        if c == '\'' {
            let q = piece + t;
            assert(q[0] == '\'');
            assert(q.drop_first() =~= seq!['\\', '\'', '\''] + t);
            let r = q.drop_first();
            assert(r[0] == '\\' && r.len() > 1 && r[1] == '\'');
            assert(r.subrange(2, r.len() as int) =~= seq!['\''] + t);
            let u = seq!['\''] + t;
            assert(u.drop_first() =~= t);
            assert(read_bare(u) == read_quoted(t));
            assert(read_bare(r) == seq!['\''] + read_bare(u));
            assert(read_quoted(q) == read_bare(r));
            assert(read_quoted(q) == seq!['\''] + read_quoted(t));
        } else {
            let q = piece + t;
            assert(q.drop_first() =~= t);
        }
        assert(s.drop_last() + (seq![c] + read_quoted(t)) =~= s + read_quoted(t));
    }
}

/// A shell reads back exactly the text [`crate::actions::shell_quote`]
/// quoted: single quotes leave nothing to expansion.
pub proof fn law_shell_quote_round_trip(s: Seq<char>)
    ensures
        read_bare(shell_quoted(s)) == s,
{
    let q = shell_quoted(s);
    assert(q.drop_first() =~= quote_body(s) + seq!['\'']);
    lemma_read_quoted_body(s, seq!['\'']);
    assert(seq!['\''].drop_first() =~= Seq::<char>::empty());
    assert(read_quoted(seq!['\'']) == read_bare(Seq::<char>::empty()));
    assert(q[0] == '\'');
    assert(read_bare(q) == read_quoted(q.drop_first()));
    assert(s + Seq::<char>::empty() =~= s);
}

/// The text AppleScript reads from the body of a string literal: `\x`
/// stands for `x`.
pub open spec fn read_applescript(q: Seq<char>) -> Seq<char>
    decreases q.len(),
{
    if q.len() == 0 {
        Seq::<char>::empty()
    } else if q[0] == '\\' && q.len() > 1 {
        seq![q[1]] + read_applescript(q.subrange(2, q.len() as int))
    } else {
        seq![q[0]] + read_applescript(q.drop_first())
    }
}

proof fn lemma_read_applescript(s: Seq<char>, t: Seq<char>)
    ensures
        read_applescript(applescript_escaped(s) + t) == s + read_applescript(t),
    decreases s.len(),
{
    if s.len() == 0 {
        assert(applescript_escaped(s) + t =~= t);
        assert(s + read_applescript(t) =~= read_applescript(t));
    } else {
        let c = s.last();
        let piece = if c == '\\' {
            seq!['\\', '\\']
        } else if c == '"' {
            seq!['\\', '"']
        } else {
            seq![c]
        };
        assert(applescript_escaped(s) + t =~= applescript_escaped(s.drop_last()) + (piece + t));
        lemma_read_applescript(s.drop_last(), piece + t);
        let q = piece + t;
        if c == '\\' || c == '"' {
            assert(q[0] == '\\' && q.len() > 1 && q[1] == c);
            assert(q.subrange(2, q.len() as int) =~= t);
        } else {
            assert(q.drop_first() =~= t);
        }
        assert(s.drop_last() + (seq![c] + read_applescript(t)) =~= s + read_applescript(t));
    }
}

/// AppleScript reads back exactly the shell script that
/// [`crate::actions::privileged_applescript`] embeds: the escaping loses
/// nothing, and the literal ends where the script does.
pub proof fn law_applescript_round_trip(script: Seq<char>)
    ensures
        read_applescript(applescript_escaped(script)) == script,
        applescript_of(script) == "do shell script \""@ + applescript_escaped(script)
            + "\" with administrator privileges"@,
{
    lemma_read_applescript(script, Seq::<char>::empty());
    assert(applescript_escaped(script) + Seq::<char>::empty() =~= applescript_escaped(script));
    assert(script + Seq::<char>::empty() =~= script);
}


proof fn lemma_digit_char_injective(a: int, b: int)
    requires
        0 <= a < 10,
        0 <= b < 10,
        digit_char(a) == digit_char(b),
    ensures
        a == b,
{
    assert(digit_char(a) as int == '0' as int + a);
    assert(digit_char(b) as int == '0' as int + b);
}

proof fn lemma_nat_digits_len(n: nat)
    ensures
        nat_digits(n).len() >= 1,
        n >= 10 ==> nat_digits(n).len() >= 2,
    decreases n,
{
    if n >= 10 {
        lemma_nat_digits_len(n / 10);
    }
}

proof fn lemma_nat_digits_injective(a: nat, b: nat)
    requires
        nat_digits(a) == nat_digits(b),
    ensures
        a == b,
    decreases a,
{
    lemma_nat_digits_len(a);
    lemma_nat_digits_len(b);
    if a < 10 && b < 10 {
        assert(nat_digits(a)[0] == digit_char(a as int));
        assert(nat_digits(b)[0] == digit_char(b as int));
        lemma_digit_char_injective(a as int, b as int);
    } else if a >= 10 && b >= 10 {
        assert(nat_digits(a).last() == digit_char((a % 10) as int));
        assert(nat_digits(b).last() == digit_char((b % 10) as int));
        lemma_digit_char_injective((a % 10) as int, (b % 10) as int);
        assert(nat_digits(a).drop_last() =~= nat_digits(a / 10));
        assert(nat_digits(b).drop_last() =~= nat_digits(b / 10));
        lemma_nat_digits_injective(a / 10, b / 10);
    } else {
        assert(nat_digits(a).len() != nat_digits(b).len());
    }
}

proof fn lemma_labels_differ(p: Seq<char>, a: int, b: int)
    requires
        1 <= a,
        1 <= b,
        a != b,
    ensures
        p + decimal(a) != p + decimal(b),
{
    if p + decimal(a) == p + decimal(b) {
        assert((p + decimal(a)).subrange(p.len() as int, (p + decimal(a)).len() as int) =~= decimal(a));
        assert((p + decimal(b)).subrange(p.len() as int, (p + decimal(b)).len() as int) =~= decimal(b));
        lemma_nat_digits_injective(a as nat, b as nat);
    }
}

/// The label prefix cron lines from `source` share.
pub open spec fn cron_label_prefix(source: Seq<char>) -> Seq<char> {
    short_source_of(source) + ":"@
}

proof fn lemma_cron_jobs_of_labels(lines: Seq<Seq<char>>, source: Seq<char>, has_user_field: bool)
    ensures
        forall|k: int|
            0 <= k < cron_jobs_of(lines, source, has_user_field).len() ==> exists|m: int|
                1 <= m <= lines.len() && (#[trigger] cron_jobs_of(lines, source, has_user_field)[k]).label
                    == cron_label_prefix(source) + decimal(m),
        forall|i: int, j: int|
            0 <= i < j < cron_jobs_of(lines, source, has_user_field).len() ==> (#[trigger] cron_jobs_of(
                lines,
                source,
                has_user_field,
            )[i]).label != (#[trigger] cron_jobs_of(lines, source, has_user_field)[j]).label,
        forall|k: int|
            0 <= k < cron_jobs_of(lines, source, has_user_field).len() ==> (#[trigger] cron_jobs_of(
                lines,
                source,
                has_user_field,
            )[k]).permissions == cron_refused() && cron_jobs_of(lines, source, has_user_field)[k].status
                == Status::Scheduled,
    decreases lines.len(),
{
    if lines.len() > 0 {
        let before = cron_jobs_of(lines.drop_last(), source, has_user_field);
        lemma_cron_jobs_of_labels(lines.drop_last(), source, has_user_field);
        let all = cron_jobs_of(lines, source, has_user_field);
        match cron_job(lines.len() - 1, lines.last(), source, has_user_field) {
            Some(j) => {
                assert(all == before.push(j));
                assert(j.label == cron_label_prefix(source) + decimal(lines.len() as int));
                assert forall|k: int| 0 <= k < all.len() implies exists|m: int|
                    1 <= m <= lines.len() && (#[trigger] all[k]).label == cron_label_prefix(source) + decimal(
                        m,
                    ) by {
                    if k < before.len() {
                        assert(all[k] == before[k]);
                        let m = choose|m: int|
                            1 <= m <= lines.drop_last().len() && before[k].label == cron_label_prefix(source)
                                + decimal(m);
                        assert(1 <= m <= lines.len() && all[k].label == cron_label_prefix(source) + decimal(m));
                    } else {
                        assert(all[k] == j);
                        assert(1 <= lines.len() <= lines.len() && all[k].label == cron_label_prefix(source) + decimal(
                            lines.len() as int,
                        ));
                    }
                }
                assert forall|a: int, b: int| 0 <= a < b < all.len() implies (#[trigger] all[a]).label != (
                #[trigger] all[b]).label by {
                    assert(all[a] == before[a]);
                    if b < before.len() {
                        assert(all[b] == before[b]);
                    } else {
                        assert(all[b] == j);
                        let m = choose|m: int|
                            1 <= m <= lines.drop_last().len() && before[a].label == cron_label_prefix(source)
                                + decimal(m);
                        lemma_labels_differ(cron_label_prefix(source), m, lines.len() as int);
                    }
                }
                assert forall|k: int| 0 <= k < all.len() implies (#[trigger] all[k]).permissions == cron_refused()
                    && all[k].status == Status::Scheduled by {
                    if k < before.len() {
                        assert(all[k] == before[k]);
                    }
                }
            },
            None => {
                assert forall|k: int| 0 <= k < all.len() implies exists|m: int|
                    1 <= m <= lines.len() && (#[trigger] all[k]).label == cron_label_prefix(source) + decimal(
                        m,
                    ) by {
                    let m = choose|m: int|
                        1 <= m <= lines.drop_last().len() && before[k].label == cron_label_prefix(source) + decimal(
                            m,
                        );
                    assert(1 <= m <= lines.len() && all[k].label == cron_label_prefix(source) + decimal(m));
                }
            },
        }
    }
}

/// Every job read from a crontab has a label of its own (the source's file
/// name and the line number), is reported as scheduled, and refuses both
/// actions: cron is read, never written.
pub proof fn law_cron_jobs(text: Seq<char>, source: Seq<char>, has_user_field: bool)
    ensures
        forall|i: int, j: int|
            0 <= i < j < cron_jobs(text, source, has_user_field).len() ==> (#[trigger] cron_jobs(
                text,
                source,
                has_user_field,
            )[i]).label != (#[trigger] cron_jobs(text, source, has_user_field)[j]).label,
        forall|k: int|
            0 <= k < cron_jobs(text, source, has_user_field).len() ==> (#[trigger] cron_jobs(
                text,
                source,
                has_user_field,
            )[k]).permissions == cron_refused() && cron_jobs(text, source, has_user_field)[k].status
                == Status::Scheduled,
{
    lemma_cron_jobs_of_labels(split_lines(text), source, has_user_field);
}

proof fn lemma_cron_jobs_of_lines(lines: Seq<Seq<char>>, source: Seq<char>, has_user_field: bool) -> (ns: Seq<int>)
    ensures
        ns.len() == cron_jobs_of(lines, source, has_user_field).len(),
        forall|i: int, j: int| 0 <= i < j < ns.len() ==> #[trigger] ns[i] < #[trigger] ns[j],
        forall|k: int|
            0 <= k < ns.len() ==> 0 <= #[trigger] ns[k] < lines.len() && cron_job(
                ns[k],
                lines[ns[k]],
                source,
                has_user_field,
            ) == Some(cron_jobs_of(lines, source, has_user_field)[k]),
        forall|m: int|
            0 <= m < lines.len() && (#[trigger] cron_job(m, lines[m], source, has_user_field)) is Some ==> exists|
                k: int,
            |
                0 <= k < ns.len() && #[trigger] ns[k] == m,
    decreases lines.len(),
{
    if lines.len() == 0 {
        Seq::<int>::empty()
    } else {
        let n = lines.len() - 1;
        let p = lines.drop_last();
        let ns0 = lemma_cron_jobs_of_lines(p, source, has_user_field);
        let before = cron_jobs_of(p, source, has_user_field);
        let all = cron_jobs_of(lines, source, has_user_field);
        assert forall|m: int| 0 <= m < n implies p[m] == lines[m] by {}
        match cron_job(n, lines.last(), source, has_user_field) {
            Some(j) => {
                let ns = ns0.push(n);
                assert(all == before.push(j));
                assert forall|k: int| 0 <= k < ns.len() implies 0 <= #[trigger] ns[k] < lines.len() && cron_job(
                    ns[k],
                    lines[ns[k]],
                    source,
                    has_user_field,
                ) == Some(all[k]) by {
                    if k < ns0.len() {
                        assert(ns[k] == ns0[k]);
                        assert(all[k] == before[k]);
                        assert(lines[ns0[k]] == p[ns0[k]]);
                    }
                }
                assert forall|m: int|
                    0 <= m < lines.len() && (#[trigger] cron_job(m, lines[m], source, has_user_field)) is Some implies exists|
                    k: int,
                |
                    0 <= k < ns.len() && #[trigger] ns[k] == m by {
                    if m < n {
                        assert(cron_job(m, p[m], source, has_user_field) is Some);
                        let k = choose|k: int| 0 <= k < ns0.len() && #[trigger] ns0[k] == m;
                        assert(ns[k] == m);
                    } else {
                        assert(ns[ns0.len() as int] == m);
                    }
                }
                ns
            },
            None => {
                assert(all == before);
                assert forall|k: int| 0 <= k < ns0.len() implies 0 <= #[trigger] ns0[k] < lines.len() && cron_job(
                    ns0[k],
                    lines[ns0[k]],
                    source,
                    has_user_field,
                ) == Some(all[k]) by {
                    assert(lines[ns0[k]] == p[ns0[k]]);
                }
                assert forall|m: int|
                    0 <= m < lines.len() && (#[trigger] cron_job(m, lines[m], source, has_user_field)) is Some implies exists|
                    k: int,
                |
                    0 <= k < ns0.len() && #[trigger] ns0[k] == m by {
                    assert(m < n);
                    assert(cron_job(m, p[m], source, has_user_field) is Some);
                }
                ns0
            },
        }
    }
}

/// The jobs of a crontab come from its lines in order, one per line that
/// describes a job, and each is labelled with its own line: the `k`-th job
/// is what line `lines[k]` (counted from 0 in `split_lines(text)`) gives,
/// the `lines` are increasing, no line that gives a job is left out, and the
/// label is the source's file name, `:` and the 1-based line number.
pub proof fn law_cron_labels_name_their_lines(text: Seq<char>, source: Seq<char>, has_user_field: bool) -> (lines: Seq<
    int,
>)
    ensures
        lines.len() == cron_jobs(text, source, has_user_field).len(),
        forall|i: int, j: int| 0 <= i < j < lines.len() ==> #[trigger] lines[i] < #[trigger] lines[j],
        forall|k: int|
            0 <= k < lines.len() ==> 0 <= #[trigger] lines[k] < split_lines(text).len() && cron_job(
                lines[k],
                split_lines(text)[lines[k]],
                source,
                has_user_field,
            ) == Some(cron_jobs(text, source, has_user_field)[k]),
        forall|k: int|
            0 <= k < lines.len() ==> (#[trigger] cron_jobs(text, source, has_user_field)[k]).label == short_source_of(
                source,
            ) + ":"@ + decimal(lines[k] + 1),
        forall|m: int|
            0 <= m < split_lines(text).len() && (#[trigger] cron_job(
                m,
                split_lines(text)[m],
                source,
                has_user_field,
            )) is Some ==> exists|k: int| 0 <= k < lines.len() && #[trigger] lines[k] == m,
{
    let ns = lemma_cron_jobs_of_lines(split_lines(text), source, has_user_field);
    assert forall|k: int| 0 <= k < ns.len() implies (#[trigger] cron_jobs(text, source, has_user_field)[k]).label
        == short_source_of(source) + ":"@ + decimal(ns[k] + 1) by {
        assert(cron_job(ns[k], split_lines(text)[ns[k]], source, has_user_field) == Some(
            cron_jobs(text, source, has_user_field)[k],
        ));
    }
    ns
}

/// A launchd job whose label is Apple's is in the `apple` scope and refuses
/// every action, whichever directory it was found in.
pub proof fn law_apple_label_wins(
    path: Seq<char>,
    d: Domain,
    runtime: Map<Seq<char>, Runtime>,
    disabled: Map<Seq<char>, bool>,
    value: PlistValue,
)
    requires
        plist_job(path, d, runtime, disabled, value) is Some,
        apple_prefix().is_prefix_of(plist_job(path, d, runtime, disabled, value)->0.label),
    ensures
        plist_job(path, d, runtime, disabled, value)->0.scope == Scope::Apple,
        plist_job(path, d, runtime, disabled, value)->0.permissions.toggle == (Permission::Refused {
            reason: Refusal::Apple,
        }),
        plist_job(path, d, runtime, disabled, value)->0.permissions.delete == (Permission::Refused {
            reason: Refusal::Apple,
        }),
{
}

/// A file that cannot be read, or does not read as a plist, contributes
/// nothing to a listing and hides none of the others, wherever it sits
/// among them.
pub proof fn law_unreadable_file_skipped(
    before: Seq<PlistFile>,
    bad: PlistFile,
    after: Seq<PlistFile>,
    d: Domain,
    runtime: Map<Seq<char>, Runtime>,
    disabled: Map<Seq<char>, bool>,
)
    ensures
        (match bad.bytes {
            Some(b) => plist_of_bytes(b@) is None,
            None => true,
        }) ==> scan_jobs(before + seq![bad] + after, d, runtime, disabled) == scan_jobs(
            before + after,
            d,
            runtime,
            disabled,
        ),
    decreases after.len(),
{
    if match bad.bytes {
        Some(b) => plist_of_bytes(b@) is None,
        None => true,
    } {
        if after.len() == 0 {
            assert(before + seq![bad] + after =~= before.push(bad));
            assert(before.push(bad).drop_last() =~= before);
            assert(before + after =~= before);
        } else {
            law_unreadable_file_skipped(before, bad, after.drop_last(), d, runtime, disabled);
            assert((before + seq![bad] + after).drop_last() =~= before + seq![bad] + after.drop_last());
            assert((before + after).drop_last() =~= before + after.drop_last());
            assert((before + seq![bad] + after).last() == after.last());
            assert((before + after).last() == after.last());
        }
    }
}

// ---------------------------------------------------------------------------
// The privileged script
// ---------------------------------------------------------------------------

/// Step `k` is critical and its run does not succeed.
pub open spec fn critical_failure(steps: Seq<(Seq<Seq<char>>, bool)>, ok: Seq<bool>, k: int) -> bool {
    steps[k].1 && !ok[k]
}

proof fn lemma_step_command_run(k: nat, args: Seq<Seq<char>>, critical: bool, ok: Seq<bool>)
    ensures
        shell_run(step_command(k, args, critical), ok) == (if critical {
            ok[k as int]
        } else {
            true
        }, seq![k]),
        reads_as_built(step_command(k, args, critical)),
        k > 0 ==> !is_list(step_command(k, args, critical)),
{
    reveal_with_fuel(shell_run, 4);
    reveal_with_fuel(reads_as_built, 4);
    assert(seq![k] + Seq::<nat>::empty() =~= seq![k]);
}

proof fn lemma_chain_run(steps: Seq<(Seq<Seq<char>>, bool)>, ok: Seq<bool>)
    requires
        steps.len() > 0,
        ok.len() >= steps.len(),
    ensures
        reads_as_built(chain(steps)),
        shell_run(chain(steps), ok).0 == (forall|k: int|
            0 <= k < steps.len() ==> !#[trigger] critical_failure(steps, ok, k)),
        1 <= shell_run(chain(steps), ok).1.len() <= steps.len(),
        forall|i: int| 0 <= i < shell_run(chain(steps), ok).1.len() ==> shell_run(chain(steps), ok).1[i] == i,
        forall|k: int|
            0 <= k < shell_run(chain(steps), ok).1.len() - 1 ==> !#[trigger] critical_failure(steps, ok, k),
        shell_run(chain(steps), ok).1.len() == steps.len() || critical_failure(
            steps,
            ok,
            shell_run(chain(steps), ok).1.len() - 1,
        ),
    decreases steps.len(),
{
    let n = steps.len();
    lemma_step_command_run((n - 1) as nat, steps[n - 1].0, steps[n - 1].1, ok);
    if critical_failure(steps, ok, n - 1) {
        assert(critical_failure(steps, ok, n - 1));
    }
    if n > 1 {
        let p = steps.drop_last();
        lemma_chain_run(p, ok);
        assert forall|k: int| 0 <= k < n - 1 implies critical_failure(p, ok, k) == critical_failure(steps, ok, k) by {}
        let ra = shell_run(chain(p), ok);
        let r = shell_run(chain(steps), ok);
        if ra.0 {
            if ra.1.len() < n - 1 {
                assert(critical_failure(p, ok, ra.1.len() - 1));
            }
            assert(r.1 =~= ra.1 + seq![(n - 1) as nat]);
            if !steps[n - 1].1 || ok[n - 1] {
                assert forall|k: int| 0 <= k < n implies !#[trigger] critical_failure(steps, ok, k) by {
                    if k < n - 1 {
                        assert(!critical_failure(p, ok, k));
                    }
                }
            }
        } else {
            let k0 = choose|k: int| 0 <= k < n - 1 && #[trigger] critical_failure(p, ok, k);
            assert(critical_failure(steps, ok, k0));
            if ra.1.len() == n - 1 {
                assert(critical_failure(p, ok, ra.1.len() - 1));
            }
        }
    }
}

/// The privileged script's exit status follows its critical steps alone.
///
/// Read by `sh` the way it was built, the script runs the steps in order
/// from the first, and a critical step that fails stops it there; it exits 0
/// exactly when no critical step fails. A best-effort step's outcome changes
/// neither what runs before a stop nor the exit status. `ok[k]` says whether
/// the `launchctl` run of step `k` succeeds.
pub proof fn law_script_exit_status(steps: Seq<(Seq<Seq<char>>, bool)>, ok: Seq<bool>)
    requires
        steps.len() > 0,
        ok.len() == steps.len(),
    ensures
        script_of(steps) == shell_text(chain(steps)),
        reads_as_built(chain(steps)),
        shell_run(chain(steps), ok).0 == (forall|k: int|
            0 <= k < steps.len() ==> !#[trigger] critical_failure(steps, ok, k)),
        1 <= shell_run(chain(steps), ok).1.len() <= steps.len(),
        forall|i: int| 0 <= i < shell_run(chain(steps), ok).1.len() ==> shell_run(chain(steps), ok).1[i] == i,
        forall|k: int|
            0 <= k < shell_run(chain(steps), ok).1.len() - 1 ==> !#[trigger] critical_failure(steps, ok, k),
        shell_run(chain(steps), ok).1.len() == steps.len() || critical_failure(
            steps,
            ok,
            shell_run(chain(steps), ok).1.len() - 1,
        ),
        forall|k: int, b: bool|
            0 <= k < steps.len() && !steps[k].1 ==> (#[trigger] shell_run(chain(steps), ok.update(k, b))).0
                == shell_run(chain(steps), ok).0,
{
    lemma_chain_run(steps, ok);
    assert forall|k: int, b: bool|
        0 <= k < steps.len() && !steps[k].1 implies (#[trigger] shell_run(chain(steps), ok.update(k, b))).0
        == shell_run(chain(steps), ok).0 by {
        let ok2 = ok.update(k, b);
        lemma_chain_run(steps, ok2);
        assert forall|j: int| 0 <= j < steps.len() implies critical_failure(steps, ok2, j) == critical_failure(
            steps,
            ok,
            j,
        ) by {}
        if shell_run(chain(steps), ok).0 {
            assert forall|j: int| 0 <= j < steps.len() implies !#[trigger] critical_failure(steps, ok2, j) by {
                assert(!critical_failure(steps, ok, j));
            }
        } else {
            let j0 = choose|j: int| 0 <= j < steps.len() && #[trigger] critical_failure(steps, ok, j);
            assert(critical_failure(steps, ok2, j0));
        }
    }
}

/// Run directly, one `launchctl` process per step, an operation stops at a
/// step exactly when that step is critical and did not succeed, the same
/// steps on which the privileged script stops; a best-effort step never
/// stops it, whatever its outcome.
pub proof fn law_direct_run_stops_at_critical_failures(
    args: Seq<Seq<char>>,
    critical: bool,
    outcome: StepOutcome,
)
    ensures
        (direct_error(args, critical, outcome) is Some) == (critical && !(outcome is Succeeded)),
{
}

/// The privileged script of an enable or disable succeeds exactly when its
/// persistent step does: `enable` (the first step) for an enable, `disable`
/// (the second) for a disable; the session `bootstrap` or `bootout` never
/// decides it. `ok[k]` says whether step `k` succeeds.
pub proof fn law_toggle_script_follows_persistent_step(
    label: Seq<char>,
    path: Seq<char>,
    scope: Seq<char>,
    enable: bool,
    uid: Seq<char>,
    ok: Seq<bool>,
)
    requires
        ok.len() == 2,
    ensures
        shell_run(chain(toggle_steps(label, path, scope, enable, uid)), ok).0 == if enable {
            ok[0]
        } else {
            ok[1]
        },
{
    let steps = toggle_steps(label, path, scope, enable, uid);
    law_script_exit_status(steps, ok);
    if enable {
        assert(critical_failure(steps, ok, 0) == !ok[0]);
        assert(!critical_failure(steps, ok, 1));
    } else {
        assert(!critical_failure(steps, ok, 0));
        assert(critical_failure(steps, ok, 1) == !ok[1]);
    }
}

// ---------------------------------------------------------------------------
// The disabled database
// ---------------------------------------------------------------------------

/// `line` is a row of `launchctl print-disabled` output for `label`.
pub open spec fn row_for(line: Seq<char>, label: Seq<char>) -> bool {
    match disabled_row(line) {
        Some((l, _)) => l == label,
        None => false,
    }
}

proof fn lemma_disabled_rows(lines: Seq<Seq<char>>, label: Seq<char>)
    ensures
        disabled_rows(lines).contains_key(label) == exists|i: int|
            0 <= i < lines.len() && #[trigger] row_for(lines[i], label),
        disabled_rows(lines).contains_key(label) ==> exists|i: int|
            0 <= i < lines.len() && #[trigger] disabled_row(lines[i]) == Some((label, disabled_rows(lines)[label]))
                && forall|j: int| i < j < lines.len() ==> !#[trigger] row_for(lines[j], label),
    decreases lines.len(),
{
    if lines.len() > 0 {
        let n = lines.len() - 1;
        let p = lines.drop_last();
        lemma_disabled_rows(p, label);
        assert forall|m: int| 0 <= m < n implies p[m] == lines[m] by {}
        if row_for(lines[n], label) {
            assert(disabled_row(lines[n]) == Some((label, disabled_rows(lines)[label])));
        } else {
            assert(disabled_rows(lines).contains_key(label) == disabled_rows(p).contains_key(label));
            if disabled_rows(p).contains_key(label) {
                assert(disabled_rows(lines)[label] == disabled_rows(p)[label]);
                let i = choose|i: int|
                    0 <= i < p.len() && #[trigger] disabled_row(p[i]) == Some((label, disabled_rows(p)[label]))
                        && forall|j: int| i < j < p.len() ==> !#[trigger] row_for(p[j], label);
                assert(disabled_row(lines[i]) == Some((label, disabled_rows(lines)[label])));
                assert forall|j: int| i < j < lines.len() implies !#[trigger] row_for(lines[j], label) by {
                    if j < n {
                        assert(!row_for(p[j], label));
                    }
                }
                assert(row_for(lines[i], label));
            } else {
                assert forall|i: int| 0 <= i < lines.len() implies !#[trigger] row_for(lines[i], label) by {
                    if i < n {
                        assert(!row_for(p[i], label));
                    }
                }
            }
        }
    }
}

/// The disabled database holds a label exactly when some line of the
/// `launchctl print-disabled` output is a row for it (`"label" => word`,
/// with a non-empty label and one of the known words), and then it holds
/// what the last such line says; every other line is ignored.
pub proof fn law_disabled_last_line_wins(text: Seq<char>, label: Seq<char>)
    ensures
        disabled_table(text).contains_key(label) == exists|i: int|
            0 <= i < split_lines(text).len() && #[trigger] row_for(split_lines(text)[i], label),
        disabled_table(text).contains_key(label) ==> exists|i: int|
            0 <= i < split_lines(text).len() && #[trigger] disabled_row(split_lines(text)[i]) == Some(
                (label, disabled_table(text)[label]),
            ) && forall|j: int| i < j < split_lines(text).len() ==> !#[trigger] row_for(split_lines(text)[j], label),
{
    lemma_disabled_rows(split_lines(text), label);
}

// ---------------------------------------------------------------------------
// A whole run
// ---------------------------------------------------------------------------

proof fn lemma_direct_run(steps: Seq<(Seq<Seq<char>>, bool)>, outcomes: Seq<StepOutcome>)
    requires
        outcomes.len() >= steps.len(),
    ensures
        direct_run(steps, outcomes) is Ok ==> direct_steps_run(steps, outcomes) == steps.len() && forall|k: int|
            0 <= k < steps.len() ==> !#[trigger] critical_failure(steps, succeeded(outcomes), k),
        direct_run(steps, outcomes) is Err ==> {
            let k = direct_steps_run(steps, outcomes) - 1;
            &&& 0 <= k < steps.len()
            &&& critical_failure(steps, succeeded(outcomes), k)
            &&& forall|j: int| 0 <= j < k ==> !#[trigger] critical_failure(steps, succeeded(outcomes), j)
            &&& direct_error(steps[k].0, steps[k].1, outcomes[k]) == Some(direct_run(steps, outcomes)->Err_0)
        },
    decreases steps.len(),
{
    if steps.len() > 0 {
        let ok = succeeded(outcomes);
        law_direct_run_stops_at_critical_failures(steps[0].0, steps[0].1, outcomes[0]);
        assert(ok[0] == (outcomes[0] is Succeeded));
        match direct_error(steps[0].0, steps[0].1, outcomes[0]) {
            Some(e) => {
                assert(critical_failure(steps, ok, 0));
            },
            None => {
                let s2 = steps.drop_first();
                let o2 = outcomes.drop_first();
                lemma_direct_run(s2, o2);
                assert forall|j: int| 0 <= j < s2.len() implies critical_failure(s2, succeeded(o2), j)
                    == critical_failure(steps, ok, j + 1) by {
                    assert(s2[j] == steps[j + 1]);
                    assert(succeeded(o2)[j] == ok[j + 1]);
                }
                assert(!critical_failure(steps, ok, 0));
                if direct_run(s2, o2) is Ok {
                    assert forall|k: int| 0 <= k < steps.len() implies !#[trigger] critical_failure(steps, ok, k) by {
                        if k > 0 {
                            assert(!critical_failure(s2, succeeded(o2), k - 1));
                        }
                    }
                } else {
                    let k2 = direct_steps_run(s2, o2) - 1;
                    assert(critical_failure(s2, succeeded(o2), k2));
                    assert(s2[k2] == steps[k2 + 1]);
                    assert(o2[k2] == outcomes[k2 + 1]);
                    assert forall|j: int| 0 <= j < k2 + 1 implies !#[trigger] critical_failure(steps, ok, j) by {
                        if j > 0 {
                            assert(!critical_failure(s2, succeeded(o2), j - 1));
                        }
                    }
                }
            },
        }
    }
}

/// A direct run, one `launchctl` process per step, ends `Ok` exactly when no
/// critical step fails. Otherwise it stops at the first critical step that
/// fails, having started the steps up to it and no further, and ends with
/// that step's error. It starts the same steps and succeeds on the same
/// outcomes as the privileged script. `outcomes[k]` is how the run of step
/// `k` ends.
pub proof fn law_direct_run(steps: Seq<(Seq<Seq<char>>, bool)>, outcomes: Seq<StepOutcome>)
    requires
        outcomes.len() == steps.len(),
    ensures
        (direct_run(steps, outcomes) is Ok) == (forall|k: int|
            0 <= k < steps.len() ==> !#[trigger] critical_failure(steps, succeeded(outcomes), k)),
        direct_run(steps, outcomes) is Ok ==> direct_steps_run(steps, outcomes) == steps.len(),
        direct_run(steps, outcomes) is Err ==> {
            let k = direct_steps_run(steps, outcomes) - 1;
            &&& 0 <= k < steps.len()
            &&& critical_failure(steps, succeeded(outcomes), k)
            &&& forall|j: int| 0 <= j < k ==> !#[trigger] critical_failure(steps, succeeded(outcomes), j)
            &&& direct_error(steps[k].0, steps[k].1, outcomes[k]) == Some(direct_run(steps, outcomes)->Err_0)
        },
        steps.len() > 0 ==> shell_run(chain(steps), succeeded(outcomes)).0 == (direct_run(steps, outcomes) is Ok),
        steps.len() > 0 ==> shell_run(chain(steps), succeeded(outcomes)).1.len() == direct_steps_run(
            steps,
            outcomes,
        ),
{
    let ok = succeeded(outcomes);
    lemma_direct_run(steps, outcomes);
    if direct_run(steps, outcomes) is Err {
        let k = direct_steps_run(steps, outcomes) - 1;
        assert(critical_failure(steps, ok, k));
    }
    if steps.len() > 0 {
        law_script_exit_status(steps, ok);
        let m = shell_run(chain(steps), ok).1.len();
        if direct_run(steps, outcomes) is Ok {
            if m < steps.len() {
                assert(critical_failure(steps, ok, m - 1));
            }
        } else {
            let k = direct_steps_run(steps, outcomes) - 1;
            if k < m - 1 {
                assert(!critical_failure(steps, ok, k));
            }
            if m - 1 < k {
                assert(critical_failure(steps, ok, m - 1));
            }
        }
    }
}

/// Enabling or disabling a job, carried out as planned, succeeds with
/// `"<label> enabled"` or `"<label> disabled"` exactly when the persistent
/// step (`enable`, or `disable`) succeeds; the session `bootstrap` or
/// `bootout` never changes the result. Run directly, a failure ends with
/// `launchctl`'s message for that step; with administrator rights, with what
/// `osascript` printed (`"Cancelled"` when the user dismissed the dialog).
/// A protected job is refused with its reason, whatever the outcomes.
pub proof fn law_toggle_run(
    label: Seq<char>,
    path: Seq<char>,
    scope: Seq<char>,
    enable: bool,
    uid: Seq<char>,
    outcomes: Seq<StepOutcome>,
    dialog: Option<Seq<char>>,
    script_stderr: Seq<char>,
)
    requires
        outcomes.len() == 2,
    ensures
        guard_of(label, path, scope) is Some ==> toggle_run(
            label,
            path,
            scope,
            enable,
            uid,
            outcomes,
            dialog,
            script_stderr,
        ) == Err::<Seq<char>, Seq<char>>(guard_of(label, path, scope)->0),
        guard_of(label, path, scope) is None ==> {
            let k: int = if enable {
                0
            } else {
                1
            };
            let done = label + if enable {
                " enabled"@
            } else {
                " disabled"@
            };
            let r = toggle_run(label, path, scope, enable, uid, outcomes, dialog, script_stderr);
            &&& scope != "system"@ ==> r == if outcomes[k] is Succeeded {
                Ok(done)
            } else {
                Err(direct_error(toggle_steps(label, path, scope, enable, uid)[k].0, true, outcomes[k])->0)
            }
            &&& scope == "system"@ ==> r == match dialog {
                Some(e) => Err(privileged_error(e)),
                None => if outcomes[k] is Succeeded {
                    Ok(done)
                } else {
                    Err(privileged_error(script_stderr))
                },
            }
        },
{
    let steps = toggle_steps(label, path, scope, enable, uid);
    let ok = succeeded(outcomes);
    law_toggle_script_follows_persistent_step(label, path, scope, enable, uid, ok);
    law_direct_run(steps, outcomes);
    let k: int = if enable {
        0
    } else {
        1
    };
    assert(ok[k] == (outcomes[k] is Succeeded));
    if enable {
        assert(!critical_failure(steps, ok, 1));
    } else {
        assert(!critical_failure(steps, ok, 0));
    }
    if direct_run(steps, outcomes) is Err {
        let j = direct_steps_run(steps, outcomes) - 1;
        assert(critical_failure(steps, ok, j));
        assert(j == k);
    } else {
        assert(!critical_failure(steps, ok, k));
    }
}

// ---------------------------------------------------------------------------
// What each reading and plan is for
// ---------------------------------------------------------------------------

/// A crontab line is a job exactly by its shape. A trimmed line that is not
/// blank, not a comment, does not start with `@`, whose first word holds no
/// `=` and that has five schedule fields before a command gives a job; in a
/// user crontab, its program is the command, trimmed. A line whose first word
/// holds `=` is an environment setting and gives none; an `=` later in the
/// line, in the command, changes nothing.
pub proof fn law_cron_line_shape(i: int, raw: Seq<char>, source: Seq<char>, has_user_field: bool)
    ensures
        ({
            let line = trim(raw);
            let f = splitn(line, 6, Sep::Whitespace);
            &&& (line.len() > 0 && line[0] != '#' && line[0] != '@' && !first_word(line).contains('=') && f.len()
                == 6) ==> cron_job(i, raw, source, has_user_field) is Some && (!has_user_field ==> cron_job(
                i,
                raw,
                source,
                has_user_field,
            )->0.program == trim(f[5]))
            &&& (line.len() > 0 && line[0] != '@' && first_word(line).contains('=')) ==> cron_job(
                i,
                raw,
                source,
                has_user_field,
            ) is None
            &&& (line.len() > 0 && line[0] != '@' && f.len() < 6) ==> cron_job(i, raw, source, has_user_field) is None
            &&& (line.len() == 0 || line[0] == '#') ==> cron_job(i, raw, source, has_user_field) is None
        }),
{
}

/// Cron fields are put into words only when the day of month and the month
/// are both `*`: any other day or month gives the raw fields after
/// `"cron: "`. A daily, every-minute or hourly sentence also needs the day
/// of week to be `*`.
pub proof fn law_cron_words_need_every_month(m: Seq<char>, h: Seq<char>, dom: Seq<char>, mon: Seq<char>, dow: Seq<char>)
    ensures
        (dom != "*"@ || mon != "*"@) ==> cron_text(m, h, dom, mon, dow) == "cron: "@ + m + " "@ + h + " "@ + dom + " "@
            + mon + " "@ + dow,
        ("Daily at "@.is_prefix_of(cron_text(m, h, dom, mon, dow)) || "Every minute"@.is_prefix_of(
            cron_text(m, h, dom, mon, dow),
        ) || "Every hour"@.is_prefix_of(cron_text(m, h, dom, mon, dow))) ==> dom == "*"@ && mon == "*"@ && dow
            == "*"@,
{
    let t = cron_text(m, h, dom, mon, dow);
    reveal_strlit("Daily at ");
    reveal_strlit("Every minute");
    reveal_strlit("Every hour");
    reveal_strlit("cron: ");
    reveal_strlit("Every ");
    reveal_strlit("Sunday");
    reveal_strlit("Monday");
    reveal_strlit("Tuesday");
    reveal_strlit("Wednesday");
    reveal_strlit("Thursday");
    reveal_strlit("Friday");
    reveal_strlit("Saturday");
    if !(dom == "*"@ && mon == "*"@ && dow == "*"@) {
        lemma_prefix_chars("Daily at "@, t);
        lemma_prefix_chars("Every minute"@, t);
        lemma_prefix_chars("Every hour"@, t);
        if t[0] != 'c' {
            let w = weekday_text(crate::text::parse_i64(dow)->0 as int);
            assert(w[0] != 'm' && w[0] != 'h');
            assert(t[6] == w[0]);
        }
    }
}

proof fn lemma_prefix_chars(p: Seq<char>, t: Seq<char>)
    ensures
        p.is_prefix_of(t) ==> forall|i: int| 0 <= i < p.len() ==> p[i] == #[trigger] t[i],
{
    if p.is_prefix_of(t) {
        assert forall|i: int| 0 <= i < p.len() implies p[i] == #[trigger] t[i] by {
            assert(p[i] == t.subrange(0, p.len() as int)[i]);
        }
    }
}

/// A delete addresses the same launchd service that enabling or disabling
/// the job does: `system/<label>` in the `system` scope and
/// `gui/<uid>/<label>` in every other, first unloading it and then clearing
/// its disabled-database entry, both best-effort.
pub proof fn law_delete_targets_the_toggled_service(
    label: Seq<char>,
    path: Seq<char>,
    scope: Seq<char>,
    enable: bool,
    uid: Seq<char>,
)
    ensures
        ({
            let t = if scope == "system"@ {
                "system/"@ + label
            } else {
                "gui/"@ + uid + "/"@ + label
            };
            &&& delete_steps(label, scope, uid) == seq![(seq!["bootout"@, t], false), (seq!["enable"@, t], false)]
            &&& toggle_steps(label, path, scope, enable, uid)[if enable {
                0int
            } else {
                1int
            }].0[1] == t
        }),
{
    reveal_strlit("system/");
    reveal_strlit("system");
    reveal_strlit("/");
    assert("system/"@ + label =~= "system"@ + "/"@ + label);
    assert("gui/"@ + uid + "/"@ + label =~= ("gui/"@ + uid) + "/"@ + label);
}

/// Item `i` of a plist array is a string.
pub open spec fn is_string_at(items: Seq<PlistValue>, i: int) -> bool {
    items[i] is String
}

proof fn lemma_no_strings(items: Seq<PlistValue>)
    requires
        forall|j: int| 0 <= j < items.len() ==> !#[trigger] is_string_at(items, j),
    ensures
        strings_in(items).len() == 0,
    decreases items.len(),
{
    if items.len() > 0 {
        let p = items.drop_last();
        assert forall|j: int| 0 <= j < p.len() implies !#[trigger] is_string_at(p, j) by {
            assert(!is_string_at(items, j));
        }
        lemma_no_strings(p);
        assert(!is_string_at(items, items.len() - 1));
    }
}

proof fn lemma_first_string(items: Seq<PlistValue>, i: int)
    requires
        0 <= i < items.len(),
        is_string_at(items, i),
        forall|j: int| 0 <= j < i ==> !#[trigger] is_string_at(items, j),
    ensures
        strings_in(items).len() > 0,
        strings_in(items)[0] == items[i]->String_0@,
    decreases items.len(),
{
    let p = items.drop_last();
    let n = items.len() - 1;
    if i == n {
        assert forall|j: int| 0 <= j < p.len() implies !#[trigger] is_string_at(p, j) by {
            assert(!is_string_at(items, j));
        }
        lemma_no_strings(p);
    } else {
        assert(is_string_at(p, i));
        assert forall|j: int| 0 <= j < i implies !#[trigger] is_string_at(p, j) by {
            assert(!is_string_at(items, j));
        }
        lemma_first_string(p, i);
    }
}

/// A job's program is the plist's `Program` string whenever there is one,
/// whatever `ProgramArguments` holds. Only without it is the program the
/// first string of the `ProgramArguments` array, and empty when that array
/// is missing or holds no string.
pub proof fn law_program_key_wins(
    path: Seq<char>,
    d: Domain,
    runtime: Map<Seq<char>, Runtime>,
    disabled: Map<Seq<char>, bool>,
    dict: Dictionary,
)
    ensures
        plist_job(path, d, runtime, disabled, PlistValue::Dictionary(dict)) is Some,
        ({
            let e = dict.entries@;
            let program = plist_job(path, d, runtime, disabled, PlistValue::Dictionary(dict))->0.program;
            &&& dict_get(e, "Program"@) matches Some(PlistValue::String(p)) ==> program == p@
            &&& !(dict_get(e, "Program"@) matches Some(PlistValue::String(_))) ==> match dict_get(
                e,
                "ProgramArguments"@,
            ) {
                Some(PlistValue::Array(a)) => {
                    &&& (forall|i: int| 0 <= i < a@.len() ==> !#[trigger] is_string_at(a@, i)) ==> program
                        == Seq::<char>::empty()
                    &&& forall|i: int|
                        0 <= i < a@.len() && #[trigger] is_string_at(a@, i) && (forall|j: int|
                            0 <= j < i ==> !#[trigger] is_string_at(a@, j)) ==> program == a@[i]->String_0@
                },
                _ => program == Seq::<char>::empty(),
            }
        }),
{
    let e = dict.entries@;
    let program = plist_job(path, d, runtime, disabled, PlistValue::Dictionary(dict))->0.program;
    assert(program == crate::launchd::plist_program(e));
    match dict_get(e, "ProgramArguments"@) {
        Some(PlistValue::Array(a)) => {
            assert(crate::launchd::plist_args(e) == strings_in(a@));
            if forall|i: int| 0 <= i < a@.len() ==> !#[trigger] is_string_at(a@, i) {
                lemma_no_strings(a@);
            }
            assert forall|i: int|
                0 <= i < a@.len() && #[trigger] is_string_at(a@, i) && (forall|j: int|
                    0 <= j < i ==> !#[trigger] is_string_at(a@, j)) implies strings_in(a@).len() > 0 && strings_in(a@)[0]
                == a@[i]->String_0@ by {
                lemma_first_string(a@, i);
            }
        },
        _ => {},
    }
}

/// A `KeepAlive` of `true`, or a dictionary of conditions, is always
/// described: the schedule text then ends with "Kept running (restarted if
/// it exits)", so it is never the on-demand text.
pub proof fn law_keep_alive_is_described(e: Seq<(String, PlistValue)>)
    ensures
        (dict_get(e, "KeepAlive"@) == Some(PlistValue::Boolean(true)) || dict_get(e, "KeepAlive"@) matches Some(
            PlistValue::Dictionary(_),
        )) ==> "Kept running (restarted if it exits)"@.is_suffix_of(schedule_text(e)) && schedule_text(e)
            != "On demand / manual"@,
{
    let c = "Kept running (restarted if it exits)"@;
    if dict_get(e, "KeepAlive"@) == Some(PlistValue::Boolean(true)) || dict_get(e, "KeepAlive"@) matches Some(
        PlistValue::Dictionary(_),
    ) {
        let parts = schedule_parts(e);
        assert(parts.len() > 0 && parts.last() == c);
        let t = schedule_text(e);
        assert(t == join(parts, " · "@));
        if parts.len() == 1 {
            assert(t == c);
        } else {
            assert(t == join(parts.drop_last(), " · "@) + " · "@ + c);
        }
        assert(t.subrange(t.len() - c.len(), t.len() as int) =~= c);
        reveal_strlit("Kept running (restarted if it exits)");
        reveal_strlit("On demand / manual");
        assert(t[t.len() - 1] == ')');
    }
}

/// A plist with no trigger key, and a `KeepAlive` that is absent or false,
/// runs only when asked: its schedule is "On demand / manual".
pub proof fn law_no_trigger_is_on_demand(e: Seq<(String, PlistValue)>)
    ensures
        (dict_get(e, "RunAtLoad"@) is None && dict_get(e, "StartInterval"@) is None && dict_get(
            e,
            "StartCalendarInterval"@,
        ) is None && dict_get(e, "WatchPaths"@) is None && dict_get(e, "QueueDirectories"@) is None && dict_get(
            e,
            "StartOnMount"@,
        ) is None && (dict_get(e, "KeepAlive"@) is None || dict_get(e, "KeepAlive"@) == Some(
            PlistValue::Boolean(false),
        ))) ==> schedule_text(e) == "On demand / manual"@,
{
}

} // verus!
