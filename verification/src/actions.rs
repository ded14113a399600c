//! Everything that changes something, as decisions: which `launchctl` steps
//! an enable, disable or delete takes, under what authority, and what the
//! user is told. Running the steps is left to the caller.
//!
//! Two rules apply to every change, enforced by [`guard_protected`] before
//! anything is planned: `com.apple.*` labels and the `apple` scope are
//! refused, and so is anything under `/System`.

use vstd::prelude::*;

use crate::paths::{file_name, file_name_of, file_stem, file_stem_of};
use crate::policy::{apple_prefix, refusal_message, system_volume_prefix, Refusal};
use crate::text::{
    chars_of, contains_seq, contains_str, decimal, eq_str, extend, extend_str, fmt_u64, join, join_chars,
    starts_with, string_from, string_of, trim, trim_chars,
};

verus! {

/// One `launchctl` invocation within a larger operation.
///
/// Only `critical` steps decide overall success: `bootstrap`/`bootout`
/// routinely fail when a job is already in the requested state.
#[derive(Debug)]
pub struct Step {
    /// Arguments after the `launchctl` binary itself.
    pub args: Vec<String>,
    /// Whether a failure should abort the operation.
    pub critical: bool,
}

/// The characters of each argument of a step.
pub open spec fn step_args(s: Step) -> Seq<Seq<char>> {
    s.args@.map_values(|a: String| a@)
}

/// A step as its argument texts and whether it is critical.
pub open spec fn step_spec(s: Step) -> (Seq<Seq<char>>, bool) {
    (step_args(s), s.critical)
}

/// Each step of `steps` as its argument texts and criticality.
pub open spec fn steps_spec(steps: Seq<Step>) -> Seq<(Seq<Seq<char>>, bool)> {
    steps.map_values(|s: Step| step_spec(s))
}

/// Build a [`Step`], copying the borrowed arguments into owned strings.
pub fn step(args: &[&str], critical: bool) -> (r: Step)
    ensures
        step_args(r) == args@.map_values(|a: &str| a@),
        r.critical == critical,
{
    let mut v: Vec<String> = Vec::new();
    for i in 0..args.len()
        invariant
            v@.map_values(|a: String| a@) == args@.take(i as int).map_values(|a: &str| a@),
    {
        let ghost before = v@;
        let a = string_from(args[i]);
        v.push(a);
        assert(v@.map_values(|a: String| a@) =~= before.map_values(|a: String| a@).push(args@[i as int]@));
        assert(args@.take(i + 1).map_values(|a: &str| a@) =~= args@.take(i as int).map_values(|a: &str| a@).push(
            args@[i as int]@,
        ));
    }
    assert(args@.take(args.len() as int) =~= args@);
    Step { args: v, critical }
}

/// The refusal message for a change to this job, if it is protected.
pub open spec fn guard_of(label: Seq<char>, path: Seq<char>, scope: Seq<char>) -> Option<Seq<char>> {
    if apple_prefix().is_prefix_of(label) || scope == "apple"@ {
        Some(refusal_message(Refusal::Apple))
    } else if system_volume_prefix().is_prefix_of(path) {
        Some(refusal_message(Refusal::SystemVolume))
    } else {
        None
    }
}

/// Refuse to touch Apple-owned jobs or the sealed system volume.
///
/// Both the label and the scope are checked: an Apple label can sit in a user
/// directory, and a third-party label can sit under `/System`.
pub fn guard_protected(label: &str, path: &str, scope: &str) -> (r: Result<(), String>)
    ensures
        match r {
            Ok(()) => guard_of(label@, path@, scope@) is None,
            Err(e) => guard_of(label@, path@, scope@) == Some(e@),
        },
{
    let l = chars_of(label);
    if starts_with(&l, &chars_of("com.apple.")) || eq_str(&chars_of(scope), "apple") {
        return Err(string_from(Refusal::Apple.message()));
    }
    if starts_with(&chars_of(path), &chars_of("/System/")) {
        return Err(string_from(Refusal::SystemVolume.message()));
    }
    Ok(())
}

/// The body of a single-quoted shell word holding `s`: each `'` becomes `'\''`.
pub open spec fn quote_body(s: Seq<char>) -> Seq<char>
    decreases s.len(),
{
    if s.len() == 0 {
        Seq::<char>::empty()
    } else {
        quote_body(s.drop_last()) + if s.last() == '\'' {
            seq!['\'', '\\', '\'', '\'']
        } else {
            seq![s.last()]
        }
    }
}

/// `s` as one single-quoted shell word.
pub open spec fn shell_quoted(s: Seq<char>) -> Seq<char> {
    seq!['\''] + quote_body(s) + seq!['\'']
}

/// Wrap a string in single quotes for safe use in a shell command.
///
/// Single quotes suppress every kind of expansion; the only character needing
/// care is the quote itself, closed and re-opened as `'\''`.
pub fn shell_quote(s: &str) -> (r: String)
    ensures
        r@ == shell_quoted(s@),
{
    let v = quote_chars(&chars_of(s));
    string_of(&v)
}

fn quote_chars(s: &Vec<char>) -> (r: Vec<char>)
    ensures
        r@ == shell_quoted(s@),
{
    let mut out: Vec<char> = Vec::new();
    out.push('\'');
    for i in 0..s.len()
        invariant
            out@ == seq!['\''] + quote_body(s@.take(i as int)),
    {
        assert(s@.take(i + 1).drop_last() =~= s@.take(i as int));
        assert(s@.take(i + 1).last() == s@[i as int]);
        if s[i] == '\'' {
            out.push('\'');
            out.push('\\');
            out.push('\'');
            out.push('\'');
        } else {
            out.push(s[i]);
        }
        assert(out@ =~= seq!['\''] + quote_body(s@.take(i + 1)));
    }
    assert(s@.take(s.len() as int) =~= s@);
    out.push('\'');
    out
}

/// A shell command as `sh` reads it: one `launchctl` run (the index of its
/// step and its arguments), `true`, a `{ ... ; }` group, or an `&&` / `||`
/// list of two commands.
pub enum ShellCommand {
    Launchctl(nat, Seq<Seq<char>>),
    True,
    Group(Box<ShellCommand>),
    And(Box<ShellCommand>, Box<ShellCommand>),
    Or(Box<ShellCommand>, Box<ShellCommand>),
}

/// `/bin/launchctl` and the quoted arguments, separated by spaces.
pub open spec fn launchctl_text(args: Seq<Seq<char>>) -> Seq<char> {
    join(seq!["/bin/launchctl"@] + args.map_values(|a: Seq<char>| shell_quoted(a)), " "@)
}

/// The text of a command.
pub open spec fn shell_text(c: ShellCommand) -> Seq<char>
    decreases c,
{
    match c {
        ShellCommand::Launchctl(_, args) => launchctl_text(args),
        ShellCommand::True => "true"@,
        ShellCommand::Group(inner) => "{ "@ + shell_text(*inner) + " ; }"@,
        ShellCommand::And(a, b) => shell_text(*a) + " && "@ + shell_text(*b),
        ShellCommand::Or(a, b) => shell_text(*a) + " || "@ + shell_text(*b),
    }
}

/// Whether the text of `c` reads back as `c`: `sh` groups `&&` and `||`
/// from the left with equal precedence, so the right operand of a list is
/// never a list itself unless it is grouped.
pub open spec fn reads_as_built(c: ShellCommand) -> bool
    decreases c,
{
    match c {
        ShellCommand::Launchctl(_, _) => true,
        ShellCommand::True => true,
        ShellCommand::Group(inner) => reads_as_built(*inner),
        ShellCommand::And(a, b) => reads_as_built(*a) && reads_as_built(*b) && !is_list(*b),
        ShellCommand::Or(a, b) => reads_as_built(*a) && reads_as_built(*b) && !is_list(*b),
    }
}

/// Whether `c` is an `&&` or `||` list.
pub open spec fn is_list(c: ShellCommand) -> bool {
    c is And || c is Or
}

/// How `sh` runs `c` when the `launchctl` run of step `k` exits successfully
/// exactly when `ok[k]`: whether `c` exits 0, and the steps it runs, in order.
pub open spec fn shell_run(c: ShellCommand, ok: Seq<bool>) -> (bool, Seq<nat>)
    decreases c,
{
    match c {
        ShellCommand::Launchctl(k, _) => (ok[k as int], seq![k]),
        ShellCommand::True => (true, Seq::<nat>::empty()),
        ShellCommand::Group(inner) => shell_run(*inner, ok),
        ShellCommand::And(a, b) => {
            let ra = shell_run(*a, ok);
            if ra.0 {
                let rb = shell_run(*b, ok);
                (rb.0, ra.1 + rb.1)
            } else {
                ra
            }
        },
        ShellCommand::Or(a, b) => {
            let ra = shell_run(*a, ok);
            if ra.0 {
                ra
            } else {
                let rb = shell_run(*b, ok);
                (rb.0, ra.1 + rb.1)
            }
        },
    }
}

/// The command for step `k`: a critical step runs as it is; a best-effort
/// one is followed by `|| true`, inside a group when a step comes before it,
/// so that its failure changes neither the exit status nor what runs next.
pub open spec fn step_command(k: nat, args: Seq<Seq<char>>, critical: bool) -> ShellCommand {
    let run = ShellCommand::Launchctl(k, args);
    let swallowed = ShellCommand::Or(Box::new(ShellCommand::Group(Box::new(run))), Box::new(ShellCommand::True));
    if critical {
        run
    } else if k == 0 {
        swallowed
    } else {
        ShellCommand::Group(Box::new(swallowed))
    }
}

/// The step commands of `steps` joined with `&&`, from the left.
pub open spec fn chain(steps: Seq<(Seq<Seq<char>>, bool)>) -> ShellCommand
    decreases steps.len(),
{
    if steps.len() <= 1 {
        step_command(0, steps[0].0, steps[0].1)
    } else {
        ShellCommand::And(
            Box::new(chain(steps.drop_last())),
            Box::new(step_command((steps.len() - 1) as nat, steps.last().0, steps.last().1)),
        )
    }
}

/// The whole chain as one script; no steps give an empty script.
pub open spec fn script_of(steps: Seq<(Seq<Seq<char>>, bool)>) -> Seq<char> {
    if steps.len() == 0 {
        Seq::<char>::empty()
    } else {
        shell_text(chain(steps))
    }
}

/// The text of each step's command, in order.
pub open spec fn step_texts(steps: Seq<(Seq<Seq<char>>, bool)>) -> Seq<Seq<char>> {
    Seq::new(steps.len(), |k: int| shell_text(step_command(k as nat, steps[k].0, steps[k].1)))
}

proof fn lemma_script_is_joined(steps: Seq<(Seq<Seq<char>>, bool)>)
    requires
        steps.len() > 0,
    ensures
        shell_text(chain(steps)) == join(step_texts(steps), " && "@),
    decreases steps.len(),
{
    if steps.len() > 1 {
        let p = steps.drop_last();
        lemma_script_is_joined(p);
        assert(step_texts(steps).drop_last() =~= step_texts(p));
    }
}

fn launchctl_chars(s: &Step) -> (r: Vec<char>)
    ensures
        r@ == launchctl_text(step_args(*s)),
{
    let ghost args = step_args(*s);
    let mut words: Vec<Vec<char>> = Vec::new();
    words.push(chars_of("/bin/launchctl"));
    let ghost quoted = args.map_values(|a: Seq<char>| shell_quoted(a));
    for i in 0..s.args.len()
        invariant
            args == step_args(*s),
            quoted == args.map_values(|a: Seq<char>| shell_quoted(a)),
            words@.map_values(|v: Vec<char>| v@) == seq!["/bin/launchctl"@] + quoted.take(i as int),
    {
        let q = quote_chars(&chars_of(s.args[i].as_str()));
        let ghost before = words@.map_values(|v: Vec<char>| v@);
        words.push(q);
        assert(args[i as int] == s.args@[i as int]@);
        assert(quoted[i as int] == shell_quoted(args[i as int]));
        assert(words@.map_values(|v: Vec<char>| v@) =~= before.push(q@));
        assert(quoted.take(i + 1) =~= quoted.take(i as int).push(quoted[i as int]));
        assert(words@.map_values(|v: Vec<char>| v@) =~= seq!["/bin/launchctl"@] + quoted.take(i + 1));
    }
    assert(quoted.take(s.args.len() as int) =~= quoted);
    join_chars(&words, " ")
}

fn step_chars(s: &Step, k: usize) -> (r: Vec<char>)
    ensures
        r@ == shell_text(step_command(k as nat, step_args(*s), s.critical)),
{
    let cmd = launchctl_chars(s);
    proof {
        reveal_with_fuel(shell_text, 4);
    }
    if s.critical {
        cmd
    } else if k == 0 {
        let mut v = chars_of("{ ");
        extend(&mut v, &cmd);
        extend_str(&mut v, " ; } || true");
        proof {
            reveal_strlit(" ; } || true");
            reveal_strlit(" ; }");
            reveal_strlit(" || ");
            reveal_strlit("true");
        }
        assert(v@ =~= ("{ "@ + cmd@ + " ; }"@) + " || "@ + "true"@);
        v
    } else {
        let mut v = chars_of("{ { ");
        extend(&mut v, &cmd);
        extend_str(&mut v, " ; } || true ; }");
        proof {
            reveal_strlit("{ { ");
            reveal_strlit("{ ");
            reveal_strlit(" ; } || true ; }");
            reveal_strlit(" ; }");
            reveal_strlit(" || ");
            reveal_strlit("true");
        }
        assert(v@ =~= "{ "@ + (("{ "@ + cmd@ + " ; }"@) + " || "@ + "true"@) + " ; }"@);
        v
    }
}

/// Render the steps as a single shell script for the privileged path, so the
/// user authenticates once rather than per step.
///
/// Steps are joined with `&&`, so a failing critical step stops the rest;
/// each best-effort step is followed by `|| true` (grouped after the first
/// step), so its failure neither stops the chain nor sets the exit status.
pub fn script_for(steps: &[Step]) -> (r: String)
    ensures
        r@ == script_of(steps_spec(steps@)),
{
    let ghost specs = step_texts(steps_spec(steps@));
    let mut parts: Vec<Vec<char>> = Vec::new();
    for i in 0..steps.len()
        invariant
            specs == step_texts(steps_spec(steps@)),
            parts@.map_values(|v: Vec<char>| v@) == specs.take(i as int),
    {
        let p = step_chars(&steps[i], i);
        let ghost before = parts@.map_values(|v: Vec<char>| v@);
        parts.push(p);
        assert(specs[i as int] == shell_text(
            step_command(i as nat, step_args(steps@[i as int]), steps@[i as int].critical),
        ));
        assert(parts@.map_values(|v: Vec<char>| v@) =~= before.push(p@));
        assert(specs.take(i + 1) =~= specs.take(i as int).push(specs[i as int]));
        assert(parts@.map_values(|v: Vec<char>| v@) =~= specs.take(i + 1));
    }
    assert(specs.take(steps.len() as int) =~= specs);
    let joined = join_chars(&parts, " && ");
    proof {
        if steps.len() > 0 {
            lemma_script_is_joined(steps_spec(steps@));
        } else {
            assert(parts@.map_values(|v: Vec<char>| v@) =~= Seq::<Seq<char>>::empty());
        }
    }
    string_of(&joined)
}


// ---------------------------------------------------------------------------
// Enable, disable, delete
// ---------------------------------------------------------------------------

/// The launchd domain target a change to a job of `scope` is made in.
pub open spec fn domain_for(scope: Seq<char>, uid: Seq<char>) -> Seq<char> {
    if scope == "system"@ {
        "system"@
    } else {
        "gui/"@ + uid
    }
}

/// The service target `<domain>/<label>`.
pub open spec fn target_for(label: Seq<char>, scope: Seq<char>, uid: Seq<char>) -> Seq<char> {
    domain_for(scope, uid) + "/"@ + label
}

/// The steps of an enable or disable: the persistent `enable`/`disable` is
/// the critical one, the session `bootstrap`/`bootout` is best-effort.
pub open spec fn toggle_steps(label: Seq<char>, path: Seq<char>, scope: Seq<char>, enable: bool, uid: Seq<char>) -> Seq<
    (Seq<Seq<char>>, bool),
> {
    let domain = domain_for(scope, uid);
    let target = target_for(label, scope, uid);
    if enable {
        seq![(seq!["enable"@, target], true), (seq!["bootstrap"@, domain, path], false)]
    } else {
        seq![(seq!["bootout"@, target], false), (seq!["disable"@, target], true)]
    }
}

/// A planned change: `launchctl` steps, whether they need administrator
/// authentication, and the confirmation to give once they succeed.
#[derive(Debug)]
pub struct Operation {
    pub steps: Vec<Step>,
    pub privileged: bool,
    pub done: String,
}

fn domain_chars(scope: &str, uid: &str) -> (r: Vec<char>)
    ensures
        r@ == domain_for(scope@, uid@),
{
    if eq_str(&chars_of(scope), "system") {
        chars_of("system")
    } else {
        let mut v = chars_of("gui/");
        extend_str(&mut v, uid);
        v
    }
}

fn target_chars(label: &str, scope: &str, uid: &str) -> (r: Vec<char>)
    ensures
        r@ == target_for(label@, scope@, uid@),
{
    let mut v = domain_chars(scope, uid);
    extend_str(&mut v, "/");
    extend_str(&mut v, label);
    v
}

fn step2(a: &str, b: &str, critical: bool) -> (r: Step)
    ensures
        step_spec(r) == (seq![a@, b@], critical),
{
    let arr = [a, b];
    assert(arr@ =~= seq![a, b]);
    let r = step(&arr, critical);
    assert(step_args(r) =~= seq![a@, b@]);
    r
}

fn step3(a: &str, b: &str, c: &str, critical: bool) -> (r: Step)
    ensures
        step_spec(r) == (seq![a@, b@, c@], critical),
{
    let arr = [a, b, c];
    assert(arr@ =~= seq![a, b, c]);
    let r = step(&arr, critical);
    assert(step_args(r) =~= seq![a@, b@, c@]);
    r
}

fn two_steps(a: Step, b: Step) -> (r: Vec<Step>)
    ensures
        steps_spec(r@) == seq![step_spec(a), step_spec(b)],
{
    let mut v: Vec<Step> = Vec::new();
    v.push(a);
    v.push(b);
    assert(steps_spec(v@) =~= seq![step_spec(a), step_spec(b)]);
    v
}

/// Plan enabling or disabling a launchd job.
///
/// `uid` is the current user's id, used for the `gui/<uid>` domain. The
/// change is refused for protected jobs; otherwise the plan runs in the
/// `system` domain with administrator rights when `scope` is `"system"`, and
/// directly in the user's domain for everything else.
pub fn set_job_enabled(label: &str, path: &str, scope: &str, enable: bool, uid: &str) -> (r: Result<Operation, String>)
    ensures
        match r {
            Ok(op) => {
                &&& guard_of(label@, path@, scope@) is None
                &&& steps_spec(op.steps@) == toggle_steps(label@, path@, scope@, enable, uid@)
                &&& op.privileged == (scope@ == "system"@)
                &&& op.done@ == label@ + if enable {
                    " enabled"@
                } else {
                    " disabled"@
                }
            },
            Err(e) => guard_of(label@, path@, scope@) == Some(e@),
        },
{
    guard_protected(label, path, scope)?;
    let is_daemon = eq_str(&chars_of(scope), "system");
    let domain = string_of(&domain_chars(scope, uid));
    let target = string_of(&target_chars(label, scope, uid));
    let steps = if enable {
        let a = step2("enable", target.as_str(), true);
        let b = step3("bootstrap", domain.as_str(), path, false);
        two_steps(a, b)
    } else {
        let a = step2("bootout", target.as_str(), false);
        let b = step2("disable", target.as_str(), true);
        two_steps(a, b)
    };
    let mut done = chars_of(label);
    extend_str(&mut done, if enable { " enabled" } else { " disabled" });
    let op = Operation { steps, privileged: is_daemon, done: string_of(&done) };
    assert(steps_spec(op.steps@) =~= toggle_steps(label@, path@, scope@, enable, uid@));
    Ok(op)
}

/// The message for a job file that is not there.
pub open spec fn missing_file_message(path: Seq<char>) -> Seq<char> {
    "No such file: "@ + path
}

/// Decide whether a delete may go ahead: refused for protected jobs, and an
/// error when `is_file` says the job's file is not there.
pub fn delete_precheck(label: &str, path: &str, scope: &str, is_file: bool) -> (r: Result<(), String>)
    ensures
        match r {
            Ok(()) => guard_of(label@, path@, scope@) is None && is_file,
            Err(e) => match guard_of(label@, path@, scope@) {
                Some(m) => e@ == m,
                None => !is_file && e@ == missing_file_message(path@),
            },
        },
{
    guard_protected(label, path, scope)?;
    if !is_file {
        let mut v = chars_of("No such file: ");
        extend_str(&mut v, path);
        return Err(string_of(&v));
    }
    Ok(())
}

/// The steps of a delete, both best-effort: unload the job, and clear its
/// disabled-database entry so a future job with the label starts enabled.
pub open spec fn delete_steps(label: Seq<char>, scope: Seq<char>, uid: Seq<char>) -> Seq<(Seq<Seq<char>>, bool)> {
    let target = target_for(label, scope, uid);
    seq![(seq!["bootout"@, target], false), (seq!["enable"@, target], false)]
}

/// The shell command that moves the job's file to `dest`.
pub open spec fn move_command(path: Seq<char>, dest: Seq<char>) -> Seq<char> {
    "/bin/mv "@ + shell_quoted(path) + " "@ + shell_quoted(dest)
}

/// A planned delete: the steps that unload the job, whether they (and the
/// move) need administrator rights, the shell command for a privileged move,
/// and the confirmation.
#[derive(Debug)]
pub struct Removal {
    pub steps: Vec<Step>,
    pub privileged: bool,
    pub move_command: String,
    pub done: String,
}

/// Plan moving a job's file to `dest` in the Trash, after
/// [`delete_precheck`] has let it through.
///
/// Only the user's own directory is writable without administrator rights,
/// so every scope but `"user"` goes through the privileged path.
pub fn delete_plan(label: &str, path: &str, scope: &str, uid: &str, dest: &str) -> (r: Removal)
    ensures
        steps_spec(r.steps@) == delete_steps(label@, scope@, uid@),
        r.privileged == (scope@ != "user"@),
        r.move_command@ == move_command(path@, dest@),
        r.done@ == label@ + " moved to Trash"@,
{
    let target = string_of(&target_chars(label, scope, uid));
    let a = step2("bootout", target.as_str(), false);
    let b = step2("enable", target.as_str(), false);
    let steps = two_steps(a, b);
    let privileged = !eq_str(&chars_of(scope), "user");
    let mut mv = chars_of("/bin/mv ");
    extend(&mut mv, &quote_chars(&chars_of(path)));
    extend_str(&mut mv, " ");
    extend(&mut mv, &quote_chars(&chars_of(dest)));
    let mut done = chars_of(label);
    extend_str(&mut done, " moved to Trash");
    let r = Removal { steps, privileged, move_command: string_of(&mv), done: string_of(&done) };
    assert(steps_spec(r.steps@) =~= delete_steps(label@, scope@, uid@));
    r
}

/// The name a deleted file is given in the Trash: its own file name.
pub fn trash_entry_name(path: &str) -> (r: Result<String, String>)
    ensures
        match r {
            Ok(n) => file_name(path@) == Some(n@),
            Err(e) => file_name(path@) is None && e@ == "Bad file name"@,
        },
{
    match file_name_of(&chars_of(path)) {
        Some(n) => Ok(string_of(&n)),
        None => Err(string_from("Bad file name")),
    }
}

/// The name used instead when the Trash already holds one of that name:
/// the file's stem, a dash, the Unix time `secs`, and `.plist`.
pub open spec fn trash_fallback(path: Seq<char>, secs: int) -> Seq<char> {
    let stem = match file_stem(path) {
        Some(st) => st,
        None => "job"@,
    };
    stem + "-"@ + decimal(secs) + ".plist"@
}

/// The name used when the Trash already holds a file of the same name, so
/// nothing there is overwritten.
pub fn trash_fallback_name(path: &str, secs: u64) -> (r: String)
    ensures
        r@ == trash_fallback(path@, secs as int),
{
    let mut v = match file_stem_of(&chars_of(path)) {
        Some(st) => st,
        None => chars_of("job"),
    };
    extend_str(&mut v, "-");
    extend(&mut v, &fmt_u64(secs));
    extend_str(&mut v, ".plist");
    string_of(&v)
}

// ---------------------------------------------------------------------------
// Running steps
// ---------------------------------------------------------------------------

/// How one `launchctl` run ended.
#[derive(Debug)]
pub enum StepOutcome {
    /// It ran and exited successfully.
    Succeeded,
    /// It ran and failed, printing `stderr`.
    Failed { stderr: String },
    /// It could not be started; `error` is the reason.
    NotStarted { error: String },
}

/// The error that stops a direct run after `outcome`, if it does: only a
/// critical step stops it, with launchctl's message, or a message of its own
/// when launchctl printed nothing.
pub open spec fn direct_error(args: Seq<Seq<char>>, critical: bool, outcome: StepOutcome) -> Option<Seq<char>> {
    match outcome {
        StepOutcome::Succeeded => None,
        StepOutcome::Failed { stderr } => if critical {
            let e = trim(stderr@);
            if e.len() == 0 {
                Some("launchctl "@ + join(args, " "@) + " failed"@)
            } else {
                Some(e)
            }
        } else {
            None
        },
        StepOutcome::NotStarted { error } => if critical {
            Some(error@)
        } else {
            None
        },
    }
}

/// Decide what one step's outcome means when steps run directly, without a
/// shell: `Some` error aborts the operation, `None` goes on to the next step.
pub fn direct_step_error(s: &Step, outcome: &StepOutcome) -> (r: Option<String>)
    ensures
        match r {
            Some(e) => direct_error(step_args(*s), s.critical, *outcome) == Some(e@),
            None => direct_error(step_args(*s), s.critical, *outcome) is None,
        },
{
    if !s.critical {
        return None;
    }
    match outcome {
        StepOutcome::Succeeded => None,
        StepOutcome::Failed { stderr } => {
            let e = trim_chars(&chars_of(stderr.as_str()));
            if e.len() == 0 {
                let mut words: Vec<Vec<char>> = Vec::new();
                for i in 0..s.args.len()
                    invariant
                        words@.map_values(|v: Vec<char>| v@) == step_args(*s).take(i as int),
                {
                    let w = chars_of(s.args[i].as_str());
                    let ghost before = words@.map_values(|v: Vec<char>| v@);
                    words.push(w);
                    assert(words@.map_values(|v: Vec<char>| v@) =~= before.push(w@));
                    assert(step_args(*s).take(i + 1) =~= step_args(*s).take(i as int).push(s.args@[i as int]@));
                }
                assert(step_args(*s).take(s.args.len() as int) =~= step_args(*s));
                let mut m = chars_of("launchctl ");
                extend(&mut m, &join_chars(&words, " "));
                extend_str(&mut m, " failed");
                Some(string_of(&m))
            } else {
                Some(string_of(&e))
            }
        },
        StepOutcome::NotStarted { error } => Some(error.clone()),
    }
}

/// Whether each step's run succeeded.
pub open spec fn succeeded(outcomes: Seq<StepOutcome>) -> Seq<bool> {
    outcomes.map_values(|o: StepOutcome| o is Succeeded)
}

/// How a direct run of `steps` ends when the run of step `k` ends with
/// `outcomes[k]`: the steps run in order, each checked with
/// [`direct_step_error`], and the first error stops the run.
pub open spec fn direct_run(steps: Seq<(Seq<Seq<char>>, bool)>, outcomes: Seq<StepOutcome>) -> Result<(), Seq<char>>
    decreases steps.len(),
{
    if steps.len() == 0 {
        Ok(())
    } else {
        match direct_error(steps[0].0, steps[0].1, outcomes[0]) {
            Some(e) => Err(e),
            None => direct_run(steps.drop_first(), outcomes.drop_first()),
        }
    }
}

/// How many steps a direct run starts before it ends.
pub open spec fn direct_steps_run(steps: Seq<(Seq<Seq<char>>, bool)>, outcomes: Seq<StepOutcome>) -> nat
    decreases steps.len(),
{
    if steps.len() == 0 {
        0
    } else {
        match direct_error(steps[0].0, steps[0].1, outcomes[0]) {
            Some(_) => 1,
            None => 1 + direct_steps_run(steps.drop_first(), outcomes.drop_first()),
        }
    }
}

/// What enabling or disabling a job ends with when the plan that
/// [`set_job_enabled`] gives is carried out: the refusal, when the job is
/// protected; otherwise the confirmation, or the error of the run. A plan
/// in the user's domain runs directly ([`direct_run`]); one in the `system`
/// domain runs as one script with administrator rights, which either never
/// ran (`dialog` holds what `osascript` printed then, such as the user
/// dismissing the dialog) or ran and exited as [`shell_run`] says, with
/// `script_stderr` printed when it failed.
pub open spec fn toggle_run(
    label: Seq<char>,
    path: Seq<char>,
    scope: Seq<char>,
    enable: bool,
    uid: Seq<char>,
    outcomes: Seq<StepOutcome>,
    dialog: Option<Seq<char>>,
    script_stderr: Seq<char>,
) -> Result<Seq<char>, Seq<char>> {
    match guard_of(label, path, scope) {
        Some(m) => Err(m),
        None => {
            let steps = toggle_steps(label, path, scope, enable, uid);
            let run = if scope == "system"@ {
                match dialog {
                    Some(e) => Err(privileged_error(e)),
                    None => if shell_run(chain(steps), succeeded(outcomes)).0 {
                        Ok(())
                    } else {
                        Err(privileged_error(script_stderr))
                    },
                }
            } else {
                direct_run(steps, outcomes)
            };
            match run {
                Ok(()) => Ok(
                    label + if enable {
                        " enabled"@
                    } else {
                        " disabled"@
                    },
                ),
                Err(e) => Err(e),
            }
        },
    }
}

/// The AppleScript string-literal body for `s`: backslashes and double
/// quotes escaped with a backslash.
pub open spec fn applescript_escaped(s: Seq<char>) -> Seq<char>
    decreases s.len(),
{
    if s.len() == 0 {
        Seq::<char>::empty()
    } else {
        applescript_escaped(s.drop_last()) + if s.last() == '\\' {
            seq!['\\', '\\']
        } else if s.last() == '"' {
            seq!['\\', '"']
        } else {
            seq![s.last()]
        }
    }
}

/// The AppleScript that runs `script` as an administrator.
pub open spec fn applescript_of(script: Seq<char>) -> Seq<char> {
    "do shell script \""@ + applescript_escaped(script) + "\" with administrator privileges"@
}

/// The AppleScript that runs a shell script with administrator privileges,
/// which shows the native authentication dialog.
pub fn privileged_applescript(script: &str) -> (r: String)
    ensures
        r@ == applescript_of(script@),
{
    let s = chars_of(script);
    let mut body: Vec<char> = Vec::new();
    for i in 0..s.len()
        invariant
            body@ == applescript_escaped(s@.take(i as int)),
    {
        assert(s@.take(i + 1).drop_last() =~= s@.take(i as int));
        assert(s@.take(i + 1).last() == s@[i as int]);
        if s[i] == '\\' {
            body.push('\\');
            body.push('\\');
        } else if s[i] == '"' {
            body.push('\\');
            body.push('"');
        } else {
            body.push(s[i]);
        }
        assert(body@ =~= applescript_escaped(s@.take(i + 1)));
    }
    assert(s@.take(s.len() as int) =~= s@);
    let mut v = chars_of("do shell script \"");
    extend(&mut v, &body);
    extend_str(&mut v, "\" with administrator privileges");
    string_of(&v)
}

/// What a failed privileged run reports: `"Cancelled"` when the user
/// dismissed the dialog (AppleScript error -128), otherwise its message.
pub open spec fn privileged_error(stderr: Seq<char>) -> Seq<char> {
    let e = trim(stderr);
    if contains_seq(e, "User canceled"@) || contains_seq(e, "-128"@) {
        "Cancelled"@
    } else if e.len() == 0 {
        "Privileged command failed"@
    } else {
        e
    }
}

/// The error a privileged run that exited unsuccessfully returns.
pub fn privileged_failure(stderr: &str) -> (r: String)
    ensures
        r@ == privileged_error(stderr@),
{
    let e = trim_chars(&chars_of(stderr));
    if contains_str(&e, "User canceled") || contains_str(&e, "-128") {
        string_from("Cancelled")
    } else if e.len() == 0 {
        string_from("Privileged command failed")
    } else {
        string_of(&e)
    }
}

/// The current user's numeric id from the output of `id -u`, trimmed, or
/// `"501"` (the first macOS account) when that output is unavailable.
pub fn uid(id_output: Option<&str>) -> (r: String)
    ensures
        r@ == match id_output {
            Some(out) => trim(out@),
            None => "501"@,
        },
{
    match id_output {
        Some(out) => string_of(&trim_chars(&chars_of(out))),
        None => string_from("501"),
    }
}

} // verus!
