# jobs

Scheduled jobs on a Mac, from launchd and cron, as one list with plain-English
schedules, a status, and what the user may do to each job.

- `src/` is the library, verified with Verus. Text is modelled as `Seq<char>`
  and every public function states its result over that model:
  - `text`, `paths`: the string and path operations the rest is built on;
  - `plist`: the part of a property list job definitions are read from, and
    reading one from bytes through the `plist` crate;
  - `table`: a map keyed by job label, for what `launchctl` reports;
  - `types`, `policy`: scopes, actions, jobs, statuses and permissions;
  - `launchd`, `cron`: turning plists and crontabs into jobs;
  - `actions`: planning enable, disable and delete as `launchctl` steps,
    and the shell script that runs them with administrator rights;
  - `laws`: properties that hold across these functions.
- `app/` reads the machine (commands, files, the home directory, the clock),
  hands plain values to the library, carries out the steps it plans, and
  holds the serialisable records the frontend receives.
- `tests/` runs the library on concrete inputs.
