use jobs::launchd::{
    decode_calendar, decode_launchd_schedule, human_duration, launchd_domains, list_launchd_jobs, month_name,
    job_of_plist, parse_disabled_text, parse_launchctl_list, parse_launchd_plist, plural, DomainScan, PlistFile,
};
use jobs::plist::{Dictionary, PlistValue};
use jobs::policy::{Permission, Refusal, Status};
use jobs::table::LabelMap;
use jobs::types::Scope;

fn dict(entries: Vec<(&str, PlistValue)>) -> Dictionary {
    Dictionary { entries: entries.into_iter().map(|(k, v)| (k.to_string(), v)).collect() }
}

fn num(i: i64) -> PlistValue {
    PlistValue::Integer(Some(i))
}

fn s(t: &str) -> PlistValue {
    PlistValue::String(t.to_string())
}

#[test]
fn launchd_parses_both_spellings_of_the_disabled_database() {
    let text = "\tdisabled services = {\n\
                \t\t\"com.example.off\" => disabled\n\
                \t\t\"com.example.on\" => enabled\n\
                \t\t\"com.example.legacy\" => true\n\
                \t}\n";
    let map = parse_disabled_text(text);
    assert_eq!(map.get("com.example.off"), Some(&true));
    assert_eq!(map.get("com.example.on"), Some(&false));
    assert_eq!(map.get("com.example.legacy"), Some(&true));
    assert_eq!(map.len(), 3);
}

#[test]
fn unknown_disabled_spellings_are_skipped_and_later_lines_win() {
    let map = parse_disabled_text("\"a\" => maybe\n\"b\" => false\n\"b\" => true\n\"\" => true\nno arrow\n");
    assert_eq!(map.get("a"), None);
    assert_eq!(map.get("b"), Some(&true));
    assert_eq!(map.len(), 1);
}

#[test]
fn launchctl_list_rows() {
    let text = "PID\tStatus\tLabel\n431\t0\tcom.example.running\n-\t78\tcom.example.idle\nbad row\n-\t-\t  \n";
    let map = parse_launchctl_list(text);
    assert_eq!(map.get("com.example.running"), Some(&(Some(431), Some(0))));
    assert_eq!(map.get("com.example.idle"), Some(&(None, Some(78))));
    assert!(!map.contains_key("PID"));
    assert_eq!(map.len(), 2);
}

#[test]
fn durations_promote_only_exact_multiples() {
    assert_eq!(human_duration(7200), "2 hours");
    assert_eq!(human_duration(3600), "1 hour");
    assert_eq!(human_duration(5400), "5400 seconds");
    assert_eq!(human_duration(90000), "90000 seconds");
    assert_eq!(human_duration(60), "1 minute");
    assert_eq!(human_duration(120), "2 minutes");
    assert_eq!(human_duration(300), "5 minutes");
    assert_eq!(human_duration(3660), "3660 seconds");
    assert_eq!(human_duration(86400), "1 day");
    assert_eq!(human_duration(172800), "2 days");
    assert_eq!(human_duration(61), "61 seconds");
    assert_eq!(human_duration(1), "1 second");
    assert_eq!(human_duration(0), "0s");
    assert_eq!(human_duration(-5), "-5s");
    assert_eq!(plural(1), "");
    assert_eq!(plural(2), "s");
}

#[test]
fn months() {
    assert_eq!(month_name(1), "January");
    assert_eq!(month_name(12), "December");
    assert_eq!(month_name(13), "month 13");
    assert_eq!(month_name(0), "month 0");
}

#[test]
fn calendar_examples() {
    assert_eq!(decode_calendar(&dict(vec![("Hour", num(9)), ("Minute", num(30))])), "Daily at 09:30");
    assert_eq!(decode_calendar(&dict(vec![("Weekday", num(1))])), "Every Monday at 00:00");
    assert_eq!(decode_calendar(&dict(vec![("Month", num(1)), ("Day", num(15))])), "On January 15 at 00:00");
    assert_eq!(decode_calendar(&dict(vec![("Minute", num(5))])), "Every hour at :05");
    assert_eq!(decode_calendar(&dict(vec![("Hour", num(4))])), "Daily at 04:00");
    assert_eq!(decode_calendar(&dict(vec![("Day", num(3)), ("Hour", num(23))])), "On day 3 of the month at 23:00");
    assert_eq!(decode_calendar(&dict(vec![])), "On a calendar schedule");
    assert_eq!(decode_calendar(&dict(vec![("Weekday", num(7)), ("Minute", num(5))])), "Every Sunday at every hour at :05");
}

#[test]
fn schedules_join_every_trigger() {
    let d = dict(vec![
        ("RunAtLoad", PlistValue::Boolean(true)),
        ("StartInterval", num(3600)),
        ("StartCalendarInterval", PlistValue::Array(vec![
            PlistValue::Dictionary(dict(vec![("Hour", num(9)), ("Minute", num(0))])),
            s("junk"),
            PlistValue::Dictionary(dict(vec![("Weekday", num(6))])),
        ])),
        ("WatchPaths", PlistValue::Array(vec![s("/tmp"), num(3), s("/var/log")])),
        ("QueueDirectories", PlistValue::Array(vec![s("/q")])),
        ("StartOnMount", PlistValue::Boolean(true)),
        ("KeepAlive", PlistValue::Dictionary(dict(vec![]))),
    ]);
    assert_eq!(
        decode_launchd_schedule(&d),
        "At login/boot · Every 1 hour · Daily at 09:00; Every Saturday at 00:00 · When path changes: /tmp, /var/log · When files queued in: /q · On volume mount · Kept running (restarted if it exits)"
    );
    assert_eq!(decode_launchd_schedule(&dict(vec![])), "On demand / manual");
    assert_eq!(
        decode_launchd_schedule(&dict(vec![("KeepAlive", PlistValue::Boolean(false)), ("RunAtLoad", PlistValue::Boolean(false))])),
        "On demand / manual"
    );
    assert_eq!(
        decode_launchd_schedule(&dict(vec![("WatchPaths", PlistValue::Array(vec![]))])),
        "On demand / manual"
    );
}

#[test]
fn the_domains_are_fixed() {
    let d = launchd_domains();
    assert_eq!(d.len(), 5);
    assert_eq!(d[0].dir, "Library/LaunchAgents");
    assert!(d[0].home);
    assert_eq!(d[2].scope, Scope::System);
    assert!(d[2].daemon);
    assert_eq!(d[4].group, "Apple Daemons");
}

#[test]
fn a_plist_becomes_a_job() {
    let domains = launchd_domains();
    let runtime = parse_launchctl_list("PID\tStatus\tLabel\n431\t0\tcom.me.agent\n");
    let disabled = LabelMap::new();
    let value = PlistValue::Dictionary(dict(vec![
        ("Label", s("com.me.agent")),
        ("ProgramArguments", PlistValue::Array(vec![s("/usr/bin/agent"), s("--daemon")])),
        ("StandardOutPath", s("/tmp/agent.log")),
        ("StartInterval", num(300)),
    ]));
    let job = job_of_plist("/Library/LaunchAgents/com.me.agent.plist", &domains[1], &runtime, &disabled, &value).unwrap();
    assert_eq!(job.label, "com.me.agent");
    assert_eq!(job.kind, "launchd");
    assert_eq!(job.scope, Scope::Global);
    assert_eq!(job.program, "/usr/bin/agent");
    assert_eq!(job.args, vec!["/usr/bin/agent", "--daemon"]);
    assert_eq!(job.schedule_human, "Every 5 minutes");
    assert_eq!(job.stdout_path.as_deref(), Some("/tmp/agent.log"));
    assert_eq!(job.stderr_path, None);
    assert_eq!(job.status, Status::Running { pid: 431 });
    assert_eq!(job.permissions.toggle, Permission::Editable);
    assert_eq!(job.permissions.delete, Permission::NeedsAdmin);
    assert_eq!(job.source_group, "Global Agents");
}

#[test]
fn an_apple_label_wins_over_its_directory_and_the_file_name_stands_in_for_a_label() {
    let domains = launchd_domains();
    let runtime = LabelMap::new();
    let mut disabled = LabelMap::new();
    disabled.insert("com.apple.thing".to_string(), true);
    let value = PlistValue::Dictionary(dict(vec![("Program", s("/bin/x")), ("Disabled", PlistValue::Boolean(false))]));
    let job = job_of_plist("/Library/LaunchAgents/com.apple.thing.plist", &domains[1], &runtime, &disabled, &value).unwrap();
    assert_eq!(job.label, "com.apple.thing");
    assert_eq!(job.scope, Scope::Apple);
    assert_eq!(job.status, Status::Disabled);
    assert_eq!(job.permissions.toggle, Permission::Refused { reason: Refusal::Apple });
    assert_eq!(job.program, "/bin/x");

    let not_a_dict = PlistValue::Array(vec![]);
    assert!(job_of_plist("/x.plist", &domains[0], &runtime, &disabled, &not_a_dict).is_none());
}

fn xml(body: &str) -> Vec<u8> {
    format!(
        "<?xml version=\"1.0\" encoding=\"UTF-8\"?>\n<!DOCTYPE plist PUBLIC \"-//Apple//DTD PLIST 1.0//EN\" \"http://www.apple.com/DTDs/PropertyList-1.0.dtd\">\n<plist version=\"1.0\">{}</plist>\n",
        body
    )
    .into_bytes()
}

#[test]
fn a_listing_skips_what_it_cannot_read() {
    let domains = launchd_domains();
    let runtime = LabelMap::new();
    let gui = LabelMap::new();
    let mut sys = LabelMap::new();
    sys.insert("com.me.daemon".to_string(), true);
    let scans = vec![
        DomainScan {
            domain: domains[0],
            files: vec![
                PlistFile { path: "/Users/me/Library/LaunchAgents/unreadable.plist".to_string(), bytes: None },
                PlistFile { path: "/Users/me/Library/LaunchAgents/broken.plist".to_string(), bytes: Some(b"not a plist <".to_vec()) },
                PlistFile { path: "/Users/me/Library/LaunchAgents/notes.txt".to_string(), bytes: Some(xml("<dict/>")) },
                PlistFile { path: "/Users/me/Library/LaunchAgents/list.plist".to_string(), bytes: Some(xml("<array/>")) },
                PlistFile { path: "/Users/me/Library/LaunchAgents/a.plist".to_string(), bytes: Some(xml("<dict/>")) },
            ],
        },
        DomainScan {
            domain: domains[2],
            files: vec![PlistFile {
                path: "/Library/LaunchDaemons/d.plist".to_string(),
                bytes: Some(xml("<dict><key>Label</key><string>com.me.daemon</string></dict>")),
            }],
        },
    ];
    let jobs = list_launchd_jobs(&scans, &runtime, &gui, &sys);
    assert_eq!(jobs.len(), 2);
    assert_eq!(jobs[0].label, "a");
    assert_eq!(jobs[0].status, Status::NotLoaded { last_exit: None });
    assert_eq!(jobs[0].schedule_human, "On demand / manual");
    assert_eq!(jobs[1].label, "com.me.daemon");
    assert_eq!(jobs[1].status, Status::Disabled);
    assert_eq!(jobs[1].permissions.toggle, Permission::NeedsAdmin);
}

#[test]
fn plist_bytes_are_read_into_a_job() {
    let domains = launchd_domains();
    let runtime = parse_launchctl_list("PID\tStatus\tLabel\n-\t78\tcom.me.nightly\n");
    let disabled = LabelMap::new();
    let bytes = xml(
        "<dict>\
         <key>Label</key><string>com.me.nightly</string>\
         <key>ProgramArguments</key><array><string>/usr/local/bin/backup</string><string>--all</string></array>\
         <key>StartCalendarInterval</key><dict><key>Hour</key><integer>3</integer><key>Minute</key><integer>30</integer></dict>\
         <key>StandardErrorPath</key><string>/tmp/nightly.err</string>\
         </dict>",
    );
    let job = parse_launchd_plist("/Users/me/Library/LaunchAgents/n.plist", &domains[0], &runtime, &disabled, &bytes).unwrap();
    assert_eq!(job.label, "com.me.nightly");
    assert_eq!(job.scope, Scope::User);
    assert_eq!(job.program, "/usr/local/bin/backup");
    assert_eq!(job.args, vec!["/usr/local/bin/backup", "--all"]);
    assert_eq!(job.schedule_human, "Daily at 03:30");
    assert_eq!(job.stderr_path.as_deref(), Some("/tmp/nightly.err"));
    assert_eq!(job.status, Status::Idle { last_exit: Some(78) });
    assert_eq!(job.source_path, "/Users/me/Library/LaunchAgents/n.plist");
}

#[test]
fn unreadable_or_non_dictionary_bytes_give_no_job() {
    let domains = launchd_domains();
    let runtime = LabelMap::new();
    let disabled = LabelMap::new();
    assert!(parse_launchd_plist("/x.plist", &domains[0], &runtime, &disabled, b"").is_none());
    assert!(parse_launchd_plist("/x.plist", &domains[0], &runtime, &disabled, b"<plist><dict>").is_none());
    assert!(parse_launchd_plist("/x.plist", &domains[0], &runtime, &disabled, &xml("<string>hi</string>")).is_none());
    // With no label, the file name stands in.
    let job = parse_launchd_plist("/p/com.x.y.plist", &domains[0], &runtime, &disabled, &xml("<dict/>")).unwrap();
    assert_eq!(job.label, "com.x.y");
}

#[test]
fn the_last_row_for_a_label_wins_either_way() {
    let map = parse_disabled_text("\"x\" => true\n\"y\" => enabled\n\"x\" => false\n\"x\" => perhaps\n");
    assert_eq!(map.get("x"), Some(&false));
    assert_eq!(map.get("y"), Some(&false));
    assert_eq!(map.len(), 2);
}
