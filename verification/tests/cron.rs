use jobs::cron::{decode_cron, decode_cron_keyword, list_cron_jobs, parse_cron_text, CronSource};
use jobs::policy::{Permission, Refusal, Status};
use jobs::types::Scope;

#[test]
fn skips_comments_and_environment_lines() {
    let mut jobs = Vec::new();
    parse_cron_text("# a comment\nPATH=/usr/bin\n\n30 9 * * * /bin/echo hi\n", "crontab", false, &mut jobs);
    assert_eq!(jobs.len(), 1);
    assert_eq!(jobs[0].schedule_human, "Daily at 09:30");
    assert_eq!(jobs[0].program, "/bin/echo hi");
}

#[test]
fn system_crontabs_split_off_the_user_field() {
    let mut jobs = Vec::new();
    parse_cron_text("0 * * * * root /usr/sbin/thing --flag\n", "/etc/crontab", true, &mut jobs);
    assert_eq!(jobs[0].program, "[root] /usr/sbin/thing --flag");
    assert_eq!(jobs[0].schedule_human, "Every hour at :00");
    assert_eq!(jobs[0].label, "crontab:1");
}

#[test]
fn complex_expressions_fall_through_to_the_raw_fields() {
    assert_eq!(decode_cron("*/15", "*", "*", "*", "*"), "cron: */15 * * * *");
}

#[test]
fn cron_shapes_in_english() {
    assert_eq!(decode_cron("*", "*", "*", "*", "*"), "Every minute");
    assert_eq!(decode_cron("5", "*", "*", "*", "*"), "Every hour at :05");
    assert_eq!(decode_cron("0", "7", "*", "*", "1"), "Every Monday at 07:00");
    assert_eq!(decode_cron("0", "7", "*", "*", "7"), "Every Sunday at 07:00");
    assert_eq!(decode_cron("0", "7", "1", "*", "*"), "cron: 0 7 1 * *");
    assert_eq!(decode_cron("+3", "-1", "*", "*", "*"), "Daily at -1:03");
}

#[test]
fn cron_keywords() {
    assert_eq!(decode_cron_keyword("@reboot"), "At startup");
    assert_eq!(decode_cron_keyword("@annually"), "Yearly (Jan 1, 00:00)");
    assert_eq!(decode_cron_keyword("@yearly"), "Yearly (Jan 1, 00:00)");
    assert_eq!(decode_cron_keyword("@monthly"), "Monthly (day 1, 00:00)");
    assert_eq!(decode_cron_keyword("@weekly"), "Weekly (Sunday 00:00)");
    assert_eq!(decode_cron_keyword("@midnight"), "Daily at 00:00");
    assert_eq!(decode_cron_keyword("@hourly"), "Hourly (at :00)");
    assert_eq!(decode_cron_keyword("@sometimes"), "@sometimes");
}

#[test]
fn keyword_lines_keep_environment_looking_commands() {
    let mut jobs = Vec::new();
    parse_cron_text("@reboot FOO=bar /bin/run\n", "crontab -l (this user)", false, &mut jobs);
    assert_eq!(jobs.len(), 1);
    assert_eq!(jobs[0].schedule_human, "At startup");
    assert_eq!(jobs[0].program, "FOO=bar /bin/run");
    assert_eq!(jobs[0].label, "crontab -l (this user):1");
    assert_eq!(jobs[0].scope, Scope::User);
    assert_eq!(jobs[0].kind, "cron");
    assert_eq!(jobs[0].source_group, "Cron");
    assert!(jobs[0].args.is_empty());
}

#[test]
fn short_lines_are_skipped_and_labels_count_every_line() {
    let mut jobs = Vec::new();
    parse_cron_text("1 2 3\n\n  15 3 * * 0   /bin/weekly  \r\n", "/etc/cron.d/tasks", true, &mut jobs);
    assert_eq!(jobs.len(), 1);
    assert_eq!(jobs[0].label, "tasks:3");
    assert_eq!(jobs[0].scope, Scope::System);
    assert_eq!(jobs[0].schedule_human, "Every Sunday at 03:15");
    assert_eq!(jobs[0].program, "[/bin/weekly] ");
}

#[test]
fn every_cron_line_is_scheduled_and_refused() {
    let mut jobs = Vec::new();
    parse_cron_text("0 0 * * * a\n0 1 * * * b\n", "crontab", false, &mut jobs);
    assert_eq!(jobs.len(), 2);
    assert_ne!(jobs[0].label, jobs[1].label);
    for j in &jobs {
        assert_eq!(j.status, Status::Scheduled);
        assert_eq!(j.permissions.toggle, Permission::Refused { reason: Refusal::Unsupported });
        assert_eq!(j.permissions.delete, Permission::Refused { reason: Refusal::Unsupported });
    }
}

#[test]
fn cron_sources_are_read_in_order() {
    let sources = vec![
        CronSource { text: "0 0 * * * a\n".to_string(), source: "crontab -l (this user)".to_string(), has_user_field: false },
        CronSource { text: "0 0 * * * root b\n".to_string(), source: "/etc/crontab".to_string(), has_user_field: true },
    ];
    let jobs = list_cron_jobs(&sources);
    assert_eq!(jobs.len(), 2);
    assert_eq!(jobs[0].program, "a");
    assert_eq!(jobs[1].program, "[root] b");
}

#[test]
fn cron_labels_follow_their_lines_in_order() {
    let mut jobs = Vec::new();
    parse_cron_text("# header\n0 0 * * * a\nFOO=1\n\n@daily b\n1 2 3\n5 4 * * * c\n", "/var/at/tabs/me", false, &mut jobs);
    let labels: Vec<&str> = jobs.iter().map(|j| j.label.as_str()).collect();
    assert_eq!(labels, vec!["me:2", "me:5", "me:7"]);
    assert_eq!(jobs[1].program, "b");
}
