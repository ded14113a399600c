use jobs::actions::{guard_protected, script_for, step};
use jobs::launchd::parse_disabled_text;

#[test]
fn jobs_script_quotes_targets_and_swallows_best_effort_steps() {
    let steps = vec![
        step(&["bootout", "gui/501/com.example.job"], false),
        step(&["disable", "gui/501/com.example.job"], true),
    ];
    let expected = "{ /bin/launchctl 'bootout' 'gui/501/com.example.job' ; } || true && /bin/launchctl 'disable' 'gui/501/com.example.job'";
    assert_eq!(script_for(&steps), expected);
}

#[test]
fn jobs_parses_both_spellings_of_the_disabled_database() {
    let text = "\tdisabled services = {\n\
                \t\t\"com.example.off\" => disabled\n\
                \t\t\"com.example.on\" => enabled\n\
                \t\t\"com.example.legacy\" => true\n\
                \t}\n";
    let map = parse_disabled_text(text);
    assert_eq!(map.get("com.example.off"), Some(&true));
    assert_eq!(map.get("com.example.on"), Some(&false));
    assert_eq!(map.get("com.example.legacy"), Some(&true));
    assert_eq!(map.len(), 3);
}

#[test]
fn jobs_guard_refuses_apple_and_system_volume() {
    assert!(guard_protected("com.apple.thing", "/Library/LaunchAgents/x.plist", "user").is_err());
    assert!(guard_protected("com.me.thing", "/System/Library/LaunchAgents/x.plist", "user").is_err());
    assert!(guard_protected("com.me.thing", "/Library/LaunchAgents/x.plist", "user").is_ok());
}
