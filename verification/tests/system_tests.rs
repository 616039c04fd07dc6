use watchman::system::find_by_cmd;
use watchman::system::get_by_cmd;
use watchman::system::get_by_pid;
use watchman::system::join;
use watchman::system::kill_by_pid;
use watchman::system::parse_command;
use watchman::system::probe_to_process;

// A pid no Linux system hands out: the kernel's pid_max is capped far
// below this value, so a probe for it reports the pid as absent.
const ABSENT_PID: i32 = 2_000_000_000;

fn own_pid_and_cmd() -> (i32, Vec<String>) {
    let pid = sysinfo::get_current_pid().expect("own pid");
    let mut sys = sysinfo::System::new();
    sys.refresh_processes_specifics(
        sysinfo::ProcessesToUpdate::Some(&[pid]),
        true,
        sysinfo::ProcessRefreshKind::everything(),
    );
    let proc = sys.process(pid).expect("own process table entry");
    let parts: Vec<String> = proc
        .cmd()
        .iter()
        .map(|p| p.to_string_lossy().into_owned())
        .collect();
    (pid.as_u32() as i32, parts)
}

#[test]
fn join_of_no_parts_is_empty() {
    assert_eq!(join(Vec::new()), "");
}

#[test]
fn join_of_one_part_is_the_part() {
    assert_eq!(join(vec!["sleep".to_string()]), "sleep");
}

#[test]
fn join_separates_parts_with_single_spaces() {
    let parts = vec!["sleep".to_string(), "5".to_string(), "x".to_string()];
    assert_eq!(join(parts), "sleep 5 x");
}

#[test]
fn join_skips_separator_while_nothing_is_joined() {
    let parts = vec![String::new(), "a".to_string()];
    assert_eq!(join(parts), "a");
}

#[test]
fn join_keeps_separator_after_a_joined_part() {
    let parts = vec!["a".to_string(), String::new()];
    assert_eq!(join(parts), "a ");
}

#[test]
fn parse_command_splits_on_spaces() {
    let tokens = parse_command("sleep 1").expect("two tokens");
    assert_eq!(tokens, vec!["sleep".to_string(), "1".to_string()]);
}

#[test]
fn parse_command_drops_extra_spaces() {
    let tokens = parse_command("  ls   -l  ").expect("two tokens");
    assert_eq!(tokens, vec!["ls".to_string(), "-l".to_string()]);
}

#[test]
fn a_joined_command_parses_back_to_its_parts() {
    let parts = vec!["nginx".to_string(), "-g".to_string(), "daemon".to_string()];
    let cmd = join(parts.clone());
    assert_eq!(parse_command(&cmd).unwrap(), parts);
}

#[test]
fn reparsing_a_normalized_command_is_stable() {
    let tokens = parse_command("  sleep   1 ").expect("two tokens");
    let normalized = join(tokens.clone());
    assert_eq!(normalized, "sleep 1");
    assert_eq!(parse_command(&normalized).expect("same tokens"), tokens);
}

#[test]
fn parse_command_rejects_the_empty_string() {
    let err = parse_command("").expect_err("no tokens");
    assert_eq!(err.message(), "Invalid command: ");
}

#[test]
fn parse_command_rejects_all_spaces() {
    let err = parse_command("   ").expect_err("no tokens");
    assert_eq!(err.message(), format!("Invalid command: {}", "   "));
}

#[test]
fn parse_command_rejects_whitespace_only_input() {
    // Any string whose trimmed form is empty fails fast, before a spawn
    // is ever attempted — not only strings made of spaces.
    for input in ["\t", "\n", "\r\n", " \t \n "] {
        let err = parse_command(input).expect_err("blank command");
        assert_eq!(err.message(), format!("Invalid command: {}", input));
    }
}

#[test]
fn parse_command_splits_on_spaces_only() {
    // A single space is the only token separator: other whitespace is
    // carried inside a token, it does not split one.
    let tokens = parse_command("a\tb c").expect("two tokens");
    assert_eq!(tokens, vec!["a\tb".to_string(), "c".to_string()]);
}

#[test]
fn get_by_pid_reports_an_absent_pid_as_none() {
    assert!(get_by_pid(ABSENT_PID).is_none());
}

#[test]
fn get_by_pid_finds_the_probing_process_itself() {
    let (pid, parts) = own_pid_and_cmd();
    let found = get_by_pid(pid).expect("own process is alive");
    assert_eq!(found.pid, pid);
    assert_eq!(found.cmd, join(parts));
}

#[test]
fn get_by_cmd_finds_a_live_command_line() {
    let (_pid, parts) = own_pid_and_cmd();
    let cmd = join(parts);
    let found = get_by_cmd(&cmd).expect("own command line is live");
    assert_eq!(found.cmd, cmd);
}

#[test]
fn get_by_cmd_reports_an_unknown_command_as_none() {
    let cmd = "no-such-program --with-an-argument-nobody-passes".to_string();
    assert!(get_by_cmd(&cmd).is_none());
}

#[test]
fn kill_by_pid_rejects_an_absent_pid() {
    assert!(!kill_by_pid(ABSENT_PID));
}

#[test]
fn probe_results_keep_the_pid_and_join_the_parts() {
    let probe = Some((vec!["sleep".to_string(), "5".to_string()], false));
    let found = probe_to_process(17, probe).expect("a live entry");
    assert_eq!(found.pid, 17);
    assert_eq!(found.cmd, "sleep 5");
}

#[test]
fn zombie_probe_results_count_as_absent() {
    let probe = Some((vec!["sleep".to_string(), "5".to_string()], true));
    assert!(probe_to_process(17, probe).is_none());
    assert!(probe_to_process(17, None).is_none());
}

#[test]
fn find_by_cmd_picks_the_first_matching_entry() {
    let entries = vec![
        (1, vec!["sleep".to_string(), "1".to_string()]),
        (2, vec!["sleep".to_string(), "5".to_string()]),
        (3, vec!["sleep".to_string(), "5".to_string()]),
    ];
    let found = find_by_cmd(entries, &"sleep 5".to_string()).expect("a match");
    assert_eq!(found.pid, 2);
    assert_eq!(found.cmd, "sleep 5");
}

#[test]
fn find_by_cmd_reports_no_match_as_none() {
    let entries = vec![(1, vec!["sleep".to_string(), "1".to_string()])];
    assert!(find_by_cmd(entries, &"sleep 5".to_string()).is_none());
}
