use warframe_api_helper::process::{UnixSearch, UnixSearchStep};
use warframe_api_helper::output::{Colors, OutputFormatter};
use warframe_api_helper::process::ProcessFinder;
use warframe_api_helper::search_workflow::SearchWorkflow;
use warframe_api_helper::types::Match;

#[test]
fn colors_enabled_only_on_tty_without_no_color() {
    assert!(Colors::should_enable(true, false));
    assert!(!Colors::should_enable(true, true));
    assert!(!Colors::should_enable(false, false));
}

#[test]
fn platform_colors() {
    assert_eq!(Colors::get_platform_color("Windows"), "\x1b[31m");
    assert_eq!(Colors::get_platform_color("Darwin"), "\x1b[38;5;202m");
    assert_eq!(Colors::get_platform_color("Linux"), "\x1b[38;5;27m");
    assert_eq!(Colors::get_platform_color("Plan9"), "\x1b[38;5;99m");
}

#[test]
fn context_text_marks_unprintable_bytes() {
    assert_eq!(OutputFormatter::format_context_text(b"ab\x00c\xff~ "), "ab\u{2047}c\u{2047}~ ");
    assert_eq!(OutputFormatter::format_context_text(b""), "");
}

#[test]
fn formatter_settings() {
    let f = OutputFormatter::new(true);
    assert!(f.colors_enabled && !f.verbose);
    let f = OutputFormatter::with_verbose(false, true);
    assert!(!f.colors_enabled && f.verbose);
}

#[test]
fn colored_lines() {
    let f = OutputFormatter::with_verbose(true, false);
    assert_eq!(f.colored_line(Colors::GREEN, "ok"), "\x1b[32mok\x1b[0m");
    let f = OutputFormatter::with_verbose(false, false);
    assert_eq!(f.colored_line(Colors::GREEN, "ok"), "ok");
}

#[test]
fn platform_banner() {
    let f = OutputFormatter::new(false);
    let lines = f.platform_info_lines("Linux");
    assert_eq!(lines, vec!["Platform: Linux".to_string(), "=".repeat(65)]);
    let f = OutputFormatter::new(true);
    let lines = f.platform_info_lines("Linux");
    assert_eq!(lines[0], "\x1b[35mPlatform:\x1b[0m \x1b[38;5;27mLinux\x1b[0m");
}

#[test]
fn match_report_only_in_verbose_mode() {
    let m = Match::from_process_memory("?accountId=x&nonce=1".to_string(), 255, "a-b".to_string(), b"x\x01".to_vec());
    assert!(OutputFormatter::new(false).match_lines(&m).is_empty());
    let lines = OutputFormatter::with_verbose(false, true).match_lines(&m);
    assert_eq!(
        lines,
        vec![
            "  *** ACCOUNT ID FOUND ***".to_string(),
            "  Address: 0xff".to_string(),
            "  Region: a-b".to_string(),
            "  String: ?accountId=x&nonce=1".to_string(),
            "  Context: x\u{2047}".to_string(),
            String::new(),
        ]
    );
    let lines = OutputFormatter::with_verbose(true, true).match_lines(&m);
    assert_eq!(lines[0], "  \x1b[32m*** ACCOUNT ID FOUND ***\x1b[0m");
    assert_eq!(lines[1], "  \x1b[36mAddress:\x1b[0m 0xff");
}

#[test]
fn search_banner_and_results() {
    let f = OutputFormatter::new(false);
    let b = SearchWorkflow::search_banner(&f, 4321);
    assert_eq!(b[0], "=== Running Process Memory (by region) ===");
    assert_eq!(b[1], "Searching for '?accountId=' and '&nonce=' in Warframe process (PID 4321)...");
    let r = SearchWorkflow::result_lines(&f, &[]);
    assert_eq!(r, vec!["No matches found in running process memory".to_string()]);
    let m = Match::from_process_memory("s".to_string(), 1, "r".to_string(), vec![]);
    let r = SearchWorkflow::result_lines(&f, &[m.clone(), m]);
    assert_eq!(r, vec!["Found 2 occurrence(s):".to_string()]);
    let v = OutputFormatter::with_verbose(false, true);
    let m = Match::from_process_memory("s".to_string(), 1, "r".to_string(), vec![]);
    assert_eq!(SearchWorkflow::result_lines(&v, &[m]).len(), 7);
}

#[test]
fn scanner_looks_for_account_marker() {
    let s = SearchWorkflow::scanner();
    let ms = s.search_in_data(b"..?accountId=0123456789abcdef01234567&nonce=3", 0, "r", true);
    assert_eq!(ms.len(), 1);
}

#[test]
fn tasklist_output() {
    let out = "\"Warframe.x64.exe\",\"1234\",\"Console\",\"1\",\"2,000,000 K\"\r\n";
    assert_eq!(ProcessFinder::pid_from_tasklist(out), Some(1234));
    let out = "INFO: No tasks are running which match the specified criteria.\r\n";
    assert_eq!(ProcessFinder::pid_from_tasklist(out), None);
    let out = "\"Warframe.x64.exe\",\"x\",\"C\"\n\"Warframe.x64.exe\",\"77\"\n";
    assert_eq!(ProcessFinder::pid_from_tasklist(out), Some(77));
}

#[test]
fn pgrep_output() {
    assert_eq!(ProcessFinder::pid_from_pgrep("4242\n4343\n"), Some(4242));
    assert_eq!(ProcessFinder::pid_from_pgrep("  99 extra\n"), Some(99));
    assert_eq!(ProcessFinder::pid_from_pgrep(""), None);
    assert_eq!(ProcessFinder::pid_from_pgrep("abc\n"), None);
    assert_eq!(ProcessFinder::pid_from_pgrep("+7\n"), Some(7));
    assert_eq!(ProcessFinder::pid_from_pgrep("4294967296\n"), None);
}

#[test]
fn ps_output() {
    let out = "USER PID %CPU\nroot 1 0.0 init\ntenno   555  9.9 Z:\\Warframe.x64.exe -x\n";
    assert_eq!(ProcessFinder::pid_from_ps(out), Some(555));
    let out = "tenno 12 0 Warframe.x64.ex\n";
    assert_eq!(ProcessFinder::pid_from_ps(out), Some(12));
    assert_eq!(ProcessFinder::pid_from_ps("root 1 init\n"), None);
}

#[test]
fn process_messages() {
    assert_eq!(
        ProcessFinder::found_message(Some("Warframe.x64.exe"), 10),
        "Found Warframe process: Warframe.x64.exe (PID: 10)"
    );
    assert_eq!(ProcessFinder::found_message(None, 0), "Found Warframe process (PID: 0)");
    assert!(ProcessFinder::searches_with_tasklist("Windows"));
    assert!(!ProcessFinder::searches_with_tasklist("Linux"));
}

#[test]
fn unix_search_order() {
    assert!(matches!(
        ProcessFinder::next_unix_search(UnixSearch::PgrepFull, None),
        UnixSearchStep::Run(UnixSearch::PgrepTruncated)
    ));
    assert!(matches!(
        ProcessFinder::next_unix_search(UnixSearch::PgrepTruncated, Some("")),
        UnixSearchStep::Run(UnixSearch::Ps)
    ));
    assert!(matches!(ProcessFinder::next_unix_search(UnixSearch::Ps, Some("nothing\n")), UnixSearchStep::NotFound));
    match ProcessFinder::next_unix_search(UnixSearch::PgrepTruncated, Some("4321\n")) {
        UnixSearchStep::Found(pid, msg) => {
            assert_eq!(pid, 4321);
            assert_eq!(msg, "Found Warframe process: Warframe.x64.ex (PID: 4321)");
        }
        other => panic!("unexpected {:?}", other),
    }
    let ps = "user 77 0.0 Warframe.x64.exe\n";
    match ProcessFinder::next_unix_search(UnixSearch::Ps, Some(ps)) {
        UnixSearchStep::Found(pid, msg) => {
            assert_eq!(pid, 77);
            assert_eq!(msg, "Found Warframe process (PID: 77)");
        }
        other => panic!("unexpected {:?}", other),
    }
}
