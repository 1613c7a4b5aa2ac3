use warframe_api_helper::ee_log::{
    account_id_from_log_content, ee_log_paths, extract_from_account_id_line,
    extract_from_logged_in, extract_hex_string,
};

#[test]
fn logged_in_line() {
    let log = "12.3 Sys [Info]: Logged in Tenno (0123456789abcdef01234567)\n";
    assert_eq!(extract_from_logged_in(log).as_deref(), Some("0123456789abcdef01234567"));
    assert_eq!(account_id_from_log_content(log).as_deref(), Some("0123456789abcdef01234567"));
}

#[test]
fn account_id_line() {
    let log = "AccountId:   abcdefabcdefabcdefabcdef\n";
    assert_eq!(extract_from_account_id_line(log).as_deref(), Some("abcdefabcdefabcdefabcdef"));
    assert_eq!(extract_from_logged_in(log), None);
    assert_eq!(account_id_from_log_content(log).as_deref(), Some("abcdefabcdefabcdefabcdef"));
}

#[test]
fn hex_fallback_skips_longer_runs() {
    let log = "id 0123456789abcdef0123456789 then 111111111111111111111111 end";
    assert_eq!(extract_hex_string(log).as_deref(), Some("111111111111111111111111"));
    assert_eq!(account_id_from_log_content(log).as_deref(), Some("111111111111111111111111"));
    assert_eq!(extract_hex_string("abcabc"), None);
}

#[test]
fn hex_at_text_edges() {
    assert_eq!(
        extract_hex_string("0123456789abcdef01234567").as_deref(),
        Some("0123456789abcdef01234567")
    );
}

#[test]
fn empty_log_has_no_id() {
    assert_eq!(account_id_from_log_content(""), None);
}

#[test]
fn log_paths_in_order() {
    let ps = ee_log_paths(Some("C:\\L"), Some("/home/t"), None);
    assert_eq!(ps.len(), 5);
    assert_eq!(ps[0], vec!["C:\\L", "Warframe", "EE.log"]);
    assert_eq!(ps[1][0..4].to_vec(), vec!["/home/t", ".local", "share", "Steam"]);
    assert_eq!(ps[1].last().unwrap(), "EE.log");
    assert_eq!(ps[2][1..4].to_vec(), vec![".var", "app", "com.valvesoftware.Steam"]);
    assert_eq!(
        ps[3],
        vec!["/home/t", ".wine", "drive_c", "users", "steamuser", "AppData", "Local", "Warframe", "EE.log"]
    );
    assert_eq!(ps[4], vec!["EE.log"]);
    let ps = ee_log_paths(None, Some("/h"), Some("me"));
    assert_eq!(ps.len(), 4);
    assert_eq!(ps[2][4], "me");
    let ps = ee_log_paths(None, None, None);
    assert_eq!(ps, vec![vec!["EE.log".to_string()]]);
}

#[test]
fn logged_in_takes_the_first_line_whose_parenthesis_holds_an_id() {
    let log = "Logged in Bob (guest) x\nLogged in Ann (abcdefabcdefabcdefabcdef)\nLogged in Cy (0123456789abcdef01234567)";
    assert_eq!(extract_from_logged_in(log).as_deref(), Some("abcdefabcdefabcdefabcdef"));
}

#[test]
fn account_id_line_skips_any_white_space() {
    let log = "AccountId: nope\nAccountId:\t  0123456789abcdef01234567";
    assert_eq!(extract_from_account_id_line(log).as_deref(), Some("0123456789abcdef01234567"));
}
