use warframe_api_helper::download_workflow::{DownloadWorkflow, WorkflowError};
use warframe_api_helper::nonce_path::{
    accept_account_id, account_id_from_args_or_env, credentials_from_auth, nonce_path_auth,
    select_nonce, NoncePathError,
};
use warframe_api_helper::types::Match;

fn m(s: &str) -> Match {
    Match::from_process_memory(s.to_string(), 1, "r".to_string(), vec![1, 2])
}

#[test]
fn account_name_prefers_field_order() {
    assert_eq!(
        DownloadWorkflow::extract_account_name(r#"{"name":"N","alias":"A"}"#),
        "A"
    );
    assert_eq!(DownloadWorkflow::extract_account_name(r#"{"Username":"U"}"#), "U");
    assert_eq!(
        DownloadWorkflow::extract_account_name(r#"{"playerName":7,"PlayerName":"P"}"#),
        "P"
    );
    assert_eq!(DownloadWorkflow::extract_account_name(r#"{"x":1}"#), "unknown");
    assert_eq!(DownloadWorkflow::extract_account_name("not json"), "unknown");
}

#[test]
fn credentials_from_best_match() {
    let ms = vec![m("?accountId=0123456789abcdef01234567&nonce=55")];
    assert_eq!(
        DownloadWorkflow::credentials_from_matches(&ms).unwrap(),
        ("0123456789abcdef01234567".to_string(), "55".to_string())
    );
    assert_eq!(
        DownloadWorkflow::credentials_from_matches(&[m("?accountId=1&nonce=2")]),
        Err(WorkflowError::NoAccountId)
    );
    let none: Vec<Match> = Vec::new();
    assert_eq!(DownloadWorkflow::credentials_from_matches(&none), Err(WorkflowError::NoAccountId));
}

#[test]
fn nonce_selection_order() {
    let s = |x: &str| Some(x.to_string());
    assert_eq!(select_nonce(s(" 1 "), s("2"), s("3")), s("1"));
    assert_eq!(select_nonce(None, s("2"), s("3")), s("2"));
    assert_eq!(select_nonce(None, None, s("3\n")), s("3"));
    assert_eq!(select_nonce(s("   "), s("2"), s("3")), None);
    assert_eq!(select_nonce(None, None, None), None);
}

#[test]
fn account_id_acceptance() {
    assert_eq!(
        accept_account_id(" 0123456789abcdef01234567 ").as_deref(),
        Some("0123456789abcdef01234567")
    );
    assert_eq!(accept_account_id("0123"), None);
    assert_eq!(
        account_id_from_args_or_env(Some("0123"), Some("0123456789abcdef01234567")),
        None
    );
    assert_eq!(
        account_id_from_args_or_env(None, Some("0123456789abcdef01234567")).as_deref(),
        Some("0123456789abcdef01234567")
    );
    assert_eq!(account_id_from_args_or_env(None, None), None);
}

#[test]
fn nonce_path_auth_string() {
    assert_eq!(
        nonce_path_auth("0123456789abcdef01234567", "42").unwrap(),
        "?accountId=0123456789abcdef01234567&nonce=42"
    );
    assert_eq!(nonce_path_auth("", "42"), Err(NoncePathError::AccountIdNotFound));
}

#[test]
fn credentials_read_back_from_auth() {
    assert_eq!(
        credentials_from_auth("?accountId=0123456789abcdef01234567&nonce=42").unwrap(),
        ("0123456789abcdef01234567".to_string(), "42".to_string())
    );
    assert_eq!(
        credentials_from_auth("?accountId=0123456789abcdef01234567&nonce=12ab").unwrap().1,
        "12"
    );
    assert_eq!(
        credentials_from_auth("?accountId=zzzzzzzzzzzzzzzzzzzzzzzz&nonce=1"),
        Err(NoncePathError::NoAccountIdInAuth)
    );
    assert_eq!(
        credentials_from_auth("?accountId=0123456789abcdef01234567&nonce=abc"),
        Err(NoncePathError::NoNonceInAuth)
    );
}
