use warframe_api_helper::crypto::{encrypt_data, CryptoError, EncryptionKey, DEFAULT_KEY};
use warframe_api_helper::storage::{
    account_id_from_dat_contents, dat_basename, is_named_dat_file, json_basename, sanitize_filename,
    save_plan, StorageError,
};

#[test]
fn sanitize_replaces_forbidden_characters() {
    assert_eq!(sanitize_filename("a/b\\c:d*e?f\"g<h>i|j"), "a_b_c_d_e_f_g_h_i_j");
    assert_eq!(sanitize_filename("Tenno"), "Tenno");
}

#[test]
fn sanitize_cuts_to_fifty_bytes() {
    let long = "x".repeat(60);
    assert_eq!(sanitize_filename(&long), "x".repeat(50));
    let accented = "é".repeat(30);
    assert_eq!(sanitize_filename(&accented), "é".repeat(25));
}

#[test]
fn json_file_names() {
    assert_eq!(json_basename(Some("out.json".to_string()), "Bob", false), "out.json");
    assert_eq!(json_basename(None, "Bob", false), "inventory_Bob.json");
    assert_eq!(json_basename(None, "B/ob", false), "inventory_B_ob.json");
    assert_eq!(json_basename(None, "unknown", false), "inventory.json");
    assert_eq!(json_basename(None, "", false), "inventory.json");
    assert_eq!(json_basename(None, "Bob", true), "inventory.json");
}

#[test]
fn dat_file_names() {
    assert_eq!(dat_basename("Bob", false), "lastData_Bob.dat");
    assert_eq!(dat_basename("unknown", false), "lastData.dat");
    assert_eq!(dat_basename("Bob", true), "lastData.dat");
}

#[test]
fn plan_for_saving() {
    let p = save_plan(None, "Bob", false);
    assert_eq!(p.json_file, "inventory_Bob.json");
    assert_eq!(p.dat_file, "lastData_Bob.dat");
    assert!(p.strip_account_id);
    let p = save_plan(Some("x.json".to_string()), "Bob", true);
    assert_eq!(p.json_file, "x.json");
    assert_eq!(p.dat_file, "lastData.dat");
    assert!(!p.strip_account_id);
}

#[test]
fn named_dat_files() {
    assert!(is_named_dat_file("lastData_Bob.dat"));
    assert!(!is_named_dat_file("lastData.dat"));
    assert!(!is_named_dat_file("lastData_Bob.json"));
    assert!(!is_named_dat_file("xlastData_Bob.dat"));
}

#[test]
fn account_id_read_back_from_written_dat() {
    let key = EncryptionKey::from_bytes(DEFAULT_KEY);
    let c = encrypt_data(r#"{"accountId":"0123456789abcdef01234567","Items":[]}"#, &DEFAULT_KEY).unwrap();
    assert_eq!(
        account_id_from_dat_contents(&c, &key).unwrap().as_deref(),
        Some("0123456789abcdef01234567")
    );
}

#[test]
fn dat_without_full_account_id_gives_none() {
    let key = EncryptionKey::from_bytes(DEFAULT_KEY);
    let c = encrypt_data(r#"{"accountId":"0123"}"#, &DEFAULT_KEY).unwrap();
    assert_eq!(account_id_from_dat_contents(&c, &key), Ok(None));
    let c = encrypt_data(r#"{"accountId":5}"#, &DEFAULT_KEY).unwrap();
    assert_eq!(account_id_from_dat_contents(&c, &key), Ok(None));
    assert_eq!(account_id_from_dat_contents(&[], &key), Ok(None));
}

#[test]
fn dat_errors() {
    let key = EncryptionKey::from_bytes(DEFAULT_KEY);
    let c = encrypt_data("not json", &DEFAULT_KEY).unwrap();
    assert_eq!(account_id_from_dat_contents(&c, &key), Err(StorageError::InvalidJson));
    assert_eq!(
        account_id_from_dat_contents(&[1, 2, 3], &key),
        Err(StorageError::Crypto(CryptoError::Decryption))
    );
}
