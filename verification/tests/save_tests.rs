use warframe_api_helper::config::Config;
use warframe_api_helper::crypto::{decrypt_data, EncryptionKey, DEFAULT_KEY};
use warframe_api_helper::json::{json_is_object, json_is_valid, json_string_member_of};
use warframe_api_helper::nonce_path::{next_account_id_source, AccountIdStage, AccountIdStep};
use warframe_api_helper::storage::{
    account_id_from_dat_contents, dat_file_account_id, data_directory_from, prepare_save, prepare_save_checked,
    resolve_data_path, save_texts, StorageError,
};

const ID: &str = "0123456789abcdef01234567";

fn config(original_format: bool) -> Config {
    Config { encryption_key: EncryptionKey::from_bytes(DEFAULT_KEY), original_format }
}

fn parts(v: &[&str]) -> Vec<String> {
    v.iter().map(|s| s.to_string()).collect()
}

#[test]
fn saved_json_drops_account_id_and_payload_keeps_it() {
    let inv = r#"{"accountId":"old","nonce":"5","Suits":[1]}"#;
    let files = prepare_save(inv, Some(ID), "Bob", &config(false), None).unwrap();
    assert_eq!(files.json_file, "inventory_Bob.json");
    assert_eq!(files.dat_file, "lastData_Bob.dat");
    assert!(json_is_valid(&files.json_text));
    assert!(!files.json_text.contains("accountId"));
    assert!(files.json_text.contains('\n'));
    let payload = decrypt_data(&files.dat_bytes, &DEFAULT_KEY).unwrap();
    assert_eq!(json_string_member_of(&payload, "accountId").as_deref(), Some(ID));
    assert!(!payload.contains("nonce"));
    assert!(!payload.contains('\n'));
}

#[test]
fn saved_account_id_is_read_back() {
    let inv = r#"{"Suits":[]}"#;
    let files = prepare_save(inv, Some(ID), "Bob", &config(false), None).unwrap();
    let key = EncryptionKey::from_bytes(DEFAULT_KEY);
    assert_eq!(account_id_from_dat_contents(&files.dat_bytes, &key), Ok(Some(ID.to_string())));
}

#[test]
fn original_format_keeps_account_id_in_json() {
    let inv = r#"{"accountId":"abc","x":1}"#;
    let files = prepare_save(inv, None, "Bob", &config(true), Some("out.json".to_string())).unwrap();
    assert_eq!(files.json_file, "out.json");
    assert_eq!(files.dat_file, "lastData.dat");
    assert_eq!(json_string_member_of(&files.json_text, "accountId").as_deref(), Some("abc"));
}

#[test]
fn save_refuses_text_that_is_not_json() {
    assert_eq!(save_texts("not json", Some(ID), false).err(), Some(StorageError::InvalidJson));
    assert!(matches!(
        prepare_save_checked("{", None, "Bob", &config(false), None),
        Some(Err(StorageError::InvalidJson))
    ));
}

#[test]
fn payload_without_account_id_only_drops_nonce() {
    let (json, payload) = save_texts(r#"{"nonce":1,"a":2}"#, None, false).unwrap();
    assert!(json.contains("nonce"));
    assert_eq!(payload, r#"{"a":2}"#);
}

#[test]
fn data_directory_of_build_directories() {
    assert_eq!(
        data_directory_from(parts(&["/", "home", "u", "proj", "target", "release"])),
        parts(&["/", "home", "u", "proj"])
    );
    assert_eq!(data_directory_from(parts(&["/", "p", "target", "debug"])), parts(&["/", "p"]));
    assert_eq!(data_directory_from(parts(&["/", "opt", "app"])), parts(&["/", "opt", "app"]));
    assert_eq!(data_directory_from(parts(&["/", "target", "other"])), parts(&["/", "target", "other"]));
}

#[test]
fn data_paths_resolve_against_the_data_directory() {
    let dir = parts(&["/", "p"]);
    assert_eq!(resolve_data_path(parts(&["a.json"]), false, dir.clone()), parts(&["/", "p", "a.json"]));
    assert_eq!(resolve_data_path(parts(&["/", "x.json"]), true, dir), parts(&["/", "x.json"]));
}

#[test]
fn account_id_sources_in_order() {
    assert!(matches!(
        next_account_id_source(AccountIdStage::ArgsOrEnv, None),
        AccountIdStep::Read(AccountIdStage::DatFiles)
    ));
    assert!(matches!(
        next_account_id_source(AccountIdStage::DatFiles, Some("short".to_string())),
        AccountIdStep::Read(AccountIdStage::EeLog)
    ));
    assert!(matches!(next_account_id_source(AccountIdStage::EeLog, None), AccountIdStep::NotFound));
    match next_account_id_source(AccountIdStage::DatFiles, Some(ID.to_string())) {
        AccountIdStep::Found(a) => assert_eq!(a, ID),
        other => panic!("unexpected {:?}", other),
    }
}

#[test]
fn json_object_test_and_array_payload() {
    assert!(json_is_object(r#"{"a":1}"#));
    assert!(!json_is_object("[1,2]"));
    assert!(!json_is_object("{"));
    let files = prepare_save("[1,2]", Some(ID), "Bob", &config(false), None).unwrap();
    assert_eq!(decrypt_data(&files.dat_bytes, &DEFAULT_KEY).unwrap(), "[1,2]");
}

#[test]
fn unreadable_lastdata_gives_no_account_id() {
    let key = EncryptionKey::from_bytes(DEFAULT_KEY);
    assert_eq!(dat_file_account_id(&[1, 2, 3], &key), None);
    assert_eq!(dat_file_account_id(&[], &key), None);
    let files = prepare_save(r#"{"x":1}"#, Some(ID), "Bob", &config(false), None).unwrap();
    assert_eq!(dat_file_account_id(&files.dat_bytes, &key).as_deref(), Some(ID));
    let other = EncryptionKey::from_bytes([7u8; 16]);
    assert_eq!(dat_file_account_id(&files.dat_bytes, &other), None);
}
