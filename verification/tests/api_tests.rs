use warframe_api_helper::api::{
    DownloadError, DownloadStep, InventoryDownloader, API_ENDPOINT, LOGIN_EXPIRED_PREFIX,
    MOBILE_ENDPOINT,
};

#[test]
fn login_expired_detection() {
    assert!(InventoryDownloader::is_login_expired(409, ""));
    assert!(InventoryDownloader::is_login_expired(200, "  Log-In Expired \n"));
    assert!(InventoryDownloader::is_login_expired(403, "log-in expired"));
    assert!(!InventoryDownloader::is_login_expired(200, "{}"));
    assert!(!InventoryDownloader::is_login_expired(200, "log-in expired!"));
    assert_eq!(LOGIN_EXPIRED_PREFIX, "LOGIN_EXPIRED");
}

#[test]
fn authz_string() {
    assert_eq!(
        InventoryDownloader::authz("abc", "123").unwrap(),
        "?accountId=abc&nonce=123"
    );
    assert_eq!(InventoryDownloader::authz("", "123"), Err(DownloadError::MissingCredentials));
    assert_eq!(InventoryDownloader::authz("abc", ""), Err(DownloadError::MissingCredentials));
}

#[test]
fn endpoints_in_order() {
    assert_eq!(InventoryDownloader::endpoint(0), MOBILE_ENDPOINT);
    assert_eq!(InventoryDownloader::endpoint(1), API_ENDPOINT);
    assert_eq!(
        InventoryDownloader::request_url(0, "?accountId=a&nonce=1"),
        "https://mobile.warframe.com/api/inventory.php?accountId=a&nonce=1"
    );
    assert_eq!(
        InventoryDownloader::request_url(1, "?x"),
        "https://api.warframe.com/api/inventory.php?x"
    );
}

#[test]
fn response_steps() {
    assert_eq!(InventoryDownloader::on_response(0, 200, r#"{"a":1}"#), DownloadStep::Accept);
    assert_eq!(
        InventoryDownloader::on_response(1, 200, "<html>"),
        DownloadStep::Fail(DownloadError::InvalidJson)
    );
    assert_eq!(InventoryDownloader::on_response(0, 500, "oops"), DownloadStep::TryNext);
    assert_eq!(
        InventoryDownloader::on_response(1, 500, "  oops \n"),
        DownloadStep::Fail(DownloadError::HttpStatus { status: 500, detail: "oops".to_string() })
    );
    assert_eq!(
        InventoryDownloader::on_response(0, 409, "{}"),
        DownloadStep::Fail(DownloadError::LoginExpired)
    );
    assert_eq!(
        InventoryDownloader::on_response(0, 200, "Log-in expired"),
        DownloadStep::Fail(DownloadError::LoginExpired)
    );
}

#[test]
fn request_error_steps() {
    assert_eq!(InventoryDownloader::on_request_error(0), DownloadStep::TryNext);
    assert_eq!(
        InventoryDownloader::on_request_error(1),
        DownloadStep::Fail(DownloadError::RequestFailed)
    );
}
