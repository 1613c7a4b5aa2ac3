//! Inventory download decisions: the request URL for each endpoint, and what
//! to do with each response (accept it, try the next endpoint, or fail).

use vstd::prelude::*;
use crate::json::{json_is_valid, json_parses};
use crate::text::{
    chars_eq_ignore_ascii_case, chars_of, eq_ignore_ascii_case, owned, trim, trimmed,
};

verus! {

broadcast use vstd::string::group_string_axioms;

/// Prefix of the error reported for an expired session (HTTP 409 or a
/// `Log-in expired` body).
pub const LOGIN_EXPIRED_PREFIX: &'static str = "LOGIN_EXPIRED";

/// The body the server sends for an expired session (compared ignoring
/// ASCII case and surrounding whitespace).
pub const LOGIN_EXPIRED_BODY: &'static str = "log-in expired";

/// The mobile inventory endpoint, tried first.
pub const MOBILE_ENDPOINT: &'static str = "https://mobile.warframe.com/api/inventory.php";

/// The API inventory endpoint, tried second.
pub const API_ENDPOINT: &'static str = "https://api.warframe.com/api/inventory.php";

/// Number of inventory endpoints.
pub const ENDPOINT_COUNT: usize = 2;

/// HTTP status of a conflict, which the server sends for an expired session.
pub const STATUS_CONFLICT: u16 = 409;

/// The endpoint tried at `idx`.
pub open spec fn endpoint_spec(idx: int) -> Seq<char> {
    if idx == 0 {
        MOBILE_ENDPOINT@
    } else {
        API_ENDPOINT@
    }
}

/// The response says that the nonce is no longer valid.
pub open spec fn login_expired(status: u16, body: Seq<char>) -> bool {
    status == STATUS_CONFLICT || eq_ignore_ascii_case(trimmed(body), LOGIN_EXPIRED_BODY@)
}

/// A 2xx status.
pub open spec fn is_success(status: u16) -> bool {
    200 <= status <= 299
}

/// Why a download failed.
#[derive(Debug, Clone, PartialEq, Eq)]
pub enum DownloadError {
    /// The account id or the nonce is empty.
    MissingCredentials,
    /// The session nonce has expired (`LOGIN_EXPIRED`).
    LoginExpired,
    /// The inventory response is not JSON.
    InvalidJson,
    /// The last endpoint answered with a failure status; `detail` is the
    /// trimmed body (empty when there is none).
    HttpStatus { status: u16, detail: String },
    /// The request to the last endpoint failed.
    RequestFailed,
}

/// What to do after an endpoint answered or failed.
#[derive(Debug, Clone, PartialEq, Eq)]
pub enum DownloadStep {
    /// The body is the inventory: save it and stop.
    Accept,
    /// Go on with the next endpoint.
    TryNext,
    /// Stop with this error.
    Fail(DownloadError),
}

/// The step taken for a response with `status` and `body` from endpoint
/// `idx`.
pub open spec fn response_step(idx: int, status: u16, body: Seq<char>) -> DownloadStepView {
    if login_expired(status, body) {
        DownloadStepView::Fail(DownloadErrorView::LoginExpired)
    } else if is_success(status) {
        if json_parses(body) {
            DownloadStepView::Accept
        } else {
            DownloadStepView::Fail(DownloadErrorView::InvalidJson)
        }
    } else if idx < ENDPOINT_COUNT - 1 {
        DownloadStepView::TryNext
    } else {
        DownloadStepView::Fail(DownloadErrorView::HttpStatus { status, detail: trimmed(body) })
    }
}

/// The mathematical content of a [`DownloadError`].
pub ghost enum DownloadErrorView {
    MissingCredentials,
    LoginExpired,
    InvalidJson,
    HttpStatus { status: u16, detail: Seq<char> },
    RequestFailed,
}

/// The mathematical content of a [`DownloadStep`].
pub ghost enum DownloadStepView {
    Accept,
    TryNext,
    Fail(DownloadErrorView),
}

impl View for DownloadError {
    type V = DownloadErrorView;

    open spec fn view(&self) -> DownloadErrorView {
        match self {
            DownloadError::MissingCredentials => DownloadErrorView::MissingCredentials,
            DownloadError::LoginExpired => DownloadErrorView::LoginExpired,
            DownloadError::InvalidJson => DownloadErrorView::InvalidJson,
            DownloadError::HttpStatus { status, detail } => DownloadErrorView::HttpStatus {
                status: *status,
                detail: detail@,
            },
            DownloadError::RequestFailed => DownloadErrorView::RequestFailed,
        }
    }
}

impl View for DownloadStep {
    type V = DownloadStepView;

    open spec fn view(&self) -> DownloadStepView {
        match self {
            DownloadStep::Accept => DownloadStepView::Accept,
            DownloadStep::TryNext => DownloadStepView::TryNext,
            DownloadStep::Fail(e) => DownloadStepView::Fail(e@),
        }
    }
}

/// Inventory download: tries each endpoint in order.
pub struct InventoryDownloader;

impl InventoryDownloader {
    /// The endpoint tried at `idx`: the mobile host first, then the API host.
    pub fn endpoint(idx: usize) -> (e: &'static str)
        requires
            idx < ENDPOINT_COUNT,
        ensures
            e@ == endpoint_spec(idx as int),
    {
        if idx == 0 {
            MOBILE_ENDPOINT
        } else {
            API_ENDPOINT
        }
    }

    /// HTTP 409, or a body that reads `Log-in expired`, means the nonce is no
    /// longer valid.
    pub fn is_login_expired(status: u16, body: &str) -> (b: bool)
        ensures
            b == login_expired(status, body@),
    {
        if status == STATUS_CONFLICT {
            return true;
        }
        let t = trim(body);
        let tc = chars_of(t.as_str());
        let expected = chars_of(LOGIN_EXPIRED_BODY);
        chars_eq_ignore_ascii_case(tc.as_slice(), expected.as_slice())
    }

    /// The query string `?accountId=<id>&nonce=<nonce>`; both must be
    /// non-empty.
    pub fn authz(account_id: &str, nonce: &str) -> (r: Result<String, DownloadError>)
        ensures
            account_id@.len() == 0 || nonce@.len() == 0 ==> r == Err::<String, DownloadError>(
                DownloadError::MissingCredentials,
            ),
            account_id@.len() > 0 && nonce@.len() > 0 ==> (r matches Ok(s) && s@ == "?accountId="@
                + account_id@ + "&nonce="@ + nonce@),
    {
        if account_id.is_empty() || nonce.is_empty() {
            return Err(DownloadError::MissingCredentials);
        }
        let mut s = owned("?accountId=");
        s.append(account_id);
        s.append("&nonce=");
        s.append(nonce);
        Ok(s)
    }

    /// The URL requested from endpoint `idx`.
    pub fn request_url(idx: usize, authz: &str) -> (url: String)
        requires
            idx < ENDPOINT_COUNT,
        ensures
            url@ == endpoint_spec(idx as int) + authz@,
    {
        let mut url = owned(Self::endpoint(idx));
        url.append(authz);
        url
    }

    /// What to do with the response from endpoint `idx`: an expired session
    /// fails at once; a success status is accepted when the body is JSON; a
    /// failure status moves on to the next endpoint, or fails at the last.
    pub fn on_response(idx: usize, status: u16, body: &str) -> (step: DownloadStep)
        requires
            idx < ENDPOINT_COUNT,
        ensures
            step@ == response_step(idx as int, status, body@),
    {
        if Self::is_login_expired(status, body) {
            DownloadStep::Fail(DownloadError::LoginExpired)
        } else if 200 <= status && status <= 299 {
            if json_is_valid(body) {
                DownloadStep::Accept
            } else {
                DownloadStep::Fail(DownloadError::InvalidJson)
            }
        } else if idx < ENDPOINT_COUNT - 1 {
            DownloadStep::TryNext
        } else {
            DownloadStep::Fail(DownloadError::HttpStatus { status, detail: trim(body) })
        }
    }

    /// What to do when the request to endpoint `idx` failed: try the next
    /// endpoint, or fail at the last.
    pub fn on_request_error(idx: usize) -> (step: DownloadStep)
        requires
            idx < ENDPOINT_COUNT,
        ensures
            idx < ENDPOINT_COUNT - 1 ==> step == DownloadStep::TryNext,
            idx == ENDPOINT_COUNT - 1 ==> step == DownloadStep::Fail(DownloadError::RequestFailed),
    {
        if idx < ENDPOINT_COUNT - 1 {
            DownloadStep::TryNext
        } else {
            DownloadStep::Fail(DownloadError::RequestFailed)
        }
    }
}

/// HTTP 409 from any endpoint is reported as an expired session, whatever
/// the body; so is a body reading `Log-in expired` with any status.
pub proof fn lemma_login_expired_always_fails(idx: int, status: u16, body: Seq<char>)
    requires
        status == 409 || eq_ignore_ascii_case(trimmed(body), LOGIN_EXPIRED_BODY@),
    ensures
        response_step(idx, status, body) == DownloadStepView::Fail(DownloadErrorView::LoginExpired),
{
}

/// A success status with a JSON body is accepted at every endpoint, unless
/// the body says the session expired.
pub proof fn lemma_json_success_accepted(idx: int, status: u16, body: Seq<char>)
    requires
        200 <= status <= 299,
        json_parses(body),
        !eq_ignore_ascii_case(trimmed(body), LOGIN_EXPIRED_BODY@),
    ensures
        response_step(idx, status, body) == DownloadStepView::Accept,
{
}

/// Any other answer falls back: a status outside 200..=299 that is not 409,
/// with a body that does not read `Log-in expired`, from an endpoint that is
/// not the last (the mobile endpoint) moves on to the next endpoint, whatever
/// the status; from the last endpoint it fails with that status and the
/// trimmed body.
pub proof fn lemma_failure_status_falls_back(idx: int, status: u16, body: Seq<char>)
    requires
        0 <= idx < ENDPOINT_COUNT,
        !(200 <= status <= 299),
        status != 409,
        !eq_ignore_ascii_case(trimmed(body), LOGIN_EXPIRED_BODY@),
    ensures
        idx + 1 < ENDPOINT_COUNT ==> response_step(idx, status, body) == DownloadStepView::TryNext,
        idx + 1 == ENDPOINT_COUNT ==> response_step(idx, status, body) == DownloadStepView::Fail(
            DownloadErrorView::HttpStatus { status, detail: trimmed(body) },
        ),
        idx == 0 ==> response_step(idx, status, body) == DownloadStepView::TryNext,
{
}

} // verus!
