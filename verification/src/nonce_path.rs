//! The run that skips the memory scan: choosing the nonce and the account
//! id, and building the auth string from them.

use vstd::prelude::*;
use vstd::utf8::encode_utf8;
use crate::pattern::{spec_account_id, spec_nonce, PatternMatcher};
use crate::text::{all_digits, is_hex_id, owned, trim, trimmed};

verus! {

broadcast use vstd::string::group_string_axioms;

/// The view of an optional owned string.
pub open spec fn opt_view(o: Option<String>) -> Option<Seq<char>> {
    match o {
        Some(s) => Some(s@),
        None => None,
    }
}

/// The nonce a run uses: `--nonce`, else `-n`, else `NONCE`, trimmed; an
/// empty value counts as none.
pub open spec fn chosen_nonce(
    nonce: Option<Seq<char>>,
    nonce_short: Option<Seq<char>>,
    env_nonce: Option<Seq<char>>,
) -> Option<Seq<char>> {
    let raw = match nonce {
        Some(n) => Some(n),
        None => match nonce_short {
            Some(n) => Some(n),
            None => env_nonce,
        },
    };
    match raw {
        Some(v) => if trimmed(v).len() > 0 {
            Some(trimmed(v))
        } else {
            None
        },
        None => None,
    }
}

/// Why the nonce path could not build its credentials.
#[derive(Debug, Clone, Copy, PartialEq, Eq)]
pub enum NoncePathError {
    /// No 24-byte account id was found.
    AccountIdNotFound,
    /// The auth string yields no account id.
    NoAccountIdInAuth,
    /// The auth string yields no nonce.
    NoNonceInAuth,
}

/// Choose the nonce: `--nonce`, else `-n`, else the `NONCE` environment
/// value; trimmed, and `None` when that leaves nothing.
pub fn select_nonce(nonce: Option<String>, nonce_short: Option<String>, env_nonce: Option<String>) -> (r:
    Option<String>)
    ensures
        opt_view(r) == chosen_nonce(opt_view(nonce), opt_view(nonce_short), opt_view(env_nonce)),
{
    let raw = match nonce {
        Some(n) => Some(n),
        None => match nonce_short {
            Some(n) => Some(n),
            None => env_nonce,
        },
    };
    match raw {
        Some(v) => {
            let t = trim(v.as_str());
            if t.as_str().is_empty() {
                None
            } else {
                Some(t)
            }
        },
        None => None,
    }
}

/// An account id given on the command line or in `ACCOUNT_ID`: accepted
/// once trimmed when it is 24 bytes long.
pub fn accept_account_id(candidate: &str) -> (r: Option<String>)
    ensures
        encode_utf8(trimmed(candidate@)).len() == 24 ==> (r matches Some(s) && s@ == trimmed(
            candidate@,
        )),
        encode_utf8(trimmed(candidate@)).len() != 24 ==> r is None,
{
    let t = trim(candidate);
    if t.as_str().as_bytes().len() == 24 {
        Some(t)
    } else {
        None
    }
}

/// The account id from the command line (`--account-id`, else `-a`) or,
/// when neither is given, from `ACCOUNT_ID`; accepted once trimmed when it is
/// 24 bytes long. Only the first value present is tried.
pub fn account_id_from_args_or_env(from_args: Option<&str>, from_env: Option<&str>) -> (r: Option<
    String,
>)
    ensures
        match (from_args, from_env) {
            (Some(a), _) => opt_view(r) == (if encode_utf8(trimmed(a@)).len() == 24 {
                Some(trimmed(a@))
            } else {
                None
            }),
            (None, Some(e)) => opt_view(r) == (if encode_utf8(trimmed(e@)).len() == 24 {
                Some(trimmed(e@))
            } else {
                None
            }),
            (None, None) => r is None,
        },
{
    match from_args {
        Some(a) => accept_account_id(a),
        None => match from_env {
            Some(e) => accept_account_id(e),
            None => None,
        },
    }
}

/// A place the account id is looked for, in the order they are tried.
#[derive(Debug, Clone, Copy, PartialEq, Eq)]
pub enum AccountIdStage {
    /// `--account-id` / `-a`, else `ACCOUNT_ID`.
    ArgsOrEnv,
    /// `lastData.dat` and `lastData_*.dat` in the data directory.
    DatFiles,
    /// The game's `EE.log`.
    EeLog,
}

/// What to do after a place has been looked at.
#[derive(Debug)]
pub enum AccountIdStep {
    /// Use this account id.
    Found(String),
    /// Look at this place next.
    Read(AccountIdStage),
    /// No place has one: go on with an empty account id.
    NotFound,
}

/// The step after looking at `stage` and finding `found` there: a value of
/// 24 bytes is used; otherwise the command line or environment is followed
/// by the `lastData` files, those by `EE.log`, and that by giving up.
pub fn next_account_id_source(stage: AccountIdStage, found: Option<String>) -> (r: AccountIdStep)
    ensures
        match found {
            Some(a) if encode_utf8(a@).len() == 24 => r == AccountIdStep::Found(a),
            _ => match stage {
                AccountIdStage::ArgsOrEnv => r == AccountIdStep::Read(AccountIdStage::DatFiles),
                AccountIdStage::DatFiles => r == AccountIdStep::Read(AccountIdStage::EeLog),
                AccountIdStage::EeLog => r is NotFound,
            },
        },
{
    match found {
        Some(a) => {
            if a.as_str().as_bytes().len() == 24 {
                return AccountIdStep::Found(a);
            }
        },
        None => {},
    }
    match stage {
        AccountIdStage::ArgsOrEnv => AccountIdStep::Read(AccountIdStage::DatFiles),
        AccountIdStage::DatFiles => AccountIdStep::Read(AccountIdStage::EeLog),
        AccountIdStage::EeLog => AccountIdStep::NotFound,
    }
}

/// The auth string `?accountId=<id>&nonce=<nonce>` for the nonce path; the
/// account id must be 24 bytes long.
pub fn nonce_path_auth(account_id: &str, nonce: &str) -> (r: Result<String, NoncePathError>)
    ensures
        encode_utf8(account_id@).len() != 24 ==> r == Err::<String, NoncePathError>(
            NoncePathError::AccountIdNotFound,
        ),
        encode_utf8(account_id@).len() == 24 ==> (r matches Ok(s) && s@ == "?accountId="@
            + account_id@ + "&nonce="@ + nonce@),
{
    if account_id.as_bytes().len() != 24 {
        return Err(NoncePathError::AccountIdNotFound);
    }
    let mut auth = owned("?accountId=");
    auth.append(account_id);
    auth.append("&nonce=");
    auth.append(nonce);
    Ok(auth)
}

/// The account id and nonce read back out of an auth string.
pub fn credentials_from_auth(auth: &str) -> (r: Result<(String, String), NoncePathError>)
    ensures
        match (spec_account_id(auth@), spec_nonce(auth@)) {
            (Some(a), Some(n)) => r matches Ok(p) && p.0@ == a && p.1@ == n,
            (None, _) => r == Err::<(String, String), NoncePathError>(
                NoncePathError::NoAccountIdInAuth,
            ),
            (Some(_), None) => r == Err::<(String, String), NoncePathError>(
                NoncePathError::NoNonceInAuth,
            ),
        },
        r matches Ok(p) ==> is_hex_id(p.0@) && p.1@.len() > 0 && all_digits(p.1@),
{
    let (account_id, nonce) = PatternMatcher::extract_account_id_and_nonce(auth);
    match account_id {
        None => Err(NoncePathError::NoAccountIdInAuth),
        Some(a) => match nonce {
            None => Err(NoncePathError::NoNonceInAuth),
            Some(n) => Ok((a, n)),
        },
    }
}

} // verus!
