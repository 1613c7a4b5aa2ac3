//! Choosing the credentials for a download and the account name the
//! inventory reports.

use vstd::prelude::*;
use crate::json::{json_string_member, json_string_member_of};
use crate::pattern::{best_pair, match_strings, PatternMatcher};
use crate::text::{all_digits, is_hex_id, owned};
use crate::types::Match;

verus! {

broadcast use vstd::string::group_string_axioms;

/// The inventory fields that may hold the player's name, in the order they
/// are tried.
pub open spec fn name_fields() -> Seq<Seq<char>> {
    seq![
        "playerName"@,
        "PlayerName"@,
        "alias"@,
        "Alias"@,
        "name"@,
        "Name"@,
        "username"@,
        "Username"@,
    ]
}

/// Number of name fields.
pub const NAME_FIELD_COUNT: usize = 8;

/// The name field tried at `i`.
pub fn name_field(i: usize) -> (f: &'static str)
    requires
        i < NAME_FIELD_COUNT,
    ensures
        f@ == name_fields()[i as int],
{
    if i == 0 {
        "playerName"
    } else if i == 1 {
        "PlayerName"
    } else if i == 2 {
        "alias"
    } else if i == 3 {
        "Alias"
    } else if i == 4 {
        "name"
    } else if i == 5 {
        "Name"
    } else if i == 6 {
        "username"
    } else {
        "Username"
    }
}

/// The first name field from `i` on that holds a string, or `unknown`.
pub open spec fn account_name_from(inventory: Seq<char>, i: int) -> Seq<char>
    decreases NAME_FIELD_COUNT - i,
{
    if i < 0 || i >= NAME_FIELD_COUNT {
        "unknown"@
    } else {
        match json_string_member(inventory, name_fields()[i]) {
            Some(name) => name,
            None => account_name_from(inventory, i + 1),
        }
    }
}

/// Why the matches gave no credentials.
#[derive(Debug, Clone, Copy, PartialEq, Eq)]
pub enum WorkflowError {
    /// No match yields an account id.
    NoAccountId,
    /// No match yields a nonce.
    NoNonce,
}

/// Pick the best match and download with it.
pub struct DownloadWorkflow;

impl DownloadWorkflow {
    /// The account id and nonce of the best complete match.
    pub fn credentials_from_matches(matches: &[Match]) -> (r: Result<(String, String), WorkflowError>)
        ensures
            match best_pair(match_strings(matches@)) {
                (Some(a), Some(n)) => r matches Ok(p) && p.0@ == a && p.1@ == n,
                (None, _) => r == Err::<(String, String), WorkflowError>(WorkflowError::NoAccountId),
                (Some(_), None) => r == Err::<(String, String), WorkflowError>(WorkflowError::NoNonce),
            },
            r matches Ok(p) ==> is_hex_id(p.0@) && p.1@.len() > 0 && all_digits(p.1@),
    {
        let (best_account_id, best_nonce) = PatternMatcher::find_best_match(matches);
        match best_account_id {
            None => Err(WorkflowError::NoAccountId),
            Some(account_id) => match best_nonce {
                None => Err(WorkflowError::NoNonce),
                Some(nonce) => Ok((account_id, nonce)),
            },
        }
    }

    /// The player's name from the inventory JSON: the first of `playerName`,
    /// `PlayerName`, `alias`, `Alias`, `name`, `Name`, `username`,
    /// `Username` that is a string, else `unknown`.
    pub fn extract_account_name(inventory_json: &str) -> (name: String)
        ensures
            name@ == account_name_from(inventory_json@, 0),
            json_string_member(inventory_json@, "playerName"@) matches Some(n) ==> name@ == n,
    {
        proof {
            lemma_account_name_order(inventory_json@, 0);
        }
        let mut i: usize = 0;
        while i < NAME_FIELD_COUNT
            invariant
                i <= NAME_FIELD_COUNT,
                account_name_from(inventory_json@, 0) == account_name_from(inventory_json@, i as int),
            decreases NAME_FIELD_COUNT - i,
        {
            match json_string_member_of(inventory_json, name_field(i)) {
                Some(name) => {
                    return name;
                },
                None => {},
            }
            i = i + 1;
        }
        owned("unknown")
    }
}

/// The player's name is read from the fields `playerName`, `PlayerName`,
/// `alias`, `Alias`, `name`, `Name`, `username`, `Username`, in that order:
/// the first of them that is a string member of the inventory gives the
/// name, whatever the later ones hold; with none of them, the name is
/// `unknown`. So an inventory with a string `playerName` is named by it.
pub proof fn lemma_account_name_order(inventory: Seq<char>, k: int)
    ensures
        ({
            let fields = seq![
                "playerName"@,
                "PlayerName"@,
                "alias"@,
                "Alias"@,
                "name"@,
                "Name"@,
                "username"@,
                "Username"@,
            ];
            &&& 0 <= k < 8 && (forall|j: int| 0 <= j < k ==> json_string_member(inventory, fields[j]) is None)
                && json_string_member(inventory, fields[k]) is Some ==> account_name_from(inventory, 0)
                == json_string_member(inventory, fields[k])->0
            &&& (forall|j: int| 0 <= j < 8 ==> json_string_member(inventory, fields[j]) is None)
                ==> account_name_from(inventory, 0) == "unknown"@
        }),
        json_string_member(inventory, "playerName"@) matches Some(n) ==> account_name_from(inventory, 0)
            == n,
{
    let fields = seq![
        "playerName"@,
        "PlayerName"@,
        "alias"@,
        "Alias"@,
        "name"@,
        "Name"@,
        "username"@,
        "Username"@,
    ];
    assert(fields =~= name_fields());
    if 0 <= k < 8 && (forall|j: int| 0 <= j < k ==> json_string_member(inventory, fields[j]) is None) {
        lemma_account_name_from(inventory, 0, k);
    }
    if forall|j: int| 0 <= j < 8 ==> json_string_member(inventory, fields[j]) is None {
        lemma_account_name_from(inventory, 0, 8);
    }
    lemma_account_name_from(inventory, 0, 0);
}

proof fn lemma_account_name_from(inventory: Seq<char>, i: int, k: int)
    requires
        0 <= i <= k <= 8,
        forall|j: int| i <= j < k ==> json_string_member(inventory, #[trigger] name_fields()[j]) is None,
    ensures
        k < 8 && json_string_member(inventory, name_fields()[k]) is Some ==> account_name_from(
            inventory,
            i,
        ) == json_string_member(inventory, name_fields()[k])->0,
        k == 8 ==> account_name_from(inventory, i) == "unknown"@,
    decreases k - i,
{
    if i < k {
        lemma_account_name_from(inventory, i + 1, k);
    }
}

} // verus!
