//! File names and contents for `inventory*.json` and `lastData*.dat`,
//! reading the account id back out of a `lastData` file, and where the data
//! directory is.

use vstd::prelude::*;
use vstd::utf8::{encode_scalar, encode_utf8};
use crate::config::Config;
use crate::crypto::{decrypt_data, encrypt_data, padded_len, sealed, unsealed, CryptoError, EncryptionKey};
use crate::json::{
    json_compact_with_member_without, json_compact_with_without, json_compact_without,
    json_compact_without_member, json_is_object, json_is_valid, json_object, json_parses, json_pretty, json_pretty_of,
    json_pretty_without, json_pretty_without_member, json_string_member, json_string_member_of,
};
use crate::text::{
    char_utf8_len, chars_of, ends_with, owned, push_char, starts_with, str_ends_with, str_eq,
    str_starts_with, take_bytes,
};

verus! {

broadcast use vstd::string::group_string_axioms;

/// The member of a `lastData` payload that holds the account id.
pub const ACCOUNT_ID_KEY: &'static str = "accountId";

/// The name of an unknown account.
pub const UNKNOWN_ACCOUNT: &'static str = "unknown";

/// Sanitized names are cut to this many bytes.
pub const MAX_NAME_BYTES: usize = 50;

/// The member that the `lastData` payload drops.
pub const NONCE_KEY: &'static str = "nonce";

/// Why reading or preparing a saved file failed.
#[derive(Debug, Clone, Copy, PartialEq, Eq)]
pub enum StorageError {
    /// The file could not be decrypted.
    Crypto(CryptoError),
    /// The text is not JSON.
    InvalidJson,
    /// The JSON could not be serialised again.
    Serialization,
}

/// A character that may not stand in a file name.
pub open spec fn is_forbidden_in_file_name(c: char) -> bool {
    c == '/' || c == '\\' || c == ':' || c == '*' || c == '?' || c == '"' || c == '<' || c == '>'
        || c == '|'
}

/// `name` with every forbidden character replaced by `_`.
pub open spec fn replace_forbidden(name: Seq<char>) -> Seq<char> {
    name.map_values(|c: char| if is_forbidden_in_file_name(c) { '_' } else { c })
}

/// What `sanitize_filename` returns: forbidden characters replaced by `_`,
/// then cut to at most 50 bytes.
pub open spec fn sanitized(name: Seq<char>) -> Seq<char> {
    take_bytes(replace_forbidden(name), MAX_NAME_BYTES as int)
}

/// Cutting `name` to 50 bytes does not split a character (else the cut
/// panics).
pub open spec fn can_cut_name(name: Seq<char>) -> bool {
    encode_utf8(name).len() <= MAX_NAME_BYTES || exists|k: int|
        0 <= k <= name.len() && encode_utf8(name.subrange(0, k)).len() == MAX_NAME_BYTES
}

/// Replace characters that may not stand in a file name with `_` and limit
/// the result to 50 bytes.
pub fn sanitize_filename(name: &str) -> (r: String)
    requires
        can_cut_name(name@),
    ensures
        r@ == sanitized(name@),
{
    let chars = chars_of(name);
    let ghost replaced = replace_forbidden(name@);
    let mut out = String::new();
    let mut budget: usize = MAX_NAME_BYTES;
    let mut i: usize = 0;
    assert(replaced.subrange(0, replaced.len() as int) =~= replaced);
    assert(out@ + take_bytes(replaced, MAX_NAME_BYTES as int) =~= take_bytes(replaced, MAX_NAME_BYTES as int));
    while i < chars.len()
        invariant
            chars@ == name@,
            replaced == replace_forbidden(name@),
            i <= chars@.len(),
            take_bytes(replaced, MAX_NAME_BYTES as int) == out@ + take_bytes(
                replaced.subrange(i as int, replaced.len() as int),
                budget as int,
            ),
        decreases chars@.len() - i,
    {
        let c = chars[i];
        let r = if c == '/' || c == '\\' || c == ':' || c == '*' || c == '?' || c == '"' || c == '<'
            || c == '>' || c == '|' {
            '_'
        } else {
            c
        };
        let ghost rest = replaced.subrange(i as int, replaced.len() as int);
        assert(rest[0] == r);
        assert(rest.drop_first() =~= replaced.subrange(i + 1, replaced.len() as int));
        let w = char_utf8_len(r);
        if w > budget {
            assert(out@ + take_bytes(rest, budget as int) =~= out@);
            return out;
        }
        let ghost before = out@;
        push_char(&mut out, r);
        budget = budget - w;
        assert(before + take_bytes(rest, (budget + w) as int) =~= out@ + take_bytes(
            replaced.subrange(i + 1, replaced.len() as int),
            budget as int,
        ));
        i = i + 1;
    }
    assert(take_bytes(replaced.subrange(i as int, replaced.len() as int), budget as int) =~= Seq::<
        char,
    >::empty());
    assert(out@ + Seq::<char>::empty() =~= out@);
    out
}

/// A name that goes into the output file names: known, not empty, and the
/// original format not asked for.
pub open spec fn names_files(account_name: Seq<char>, original_format: bool) -> bool {
    !original_format && account_name != UNKNOWN_ACCOUNT@ && account_name.len() > 0
}

/// The file name of the inventory JSON.
pub open spec fn json_file_name(output_file: Option<Seq<char>>, account_name: Seq<char>, original_format: bool) -> Seq<char> {
    match output_file {
        Some(f) => f,
        None => if names_files(account_name, original_format) {
            "inventory_"@ + sanitized(account_name) + ".json"@
        } else {
            "inventory.json"@
        },
    }
}

/// The file name of the encrypted `lastData` file.
pub open spec fn dat_file_name(account_name: Seq<char>, original_format: bool) -> Seq<char> {
    if names_files(account_name, original_format) {
        "lastData_"@ + sanitized(account_name) + ".dat"@
    } else {
        "lastData.dat"@
    }
}

/// Whether the account name goes into the file names.
pub fn uses_account_name(account_name: &str, original_format: bool) -> (b: bool)
    ensures
        b == names_files(account_name@, original_format),
{
    let chars = chars_of(account_name);
    !original_format && !str_eq(account_name, UNKNOWN_ACCOUNT) && chars.len() > 0
}

/// File name of the inventory JSON: the output file when one is given, else
/// `inventory_<name>.json`, or `inventory.json` for an unknown name or with
/// the original format.
pub fn json_basename(output_file: Option<String>, account_name: &str, original_format: bool) -> (r:
    String)
    requires
        output_file is None && names_files(account_name@, original_format) ==> can_cut_name(
            account_name@,
        ),
    ensures
        r@ == json_file_name(
            match output_file {
                Some(f) => Some(f@),
                None => None,
            },
            account_name@,
            original_format,
        ),
{
    match output_file {
        Some(output) => output,
        None => if uses_account_name(account_name, original_format) {
            let mut name = owned("inventory_");
            let sanitized_name = sanitize_filename(account_name);
            name.append(sanitized_name.as_str());
            name.append(".json");
            name
        } else {
            owned("inventory.json")
        },
    }
}

/// File name of the encrypted data: `lastData_<name>.dat`, or `lastData.dat`
/// for an unknown name or with the original format.
pub fn dat_basename(account_name: &str, original_format: bool) -> (r: String)
    requires
        names_files(account_name@, original_format) ==> can_cut_name(account_name@),
    ensures
        r@ == dat_file_name(account_name@, original_format),
{
    if uses_account_name(account_name, original_format) {
        let mut name = owned("lastData_");
        let sanitized_name = sanitize_filename(account_name);
        name.append(sanitized_name.as_str());
        name.append(".dat");
        name
    } else {
        owned("lastData.dat")
    }
}

/// Where and how a downloaded inventory is saved.
pub struct SavePlan {
    /// File name of the inventory JSON.
    pub json_file: String,
    /// Whether `accountId` is removed from the inventory JSON before it is
    /// written.
    pub strip_account_id: bool,
    /// File name of the encrypted `lastData` copy.
    pub dat_file: String,
}

/// The plan for saving an inventory: the file names, and the account id is
/// stripped from the JSON unless the original format is kept. (The
/// encrypted copy always carries the account id and never the nonce.)
pub fn save_plan(output_file: Option<String>, account_name: &str, original_format: bool) -> (p:
    SavePlan)
    requires
        names_files(account_name@, original_format) ==> can_cut_name(account_name@),
    ensures
        p.json_file@ == json_file_name(
            match output_file {
                Some(f) => Some(f@),
                None => None,
            },
            account_name@,
            original_format,
        ),
        p.strip_account_id == !original_format,
        p.dat_file@ == dat_file_name(account_name@, original_format),
{
    let json_file = json_basename(output_file, account_name, original_format);
    let dat_file = dat_basename(account_name, original_format);
    SavePlan { json_file, strip_account_id: !original_format, dat_file }
}

/// The view of an optional borrowed string.
pub open spec fn opt_str(o: Option<&str>) -> Option<Seq<char>> {
    match o {
        Some(s) => Some(s@),
        None => None,
    }
}

/// The inventory JSON as written: pretty-printed, without `accountId` unless
/// the original format is kept.
pub open spec fn saved_json(text: Seq<char>, original_format: bool) -> Option<Seq<char>> {
    if original_format {
        json_pretty(text)
    } else {
        json_pretty_without(text, ACCOUNT_ID_KEY@)
    }
}

/// The payload of the encrypted `lastData` copy, serialised compactly and
/// without `nonce`: with an account id and an object, the inventory with
/// `accountId` set to it; with an account id and anything else, the
/// inventory serialised again; without an account id, the inventory itself,
/// or its text unchanged when it cannot be serialised again.
pub open spec fn lastdata_payload(text: Seq<char>, account_id: Option<Seq<char>>) -> Option<Seq<char>> {
    match account_id {
        Some(a) => if json_object(text) {
            json_compact_with_without(text, ACCOUNT_ID_KEY@, a, NONCE_KEY@)
        } else {
            json_compact_without(text, NONCE_KEY@)
        },
        None => match json_compact_without(text, NONCE_KEY@) {
            Some(p) => Some(p),
            None => Some(text),
        },
    }
}

/// What saving an inventory writes: the JSON file's text and the payload
/// that is encrypted into the `lastData` file.
pub open spec fn save_texts_of(text: Seq<char>, account_id: Option<Seq<char>>, original_format: bool) -> Result<
    (Seq<char>, Seq<char>),
    StorageError,
> {
    if !json_parses(text) {
        Err(StorageError::InvalidJson)
    } else {
        match saved_json(text, original_format) {
            None => Err(StorageError::Serialization),
            Some(j) => match lastdata_payload(text, account_id) {
                None => Err(StorageError::Serialization),
                Some(p) => Ok((j, p)),
            },
        }
    }
}

/// The view of a pair of texts.
pub open spec fn texts_view(r: Result<(String, String), StorageError>) -> Result<(Seq<char>, Seq<char>), StorageError> {
    match r {
        Ok(t) => Ok((t.0@, t.1@)),
        Err(e) => Err(e),
    }
}

/// The text of the inventory JSON file and the `lastData` payload for the
/// inventory `inventory_json`.
pub fn save_texts(inventory_json: &str, account_id: Option<&str>, original_format: bool) -> (r: Result<
    (String, String),
    StorageError,
>)
    ensures
        texts_view(r) == save_texts_of(inventory_json@, opt_str(account_id), original_format),
        r is Ok <==> json_parses(inventory_json@),
        r matches Ok(t) ==> (account_id matches Some(a) ==> (json_object(inventory_json@)
            ==> json_parses(t.1@) && json_string_member(t.1@, ACCOUNT_ID_KEY@) == Some(a@))),
{
    proof {
        reveal_strlit("accountId");
        reveal_strlit("nonce");
        assert(ACCOUNT_ID_KEY@ != NONCE_KEY@) by {
            assert(ACCOUNT_ID_KEY@[0] != NONCE_KEY@[0]);
        }
    }
    if !json_is_valid(inventory_json) {
        return Err(StorageError::InvalidJson);
    }
    let json_text = if original_format {
        json_pretty_of(inventory_json)
    } else {
        json_pretty_without_member(inventory_json, ACCOUNT_ID_KEY)
    };
    let json_text = match json_text {
        Some(t) => t,
        None => return Err(StorageError::Serialization),
    };
    let is_object = json_is_object(inventory_json);
    let payload = match account_id {
        Some(a) => {
            let payload = if is_object {
                json_compact_with_member_without(inventory_json, ACCOUNT_ID_KEY, a, NONCE_KEY)
            } else {
                json_compact_without_member(inventory_json, NONCE_KEY)
            };
            match payload {
                Some(p) => p,
                None => return Err(StorageError::Serialization),
            }
        },
        None => match json_compact_without_member(inventory_json, NONCE_KEY) {
            Some(p) => p,
            None => owned(inventory_json),
        },
    };
    Ok((json_text, payload))
}

/// The files that saving an inventory writes.
pub struct SaveFiles {
    /// File name of the inventory JSON.
    pub json_file: String,
    /// Content of the inventory JSON.
    pub json_text: String,
    /// File name of the encrypted `lastData` copy.
    pub dat_file: String,
    /// Content of the encrypted `lastData` copy.
    pub dat_bytes: Vec<u8>,
}

/// `f` is what saving `text` writes.
pub open spec fn save_files_are(
    f: SaveFiles,
    text: Seq<char>,
    account_id: Option<Seq<char>>,
    account_name: Seq<char>,
    key: Seq<u8>,
    original_format: bool,
    output_file: Option<Seq<char>>,
) -> bool {
    &&& save_texts_of(text, account_id, original_format) matches Ok(t)
    &&& f.json_file@ == json_file_name(output_file, account_name, original_format)
    &&& f.json_text@ == t.0
    &&& f.dat_file@ == dat_file_name(account_name, original_format)
    &&& f.dat_bytes@ == sealed(key, t.1)
}

/// The outcome `r` of saving `text`: the files, or the error of
/// [`save_texts_of`].
pub open spec fn save_result(
    r: Result<SaveFiles, StorageError>,
    text: Seq<char>,
    account_id: Option<Seq<char>>,
    account_name: Seq<char>,
    key: Seq<u8>,
    original_format: bool,
    output_file: Option<Seq<char>>,
) -> bool {
    match r {
        Ok(f) => save_files_are(f, text, account_id, account_name, key, original_format, output_file),
        Err(e) => save_texts_of(text, account_id, original_format) == Err::<(Seq<char>, Seq<char>), StorageError>(e),
    }
}

/// The payload, if there is one, is short enough to be padded and encrypted.
pub open spec fn payload_fits(text: Seq<char>, account_id: Option<Seq<char>>, original_format: bool) -> bool {
    save_texts_of(text, account_id, original_format) matches Ok(t) ==> encode_utf8(t.1).len() + 16
        <= usize::MAX
}

/// The view of an optional output file name.
pub open spec fn opt_string(o: Option<String>) -> Option<Seq<char>> {
    match o {
        Some(s) => Some(s@),
        None => None,
    }
}

/// The files for saving the inventory `inventory_json`: the JSON file (name
/// and pretty-printed text, without `accountId` unless the original format is
/// kept) and the encrypted `lastData` copy (name and bytes: the inventory with
/// `accountId` set and `nonce` removed, sealed under the configured key).
///
/// An account id saved here is read back from the `lastData` bytes: when the
/// inventory is a JSON object and the account id is 24 bytes long, the bytes
/// are the sealed form of a payload whose `accountId` is that id.
pub fn prepare_save(
    inventory_json: &str,
    account_id: Option<&str>,
    account_name: &str,
    config: &Config,
    output_file: Option<String>,
) -> (r: Result<SaveFiles, StorageError>)
    requires
        names_files(account_name@, config.original_format) ==> can_cut_name(account_name@),
        payload_fits(inventory_json@, opt_str(account_id), config.original_format),
    ensures
        save_result(
            r,
            inventory_json@,
            opt_str(account_id),
            account_name@,
            config.encryption_key@,
            config.original_format,
            opt_string(output_file),
        ),
        r is Ok <==> json_parses(inventory_json@),
        r matches Ok(f) ==> (account_id matches Some(a) ==> (json_object(inventory_json@)
            && encode_utf8(a@).len() == 24 ==> f.dat_bytes@.len() > 0 && exists|p: Seq<char>|
            f.dat_bytes@ == sealed(config.encryption_key@, p) && #[trigger] account_id_in_payload(p)
                == Ok::<Option<Seq<char>>, StorageError>(Some(a@)))),
{
    let (json_text, payload) = match save_texts(inventory_json, account_id, config.original_format) {
        Ok(t) => t,
        Err(e) => return Err(e),
    };
    let plan = save_plan(output_file, account_name, config.original_format);
    let dat_bytes = match encrypt_data(payload.as_str(), config.encryption_key.as_bytes()) {
        Ok(bytes) => bytes,
        Err(e) => return Err(StorageError::Crypto(e)),
    };
    proof {
        let n = encode_utf8(payload@).len() as int;
        assert(padded_len(n) > 0) by (nonlinear_arith)
            requires
                n >= 0,
                padded_len(n) == (n / 16 + 1) * 16,
        ;
        match account_id {
            Some(a) => {
                if json_object(inventory_json@) && encode_utf8(a@).len() == 24 {
                    assert(account_id_in_payload(payload@) == Ok::<Option<Seq<char>>, StorageError>(
                        Some(a@),
                    ));
                }
            },
            None => {},
        }
    }
    Ok(SaveFiles { json_file: plan.json_file, json_text, dat_file: plan.dat_file, dat_bytes })
}

/// [`prepare_save`] for any inventory: `None` when the `lastData` payload is
/// too long to be padded (more than `usize::MAX - 16` bytes).
pub fn prepare_save_checked(
    inventory_json: &str,
    account_id: Option<&str>,
    account_name: &str,
    config: &Config,
    output_file: Option<String>,
) -> (r: Option<Result<SaveFiles, StorageError>>)
    requires
        names_files(account_name@, config.original_format) ==> can_cut_name(account_name@),
    ensures
        r is None <==> !payload_fits(inventory_json@, opt_str(account_id), config.original_format),
        r matches Some(x) ==> save_result(
            x,
            inventory_json@,
            opt_str(account_id),
            account_name@,
            config.encryption_key@,
            config.original_format,
            opt_string(output_file),
        ),
        r matches Some(x) ==> (x is Ok <==> json_parses(inventory_json@)),
{
    match save_texts(inventory_json, account_id, config.original_format) {
        Ok(texts) => {
            if texts.1.as_str().as_bytes().len() > usize::MAX - 16 {
                return None;
            }
        },
        Err(_) => {},
    }
    Some(prepare_save(inventory_json, account_id, account_name, config, output_file))
}

/// The texts of a sequence of path components.
pub open spec fn strings_view(v: Seq<String>) -> Seq<Seq<char>> {
    v.map_values(|s: String| s@)
}

/// The directory is a cargo build directory: `.../target/release` or
/// `.../target/debug`.
pub open spec fn in_build_dir(dir: Seq<Seq<char>>) -> bool {
    &&& dir.len() >= 2
    &&& dir[dir.len() - 2] == "target"@
    &&& (dir.last() == "release"@ || dir.last() == "debug"@)
}

/// The data directory for an executable in `exe_dir`: that directory, or
/// the crate root (the parent of `target`) for a build directory.
pub open spec fn data_dir_of(exe_dir: Seq<Seq<char>>) -> Seq<Seq<char>> {
    if in_build_dir(exe_dir) {
        exe_dir.subrange(0, exe_dir.len() - 2)
    } else {
        exe_dir
    }
}

/// Where `inventory.json`, `lastData.dat` and the related files go, given the
/// components of the executable's directory: that directory, or the crate
/// root when the binary lives in `target/release` or `target/debug`.
pub fn data_directory_from(exe_dir: Vec<String>) -> (r: Vec<String>)
    ensures
        strings_view(r@) == data_dir_of(strings_view(exe_dir@)),
{
    let n = exe_dir.len();
    if n >= 2 && str_eq(exe_dir[n - 2].as_str(), "target") && (str_eq(
        exe_dir[n - 1].as_str(),
        "release",
    ) || str_eq(exe_dir[n - 1].as_str(), "debug")) {
        let mut dir = exe_dir;
        dir.truncate(n - 2);
        assert(strings_view(dir@) =~= strings_view(exe_dir@).subrange(0, n - 2));
        dir
    } else {
        exe_dir
    }
}

/// A file name resolved against the data directory: an absolute path as it
/// is, a relative one joined onto `data_dir` (all as path components).
pub fn resolve_data_path(file: Vec<String>, file_is_absolute: bool, data_dir: Vec<String>) -> (r: Vec<
    String,
>)
    ensures
        strings_view(r@) == if file_is_absolute {
            strings_view(file@)
        } else {
            strings_view(data_dir@) + strings_view(file@)
        },
{
    if file_is_absolute {
        file
    } else {
        let mut path = data_dir;
        let mut rest = file;
        let ghost d = path@;
        let ghost f = rest@;
        path.append(&mut rest);
        assert(strings_view(path@) =~= strings_view(d) + strings_view(f));
        path
    }
}

/// A `lastData_*.dat` file name.
pub fn is_named_dat_file(file_name: &str) -> (b: bool)
    ensures
        b == (starts_with(file_name@, "lastData_"@) && ends_with(file_name@, ".dat"@)),
{
    str_starts_with(file_name, "lastData_") && str_ends_with(file_name, ".dat")
}

/// What a decrypted `lastData` payload gives: an error when it is not JSON,
/// else its `accountId` when that is a string of 24 bytes.
pub open spec fn account_id_in_payload(text: Seq<char>) -> Result<Option<Seq<char>>, StorageError> {
    if !json_parses(text) {
        Err(StorageError::InvalidJson)
    } else {
        match json_string_member(text, ACCOUNT_ID_KEY@) {
            Some(id) => if encode_utf8(id).len() == 24 {
                Ok(Some(id))
            } else {
                Ok(None)
            },
            None => Ok(None),
        }
    }
}

/// What one `lastData` file gives: nothing when it is empty, else the
/// account id of its decrypted payload.
pub open spec fn account_id_in_dat(key: Seq<u8>, data: Seq<u8>) -> Result<Option<Seq<char>>, StorageError> {
    if data.len() == 0 {
        Ok(None)
    } else {
        match unsealed(key, data) {
            Err(e) => Err(StorageError::Crypto(e)),
            Ok(text) => account_id_in_payload(text),
        }
    }
}

/// The view of an account-id result.
pub open spec fn id_result(r: Result<Option<String>, StorageError>) -> Result<Option<Seq<char>>, StorageError> {
    match r {
        Ok(Some(s)) => Ok(Some(s@)),
        Ok(None) => Ok(None),
        Err(e) => Err(e),
    }
}

/// The account id stored in one `lastData` file's bytes, decrypted with
/// `key`. An empty file gives `None`.
///
/// A file written by `encrypt_data` under the same key gives back the
/// account id of the payload that was written.
pub fn account_id_from_dat_contents(encrypted: &[u8], key: &EncryptionKey) -> (r: Result<
    Option<String>,
    StorageError,
>)
    ensures
        id_result(r) == account_id_in_dat(key@, encrypted@),
        forall|text: Seq<char>|
            encrypted@.len() > 0 && encrypted@ == #[trigger] sealed(key@, text) ==> id_result(r)
                == account_id_in_payload(text),
{
    if encrypted.len() == 0 {
        return Ok(None);
    }
    let decrypted = match decrypt_data(encrypted, key.as_bytes()) {
        Ok(text) => text,
        Err(e) => return Err(StorageError::Crypto(e)),
    };
    if !json_is_valid(decrypted.as_str()) {
        return Err(StorageError::InvalidJson);
    }
    match json_string_member_of(decrypted.as_str(), ACCOUNT_ID_KEY) {
        Some(account_id) => {
            if account_id.as_str().as_bytes().len() == 24 {
                Ok(Some(account_id))
            } else {
                Ok(None)
            }
        },
        None => Ok(None),
    }
}

proof fn lemma_take_bytes(s: Seq<char>, n: int)
    requires
        0 <= n,
    ensures
        encode_utf8(take_bytes(s, n)).len() <= n,
        take_bytes(s, n).len() <= s.len(),
        take_bytes(s, n) == s.subrange(0, take_bytes(s, n).len() as int),
    decreases s.len(),
{
    if s.len() > 0 && encode_scalar(s[0] as u32).len() <= n {
        let w = encode_scalar(s[0] as u32).len();
        let rest = take_bytes(s.drop_first(), n - w);
        lemma_take_bytes(s.drop_first(), n - w);
        let t = seq![s[0]] + rest;
        assert(t.drop_first() =~= rest);
        assert(t[0] == s[0]);
        assert(t =~= s.subrange(0, t.len() as int));
    } else if s.len() > 0 {
        assert(take_bytes(s, n) =~= s.subrange(0, 0));
    } else {
        assert(take_bytes(s, n) =~= s.subrange(0, 0));
    }
}

/// A sanitized name is safe in a file name: no character of it is one of
/// `/ \ : * ? " < > |`, it is at most 50 bytes long, and it is a prefix of
/// the name with those characters replaced by `_`.
pub proof fn lemma_sanitized_is_safe(name: Seq<char>)
    ensures
        forall|i: int|
            0 <= i < sanitized(name).len() ==> !is_forbidden_in_file_name(#[trigger] sanitized(name)[i]),
        encode_utf8(sanitized(name)).len() <= MAX_NAME_BYTES,
        sanitized(name) == replace_forbidden(name).subrange(0, sanitized(name).len() as int),
{
    let r = replace_forbidden(name);
    lemma_take_bytes(r, MAX_NAME_BYTES as int);
    assert forall|i: int| 0 <= i < sanitized(name).len() implies !is_forbidden_in_file_name(
        #[trigger] sanitized(name)[i],
    ) by {
        assert(sanitized(name)[i] == r[i]);
    }
}

/// The account id a `lastData` file gives, if any: none when it is empty,
/// cannot be decrypted with `key`, is not JSON or has no 24-byte `accountId`.
pub open spec fn dat_account_id(key: Seq<u8>, data: Seq<u8>) -> Option<Seq<char>> {
    match account_id_in_dat(key, data) {
        Ok(Some(id)) => Some(id),
        _ => None,
    }
}

/// The account id in one `lastData` file's bytes; a file that gives none
/// (including one that cannot be decrypted or parsed) yields `None`, so the
/// search goes on with the next file and then `EE.log`.
pub fn dat_file_account_id(encrypted: &[u8], key: &EncryptionKey) -> (r: Option<String>)
    ensures
        opt_string(r) == dat_account_id(key@, encrypted@),
{
    match account_id_from_dat_contents(encrypted, key) {
        Ok(Some(id)) => Some(id),
        _ => None,
    }
}

} // verus!
