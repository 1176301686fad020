//! Storage of AI-provider API keys in the system credential store, under a
//! fixed set of key names.

use vstd::prelude::*;
use crate::text::text_eq;

verus! {

/// Service name that all entries are stored under.
pub const SERVICE_NAME: &'static str = "com.desklab.app";

pub const KEY_CLAUDE: &'static str = "claude_api_key";
pub const KEY_OPENAI: &'static str = "openai_api_key";
pub const KEY_OLLAMA: &'static str = "ollama_api_key";
pub const KEY_TONGYI: &'static str = "tongyi_api_key";
pub const KEY_DOUBAO: &'static str = "doubao_api_key";
pub const KEY_DEEPSEEK: &'static str = "deepseek_api_key";
pub const KEY_SILICONFLOW: &'static str = "siliconflow_api_key";

#[verifier::external_type_specification]
#[verifier::external_body]
pub struct ExEntry(keyring::Entry);

#[verifier::external_type_specification]
#[verifier::external_body]
pub struct ExKeyringError(keyring::Error);

/// Relies on `keyring::Entry::new`: builds an entry handle for a service and
/// user; whether it succeeds depends on the platform store.
pub assume_specification[ keyring::Entry::new ](service: &str, user: &str) -> keyring::Result<
    keyring::Entry,
>;

/// Relies on `keyring::Entry::set_password`: stores a password in the
/// platform store.
pub assume_specification[ keyring::Entry::set_password ](
    entry: &keyring::Entry,
    password: &str,
) -> keyring::Result<()>;

/// Relies on `keyring::Entry::get_password`: reads the stored password.
pub assume_specification[ keyring::Entry::get_password ](entry: &keyring::Entry) -> keyring::Result<
    String,
>;

/// Relies on `keyring::Entry::delete_credential`: removes the stored
/// credential.
pub assume_specification[ keyring::Entry::delete_credential ](
    entry: &keyring::Entry,
) -> keyring::Result<()>;

/// Failure of a credential-store operation.
#[derive(Clone, Debug, PartialEq, Eq)]
pub enum KeychainError {
    AccessError(String),
    NotFound(String),
    InvalidKey(String),
}

/// Relies on the variants of `keyring::Error`: `NoEntry` means no credential
/// is stored; every other variant is an access failure, described by its
/// `Display` text.
#[verifier::external_body]
fn keychain_error(e: keyring::Error) -> (r: KeychainError) {
    match e {
        keyring::Error::NoEntry => KeychainError::NotFound("密钥不存在".to_string()),
        _ => KeychainError::AccessError(e.to_string()),
    }
}

/// The key names that may be stored, in order.
pub open spec fn key_names() -> Seq<Seq<char>> {
    seq![
        "claude_api_key"@,
        "openai_api_key"@,
        "ollama_api_key"@,
        "tongyi_api_key"@,
        "doubao_api_key"@,
        "deepseek_api_key"@,
        "siliconflow_api_key"@,
    ]
}

fn key_name_list() -> (r: Vec<&'static str>)
    ensures
        r@.map_values(|s: &str| s@) == key_names(),
{
    let v = vec![
        "claude_api_key",
        "openai_api_key",
        "ollama_api_key",
        "tongyi_api_key",
        "doubao_api_key",
        "deepseek_api_key",
        "siliconflow_api_key",
    ];
    assert(v@.map_values(|s: &str| s@) =~= key_names());
    v
}

/// Access to API keys in the system credential store.
pub struct KeychainService;

impl KeychainService {
    /// Accepts exactly the supported key names.
    pub fn validate_key_name(key_name: &str) -> (r: Result<(), KeychainError>)
        ensures
            r is Ok <==> key_names().contains(key_name@),
            r matches Err(e) ==> e matches KeychainError::InvalidKey(k) && k@ == key_name@,
    {
        let names = key_name_list();
        let mut i: usize = 0;
        while i < names.len()
            invariant
                i <= names.len(),
                names@.map_values(|s: &str| s@) == key_names(),
                forall|j: int| 0 <= j < i ==> key_names()[j] != key_name@,
            decreases names.len() - i,
        {
            if text_eq(names[i], key_name) {
                assert(key_names()[i as int] == key_name@);
                return Ok(());
            }
            i = i + 1;
        }
        Err(KeychainError::InvalidKey(String::from_str(key_name)))
    }

    /// Stores `value` under `key_name`; an unsupported name is refused before
    /// the store is reached.
    pub fn set_api_key(key_name: &str, value: &str) -> (r: Result<(), KeychainError>)
        ensures
            !key_names().contains(key_name@) ==> r matches Err(KeychainError::InvalidKey(_)),
    {
        KeychainService::validate_key_name(key_name)?;
        let entry = match keyring::Entry::new(SERVICE_NAME, key_name) {
            Ok(e) => e,
            Err(e) => return Err(keychain_error(e)),
        };
        match entry.set_password(value) {
            Ok(()) => Ok(()),
            Err(e) => Err(keychain_error(e)),
        }
    }

    /// The key stored under `key_name`; an unsupported name is refused before
    /// the store is reached.
    pub fn get_api_key(key_name: &str) -> (r: Result<String, KeychainError>)
        ensures
            !key_names().contains(key_name@) ==> r matches Err(KeychainError::InvalidKey(_)),
    {
        KeychainService::validate_key_name(key_name)?;
        let entry = match keyring::Entry::new(SERVICE_NAME, key_name) {
            Ok(e) => e,
            Err(e) => return Err(keychain_error(e)),
        };
        match entry.get_password() {
            Ok(p) => Ok(p),
            Err(e) => Err(keychain_error(e)),
        }
    }

    /// Removes the key stored under `key_name`; a key that is not there is no
    /// error.
    pub fn delete_api_key(key_name: &str) -> (r: Result<(), KeychainError>)
        ensures
            !key_names().contains(key_name@) ==> r matches Err(KeychainError::InvalidKey(_)),
    {
        KeychainService::validate_key_name(key_name)?;
        let entry = match keyring::Entry::new(SERVICE_NAME, key_name) {
            Ok(e) => e,
            Err(e) => return Err(keychain_error(e)),
        };
        match entry.delete_credential() {
            Ok(()) => Ok(()),
            Err(e) => match keychain_error(e) {
                KeychainError::NotFound(_) => Ok(()),
                other => Err(other),
            },
        }
    }

    /// Whether a key is stored under `key_name`; an unsupported name is
    /// refused before the store is reached.
    pub fn has_api_key(key_name: &str) -> (r: Result<bool, KeychainError>)
        ensures
            !key_names().contains(key_name@) ==> r matches Err(KeychainError::InvalidKey(_)),
    {
        KeychainService::validate_key_name(key_name)?;
        let entry = match keyring::Entry::new(SERVICE_NAME, key_name) {
            Ok(e) => e,
            Err(e) => return Err(keychain_error(e)),
        };
        match entry.get_password() {
            Ok(_) => Ok(true),
            Err(e) => match keychain_error(e) {
                KeychainError::NotFound(_) => Ok(false),
                other => Err(other),
            },
        }
    }

    /// Each supported key name, in order, with whether a key is stored under
    /// it (a failing lookup counts as not stored).
    pub fn get_all_key_status() -> (r: Vec<(String, bool)>)
        ensures
            r.len() == key_names().len(),
            forall|i: int| 0 <= i < r.len() ==> (#[trigger] r@[i]).0@ == key_names()[i],
    {
        let names = key_name_list();
        let mut out: Vec<(String, bool)> = Vec::new();
        let mut i: usize = 0;
        while i < names.len()
            invariant
                i <= names.len(),
                names@.map_values(|s: &str| s@) == key_names(),
                out.len() == i,
                forall|j: int| 0 <= j < i ==> (#[trigger] out@[j]).0@ == key_names()[j],
            decreases names.len() - i,
        {
            let has = match KeychainService::has_api_key(names[i]) {
                Ok(b) => b,
                Err(_) => false,
            };
            out.push((String::from_str(names[i]), has));
            i = i + 1;
        }
        out
    }
}

} // verus!
