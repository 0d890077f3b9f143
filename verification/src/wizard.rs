//! The setup wizard's decisions: which environment variable hints at a
//! provider's key, and where an entered key is stored. The prompts and
//! the file writing live at the program's edge.

use vstd::prelude::*;

use crate::config::str_eq;

verus! {

/// Where the wizard stores an entered API key.
#[derive(Debug, PartialEq, Eq, Structural)]
pub enum KeyStorage {
    /// Encrypted in the credential vault.
    Vault,
    /// As plain text in the config file.
    Plaintext,
    /// Nowhere: the user sets an environment variable instead.
    Skip,
}

/// The environment variable that can carry a provider's API key.
pub fn env_hint_for_provider(provider: &str) -> (r: &'static str)
    ensures
        provider@ == "anthropic"@ ==> r@ == "ANTHROPIC_API_KEY"@,
        provider@ == "openai"@ ==> r@ == "OPENAI_API_KEY"@,
        provider@ == "sansa"@ ==> r@ == "SANSA_API_KEY"@,
        provider@ != "anthropic"@ && provider@ != "openai"@ && provider@ != "sansa"@ ==> r@
            == "API_KEY"@,
{
    proof {
        reveal_strlit("anthropic");
        reveal_strlit("openai");
        reveal_strlit("sansa");
        assert("anthropic"@.len() == 9);
        assert("openai"@.len() == 6);
        assert("sansa"@.len() == 5);
        assert("anthropic"@ != "openai"@ && "anthropic"@ != "sansa"@ && "openai"@ != "sansa"@);
    }
    if str_eq(provider, "anthropic") {
        "ANTHROPIC_API_KEY"
    } else if str_eq(provider, "openai") {
        "OPENAI_API_KEY"
    } else if str_eq(provider, "sansa") {
        "SANSA_API_KEY"
    } else {
        "API_KEY"
    }
}

/// Where an entered key goes: an empty key is never stored; otherwise
/// the first storage choice is the vault, the second plain text in the
/// config, and anything else skips storing.
pub fn decide_key_storage(api_key_empty: bool, choice: usize) -> (r: KeyStorage)
    ensures
        api_key_empty ==> r == KeyStorage::Skip,
        !api_key_empty && choice == 0 ==> r == KeyStorage::Vault,
        !api_key_empty && choice == 1 ==> r == KeyStorage::Plaintext,
        !api_key_empty && choice > 1 ==> r == KeyStorage::Skip,
{
    if api_key_empty {
        KeyStorage::Skip
    } else if choice == 0 {
        KeyStorage::Vault
    } else if choice == 1 {
        KeyStorage::Plaintext
    } else {
        KeyStorage::Skip
    }
}

/// A vault that could not be created falls back to plain-text storage;
/// the other storage choices stand.
pub fn apply_vault_outcome(storage: KeyStorage, vault_created: bool) -> (r: KeyStorage)
    ensures
        storage == KeyStorage::Vault && vault_created ==> r == KeyStorage::Vault,
        storage == KeyStorage::Vault && !vault_created ==> r == KeyStorage::Plaintext,
        storage != KeyStorage::Vault ==> r == storage,
{
    match storage {
        KeyStorage::Vault => {
            if vault_created {
                KeyStorage::Vault
            } else {
                KeyStorage::Plaintext
            }
        },
        KeyStorage::Plaintext => KeyStorage::Plaintext,
        KeyStorage::Skip => KeyStorage::Skip,
    }
}

} // verus!
