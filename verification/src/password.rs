//! The password of the broker login, in the keyring of the system.

use vstd::prelude::*;
use vstd::string::StringExecFns;
use crate::config::Config;
use crate::error::PasswordError;

verus! {

/// The service under which the keyring holds the password.
pub const KEYRING_SERVICE_NAME: &'static str = "system-mqtt";

/// The place of a password in the keyring.
#[derive(Debug)]
pub struct KeyringEntry {
    pub service: String,
    pub username: String,
}

/// Tells where the password of the broker login is to be stored: under the
/// user that `config` sets. Without such a user there is no place for it.
pub fn set_password(config: &Config) -> (result: Result<KeyringEntry, PasswordError>)
    ensures
        match result {
            Ok(entry) => config.username matches Some(username) && entry.username@ == username@
                && entry.service@ == KEYRING_SERVICE_NAME@,
            Err(error) => config.username is None && error is NoUsername,
        },
{
    match &config.username {
        Some(username) => Ok(
            KeyringEntry {
                service: String::from_str(KEYRING_SERVICE_NAME),
                username: username.clone(),
            },
        ),
        None => Err(PasswordError::NoUsername),
    }
}

} // verus!
