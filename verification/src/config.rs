//! Account configuration: which account a run acts for, and the file names
//! derived from it.

use vstd::prelude::*;
use vstd::string::StringExecFns;

verus! {

/// One banking account: the credentials a fetch run presents.
pub struct Account {
    pub phone: String,
    pub password: String,
    pub device_id: String,
    pub pin: String,
    pub otp: Option<String>,
}

/// A run's configuration: a list of accounts and the index of the one to use.
pub struct Config {
    pub use_account_idx: usize,
    pub accounts: Vec<Account>,
}

/// What authentication produced: the credentials every statement request
/// presents.
pub struct LoginInfo<'a> {
    pub token: &'a str,
    pub account_number: &'a str,
}

impl Account {
    /// Whether a one-time password has been supplied for this account.
    pub fn has_otp(&self) -> (r: bool)
        ensures
            r == self.otp is Some,
    {
        self.otp.is_some()
    }
}

impl Config {
    /// Whether `use_account_idx` names an account of this configuration.
    pub fn account_index_valid(&self) -> (r: bool)
        ensures
            r == (self.use_account_idx < self.accounts.len()),
    {
        self.use_account_idx < self.accounts.len()
    }

    /// The selected account.
    pub fn account(&self) -> (r: &Account)
        requires
            self.use_account_idx < self.accounts.len(),
        ensures
            *r == self.accounts@[self.use_account_idx as int],
    {
        &self.accounts[self.use_account_idx]
    }
}

/// The path of the cached login response for the selected account.
pub fn login_info_file(config: &Config) -> (r: String)
    requires
        config.use_account_idx < config.accounts.len(),
    ensures
        r@ == "cache/s_"@ + config.accounts@[config.use_account_idx as int].phone@ + ".json"@,
{
    let prefix = String::from_str("cache/s_");
    let with_phone = prefix.concat(config.account().phone.as_str());
    with_phone.concat(".json")
}

/// The path of the exported spreadsheet for the selected account.
pub fn export_file_name(config: &Config) -> (r: String)
    requires
        config.use_account_idx < config.accounts.len(),
    ensures
        r@ == "cache/statements_"@ + config.accounts@[config.use_account_idx as int].phone@
            + ".xlsx"@,
{
    let prefix = String::from_str("cache/statements_");
    let with_phone = prefix.concat(config.account().phone.as_str());
    with_phone.concat(".xlsx")
}

} // verus!
