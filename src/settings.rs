//! Market-wide settings and the checks on what users may set.
use vstd::prelude::*;
use vstd::string::StringExecFns;

verus! {

/// Longest market name plus one, in bytes: names must be shorter.
pub const MARKET_NAME_LIMIT: usize = 64;

/// Length of a squeaknode public key, in bytes of hex text.
pub const SQUEAKNODE_PUBKEY_LEN: usize = 64;

/// Longest squeaknode address, in bytes.
pub const MAX_SQUEAKNODE_ADDRESS_LEN: usize = 128;

/// The settings an administrator keeps for the whole market.
#[derive(Debug, Clone)]
pub struct AdminSettings {
    pub id: Option<i32>,
    pub market_name: String,
    pub fee_rate_basis_points: u32,
}

/// Why a settings change was refused.
#[derive(Debug, Clone, Copy, PartialEq, Eq, Structural)]
pub enum SettingsError {
    EmptyMarketName,
    MarketNameTooLong,
    InvalidPubkey,
    AddressTooLong,
}

impl AdminSettings {
    /// The settings of a market that no administrator has changed yet.
    pub fn get_default() -> (r: AdminSettings)
        ensures
            r.id is None,
            r.market_name@ == "Squeakroad"@,
            r.fee_rate_basis_points == 500,
    {
        AdminSettings {
            id: None,
            market_name: <String as StringExecFns>::from_str("Squeakroad"),
            fee_rate_basis_points: 500,
        }
    }
}

/// Checks a new market name: it is not empty and shorter than the limit.
pub fn validate_market_name(name: &str) -> (r: Result<(), SettingsError>)
    ensures
        name.len() == 0 ==> r == Err::<(), SettingsError>(SettingsError::EmptyMarketName),
        name.len() >= MARKET_NAME_LIMIT ==> r == Err::<(), SettingsError>(
            SettingsError::MarketNameTooLong,
        ),
        0 < name.len() < MARKET_NAME_LIMIT ==> r is Ok,
{
    if name.len() == 0 {
        Err(SettingsError::EmptyMarketName)
    } else if name.len() >= MARKET_NAME_LIMIT {
        Err(SettingsError::MarketNameTooLong)
    } else {
        Ok(())
    }
}

/// Checks a user's squeaknode details: the public key has exactly its length
/// and the address is not over its limit.
pub fn validate_squeaknode_info(pubkey: &str, address: &str) -> (r: Result<(), SettingsError>)
    ensures
        pubkey.len() != SQUEAKNODE_PUBKEY_LEN ==> r == Err::<(), SettingsError>(
            SettingsError::InvalidPubkey,
        ),
        pubkey.len() == SQUEAKNODE_PUBKEY_LEN && address.len() > MAX_SQUEAKNODE_ADDRESS_LEN
            ==> r == Err::<(), SettingsError>(SettingsError::AddressTooLong),
        pubkey.len() == SQUEAKNODE_PUBKEY_LEN && address.len() <= MAX_SQUEAKNODE_ADDRESS_LEN
            ==> r is Ok,
{
    if pubkey.len() != SQUEAKNODE_PUBKEY_LEN {
        Err(SettingsError::InvalidPubkey)
    } else if address.len() > MAX_SQUEAKNODE_ADDRESS_LEN {
        Err(SettingsError::AddressTooLong)
    } else {
        Ok(())
    }
}

} // verus!
