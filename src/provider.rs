//! Provider records: a named schema that fixes how many entries an oracle
//! under it may hold, and the one identity that may write them.
use crate::account::Account;
use crate::address::{provider_address, provider_address_of, utf8_bytes, Address};
use vstd::prelude::*;

verus! {

pub const PREFIX: &'static str = "oracle";

pub const VERSION: &'static str = "v1";

/// The largest number of entries a provider may allow.
pub const MAX_DATA_SIZE: u32 = 10;

/// A provider record.
#[derive(Clone, Debug)]
pub struct Provider {
    /// The provider's name; its first 32 bytes seed its address.
    pub name: String,
    /// The identity allowed to create and update oracles under this provider.
    pub authority: Address,
    /// The number of entries an oracle under this provider may hold.
    pub data_size: u32,
    /// The disambiguation byte of the provider's address.
    pub bump: u8,
}

/// Byte size of a provider record with a name of `name_len` bytes:
/// discriminator, name, authority, data size and bump.
pub open spec fn provider_space(name_len: nat) -> nat {
    8 + name_len + 32 + 32 + 8
}

impl Provider {
    pub fn space(name: &str) -> (r: usize)
        requires
            provider_space(utf8_bytes(name@).len()) <= usize::MAX,
        ensures
            r == provider_space(utf8_bytes(name@).len()),
    {
        8 + name.len() + 32 + 32 + 8
    }
}

/// Why creating a provider failed.
#[derive(Clone, Copy, Debug, PartialEq, Eq, Structural)]
pub enum ErrorCode {
    /// The requested data size lies outside `0..=MAX_DATA_SIZE`.
    ProviderInvalidSize,
    /// The target address is not the one derived from the name and bump.
    ProviderSeedsMismatch,
    /// The target address already holds a record.
    ProviderAlreadyInitialized,
}

/// The accounts that creating a provider involves.
#[derive(Clone, Copy, Debug)]
pub struct Initialize {
    /// The provider program's own identity.
    pub program_id: Address,
    /// The address at which the new provider record is to be created.
    pub provider: Address,
    /// Whether that address already holds a record.
    pub provider_in_use: bool,
    /// The signer who pays for the record and becomes its authority.
    pub user: Address,
}

/// Whether the accounts name the address derived from `name` and `bump`.
pub open spec fn seeds_match(ctx: Initialize, name: Seq<char>, bump: u8) -> bool {
    provider_address_of(utf8_bytes(name), bump, ctx.program_id@) == Some(ctx.provider@)
}

/// Creates a provider record of `size` entries whose authority is the signer.
pub fn initialize(ctx: &Initialize, name: String, size: u32, bump: u8) -> (r: Result<
    Account<Provider>,
    ErrorCode,
>)
    requires
        provider_space(utf8_bytes(name@).len()) <= usize::MAX,
    ensures
        size > MAX_DATA_SIZE ==> r == Err::<Account<Provider>, ErrorCode>(
            ErrorCode::ProviderInvalidSize,
        ),
        size <= MAX_DATA_SIZE && !seeds_match(*ctx, name@, bump) ==> r == Err::<
            Account<Provider>,
            ErrorCode,
        >(ErrorCode::ProviderSeedsMismatch),
        size <= MAX_DATA_SIZE && seeds_match(*ctx, name@, bump) && ctx.provider_in_use ==> r
            == Err::<Account<Provider>, ErrorCode>(ErrorCode::ProviderAlreadyInitialized),
        r is Ok <==> size <= MAX_DATA_SIZE && seeds_match(*ctx, name@, bump)
            && !ctx.provider_in_use,
        r is Ok ==> {
            let a = r->Ok_0;
            &&& a.key == ctx.provider
            &&& a.owner == ctx.program_id
            &&& a.space == provider_space(utf8_bytes(name@).len())
            &&& a.data.name@ == name@
            &&& a.data.authority == ctx.user
            &&& a.data.data_size == size
            &&& a.data.bump == bump
        },
{
    if !(size <= MAX_DATA_SIZE) {
        return Err(ErrorCode::ProviderInvalidSize);
    }
    let matches = match provider_address(name.as_str(), bump, &ctx.program_id) {
        Some(a) => a.same_as(&ctx.provider),
        None => false,
    };
    if !matches {
        return Err(ErrorCode::ProviderSeedsMismatch);
    }
    if ctx.provider_in_use {
        return Err(ErrorCode::ProviderAlreadyInitialized);
    }
    let space = Provider::space(name.as_str());
    let provider = Provider { name, authority: ctx.user, data_size: size, bump };
    Ok(Account { key: ctx.provider, owner: ctx.program_id, space, data: provider })
}

} // verus!
