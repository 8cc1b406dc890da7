//! The two instructions of the program, and the steps they are made of.
//!
//! The asset lives at the address that the program derives from the mint
//! seed, and that address is also its mint and freeze authority: the asset
//! is its own authority, and only the program can sign for it. Nothing is
//! stored between calls; the authority is recomputed every time.

use vstd::prelude::*;
use crate::address::Address;
use crate::authority::{
    associated_address, associated_token_address, metadata_address, metadata_address_of,
    on_signature_curve, resolution, resolve_authority, seed_bytes, signing_seeds, Authority,
    SigningContext, MINT_SEED,
};
use crate::error::{AirdropError, Rejection};
use crate::ledger::{
    bound, metadata_created, mint_initialized, minted, Ledger, LedgerState, StorageCost,
};

verus! {

/// The precision of the asset: one whole token is `10^9` minor units.
pub const MINT_DECIMALS: u8 = 9;

/// The accounts presented to `create_mint`.
#[derive(Clone, Copy, Debug, PartialEq, Eq)]
pub struct CreateMint {
    /// The funding party, which pays for the storage of what is created.
    pub payer: Address,
    /// Where the asset is to be created: the program's derived address.
    pub mint_account: Address,
    /// Where the asset's descriptive record is to be created.
    pub metadata_account: Address,
}

/// The accounts presented to `airdrop`.
#[derive(Clone, Copy, Debug, PartialEq, Eq)]
pub struct Airdrop {
    /// The funding party, which is also the recipient.
    pub payer: Address,
    /// The asset: the program's derived address.
    pub mint_account: Address,
    /// The recipient's token account for the asset.
    pub associated_token_account: Address,
}

/// What the program hands to the token and metadata services when the
/// asset is created.
#[derive(Debug)]
pub struct CreationPlan {
    /// The derived authority, which is the asset's address and its mint and
    /// freeze authority.
    pub authority: Authority,
    /// The capability under which the descriptive record is signed.
    pub signer: SigningContext,
    /// The precision that the asset is created with.
    pub decimals: u8,
    /// Whether the descriptive record can be changed later.
    pub is_mutable: bool,
    /// Whether the update authority of the record is its signer.
    pub update_authority_is_signer: bool,
}

/// Whether the accounts presented to `create_mint` are the derived ones:
/// the proof token of the authority, or the reason for the refusal.
pub open spec fn creation_presented(program_id: Seq<u8>, accounts: CreateMint) -> Result<
    u8,
    AirdropError,
> {
    match resolution(program_id, accounts.mint_account@) {
        Err(e) => Err(e),
        Ok((_, bump)) => match metadata_address_of(accounts.mint_account@) {
            None => Err(AirdropError::DerivationDefect),
            Some(metadata) => if metadata != accounts.metadata_account@ {
                Err(AirdropError::AuthorizationMismatch)
            } else {
                Ok(bump)
            },
        },
    }
}

/// Decides the creation of the asset from the presented accounts alone.
///
/// The plan holds the authority that was derived, whose address is the
/// presented asset's, the capability that signs for it, and the fixed
/// terms of the asset: nine decimals, an immutable record, the signer as
/// update authority.
pub fn plan_creation(program_id: &Address, accounts: &CreateMint) -> (r: Result<
    CreationPlan,
    AirdropError,
>)
    ensures
        match r {
            Ok(plan) => {
                &&& creation_presented(program_id@, *accounts) == Ok::<u8, AirdropError>(
                    plan.authority.bump,
                )
                &&& plan.authority.address == accounts.mint_account
                &&& seed_bytes(plan.signer.seeds@) == signing_seeds(
                    MINT_SEED@,
                    None,
                    plan.authority.bump,
                )
                &&& plan.signer.program_id == *program_id
                &&& plan.signer.signs_for(accounts.mint_account@)
                &&& !on_signature_curve(accounts.mint_account@)
                &&& plan.decimals == MINT_DECIMALS
                &&& !plan.is_mutable
                &&& plan.update_authority_is_signer
            },
            Err(e) => creation_presented(program_id@, *accounts) == Err::<u8, AirdropError>(e),
        },
{
    let authority = resolve_authority(program_id, &accounts.mint_account)?;
    let metadata = metadata_address(&accounts.mint_account)?;
    if !metadata.same(&accounts.metadata_account) {
        return Err(AirdropError::AuthorizationMismatch);
    }
    let signer = authority.signing_context(MINT_SEED.as_slice(), None, program_id);
    Ok(
        CreationPlan {
            authority,
            signer,
            decimals: MINT_DECIMALS,
            is_mutable: false,
            update_authority_is_signer: true,
        },
    )
}

/// What `create_mint` does to a ledger.
///
/// The presented asset address must be the derived one and the presented
/// metadata address the one that belongs to the asset. Then the asset is
/// created with the fixed precision and the derived address as mint and
/// freeze authority, and its descriptive record is attached, signed by that
/// authority, immutable, with the signer as update authority.
pub open spec fn mint_created(
    state: LedgerState,
    costs: StorageCost,
    program_id: Address,
    accounts: CreateMint,
    token_name: String,
    token_symbol: String,
    token_uri: String,
) -> Result<LedgerState, AirdropError> {
    match creation_presented(program_id@, accounts) {
        Err(e) => Err(e),
        Ok(_) => match mint_initialized(
            state,
            costs,
            accounts.payer,
            accounts.mint_account,
            MINT_DECIMALS,
            accounts.mint_account,
            accounts.mint_account,
        ) {
            Err(e) => Err(e),
            Ok(with_mint) => metadata_created(
                with_mint,
                costs,
                accounts.payer,
                accounts.metadata_account,
                accounts.mint_account,
                accounts.mint_account,
                true,
                token_name,
                token_symbol,
                token_uri,
                false,
                true,
            ),
        },
    }
}

/// Creates the asset and binds its authority, once.
///
/// Returns the asset's address. Fails, leaving the ledger unchanged, when
/// no authority can be derived, when a presented address is not the
/// derived one, when the asset's or the record's address is already in
/// use, or when the funding party cannot pay for both accounts.
pub fn create_mint(
    ledger: &mut Ledger,
    program_id: &Address,
    accounts: &CreateMint,
    token_name: String,
    token_symbol: String,
    token_uri: String,
) -> (r: Result<Address, AirdropError>)
    requires
        old(ledger).well_formed(),
    ensures
        final(ledger).well_formed(),
        final(ledger).costs() == old(ledger).costs(),
        match r {
            Ok(asset) => asset == accounts.mint_account && mint_created(
                old(ledger)@,
                old(ledger).costs(),
                *program_id,
                *accounts,
                token_name,
                token_symbol,
                token_uri,
            ) == Ok::<LedgerState, AirdropError>(final(ledger)@),
            Err(e) => final(ledger)@ == old(ledger)@ && mint_created(
                old(ledger)@,
                old(ledger).costs(),
                *program_id,
                *accounts,
                token_name,
                token_symbol,
                token_uri,
            ) == Err::<LedgerState, AirdropError>(e),
        },
{
    let plan = plan_creation(program_id, accounts)?;
    // Both accounts are created or neither: look before the first one is.
    if ledger.account(&accounts.mint_account).is_some() {
        return Err(AirdropError::Collision);
    }
    let cost = ledger.storage_cost();
    let held = match ledger.wallet_balance(&accounts.payer) {
        Some(held) => held,
        None => {
            return Err(AirdropError::ResourceExhaustion);
        },
    };
    if held < cost.mint {
        return Err(AirdropError::ResourceExhaustion);
    }
    if accounts.metadata_account.same(&accounts.mint_account) || ledger.account(
        &accounts.metadata_account,
    ).is_some() {
        return Err(AirdropError::Collision);
    }
    if held - cost.mint < cost.metadata {
        return Err(AirdropError::ResourceExhaustion);
    }
    match ledger.initialize_mint(
        &accounts.payer,
        &accounts.mint_account,
        plan.decimals,
        &plan.authority.address,
        &plan.authority.address,
    ) {
        Ok(()) => {},
        Err(e) => {
            return Err(e);
        },
    }
    match ledger.create_metadata(
        &accounts.payer,
        &accounts.metadata_account,
        &accounts.mint_account,
        &plan.authority.address,
        &plan.signer,
        token_name,
        token_symbol,
        token_uri,
        plan.is_mutable,
        plan.update_authority_is_signer,
    ) {
        Ok(()) => Ok(accounts.mint_account),
        Err(e) => Err(e),
    }
}

/// Binds the recipient's token account for an asset: the one account that
/// belongs to the pair. It is created, paid for by the funding party, if
/// it does not exist; an existing one is returned and nothing changes.
pub fn bind(ledger: &mut Ledger, payer: &Address, asset: &Address, recipient: &Address) -> (r: Result<
    Address,
    AirdropError,
>)
    requires
        old(ledger).well_formed(),
    ensures
        final(ledger).well_formed(),
        final(ledger).costs() == old(ledger).costs(),
        match r {
            Ok(account) => bound(old(ledger)@, old(ledger).costs(), *payer, *recipient, *asset) == Ok::<
                (LedgerState, Seq<u8>),
                AirdropError,
            >((final(ledger)@, account@)),
            Err(e) => final(ledger)@ == old(ledger)@ && bound(
                old(ledger)@,
                old(ledger).costs(),
                *payer,
                *recipient,
                *asset,
            ) == Err::<(LedgerState, Seq<u8>), AirdropError>(e),
        },
{
    ledger.create_associated_account(payer, recipient, asset)
}

/// What `issue` does to a ledger: the authority is resolved for the asset,
/// and the issuance is made under its signature.
pub open spec fn issued(
    state: LedgerState,
    program_id: Address,
    asset: Address,
    recipient_account: Address,
    amount: u64,
) -> Result<LedgerState, AirdropError> {
    match resolution(program_id@, asset@) {
        Err(e) => Err(e),
        Ok((authority, _)) => minted(state, asset@, recipient_account@, authority, true, amount),
    }
}

/// Issues `amount` minor units of the asset into a bound token account.
///
/// The authority is recomputed and must be the presented asset's address
/// and its recorded mint authority; the issuance is signed with the
/// capability rebuilt from the seeds. An amount of zero is accepted and
/// changes no balance.
pub fn issue(
    ledger: &mut Ledger,
    program_id: &Address,
    asset: &Address,
    recipient_account: &Address,
    amount: u64,
) -> (r: Result<(), AirdropError>)
    requires
        old(ledger).well_formed(),
    ensures
        final(ledger).well_formed(),
        final(ledger).costs() == old(ledger).costs(),
        match r {
            Ok(()) => issued(old(ledger)@, *program_id, *asset, *recipient_account, amount) == Ok::<
                LedgerState,
                AirdropError,
            >(final(ledger)@),
            Err(e) => final(ledger)@ == old(ledger)@ && issued(
                old(ledger)@,
                *program_id,
                *asset,
                *recipient_account,
                amount,
            ) == Err::<LedgerState, AirdropError>(e),
        },
{
    let authority = resolve_authority(program_id, asset)?;
    let signer = authority.signing_context(MINT_SEED.as_slice(), None, program_id);
    ledger.mint_to(asset, recipient_account, &authority.address, &signer, amount)
}

/// What the program hands to the token service for an airdrop.
#[derive(Debug)]
pub struct IssuancePlan {
    /// The derived authority, which is the asset's address.
    pub authority: Authority,
    /// The capability under which the issuance is signed.
    pub signer: SigningContext,
    /// The recipient's token account for the asset.
    pub recipient_account: Address,
    /// The minor units to issue.
    pub amount: u64,
}

/// Whether the accounts presented to `airdrop` are the derived ones: the
/// proof token of the authority, or the reason for the refusal.
pub open spec fn airdrop_presented(program_id: Seq<u8>, accounts: Airdrop, mint_pubkey: Seq<u8>) -> Result<
    u8,
    AirdropError,
> {
    match resolution(program_id, accounts.mint_account@) {
        Err(e) => Err(e),
        Ok((_, bump)) => if mint_pubkey != accounts.mint_account@ {
            Err(AirdropError::AuthorizationMismatch)
        } else {
            match associated_address(accounts.payer@, accounts.mint_account@) {
                None => Err(AirdropError::DerivationDefect),
                Some(address) => if address != accounts.associated_token_account@ {
                    Err(AirdropError::AuthorizationMismatch)
                } else {
                    Ok(bump)
                },
            }
        },
    }
}

/// Decides an airdrop from the presented accounts alone.
///
/// The plan holds the authority that was derived, whose address is the
/// presented asset's, the capability that signs for it, the recipient's
/// token account, which is the presented one, and the amount.
pub fn plan_airdrop(program_id: &Address, accounts: &Airdrop, mint_pubkey: Address, amount: u64) -> (r:
    Result<IssuancePlan, AirdropError>)
    ensures
        match r {
            Ok(plan) => {
                &&& airdrop_presented(program_id@, *accounts, mint_pubkey@) == Ok::<u8, AirdropError>(
                    plan.authority.bump,
                )
                &&& plan.authority.address == accounts.mint_account
                &&& seed_bytes(plan.signer.seeds@) == signing_seeds(
                    MINT_SEED@,
                    None,
                    plan.authority.bump,
                )
                &&& plan.signer.program_id == *program_id
                &&& plan.signer.signs_for(accounts.mint_account@)
                &&& !on_signature_curve(accounts.mint_account@)
                &&& plan.recipient_account == accounts.associated_token_account
                &&& plan.amount == amount
            },
            Err(e) => airdrop_presented(program_id@, *accounts, mint_pubkey@) == Err::<
                u8,
                AirdropError,
            >(e),
        },
{
    let authority = resolve_authority(program_id, &accounts.mint_account)?;
    if !mint_pubkey.same(&accounts.mint_account) {
        return Err(AirdropError::AuthorizationMismatch);
    }
    let address = associated_token_address(&accounts.payer, &accounts.mint_account)?;
    if !address.same(&accounts.associated_token_account) {
        return Err(AirdropError::AuthorizationMismatch);
    }
    let signer = authority.signing_context(MINT_SEED.as_slice(), None, program_id);
    Ok(
        IssuancePlan {
            authority,
            signer,
            recipient_account: accounts.associated_token_account,
            amount,
        },
    )
}

/// What `airdrop` does to a ledger.
///
/// The presented asset must be the derived one, under both names it is
/// given by, and the presented token account the one that belongs to the
/// recipient and the asset. Then the account is bound and the amount
/// issued into it.
pub open spec fn airdropped(
    state: LedgerState,
    costs: StorageCost,
    program_id: Address,
    accounts: Airdrop,
    mint_pubkey: Address,
    amount: u64,
) -> Result<LedgerState, AirdropError> {
    match airdrop_presented(program_id@, accounts, mint_pubkey@) {
        Err(e) => Err(e),
        Ok(_) => match bound(state, costs, accounts.payer, accounts.payer, accounts.mint_account) {
            Err(e) => Err(e),
            Ok((with_account, _)) => issued(
                with_account,
                program_id,
                accounts.mint_account,
                accounts.associated_token_account,
                amount,
            ),
        },
    }
}

/// Issues `amount` minor units of the asset to the funding party.
///
/// Fails, leaving the ledger unchanged, when no address can be derived,
/// when a presented address is not the derived one, when the recipient's
/// account cannot be bound, or when the token service declines the
/// issuance.
pub fn airdrop(
    ledger: &mut Ledger,
    program_id: &Address,
    accounts: &Airdrop,
    mint_pubkey: Address,
    amount: u64,
) -> (r: Result<(), AirdropError>)
    requires
        old(ledger).well_formed(),
    ensures
        final(ledger).well_formed(),
        final(ledger).costs() == old(ledger).costs(),
        match r {
            Ok(()) => airdropped(
                old(ledger)@,
                old(ledger).costs(),
                *program_id,
                *accounts,
                mint_pubkey,
                amount,
            ) == Ok::<LedgerState, AirdropError>(final(ledger)@),
            Err(e) => final(ledger)@ == old(ledger)@ && airdropped(
                old(ledger)@,
                old(ledger).costs(),
                *program_id,
                *accounts,
                mint_pubkey,
                amount,
            ) == Err::<LedgerState, AirdropError>(e),
        },
{
    let plan = plan_airdrop(program_id, accounts, mint_pubkey, amount)?;
    // Binding and issuance apply together or not at all: look at what the
    // issuance needs before the account is created.
    let balance: u64 = if ledger.account(&plan.recipient_account).is_some() {
        let token = match ledger.token_account(&plan.recipient_account) {
            Some(token) => token,
            None => {
                return Err(AirdropError::Rejected(Rejection::NotATokenAccount));
            },
        };
        if !token.mint.same(&accounts.mint_account) {
            return Err(AirdropError::Rejected(Rejection::WrongAsset));
        }
        if !token.owner.same(&accounts.payer) {
            return Err(AirdropError::Rejected(Rejection::WrongOwner));
        }
        token.amount
    } else {
        if ledger.mint(&accounts.mint_account).is_none() {
            return Err(AirdropError::Rejected(Rejection::NotAMint));
        }
        let cost = ledger.storage_cost();
        match ledger.wallet_balance(&accounts.payer) {
            Some(held) => {
                if held < cost.token_account {
                    return Err(AirdropError::ResourceExhaustion);
                }
            },
            None => {
                return Err(AirdropError::ResourceExhaustion);
            },
        }
        0
    };
    let record = match ledger.mint(&accounts.mint_account) {
        Some(record) => record,
        None => {
            return Err(AirdropError::Rejected(Rejection::NotAMint));
        },
    };
    if !record.mint_authority.same(&plan.authority.address) {
        return Err(AirdropError::AuthorizationMismatch);
    }
    if record.supply > u64::MAX - plan.amount || balance > u64::MAX - plan.amount {
        return Err(AirdropError::Rejected(Rejection::Overflow));
    }
    match bind(ledger, &accounts.payer, &accounts.mint_account, &accounts.payer) {
        Ok(_) => {},
        Err(e) => {
            return Err(e);
        },
    }
    ledger.mint_to(
        &accounts.mint_account,
        &plan.recipient_account,
        &plan.authority.address,
        &plan.signer,
        plan.amount,
    )
}

} // verus!
