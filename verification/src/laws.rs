//! What holds of the protocol as a whole.
//!
//! Each statement is over the functions that the operations' contracts are
//! written in, so it holds of every call that returns.

use vstd::prelude::*;
use vstd::arithmetic::div_mod::lemma_hoist_over_denominator;
use crate::address::Address;
use crate::authority::{derives, mint_authority, resolution, Authority};
use crate::error::AirdropError;
use crate::ledger::{
    bound, funded, mint_at, mint_initialized, minted, token_at, LedgerState, StorageCost,
};
use crate::program::{airdropped, issued, mint_created, Airdrop, CreateMint, MINT_DECIMALS};
use crate::units::{pow10, whole_units};

verus! {

/// Two addresses with the same bytes are the same address.
pub proof fn address_is_its_bytes(a: Address, b: Address)
    requires
        a@ == b@,
    ensures
        a == b,
{
    assert(a.bytes =~= b.bytes);
}

/// Derivation is deterministic: whatever two calls with the same seed tag,
/// disambiguator and program return, they return the same.
pub proof fn derivation_is_deterministic(
    seed_tag: Seq<u8>,
    disambiguator: Option<Seq<u8>>,
    program_id: Seq<u8>,
    first: Result<Authority, AirdropError>,
    second: Result<Authority, AirdropError>,
)
    requires
        derives(seed_tag, disambiguator, program_id, first),
        derives(seed_tag, disambiguator, program_id, second),
    ensures
        first == second,
{
    if let Ok(a) = first {
        if let Ok(b) = second {
            address_is_its_bytes(a.address, b.address);
        }
    }
}

/// Every asset of `before` is still there in `after`, with the same
/// precision and authorities and no less supply.
pub open spec fn assets_kept(before: LedgerState, after: LedgerState) -> bool {
    forall|address: Seq<u8>| #[trigger]
        mint_at(before, address) is Some ==> {
            let was = mint_at(before, address)->Some_0;
            let is = mint_at(after, address);
            &&& is is Some
            &&& is->Some_0.decimals == was.decimals
            &&& is->Some_0.mint_authority == was.mint_authority
            &&& is->Some_0.freeze_authority == was.freeze_authority
            &&& is->Some_0.supply >= was.supply
        }
}

/// Every asset of `before` is in `after` exactly as it was.
pub open spec fn assets_untouched(before: LedgerState, after: LedgerState) -> bool {
    forall|address: Seq<u8>| #[trigger]
        mint_at(before, address) is Some ==> mint_at(after, address) == mint_at(before, address)
}

/// After the asset was created, resolving the authority for it succeeds
/// with the address the asset was created at, which is the mint and freeze
/// authority on record; the asset has the fixed precision and no supply.
pub proof fn resolution_follows_creation(
    state: LedgerState,
    costs: StorageCost,
    program_id: Address,
    accounts: CreateMint,
    token_name: String,
    token_symbol: String,
    token_uri: String,
)
    requires
        mint_created(state, costs, program_id, accounts, token_name, token_symbol, token_uri) is Ok,
    ensures
        resolution(program_id@, accounts.mint_account@) is Ok,
        resolution(program_id@, accounts.mint_account@)->Ok_0.0 == accounts.mint_account@,
        mint_authority(program_id@) is Some,
        mint_authority(program_id@)->Some_0.0 == accounts.mint_account@,
        ({
            let after = mint_created(
                state,
                costs,
                program_id,
                accounts,
                token_name,
                token_symbol,
                token_uri,
            )->Ok_0;
            let record = mint_at(after, accounts.mint_account@);
            &&& record is Some
            &&& record->Some_0.mint_authority == accounts.mint_account
            &&& record->Some_0.freeze_authority == accounts.mint_account
            &&& record->Some_0.decimals == MINT_DECIMALS
            &&& record->Some_0.supply == 0
        }),
{
}

/// The asset is created once: a second creation with the same accounts
/// fails with a collision.
pub proof fn creation_happens_once(
    state: LedgerState,
    costs: StorageCost,
    program_id: Address,
    accounts: CreateMint,
    token_name: String,
    token_symbol: String,
    token_uri: String,
    other_name: String,
    other_symbol: String,
    other_uri: String,
)
    requires
        mint_created(state, costs, program_id, accounts, token_name, token_symbol, token_uri) is Ok,
    ensures
        mint_created(
            mint_created(
                state,
                costs,
                program_id,
                accounts,
                token_name,
                token_symbol,
                token_uri,
            )->Ok_0,
            costs,
            program_id,
            accounts,
            other_name,
            other_symbol,
            other_uri,
        ) == Err::<LedgerState, AirdropError>(AirdropError::Collision),
{
}

/// Creating the asset leaves every other asset as it was.
pub proof fn creation_keeps_assets(
    state: LedgerState,
    costs: StorageCost,
    program_id: Address,
    accounts: CreateMint,
    token_name: String,
    token_symbol: String,
    token_uri: String,
)
    requires
        mint_created(state, costs, program_id, accounts, token_name, token_symbol, token_uri) is Ok,
    ensures
        assets_untouched(
            state,
            mint_created(
                state,
                costs,
                program_id,
                accounts,
                token_name,
                token_symbol,
                token_uri,
            )->Ok_0,
        ),
{
}

/// Binding is idempotent: once the account of an owner and an asset is
/// bound, binding it again, whoever pays, returns the same account and
/// changes nothing. A binding adds at most that one account, which holds
/// the asset for the owner, and touches no asset.
pub proof fn binding_is_idempotent(
    state: LedgerState,
    costs: StorageCost,
    payer: Address,
    other_payer: Address,
    owner: Address,
    mint: Address,
)
    requires
        bound(state, costs, payer, owner, mint) is Ok,
    ensures
        ({
            let (after, account) = bound(state, costs, payer, owner, mint)->Ok_0;
            &&& bound(after, costs, other_payer, owner, mint) == Ok::<
                (LedgerState, Seq<u8>),
                AirdropError,
            >((after, account))
            &&& token_at(after, account) is Some
            &&& token_at(after, account)->Some_0.mint@ == mint@
            &&& token_at(after, account)->Some_0.owner@ == owner@
            &&& state.contains_key(account) ==> after == state
            &&& after.dom() == state.dom().insert(account)
            &&& assets_untouched(state, after)
        }),
{
    let (after, account) = bound(state, costs, payer, owner, mint)->Ok_0;
    assert(after.dom() =~= state.dom().insert(account));
}

/// An issuance adds the amount to the balance of the recipient's account
/// and to the supply of the asset, and changes nothing else.
pub proof fn issuance_adds_amount(
    state: LedgerState,
    program_id: Address,
    asset: Address,
    recipient_account: Address,
    amount: u64,
)
    requires
        issued(state, program_id, asset, recipient_account, amount) is Ok,
    ensures
        ({
            let after = issued(state, program_id, asset, recipient_account, amount)->Ok_0;
            &&& token_at(state, recipient_account@) is Some
            &&& token_at(after, recipient_account@) is Some
            &&& token_at(after, recipient_account@)->Some_0.amount == token_at(
                state,
                recipient_account@,
            )->Some_0.amount + amount
            &&& mint_at(state, asset@) is Some
            &&& mint_at(after, asset@) is Some
            &&& mint_at(after, asset@)->Some_0.supply == mint_at(state, asset@)->Some_0.supply + amount
            &&& after.dom() == state.dom()
            &&& forall|other: Seq<u8>|
                other != asset@ && other != recipient_account@ && state.contains_key(other)
                    ==> #[trigger] after[other] == state[other]
            &&& assets_kept(state, after)
        }),
{
    let after = issued(state, program_id, asset, recipient_account, amount)->Ok_0;
    assert(after.dom() =~= state.dom());
}

/// An issuance of zero succeeds wherever the authority resolves for the
/// asset and the account is bound to it, and leaves the ledger as it was.
pub proof fn zero_issuance_changes_nothing(
    state: LedgerState,
    program_id: Address,
    asset: Address,
    recipient_account: Address,
)
    requires
        resolution(program_id@, asset@) is Ok,
        mint_at(state, asset@) is Some,
        mint_at(state, asset@)->Some_0.mint_authority@ == asset@,
        token_at(state, recipient_account@) is Some,
        token_at(state, recipient_account@)->Some_0.mint@ == asset@,
    ensures
        issued(state, program_id, asset, recipient_account, 0) == Ok::<LedgerState, AirdropError>(
            state,
        ),
{
    let after = issued(state, program_id, asset, recipient_account, 0)->Ok_0;
    assert(after =~= state);
}

/// Issuing the minor units of `whole` tokens raises the whole tokens that
/// the recipient's balance shows by exactly `whole`.
pub proof fn issuance_adds_whole_tokens(
    state: LedgerState,
    program_id: Address,
    asset: Address,
    recipient_account: Address,
    whole: u64,
    amount: u64,
)
    requires
        issued(state, program_id, asset, recipient_account, amount) is Ok,
        mint_at(state, asset@) is Some,
        amount == whole * pow10(mint_at(state, asset@)->Some_0.decimals as nat),
    ensures
        ({
            let after = issued(state, program_id, asset, recipient_account, amount)->Ok_0;
            let decimals = mint_at(state, asset@)->Some_0.decimals;
            whole_units(token_at(after, recipient_account@)->Some_0.amount, decimals) == whole_units(
                token_at(state, recipient_account@)->Some_0.amount,
                decimals,
            ) + whole
        }),
{
    issuance_adds_amount(state, program_id, asset, recipient_account, amount);
    let decimals = mint_at(state, asset@)->Some_0.decimals;
    let unit = pow10(decimals as nat);
    crate::units::lemma_pow10_grows(0, decimals as nat);
    lemma_hoist_over_denominator(
        token_at(state, recipient_account@)->Some_0.amount as int,
        whole as int,
        unit,
    );
}

/// On an asset of nine decimals, issuing 1 000 000 000 minor units raises
/// the whole tokens that the recipient's balance shows by exactly one.
pub proof fn one_token_at_nine_decimals(
    state: LedgerState,
    program_id: Address,
    asset: Address,
    recipient_account: Address,
)
    requires
        issued(state, program_id, asset, recipient_account, 1_000_000_000) is Ok,
        mint_at(state, asset@) is Some,
        mint_at(state, asset@)->Some_0.decimals == 9,
    ensures
        ({
            let after = issued(state, program_id, asset, recipient_account, 1_000_000_000)->Ok_0;
            whole_units(token_at(after, recipient_account@)->Some_0.amount, 9) == whole_units(
                token_at(state, recipient_account@)->Some_0.amount,
                9,
            ) + 1
        }),
{
    reveal_with_fuel(pow10, 10);
    assert(pow10(9) == 1_000_000_000);
    issuance_adds_whole_tokens(state, program_id, asset, recipient_account, 1, 1_000_000_000);
}

/// An airdrop leaves the recipient's account with what it held before, or
/// nothing if it did not exist, plus the amount; the supply of the asset
/// grows by the amount, and every asset keeps its precision and
/// authorities.
pub proof fn airdrop_adds_amount(
    state: LedgerState,
    costs: StorageCost,
    program_id: Address,
    accounts: Airdrop,
    mint_pubkey: Address,
    amount: u64,
)
    requires
        airdropped(state, costs, program_id, accounts, mint_pubkey, amount) is Ok,
    ensures
        ({
            let after = airdropped(state, costs, program_id, accounts, mint_pubkey, amount)->Ok_0;
            let account = accounts.associated_token_account@;
            let held: int = if token_at(state, account) is Some {
                token_at(state, account)->Some_0.amount as int
            } else {
                0
            };
            &&& token_at(after, account) is Some
            &&& token_at(after, account)->Some_0.amount == held + amount
            &&& token_at(after, account)->Some_0.owner@ == accounts.payer@
            &&& token_at(after, account)->Some_0.mint@ == accounts.mint_account@
            &&& mint_at(state, accounts.mint_account@) is Some
            &&& mint_at(after, accounts.mint_account@) is Some
            &&& mint_at(after, accounts.mint_account@)->Some_0.supply == mint_at(
                state,
                accounts.mint_account@,
            )->Some_0.supply + amount
            &&& assets_kept(state, after)
        }),
{
    let (with_account, _) = bound(
        state,
        costs,
        accounts.payer,
        accounts.payer,
        accounts.mint_account,
    )->Ok_0;
    binding_is_idempotent(
        state,
        costs,
        accounts.payer,
        accounts.payer,
        accounts.payer,
        accounts.mint_account,
    );
    issuance_adds_amount(
        with_account,
        program_id,
        accounts.mint_account,
        accounts.associated_token_account,
        amount,
    );
    let after = airdropped(state, costs, program_id, accounts, mint_pubkey, amount)->Ok_0;
    assert forall|address: Seq<u8>| #[trigger] mint_at(state, address) is Some implies {
        let was = mint_at(state, address)->Some_0;
        let is = mint_at(after, address);
        &&& is is Some
        &&& is->Some_0.decimals == was.decimals
        &&& is->Some_0.mint_authority == was.mint_authority
        &&& is->Some_0.freeze_authority == was.freeze_authority
        &&& is->Some_0.supply >= was.supply
    } by {
        assert(mint_at(with_account, address) == mint_at(state, address));
        assert(mint_at(with_account, address) is Some);
    }
}

/// An asset that is not at the program's derived address is refused: both
/// the airdrop and the issuance fail with an authorization mismatch.
pub proof fn foreign_asset_is_refused(
    state: LedgerState,
    costs: StorageCost,
    program_id: Address,
    accounts: Airdrop,
    mint_pubkey: Address,
    amount: u64,
)
    requires
        mint_authority(program_id@) is Some,
        mint_authority(program_id@)->Some_0.0 != accounts.mint_account@,
    ensures
        airdropped(state, costs, program_id, accounts, mint_pubkey, amount) == Err::<
            LedgerState,
            AirdropError,
        >(AirdropError::AuthorizationMismatch),
        issued(state, program_id, accounts.mint_account, accounts.associated_token_account, amount)
            == Err::<LedgerState, AirdropError>(AirdropError::AuthorizationMismatch),
{
}

/// The token service issues nothing without the signature of the asset's
/// mint authority.
pub proof fn issuance_needs_the_authority(
    state: LedgerState,
    mint: Seq<u8>,
    destination: Seq<u8>,
    authority: Seq<u8>,
    signed: bool,
    amount: u64,
)
    requires
        minted(state, mint, destination, authority, signed, amount) is Ok,
    ensures
        signed,
        mint_at(state, mint) is Some,
        mint_at(state, mint)->Some_0.mint_authority@ == authority,
{
}

/// Depositing, creating an asset and binding an account leave every asset
/// that exists as it was: supply changes by issuance alone.
pub proof fn only_issuance_changes_supply(
    state: LedgerState,
    costs: StorageCost,
    payer: Address,
    address: Address,
    owner: Address,
    mint: Address,
    decimals: u8,
    lamports: u64,
)
    ensures
        funded(state, payer@, lamports) is Ok ==> assets_untouched(
            state,
            funded(state, payer@, lamports)->Ok_0,
        ),
        mint_initialized(state, costs, payer, address, decimals, owner, owner) is Ok
            ==> assets_untouched(
            state,
            mint_initialized(state, costs, payer, address, decimals, owner, owner)->Ok_0,
        ),
        bound(state, costs, payer, owner, mint) is Ok ==> assets_untouched(
            state,
            bound(state, costs, payer, owner, mint)->Ok_0.0,
        ),
{
}

} // verus!
