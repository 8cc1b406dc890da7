//! The ledger as this protocol sees it: accounts by address, each with its
//! storage deposit and what it holds, and the operations of the token and
//! metadata services that the protocol relies on.
//!
//! Every operation is atomic: it either applies in full or fails and leaves
//! the ledger as it was.

use vstd::prelude::*;
use crate::address::Address;
use crate::authority::{associated_address, associated_token_address, SigningContext};
use crate::error::{AirdropError, Rejection};

verus! {

/// One fungible asset: its precision, who may issue and freeze, and how
/// much has been issued.
#[derive(Clone, Copy, Debug, PartialEq, Eq)]
pub struct MintRecord {
    pub decimals: u8,
    pub mint_authority: Address,
    pub freeze_authority: Address,
    pub supply: u64,
}

/// The balance that one owner holds of one asset.
#[derive(Clone, Copy, Debug, PartialEq, Eq)]
pub struct TokenRecord {
    pub mint: Address,
    pub owner: Address,
    pub amount: u64,
}

/// The descriptive record of an asset.
#[derive(Debug, PartialEq, Eq)]
pub struct MetadataRecord {
    pub mint: Address,
    pub update_authority: Address,
    pub name: String,
    pub symbol: String,
    pub uri: String,
    pub is_mutable: bool,
    pub update_authority_is_signer: bool,
}

/// What an account holds.
#[derive(Debug, PartialEq, Eq)]
pub enum AccountData {
    /// Nothing but its deposit: a funding party.
    Wallet,
    Mint(MintRecord),
    Token(TokenRecord),
    Metadata(MetadataRecord),
}

/// An account: its deposit, in the ledger's smallest unit, and its content.
#[derive(Debug, PartialEq, Eq)]
pub struct Account {
    pub lamports: u64,
    pub data: AccountData,
}

/// What the ledger charges for the storage of each kind of account.
#[derive(Clone, Copy, Debug, PartialEq, Eq)]
pub struct StorageCost {
    pub mint: u64,
    pub token_account: u64,
    pub metadata: u64,
}

/// The accounts of a ledger, by the bytes of their address.
pub type LedgerState = Map<Seq<u8>, Account>;

/// The asset at an address, if the address holds one.
pub open spec fn mint_at(state: LedgerState, address: Seq<u8>) -> Option<MintRecord> {
    if state.contains_key(address) {
        match state[address].data {
            AccountData::Mint(record) => Some(record),
            _ => None,
        }
    } else {
        None
    }
}

/// The token account at an address, if the address holds one.
pub open spec fn token_at(state: LedgerState, address: Seq<u8>) -> Option<TokenRecord> {
    if state.contains_key(address) {
        match state[address].data {
            AccountData::Token(record) => Some(record),
            _ => None,
        }
    } else {
        None
    }
}

/// What the funding party at an address holds, if the address is one.
pub open spec fn wallet_at(state: LedgerState, address: Seq<u8>) -> Option<u64> {
    if state.contains_key(address) && state[address].data is Wallet {
        Some(state[address].lamports)
    } else {
        None
    }
}

/// Whether a funding party exists and holds at least `cost`.
pub open spec fn can_pay(state: LedgerState, payer: Seq<u8>, cost: u64) -> bool {
    match wallet_at(state, payer) {
        Some(held) => held >= cost,
        None => false,
    }
}

/// Opening an account: the address must be unused and the funding party
/// able to pay; the cost moves from the funding party to the new account.
pub open spec fn opened(
    state: LedgerState,
    payer: Seq<u8>,
    address: Seq<u8>,
    cost: u64,
    data: AccountData,
) -> Result<LedgerState, AirdropError> {
    if state.contains_key(address) {
        Err(AirdropError::Collision)
    } else if !can_pay(state, payer, cost) {
        Err(AirdropError::ResourceExhaustion)
    } else {
        Ok(
            state.insert(
                payer,
                Account { lamports: (state[payer].lamports - cost) as u64, data: AccountData::Wallet },
            ).insert(address, Account { lamports: cost, data }),
        )
    }
}

/// Depositing into a funding party's account, which is opened if the
/// address is unused.
pub open spec fn funded(state: LedgerState, wallet: Seq<u8>, lamports: u64) -> Result<
    LedgerState,
    AirdropError,
> {
    if !state.contains_key(wallet) {
        Ok(state.insert(wallet, Account { lamports, data: AccountData::Wallet }))
    } else if !(state[wallet].data is Wallet) {
        Err(AirdropError::Collision)
    } else if state[wallet].lamports + lamports > u64::MAX {
        Err(AirdropError::Rejected(Rejection::Overflow))
    } else {
        Ok(
            state.insert(
                wallet,
                Account {
                    lamports: (state[wallet].lamports + lamports) as u64,
                    data: AccountData::Wallet,
                },
            ),
        )
    }
}

/// Creating an asset: a new account at the asset's address, nothing issued
/// yet, paid for by the funding party.
pub open spec fn mint_initialized(
    state: LedgerState,
    costs: StorageCost,
    payer: Address,
    mint: Address,
    decimals: u8,
    mint_authority: Address,
    freeze_authority: Address,
) -> Result<LedgerState, AirdropError> {
    opened(
        state,
        payer@,
        mint@,
        costs.mint,
        AccountData::Mint(MintRecord { decimals, mint_authority, freeze_authority, supply: 0 }),
    )
}

/// Opening an empty token account for an owner and an asset at a chosen
/// address. The asset must exist.
pub open spec fn account_initialized(
    state: LedgerState,
    costs: StorageCost,
    payer: Address,
    address: Address,
    mint: Address,
    owner: Address,
) -> Result<LedgerState, AirdropError> {
    if mint_at(state, mint@) is None {
        Err(AirdropError::Rejected(Rejection::NotAMint))
    } else {
        opened(
            state,
            payer@,
            address@,
            costs.token_account,
            AccountData::Token(TokenRecord { mint, owner, amount: 0 }),
        )
    }
}

/// Attaching the descriptive record of an asset. The signer must be the
/// asset's mint authority and must have signed.
pub open spec fn metadata_created(
    state: LedgerState,
    costs: StorageCost,
    payer: Address,
    metadata: Address,
    mint: Address,
    authority: Address,
    signed: bool,
    name: String,
    symbol: String,
    uri: String,
    is_mutable: bool,
    update_authority_is_signer: bool,
) -> Result<LedgerState, AirdropError> {
    match mint_at(state, mint@) {
        None => Err(AirdropError::Rejected(Rejection::NotAMint)),
        Some(record) => if record.mint_authority@ != authority@ || !signed {
            Err(AirdropError::AuthorizationMismatch)
        } else {
            opened(
                state,
                payer@,
                metadata@,
                costs.metadata,
                AccountData::Metadata(
                    MetadataRecord {
                        mint,
                        update_authority: authority,
                        name,
                        symbol,
                        uri,
                        is_mutable,
                        update_authority_is_signer,
                    },
                ),
            )
        },
    }
}

/// Getting or creating the token account of an owner and an asset. An
/// account that exists is returned and nothing changes; otherwise an empty
/// one is opened at the derived address, paid for by the funding party.
pub open spec fn bound(
    state: LedgerState,
    costs: StorageCost,
    payer: Address,
    owner: Address,
    mint: Address,
) -> Result<(LedgerState, Seq<u8>), AirdropError> {
    match associated_address(owner@, mint@) {
        None => Err(AirdropError::DerivationDefect),
        Some(address) => if state.contains_key(address) {
            match token_at(state, address) {
                None => Err(AirdropError::Rejected(Rejection::NotATokenAccount)),
                Some(token) => if token.mint@ != mint@ {
                    Err(AirdropError::Rejected(Rejection::WrongAsset))
                } else if token.owner@ != owner@ {
                    Err(AirdropError::Rejected(Rejection::WrongOwner))
                } else {
                    Ok((state, address))
                },
            }
        } else if mint_at(state, mint@) is None {
            Err(AirdropError::Rejected(Rejection::NotAMint))
        } else {
            match opened(
                state,
                payer@,
                address,
                costs.token_account,
                AccountData::Token(TokenRecord { mint, owner, amount: 0 }),
            ) {
                Ok(after) => Ok((after, address)),
                Err(e) => Err(e),
            }
        },
    }
}

/// Issuing: the supply of the asset and the balance of the destination
/// both grow by the amount. The authority must be the asset's mint
/// authority and must have signed.
pub open spec fn minted(
    state: LedgerState,
    mint: Seq<u8>,
    destination: Seq<u8>,
    authority: Seq<u8>,
    signed: bool,
    amount: u64,
) -> Result<LedgerState, AirdropError> {
    match token_at(state, destination) {
        None => Err(AirdropError::Rejected(Rejection::NotATokenAccount)),
        Some(token) => if token.mint@ != mint {
            Err(AirdropError::Rejected(Rejection::WrongAsset))
        } else {
            match mint_at(state, mint) {
                None => Err(AirdropError::Rejected(Rejection::NotAMint)),
                Some(record) => if record.mint_authority@ != authority || !signed {
                    Err(AirdropError::AuthorizationMismatch)
                } else if record.supply + amount > u64::MAX || token.amount + amount > u64::MAX {
                    Err(AirdropError::Rejected(Rejection::Overflow))
                } else {
                    Ok(
                        state.insert(
                            mint,
                            Account {
                                lamports: state[mint].lamports,
                                data: AccountData::Mint(
                                    MintRecord {
                                        decimals: record.decimals,
                                        mint_authority: record.mint_authority,
                                        freeze_authority: record.freeze_authority,
                                        supply: (record.supply + amount) as u64,
                                    },
                                ),
                            },
                        ).insert(
                            destination,
                            Account {
                                lamports: state[destination].lamports,
                                data: AccountData::Token(
                                    TokenRecord {
                                        mint: token.mint,
                                        owner: token.owner,
                                        amount: (token.amount + amount) as u64,
                                    },
                                ),
                            },
                        ),
                    )
                },
            }
        },
    }
}

struct Entry {
    address: Address,
    account: Account,
}

spec fn holds(entries: Seq<Entry>, address: Seq<u8>, i: int) -> bool {
    0 <= i < entries.len() && entries[i].address@ == address
}

spec fn state_of(entries: Seq<Entry>) -> LedgerState {
    Map::new(
        |address: Seq<u8>| exists|i: int| holds(entries, address, i),
        |address: Seq<u8>| entries[choose|i: int| holds(entries, address, i)].account,
    )
}

spec fn distinct(entries: Seq<Entry>) -> bool {
    forall|i: int, j: int|
        0 <= i < j < entries.len() ==> entries[i].address@ != entries[j].address@
}

proof fn lemma_state_at(entries: Seq<Entry>, i: int)
    requires
        distinct(entries),
        0 <= i < entries.len(),
    ensures
        state_of(entries).contains_key(entries[i].address@),
        state_of(entries)[entries[i].address@] == entries[i].account,
{
    let address = entries[i].address@;
    assert(holds(entries, address, i));
    let j = choose|j: int| holds(entries, address, j);
    assert(holds(entries, address, j));
    assert(j == i);
}

proof fn lemma_state_push(entries: Seq<Entry>, entry: Entry)
    requires
        distinct(entries),
        !state_of(entries).contains_key(entry.address@),
    ensures
        distinct(entries.push(entry)),
        state_of(entries.push(entry)) == state_of(entries).insert(entry.address@, entry.account),
{
    let after = entries.push(entry);
    assert forall|i: int, j: int| 0 <= i < j < after.len() implies after[i].address@
        != after[j].address@ by {
        if j == entries.len() {
            assert(holds(entries, after[i].address@, i));
        }
    }
    let target = state_of(entries).insert(entry.address@, entry.account);
    assert forall|address: Seq<u8>| state_of(after).contains_key(address) == target.contains_key(
        address,
    ) by {
        if state_of(after).contains_key(address) {
            let i = choose|i: int| holds(after, address, i);
            if i < entries.len() {
                assert(holds(entries, address, i));
            }
        }
        if target.contains_key(address) {
            if address == entry.address@ {
                assert(holds(after, address, entries.len() as int));
            } else {
                let i = choose|i: int| holds(entries, address, i);
                assert(holds(after, address, i));
            }
        }
    }
    assert forall|address: Seq<u8>| state_of(after).contains_key(address) implies state_of(
        after,
    )[address] == target[address] by {
        let i = choose|i: int| holds(after, address, i);
        lemma_state_at(after, i);
        if i < entries.len() {
            lemma_state_at(entries, i);
        }
    }
    assert(state_of(after) =~= target);
}

proof fn lemma_state_update(entries: Seq<Entry>, i: int, entry: Entry)
    requires
        distinct(entries),
        0 <= i < entries.len(),
        entries[i].address@ == entry.address@,
    ensures
        distinct(entries.update(i, entry)),
        state_of(entries.update(i, entry)) == state_of(entries).insert(entry.address@, entry.account),
{
    let after = entries.update(i, entry);
    assert forall|a: int, b: int| 0 <= a < b < after.len() implies after[a].address@
        != after[b].address@ by {
        assert(after[a].address@ == entries[a].address@);
        assert(after[b].address@ == entries[b].address@);
    }
    let target = state_of(entries).insert(entry.address@, entry.account);
    assert forall|address: Seq<u8>| state_of(after).contains_key(address) == target.contains_key(
        address,
    ) by {
        if state_of(after).contains_key(address) {
            let k = choose|k: int| holds(after, address, k);
            assert(holds(entries, address, k));
        }
        if target.contains_key(address) {
            if address == entry.address@ {
                assert(holds(after, address, i));
            } else {
                let k = choose|k: int| holds(entries, address, k);
                assert(holds(after, address, k));
            }
        }
    }
    assert forall|address: Seq<u8>| state_of(after).contains_key(address) implies state_of(
        after,
    )[address] == target[address] by {
        let k = choose|k: int| holds(after, address, k);
        lemma_state_at(after, k);
        if k != i {
            lemma_state_at(entries, k);
        }
    }
    assert(state_of(after) =~= target);
}

/// A ledger.
pub struct Ledger {
    entries: Vec<Entry>,
    cost: StorageCost,
}

impl View for Ledger {
    type V = LedgerState;

    closed spec fn view(&self) -> LedgerState {
        state_of(self.entries@)
    }
}

impl Ledger {
    /// The ledger's invariant: no address holds two accounts. Every
    /// operation keeps it.
    pub closed spec fn well_formed(&self) -> bool {
        distinct(self.entries@)
    }

    /// What this ledger charges for storage.
    pub closed spec fn costs(&self) -> StorageCost {
        self.cost
    }

    /// A ledger without accounts.
    pub fn new(cost: StorageCost) -> (r: Ledger)
        ensures
            r.well_formed(),
            r@ == Map::<Seq<u8>, Account>::empty(),
            r.costs() == cost,
    {
        let r = Ledger { entries: Vec::new(), cost };
        assert(r@ =~= Map::<Seq<u8>, Account>::empty());
        r
    }

    /// What this ledger charges for storage.
    pub fn storage_cost(&self) -> (r: StorageCost)
        ensures
            r == self.costs(),
    {
        self.cost
    }

    fn position(&self, address: &Address) -> (r: Option<usize>)
        requires
            self.well_formed(),
        ensures
            match r {
                Some(i) => i < self.entries.len() && self.entries[i as int].address@ == address@
                    && self@.contains_key(address@) && self@[address@] == self.entries[i as int].account,
                None => !self@.contains_key(address@),
            },
    {
        let mut i: usize = 0;
        while i < self.entries.len()
            invariant
                0 <= i <= self.entries.len(),
                distinct(self.entries@),
                forall|k: int| 0 <= k < i ==> !holds(self.entries@, address@, k),
            decreases self.entries.len() - i,
        {
            if self.entries[i].address.same(address) {
                proof {
                    lemma_state_at(self.entries@, i as int);
                }
                return Some(i);
            }
            i += 1;
        }
        None
    }

    /// The account at an address.
    pub fn account(&self, address: &Address) -> (r: Option<&Account>)
        requires
            self.well_formed(),
        ensures
            match r {
                Some(account) => self@.contains_key(address@) && self@[address@] == *account,
                None => !self@.contains_key(address@),
            },
    {
        match self.position(address) {
            Some(i) => Some(&self.entries[i].account),
            None => None,
        }
    }

    fn put(&mut self, i: usize, address: Address, account: Account)
        requires
            old(self).well_formed(),
            i < old(self).entries.len(),
            old(self).entries[i as int].address@ == address@,
        ensures
            final(self).well_formed(),
            final(self)@ == old(self)@.insert(address@, account),
            final(self).costs() == old(self).costs(),
            final(self).entries.len() == old(self).entries.len(),
            forall|k: int|
                0 <= k < old(self).entries.len() ==> final(self).entries[k].address@ == old(
                    self,
                ).entries[k].address@,
    {
        proof {
            lemma_state_update(self.entries@, i as int, Entry { address, account });
        }
        self.entries[i] = Entry { address, account };
    }

    fn open_account(&mut self, payer: &Address, address: &Address, cost: u64, data: AccountData) -> (r:
        Result<(), AirdropError>)
        requires
            old(self).well_formed(),
        ensures
            final(self).well_formed(),
            final(self).costs() == old(self).costs(),
            match r {
                Ok(()) => opened(old(self)@, payer@, address@, cost, data) == Ok::<
                    LedgerState,
                    AirdropError,
                >(final(self)@),
                Err(e) => opened(old(self)@, payer@, address@, cost, data) == Err::<
                    LedgerState,
                    AirdropError,
                >(e) && final(self)@ == old(self)@,
            },
    {
        if self.position(address).is_some() {
            return Err(AirdropError::Collision);
        }
        let i = match self.position(payer) {
            Some(i) => i,
            None => {
                return Err(AirdropError::ResourceExhaustion);
            },
        };
        let held = self.entries[i].account.lamports;
        let is_wallet = match &self.entries[i].account.data {
            AccountData::Wallet => true,
            _ => false,
        };
        if !is_wallet || held < cost {
            return Err(AirdropError::ResourceExhaustion);
        }
        self.put(i, *payer, Account { lamports: held - cost, data: AccountData::Wallet });
        proof {
            lemma_state_push(
                self.entries@,
                Entry { address: *address, account: Account { lamports: cost, data } },
            );
        }
        self.entries.push(Entry { address: *address, account: Account { lamports: cost, data } });
        Ok(())
    }

    /// The asset at an address, if the address holds one.
    pub fn mint(&self, address: &Address) -> (r: Option<MintRecord>)
        requires
            self.well_formed(),
        ensures
            r == mint_at(self@, address@),
    {
        match self.position(address) {
            Some(i) => match &self.entries[i].account.data {
                AccountData::Mint(record) => Some(*record),
                _ => None,
            },
            None => None,
        }
    }

    /// The token account at an address, if the address holds one.
    pub fn token_account(&self, address: &Address) -> (r: Option<TokenRecord>)
        requires
            self.well_formed(),
        ensures
            r == token_at(self@, address@),
    {
        match self.position(address) {
            Some(i) => match &self.entries[i].account.data {
                AccountData::Token(record) => Some(*record),
                _ => None,
            },
            None => None,
        }
    }

    /// What the funding party at an address holds, if the address is one.
    pub fn wallet_balance(&self, address: &Address) -> (r: Option<u64>)
        requires
            self.well_formed(),
        ensures
            r == wallet_at(self@, address@),
    {
        match self.position(address) {
            Some(i) => match &self.entries[i].account.data {
                AccountData::Wallet => Some(self.entries[i].account.lamports),
                _ => None,
            },
            None => None,
        }
    }

    /// Deposits into a funding party's account, opening it if the address
    /// is unused.
    pub fn fund(&mut self, wallet: &Address, lamports: u64) -> (r: Result<(), AirdropError>)
        requires
            old(self).well_formed(),
        ensures
            final(self).well_formed(),
            final(self).costs() == old(self).costs(),
            match r {
                Ok(()) => funded(old(self)@, wallet@, lamports) == Ok::<LedgerState, AirdropError>(
                    final(self)@,
                ),
                Err(e) => funded(old(self)@, wallet@, lamports) == Err::<LedgerState, AirdropError>(e)
                    && final(self)@ == old(self)@,
            },
    {
        match self.position(wallet) {
            None => {
                proof {
                    lemma_state_push(
                        self.entries@,
                        Entry {
                            address: *wallet,
                            account: Account { lamports, data: AccountData::Wallet },
                        },
                    );
                }
                self.entries.push(
                    Entry { address: *wallet, account: Account { lamports, data: AccountData::Wallet } },
                );
                Ok(())
            },
            Some(i) => {
                let held = self.entries[i].account.lamports;
                let is_wallet = match &self.entries[i].account.data {
                    AccountData::Wallet => true,
                    _ => false,
                };
                if !is_wallet {
                    return Err(AirdropError::Collision);
                }
                if held > u64::MAX - lamports {
                    return Err(AirdropError::Rejected(Rejection::Overflow));
                }
                self.put(i, *wallet, Account { lamports: held + lamports, data: AccountData::Wallet });
                Ok(())
            },
        }
    }

    /// Creates an asset at `mint`, with nothing issued.
    pub fn initialize_mint(
        &mut self,
        payer: &Address,
        mint: &Address,
        decimals: u8,
        mint_authority: &Address,
        freeze_authority: &Address,
    ) -> (r: Result<(), AirdropError>)
        requires
            old(self).well_formed(),
        ensures
            final(self).well_formed(),
            final(self).costs() == old(self).costs(),
            match r {
                Ok(()) => mint_initialized(
                    old(self)@,
                    old(self).costs(),
                    *payer,
                    *mint,
                    decimals,
                    *mint_authority,
                    *freeze_authority,
                ) == Ok::<LedgerState, AirdropError>(final(self)@),
                Err(e) => mint_initialized(
                    old(self)@,
                    old(self).costs(),
                    *payer,
                    *mint,
                    decimals,
                    *mint_authority,
                    *freeze_authority,
                ) == Err::<LedgerState, AirdropError>(e) && final(self)@ == old(self)@,
            },
    {
        let cost = self.cost.mint;
        self.open_account(
            payer,
            mint,
            cost,
            AccountData::Mint(
                MintRecord {
                    decimals,
                    mint_authority: *mint_authority,
                    freeze_authority: *freeze_authority,
                    supply: 0,
                },
            ),
        )
    }

    /// Opens an empty token account for an owner and an asset at `address`.
    pub fn initialize_account(&mut self, payer: &Address, address: &Address, mint: &Address, owner: &Address) -> (r:
        Result<(), AirdropError>)
        requires
            old(self).well_formed(),
        ensures
            final(self).well_formed(),
            final(self).costs() == old(self).costs(),
            match r {
                Ok(()) => account_initialized(
                    old(self)@,
                    old(self).costs(),
                    *payer,
                    *address,
                    *mint,
                    *owner,
                ) == Ok::<LedgerState, AirdropError>(final(self)@),
                Err(e) => account_initialized(
                    old(self)@,
                    old(self).costs(),
                    *payer,
                    *address,
                    *mint,
                    *owner,
                ) == Err::<LedgerState, AirdropError>(e) && final(self)@ == old(self)@,
            },
    {
        if self.mint(mint).is_none() {
            return Err(AirdropError::Rejected(Rejection::NotAMint));
        }
        let cost = self.cost.token_account;
        self.open_account(
            payer,
            address,
            cost,
            AccountData::Token(TokenRecord { mint: *mint, owner: *owner, amount: 0 }),
        )
    }

    /// Attaches the descriptive record of an asset at `metadata`, signed by
    /// the asset's mint authority.
    pub fn create_metadata(
        &mut self,
        payer: &Address,
        metadata: &Address,
        mint: &Address,
        authority: &Address,
        signer: &SigningContext,
        name: String,
        symbol: String,
        uri: String,
        is_mutable: bool,
        update_authority_is_signer: bool,
    ) -> (r: Result<(), AirdropError>)
        requires
            old(self).well_formed(),
        ensures
            final(self).well_formed(),
            final(self).costs() == old(self).costs(),
            match r {
                Ok(()) => metadata_created(
                    old(self)@,
                    old(self).costs(),
                    *payer,
                    *metadata,
                    *mint,
                    *authority,
                    signer.signs_for(authority@),
                    name,
                    symbol,
                    uri,
                    is_mutable,
                    update_authority_is_signer,
                ) == Ok::<LedgerState, AirdropError>(final(self)@),
                Err(e) => metadata_created(
                    old(self)@,
                    old(self).costs(),
                    *payer,
                    *metadata,
                    *mint,
                    *authority,
                    signer.signs_for(authority@),
                    name,
                    symbol,
                    uri,
                    is_mutable,
                    update_authority_is_signer,
                ) == Err::<LedgerState, AirdropError>(e) && final(self)@ == old(self)@,
            },
    {
        let record = match self.mint(mint) {
            Some(record) => record,
            None => {
                return Err(AirdropError::Rejected(Rejection::NotAMint));
            },
        };
        if !record.mint_authority.same(authority) || !signer.authorizes(authority) {
            return Err(AirdropError::AuthorizationMismatch);
        }
        let cost = self.cost.metadata;
        self.open_account(
            payer,
            metadata,
            cost,
            AccountData::Metadata(
                MetadataRecord {
                    mint: *mint,
                    update_authority: *authority,
                    name,
                    symbol,
                    uri,
                    is_mutable,
                    update_authority_is_signer,
                },
            ),
        )
    }

    /// Gets the token account of an owner and an asset, creating it if it
    /// does not exist yet.
    pub fn create_associated_account(&mut self, payer: &Address, owner: &Address, mint: &Address) -> (r:
        Result<Address, AirdropError>)
        requires
            old(self).well_formed(),
        ensures
            final(self).well_formed(),
            final(self).costs() == old(self).costs(),
            match r {
                Ok(address) => bound(old(self)@, old(self).costs(), *payer, *owner, *mint) == Ok::<
                    (LedgerState, Seq<u8>),
                    AirdropError,
                >((final(self)@, address@)),
                Err(e) => bound(old(self)@, old(self).costs(), *payer, *owner, *mint) == Err::<
                    (LedgerState, Seq<u8>),
                    AirdropError,
                >(e) && final(self)@ == old(self)@,
            },
    {
        let address = associated_token_address(owner, mint)?;
        if self.account(&address).is_some() {
            let token = match self.token_account(&address) {
                Some(token) => token,
                None => {
                    return Err(AirdropError::Rejected(Rejection::NotATokenAccount));
                },
            };
            if !token.mint.same(mint) {
                return Err(AirdropError::Rejected(Rejection::WrongAsset));
            }
            if !token.owner.same(owner) {
                return Err(AirdropError::Rejected(Rejection::WrongOwner));
            }
            return Ok(address);
        }
        if self.mint(mint).is_none() {
            return Err(AirdropError::Rejected(Rejection::NotAMint));
        }
        let cost = self.cost.token_account;
        match self.open_account(
            payer,
            &address,
            cost,
            AccountData::Token(TokenRecord { mint: *mint, owner: *owner, amount: 0 }),
        ) {
            Ok(()) => Ok(address),
            Err(e) => Err(e),
        }
    }

    /// Issues `amount` of an asset into a token account, signed by the
    /// asset's mint authority.
    pub fn mint_to(
        &mut self,
        mint: &Address,
        destination: &Address,
        authority: &Address,
        signer: &SigningContext,
        amount: u64,
    ) -> (r: Result<(), AirdropError>)
        requires
            old(self).well_formed(),
        ensures
            final(self).well_formed(),
            final(self).costs() == old(self).costs(),
            match r {
                Ok(()) => minted(
                    old(self)@,
                    mint@,
                    destination@,
                    authority@,
                    signer.signs_for(authority@),
                    amount,
                ) == Ok::<LedgerState, AirdropError>(final(self)@),
                Err(e) => minted(
                    old(self)@,
                    mint@,
                    destination@,
                    authority@,
                    signer.signs_for(authority@),
                    amount,
                ) == Err::<LedgerState, AirdropError>(e) && final(self)@ == old(self)@,
            },
    {
        let j = match self.position(destination) {
            Some(j) => j,
            None => {
                return Err(AirdropError::Rejected(Rejection::NotATokenAccount));
            },
        };
        let token = match &self.entries[j].account.data {
            AccountData::Token(token) => *token,
            _ => {
                return Err(AirdropError::Rejected(Rejection::NotATokenAccount));
            },
        };
        if !token.mint.same(mint) {
            return Err(AirdropError::Rejected(Rejection::WrongAsset));
        }
        let i = match self.position(mint) {
            Some(i) => i,
            None => {
                return Err(AirdropError::Rejected(Rejection::NotAMint));
            },
        };
        let record = match &self.entries[i].account.data {
            AccountData::Mint(record) => *record,
            _ => {
                return Err(AirdropError::Rejected(Rejection::NotAMint));
            },
        };
        if !record.mint_authority.same(authority) || !signer.authorizes(authority) {
            return Err(AirdropError::AuthorizationMismatch);
        }
        if record.supply > u64::MAX - amount || token.amount > u64::MAX - amount {
            return Err(AirdropError::Rejected(Rejection::Overflow));
        }
        let mint_deposit = self.entries[i].account.lamports;
        let token_deposit = self.entries[j].account.lamports;
        self.put(
            i,
            *mint,
            Account {
                lamports: mint_deposit,
                data: AccountData::Mint(
                    MintRecord {
                        decimals: record.decimals,
                        mint_authority: record.mint_authority,
                        freeze_authority: record.freeze_authority,
                        supply: record.supply + amount,
                    },
                ),
            },
        );
        self.put(
            j,
            *destination,
            Account {
                lamports: token_deposit,
                data: AccountData::Token(
                    TokenRecord { mint: token.mint, owner: token.owner, amount: token.amount + amount },
                ),
            },
        );
        Ok(())
    }
}

} // verus!
