//! Derivation of program-controlled addresses, and the signing capability
//! that goes with them.

use vstd::prelude::*;
use anchor_lang::prelude::Pubkey;
use crate::address::{Address, ASSOCIATED_TOKEN_PROGRAM_ID, TOKEN_METADATA_PROGRAM_ID, TOKEN_PROGRAM_ID};
use crate::error::AirdropError;

verus! {

/// The seed tag of the mint authority: the ASCII bytes of `mint`.
pub const MINT_SEED: [u8; 4] = [109, 105, 110, 116];

/// The seed tag of a metadata record: the ASCII bytes of `metadata`.
pub const METADATA_SEED: [u8; 8] = [109, 101, 116, 97, 100, 97, 116, 97];

/// The byte strings that a list of seeds holds.
pub open spec fn seed_bytes(seeds: Seq<Vec<u8>>) -> Seq<Seq<u8>> {
    Seq::new(seeds.len(), |i: int| seeds[i]@)
}

/// What `Pubkey::try_find_program_address` returns for these seeds and this
/// program: the derived address and its proof token, or `None` where no
/// byte gives a valid derived address.
pub uninterp spec fn found_program_address(seeds: Seq<Seq<u8>>, program_id: Seq<u8>) -> Option<(Seq<u8>, u8)>;

/// What `Pubkey::create_program_address` returns for these seeds, the proof
/// token among them, and this program; `None` stands for its error.
pub uninterp spec fn created_program_address(seeds: Seq<Seq<u8>>, program_id: Seq<u8>) -> Option<Seq<u8>>;

/// What `Pubkey::is_on_curve` returns for an address: whether its bytes are
/// a point of the signature curve, so that a private key can exist for it.
pub uninterp spec fn on_signature_curve(address: Seq<u8>) -> bool;

/// Calls `Pubkey::try_find_program_address`.
///
/// Trusted: the result is a function of the seeds and the program alone. An
/// address that was found is the one that `Pubkey::create_program_address`
/// gives for the same seeds followed by the one-byte seed that holds the
/// proof token, since the search tries exactly that call for each candidate
/// byte; and it is no point of the signature curve, since that call refuses
/// every address that is one.
#[verifier::external_body]
pub(crate) fn find_program_address(seeds: &Vec<Vec<u8>>, program_id: &Address) -> (r: Option<(Address, u8)>)
    ensures
        match r {
            Some((address, bump)) => {
                &&& found_program_address(seed_bytes(seeds@), program_id@) == Some((address@, bump))
                &&& created_program_address(seed_bytes(seeds@).push(seq![bump]), program_id@)
                    == Some(address@)
                &&& !on_signature_curve(address@)
            },
            None => found_program_address(seed_bytes(seeds@), program_id@) is None,
        },
{
    let parts: Vec<&[u8]> = seeds.iter().map(|s| s.as_slice()).collect();
    let id = Pubkey::new_from_array(program_id.bytes);
    match Pubkey::try_find_program_address(&parts, &id) {
        Some((key, bump)) => Some((Address { bytes: key.to_bytes() }, bump)),
        None => None,
    }
}

/// Calls `Pubkey::create_program_address`.
///
/// Trusted: the result is a function of the seeds and the program alone, and
/// an address that comes back is no point of the signature curve: the call
/// fails for every address that is one.
#[verifier::external_body]
pub(crate) fn create_program_address(seeds: &Vec<Vec<u8>>, program_id: &Address) -> (r: Option<Address>)
    ensures
        match r {
            Some(address) => created_program_address(seed_bytes(seeds@), program_id@) == Some(address@)
                && !on_signature_curve(address@),
            None => created_program_address(seed_bytes(seeds@), program_id@) is None,
        },
{
    let parts: Vec<&[u8]> = seeds.iter().map(|s| s.as_slice()).collect();
    let id = Pubkey::new_from_array(program_id.bytes);
    match Pubkey::create_program_address(&parts, &id) {
        Ok(key) => Some(Address { bytes: key.to_bytes() }),
        Err(_) => None,
    }
}

/// Calls `Pubkey::is_on_curve`.
///
/// Trusted: the result is a function of the address alone.
#[verifier::external_body]
pub(crate) fn is_on_curve(address: &Address) -> (r: bool)
    ensures
        r == on_signature_curve(address@),
{
    Pubkey::new_from_array(address.bytes).is_on_curve()
}

/// Whether only a program can control the address: no private key exists
/// for it, so nobody can sign as it but the program that derives it.
pub fn is_program_controlled(address: &Address) -> (r: bool)
    ensures
        r == !on_signature_curve(address@),
{
    !is_on_curve(address)
}

/// A derived address with its proof token.
#[derive(Clone, Copy, Debug, PartialEq, Eq)]
pub struct Authority {
    pub address: Address,
    pub bump: u8,
}

/// The seeds that a tag and an optional disambiguator make.
pub open spec fn seeds_of(seed_tag: Seq<u8>, disambiguator: Option<Seq<u8>>) -> Seq<Seq<u8>> {
    match disambiguator {
        Some(d) => seq![seed_tag, d],
        None => seq![seed_tag],
    }
}

/// The address and proof token derived from a tag, an optional
/// disambiguator and the deriving program.
pub open spec fn derived(seed_tag: Seq<u8>, disambiguator: Option<Seq<u8>>, program_id: Seq<u8>) -> Option<(Seq<u8>, u8)> {
    found_program_address(seeds_of(seed_tag, disambiguator), program_id)
}

/// Whether `r` is what deriving from these inputs gives: the derived
/// authority, or the derivation defect where there is none.
pub open spec fn derives(
    seed_tag: Seq<u8>,
    disambiguator: Option<Seq<u8>>,
    program_id: Seq<u8>,
    r: Result<Authority, AirdropError>,
) -> bool {
    match r {
        Ok(authority) => derived(seed_tag, disambiguator, program_id) == Some(
            (authority.address@, authority.bump),
        ),
        Err(e) => e == AirdropError::DerivationDefect && derived(seed_tag, disambiguator, program_id)
            is None,
    }
}

/// Copies a byte slice.
pub fn copy_bytes(bytes: &[u8]) -> (r: Vec<u8>)
    ensures
        r@ == bytes@,
{
    let mut out: Vec<u8> = Vec::new();
    let mut i: usize = 0;
    while i < bytes.len()
        invariant
            0 <= i <= bytes.len(),
            out@ == bytes@.subrange(0, i as int),
        decreases bytes.len() - i,
    {
        out.push(bytes[i]);
        assert(out@ =~= bytes@.subrange(0, i + 1));
        i += 1;
    }
    assert(out@ =~= bytes@);
    out
}

/// Derives the address that the program controls under a seed tag, and the
/// proof token that makes it one. The result depends on the arguments alone.
/// The signing seeds of the derived authority recreate its address, and no
/// private key exists for it.
pub fn derive(seed_tag: &[u8], disambiguator: Option<&[u8]>, program_id: &Address) -> (r: Result<Authority, AirdropError>)
    ensures
        derives(seed_tag@, disambiguator_view(disambiguator), program_id@, r),
        r matches Ok(authority) ==> created_program_address(
            signing_seeds(seed_tag@, disambiguator_view(disambiguator), authority.bump),
            program_id@,
        ) == Some(authority.address@),
        r matches Ok(authority) ==> !on_signature_curve(authority.address@),
{
    let mut seeds: Vec<Vec<u8>> = Vec::new();
    seeds.push(copy_bytes(seed_tag));
    match disambiguator {
        Some(d) => {
            seeds.push(copy_bytes(d));
        },
        None => {},
    }
    assert(seed_bytes(seeds@) =~= seeds_of(seed_tag@, disambiguator_view(disambiguator)));
    match find_program_address(&seeds, program_id) {
        Some((address, bump)) => Ok(Authority { address, bump }),
        None => Err(AirdropError::DerivationDefect),
    }
}

/// The seeds under which a derived authority signs: those it was derived
/// from, followed by its proof token.
pub open spec fn signing_seeds(seed_tag: Seq<u8>, disambiguator: Option<Seq<u8>>, bump: u8) -> Seq<Seq<u8>> {
    seeds_of(seed_tag, disambiguator).push(seq![bump])
}

/// The bytes of an optional disambiguator.
pub open spec fn disambiguator_view(disambiguator: Option<&[u8]>) -> Option<Seq<u8>> {
    match disambiguator {
        Some(d) => Some(d@),
        None => None,
    }
}

/// The capability to sign as a derived address: the seeds, proof token
/// included, and the program that derives from them. It is rebuilt for each
/// call and never stored.
#[derive(Debug)]
pub struct SigningContext {
    pub seeds: Vec<Vec<u8>>,
    pub program_id: Address,
}

impl SigningContext {
    /// Whether the capability recreates this address, which is what lets
    /// its holder sign as the address.
    pub open spec fn signs_for(&self, address: Seq<u8>) -> bool {
        created_program_address(seed_bytes(self.seeds@), self.program_id@) == Some(address)
    }

    /// Tests whether the capability signs for an address.
    pub fn authorizes(&self, address: &Address) -> (r: bool)
        ensures
            r == self.signs_for(address@),
            r ==> !on_signature_curve(address@),
    {
        match create_program_address(&self.seeds, &self.program_id) {
            Some(created) => created.same(address),
            None => false,
        }
    }
}

impl Authority {
    /// The capability of an authority that was derived from this tag and
    /// disambiguator by this program.
    pub fn signing_context(&self, seed_tag: &[u8], disambiguator: Option<&[u8]>, program_id: &Address) -> (r: SigningContext)
        ensures
            seed_bytes(r.seeds@) == signing_seeds(seed_tag@, disambiguator_view(disambiguator), self.bump),
            r.program_id == *program_id,
    {
        let mut seeds: Vec<Vec<u8>> = Vec::new();
        seeds.push(copy_bytes(seed_tag));
        match disambiguator {
            Some(d) => {
                seeds.push(copy_bytes(d));
            },
            None => {},
        }
        let mut last: Vec<u8> = Vec::new();
        last.push(self.bump);
        seeds.push(last);
        assert(seed_bytes(seeds@) =~= signing_seeds(
            seed_tag@,
            disambiguator_view(disambiguator),
            self.bump,
        ));
        SigningContext { seeds, program_id: *program_id }
    }
}

/// The mint authority of a program: the address it derives from the mint
/// seed, with its proof token.
pub open spec fn mint_authority(program_id: Seq<u8>) -> Option<(Seq<u8>, u8)> {
    derived(MINT_SEED@, None, program_id)
}

/// What resolving the authority gives for a presented asset address: the
/// recomputed authority where the presented address is the derived one.
pub open spec fn resolution(program_id: Seq<u8>, presented: Seq<u8>) -> Result<(Seq<u8>, u8), AirdropError> {
    match mint_authority(program_id) {
        None => Err(AirdropError::DerivationDefect),
        Some((address, bump)) => if address == presented {
            Ok((address, bump))
        } else {
            Err(AirdropError::AuthorizationMismatch)
        },
    }
}

/// Recomputes the mint authority from the fixed seed and checks that the
/// presented address is the derived one. The capability of the authority
/// that comes back signs for the presented address, for which no private
/// key exists.
pub fn resolve_authority(program_id: &Address, presented: &Address) -> (r: Result<Authority, AirdropError>)
    ensures
        match r {
            Ok(authority) => {
                &&& resolution(program_id@, presented@) == Ok::<(Seq<u8>, u8), AirdropError>(
                    (authority.address@, authority.bump),
                )
                &&& authority.address == *presented
                &&& created_program_address(signing_seeds(MINT_SEED@, None, authority.bump), program_id@)
                    == Some(presented@)
                &&& !on_signature_curve(presented@)
            },
            Err(e) => resolution(program_id@, presented@) == Err::<(Seq<u8>, u8), AirdropError>(e),
        },
{
    let authority = derive(MINT_SEED.as_slice(), None, program_id)?;
    if authority.address.same(presented) {
        Ok(authority)
    } else {
        Err(AirdropError::AuthorizationMismatch)
    }
}

/// The token account that belongs to an owner and an asset: the address
/// that the associated-token program derives from the owner, the token
/// program and the asset.
pub open spec fn associated_address(owner: Seq<u8>, mint: Seq<u8>) -> Option<Seq<u8>> {
    match found_program_address(seq![owner, TOKEN_PROGRAM_ID@, mint], ASSOCIATED_TOKEN_PROGRAM_ID@) {
        Some((address, _)) => Some(address),
        None => None,
    }
}

/// Computes the address of the token account of an owner and an asset.
pub fn associated_token_address(owner: &Address, mint: &Address) -> (r: Result<Address, AirdropError>)
    ensures
        match r {
            Ok(address) => associated_address(owner@, mint@) == Some(address@),
            Err(e) => e == AirdropError::DerivationDefect && associated_address(owner@, mint@) is None,
        },
{
    let mut seeds: Vec<Vec<u8>> = Vec::new();
    seeds.push(owner.to_vec());
    seeds.push(copy_bytes(TOKEN_PROGRAM_ID.as_slice()));
    seeds.push(mint.to_vec());
    assert(seed_bytes(seeds@) =~= seq![owner@, TOKEN_PROGRAM_ID@, mint@]);
    let program = Address::new(ASSOCIATED_TOKEN_PROGRAM_ID);
    match find_program_address(&seeds, &program) {
        Some((address, _)) => Ok(address),
        None => Err(AirdropError::DerivationDefect),
    }
}

/// The metadata record of an asset: the address that the metadata program
/// derives from the metadata seed, its own address and the asset.
pub open spec fn metadata_address_of(mint: Seq<u8>) -> Option<Seq<u8>> {
    match found_program_address(
        seq![METADATA_SEED@, TOKEN_METADATA_PROGRAM_ID@, mint],
        TOKEN_METADATA_PROGRAM_ID@,
    ) {
        Some((address, _)) => Some(address),
        None => None,
    }
}

/// Computes the address of the metadata record of an asset.
pub fn metadata_address(mint: &Address) -> (r: Result<Address, AirdropError>)
    ensures
        match r {
            Ok(address) => metadata_address_of(mint@) == Some(address@),
            Err(e) => e == AirdropError::DerivationDefect && metadata_address_of(mint@) is None,
        },
{
    let mut seeds: Vec<Vec<u8>> = Vec::new();
    seeds.push(copy_bytes(METADATA_SEED.as_slice()));
    seeds.push(copy_bytes(TOKEN_METADATA_PROGRAM_ID.as_slice()));
    seeds.push(mint.to_vec());
    assert(seed_bytes(seeds@) =~= seq![METADATA_SEED@, TOKEN_METADATA_PROGRAM_ID@, mint@]);
    let program = Address::new(TOKEN_METADATA_PROGRAM_ID);
    match find_program_address(&seeds, &program) {
        Some((address, _)) => Ok(address),
        None => Err(AirdropError::DerivationDefect),
    }
}

} // verus!
