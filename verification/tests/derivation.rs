use anchor_lang::prelude::Pubkey;
use spl_airdrop::address::{
    Address, ASSOCIATED_TOKEN_PROGRAM_ID, PROGRAM_ID, TOKEN_METADATA_PROGRAM_ID, TOKEN_PROGRAM_ID,
};
use spl_airdrop::authority::{
    associated_token_address, is_program_controlled, metadata_address, resolve_authority,
    Authority, SigningContext, METADATA_SEED, MINT_SEED,
};
use spl_airdrop::error::AirdropError;

fn program() -> Address {
    Address::new(PROGRAM_ID)
}

fn key(address: &Address) -> Pubkey {
    Pubkey::new_from_array(address.bytes)
}

#[test]
fn seed_tags_are_the_ascii_names() {
    assert_eq!(&MINT_SEED[..], b"mint");
    assert_eq!(&METADATA_SEED[..], b"metadata");
}

#[test]
fn program_ids_are_those_of_the_services() {
    assert_eq!(TOKEN_PROGRAM_ID, anchor_spl::token::ID.to_bytes());
    assert_eq!(ASSOCIATED_TOKEN_PROGRAM_ID, anchor_spl::associated_token::ID.to_bytes());
    assert_eq!(TOKEN_METADATA_PROGRAM_ID, anchor_spl::metadata::ID.to_bytes());
    assert_eq!(
        key(&program()).to_string(),
        "4gjGVTWDi19sBVS6oj4oskGyvennpyoxYju3rtUt4Qdo"
    );
}

#[test]
fn derive_is_deterministic() {
    let first = spl_airdrop::authority::derive(&MINT_SEED, None, &program());
    let second = spl_airdrop::authority::derive(&MINT_SEED, None, &program());
    assert!(first.is_ok());
    assert_eq!(first, second);
}

#[test]
fn derive_gives_the_program_address_of_the_seed() {
    let (expected, bump) = Pubkey::find_program_address(&[b"mint"], &key(&program()));
    let authority = spl_airdrop::authority::derive(&MINT_SEED, None, &program()).unwrap();
    assert_eq!(authority.address.bytes, expected.to_bytes());
    assert_eq!(authority.bump, bump);
    assert_ne!(authority.address, program());
    assert!(!expected.is_on_curve());
}

#[test]
fn derive_depends_on_the_program() {
    let other = Address::new([7u8; 32]);
    let (expected, bump) = Pubkey::find_program_address(&[b"mint"], &key(&other));
    let authority = spl_airdrop::authority::derive(&MINT_SEED, None, &other).unwrap();
    assert_eq!(authority.address.bytes, expected.to_bytes());
    assert_eq!(authority.bump, bump);
    let own = spl_airdrop::authority::derive(&MINT_SEED, None, &program()).unwrap();
    assert_ne!(own.address, authority.address);
}

#[test]
fn derive_with_a_disambiguator_uses_both_seeds() {
    let (expected, bump) = Pubkey::find_program_address(&[b"mint", b"gold"], &key(&program()));
    let authority =
        spl_airdrop::authority::derive(&MINT_SEED, Some(b"gold"), &program()).unwrap();
    assert_eq!(authority.address.bytes, expected.to_bytes());
    assert_eq!(authority.bump, bump);
    let plain = spl_airdrop::authority::derive(&MINT_SEED, None, &program()).unwrap();
    assert_ne!(plain.address, authority.address);
}

#[test]
fn derive_from_an_overlong_seed_is_a_defect() {
    let seed = [1u8; 33];
    assert_eq!(Pubkey::try_find_program_address(&[&seed], &key(&program())), None);
    assert_eq!(
        spl_airdrop::authority::derive(&seed, None, &program()),
        Err(AirdropError::DerivationDefect)
    );
}

#[test]
fn signing_context_recreates_the_address() {
    let authority = spl_airdrop::authority::derive(&MINT_SEED, None, &program()).unwrap();
    let signer = authority.signing_context(&MINT_SEED, None, &program());
    assert_eq!(signer.seeds, vec![b"mint".to_vec(), vec![authority.bump]]);
    assert_eq!(signer.program_id, program());
    assert!(signer.authorizes(&authority.address));
    let created =
        Pubkey::create_program_address(&[b"mint", &[authority.bump]], &key(&program())).unwrap();
    assert_eq!(created.to_bytes(), authority.address.bytes);
}

#[test]
fn signing_context_signs_for_no_other_address() {
    let authority = spl_airdrop::authority::derive(&MINT_SEED, None, &program()).unwrap();
    let signer = authority.signing_context(&MINT_SEED, None, &program());
    assert!(!signer.authorizes(&program()));
    assert!(!signer.authorizes(&Address::new([0u8; 32])));
}

#[test]
fn forged_signing_context_does_not_authorize() {
    let authority = spl_airdrop::authority::derive(&MINT_SEED, None, &program()).unwrap();
    let wrong_program = SigningContext {
        seeds: vec![b"mint".to_vec(), vec![authority.bump]],
        program_id: Address::new([7u8; 32]),
    };
    assert!(!wrong_program.authorizes(&authority.address));
    let wrong_seed = SigningContext {
        seeds: vec![b"mine".to_vec(), vec![authority.bump]],
        program_id: program(),
    };
    assert!(!wrong_seed.authorizes(&authority.address));
    let overlong = SigningContext { seeds: vec![vec![1u8; 33]], program_id: program() };
    assert!(!overlong.authorizes(&authority.address));
    let forged = Authority { address: Address::new([9u8; 32]), bump: authority.bump };
    let signer = forged.signing_context(&MINT_SEED, None, &program());
    assert!(!signer.authorizes(&forged.address));
    assert!(signer.authorizes(&authority.address));
}

#[test]
fn resolve_authority_accepts_the_derived_address() {
    let authority = spl_airdrop::authority::derive(&MINT_SEED, None, &program()).unwrap();
    assert_eq!(resolve_authority(&program(), &authority.address), Ok(authority));
}

#[test]
fn resolve_authority_refuses_another_address() {
    assert_eq!(
        resolve_authority(&program(), &Address::new([9u8; 32])),
        Err(AirdropError::AuthorizationMismatch)
    );
    assert_eq!(
        resolve_authority(&program(), &program()),
        Err(AirdropError::AuthorizationMismatch)
    );
}

#[test]
fn associated_token_address_is_that_of_the_token_service() {
    let owner = Address::new([3u8; 32]);
    let mint = spl_airdrop::authority::derive(&MINT_SEED, None, &program()).unwrap().address;
    let expected =
        anchor_spl::associated_token::get_associated_token_address(&key(&owner), &key(&mint));
    let address = associated_token_address(&owner, &mint).unwrap();
    assert_eq!(address.bytes, expected.to_bytes());
    assert_ne!(address, owner);
    assert_ne!(address, mint);
}

#[test]
fn associated_token_address_depends_on_owner_and_asset() {
    let owner = Address::new([3u8; 32]);
    let other = Address::new([4u8; 32]);
    let mint = Address::new([5u8; 32]);
    let first = associated_token_address(&owner, &mint).unwrap();
    assert_eq!(associated_token_address(&owner, &mint), Ok(first));
    assert_ne!(associated_token_address(&other, &mint), Ok(first));
    assert_ne!(associated_token_address(&mint, &owner), Ok(first));
}

#[test]
fn metadata_address_is_that_of_the_metadata_service() {
    let mint = spl_airdrop::authority::derive(&MINT_SEED, None, &program()).unwrap().address;
    let (expected, _) =
        anchor_spl::metadata::mpl_token_metadata::accounts::Metadata::find_pda(&key(&mint));
    let address = metadata_address(&mint).unwrap();
    assert_eq!(address.bytes, expected.to_bytes());
    assert_ne!(address, mint);
}

#[test]
fn addresses_compare_by_their_bytes() {
    let a = Address::new([1u8; 32]);
    let mut bytes = [1u8; 32];
    assert!(a.same(&Address::new(bytes)));
    bytes[31] = 2;
    assert!(!a.same(&Address::new(bytes)));
    assert_eq!(a.to_vec(), vec![1u8; 32]);
    assert_eq!(spl_airdrop::authority::copy_bytes(b"mint"), b"mint".to_vec());
}

#[test]
fn derived_addresses_are_program_controlled() {
    let authority = spl_airdrop::authority::derive(&MINT_SEED, None, &program()).unwrap();
    assert!(is_program_controlled(&authority.address));
    let other = spl_airdrop::authority::derive(&MINT_SEED, Some(b"gold"), &program()).unwrap();
    assert!(is_program_controlled(&other.address));
    let owner = Address::new([3u8; 32]);
    assert!(is_program_controlled(&associated_token_address(&owner, &authority.address).unwrap()));
    assert!(is_program_controlled(&metadata_address(&authority.address).unwrap()));
}

#[test]
fn curve_points_are_not_program_controlled() {
    let mut base_point = [0x66u8; 32];
    base_point[0] = 0x58;
    assert!(Pubkey::new_from_array(base_point).is_on_curve());
    assert!(!is_program_controlled(&Address::new(base_point)));
    let mut identity = [0u8; 32];
    identity[0] = 1;
    assert!(Pubkey::new_from_array(identity).is_on_curve());
    assert!(!is_program_controlled(&Address::new(identity)));
    for byte in 0..=255u8 {
        let bytes = [byte; 32];
        assert_eq!(
            is_program_controlled(&Address::new(bytes)),
            !Pubkey::new_from_array(bytes).is_on_curve()
        );
    }
}
