use std::str::FromStr;

use bdk::bitcoin::secp256k1::Secp256k1;
use bdk::bitcoin::util::bip32::{DerivationPath, Fingerprint};
use bdk::miniscript::descriptor::{Descriptor, DescriptorPublicKey};

use bdk_descriptors::descriptor::{
    derive_wallet_descriptors, descriptor_for_path, descriptors_from_entropy,
    descriptors_from_mnemonic, render_descriptor,
    DeriveError, DescriptorKey,
};
use bdk_descriptors::keys::{ExtendedKeyBytes, NetworkTag};
use bdk_descriptors::path::{account_paths, Step};

const PHRASE: &str = "aim bunker wash balance finish force paper analyst cabin spoon stable organ";

fn pair(passphrase: Option<&str>) -> (String, String) {
    descriptors_from_mnemonic(PHRASE, &passphrase.map(|p| p.to_string()), NetworkTag::Regtest)
        .unwrap()
}

fn origin_of(descriptor: &str) -> (Fingerprint, DerivationPath) {
    let secp = Secp256k1::new();
    let (parsed, keys) = Descriptor::<DescriptorPublicKey>::parse_descriptor(&secp, descriptor)
        .unwrap();
    assert_eq!(keys.len(), 1);
    match parsed {
        Descriptor::Wpkh(w) => {
            let key = w.as_inner();
            (key.master_fingerprint(), key.full_derivation_path())
        }
        _ => panic!("not a wpkh descriptor"),
    }
}

#[test]
fn fixed_mnemonic_regtest_scenario() {
    let (receive, change) = pair(None);
    assert_ne!(receive, change);
    assert!(receive.starts_with("wpkh([be83839f/84'/1'/0'/0]tprv"));
    assert!(change.starts_with("wpkh([be83839f/84'/1'/0'/1]tprv"));
    assert!(receive.ends_with("/*)"));
    assert!(change.ends_with("/*)"));
}

#[test]
fn same_inputs_give_same_pair() {
    let first = pair(Some("random password"));
    let second = pair(Some("random password"));
    let third = pair(Some("random password"));
    assert_eq!(first, second);
    assert_eq!(second, third);
}

#[test]
fn missing_and_empty_passphrase_agree() {
    assert_eq!(pair(None), pair(Some("")));
}

#[test]
fn receive_and_change_share_fingerprint() {
    let (receive, change) = pair(Some("random password"));
    assert_ne!(receive, change);
    assert_eq!(receive[..14], change[..14]);
    let (fr, _) = origin_of(&receive);
    let (fc, _) = origin_of(&change);
    assert_eq!(fr, fc);
}

#[test]
fn descriptors_parse_back_to_their_origin() {
    let (receive, change) = pair(None);
    let (fr, pr) = origin_of(&receive);
    let (fc, pc) = origin_of(&change);
    assert_eq!(fr.to_string(), "be83839f");
    assert_eq!(fc.to_string(), "be83839f");
    assert_eq!(pr, DerivationPath::from_str("m/84h/1h/0h/0").unwrap());
    assert_eq!(pc, DerivationPath::from_str("m/84h/1h/0h/1").unwrap());
}

#[test]
fn last_index_changes_key_not_prefix() {
    let (receive, change) = pair(None);
    let prefix = "wpkh([be83839f/84'/1'/0'/";
    assert!(receive.starts_with(prefix));
    assert!(change.starts_with(prefix));
    let key_r = &receive[receive.find(']').unwrap() + 1..];
    let key_c = &change[change.find(']').unwrap() + 1..];
    assert_ne!(key_r, key_c);
}

#[test]
fn passphrase_changes_descriptors() {
    let (ra, ca) = pair(Some("passphrase A"));
    let (rb, cb) = pair(Some("passphrase B"));
    assert_ne!(ra, rb);
    assert_ne!(ca, cb);
    assert_ne!(origin_of(&ra).0, origin_of(&rb).0);
}

#[test]
fn network_sets_key_prefix() {
    let (receive, _) =
        descriptors_from_mnemonic(PHRASE, &None, NetworkTag::Bitcoin).unwrap();
    assert!(receive.starts_with("wpkh([be83839f/84'/1'/0'/0]xprv"));
    let (testnet, _) = descriptors_from_mnemonic(PHRASE, &None, NetworkTag::Testnet).unwrap();
    assert_eq!(testnet, pair(None).0);
}

#[test]
fn invalid_phrase_is_refused() {
    let r = descriptors_from_mnemonic("not a mnemonic at all", &None, NetworkTag::Regtest);
    assert_eq!(r, Err(DeriveError::KeyDerivationError));
}

#[test]
fn fresh_wallets_differ() {
    let a = derive_wallet_descriptors(NetworkTag::Regtest, Some("random password".to_string()))
        .unwrap();
    let b = derive_wallet_descriptors(NetworkTag::Regtest, Some("random password".to_string()))
        .unwrap();
    assert_ne!(a, b);
    assert!(a.0.starts_with("wpkh(["));
    assert!(a.0.contains("/84'/1'/0'/0]tprv"));
    assert!(a.1.contains("/84'/1'/0'/1]tprv"));
    assert_eq!(a.0[..14], a.1[..14]);
}

#[test]
fn account_paths_parse() {
    let (receive, change) = account_paths().unwrap();
    let h = |index: u32| Step { index, hardened: true };
    let n = |index: u32| Step { index, hardened: false };
    assert_eq!(receive, vec![h(84), h(1), h(0), n(0)]);
    assert_eq!(change, vec![h(84), h(1), h(0), n(1)]);
}

#[test]
fn secret_key_is_wrapped() {
    let key = DescriptorKey::SecretDescriptorKey("[01020304/0]tprvabc/*".to_string());
    assert_eq!(render_descriptor(&key), Ok("wpkh([01020304/0]tprvabc/*)".to_string()));
}

#[test]
fn public_key_is_refused() {
    let key = DescriptorKey::PublicDescriptorKey("tpubabc/*".to_string());
    assert_eq!(render_descriptor(&key), Err(DeriveError::PublicKeyOnly));
}

#[test]
fn garbage_key_bytes_are_refused() {
    let key = ExtendedKeyBytes { bytes: [0u8; 78] };
    let steps = vec![Step { index: 0, hardened: false }];
    assert_eq!(
        descriptor_for_path(&key, &[0u8; 4], &steps),
        Err(DeriveError::KeyDerivationError)
    );
}

#[test]
fn zero_entropy_is_the_abandon_mnemonic() {
    let phrase = "abandon abandon abandon abandon abandon abandon abandon abandon abandon abandon abandon about";
    let from_entropy = descriptors_from_entropy(&[0u8; 32], &None, NetworkTag::Regtest).unwrap();
    let from_phrase = descriptors_from_mnemonic(phrase, &None, NetworkTag::Regtest).unwrap();
    assert_eq!(from_entropy, from_phrase);
    assert_ne!(from_entropy, pair(None));
}

#[test]
fn only_first_sixteen_entropy_bytes_count() {
    let mut entropy = [7u8; 32];
    let a = descriptors_from_entropy(&entropy, &None, NetworkTag::Regtest).unwrap();
    entropy[20] = 9;
    let b = descriptors_from_entropy(&entropy, &None, NetworkTag::Regtest).unwrap();
    assert_eq!(a, b);
    entropy[3] = 9;
    let c = descriptors_from_entropy(&entropy, &None, NetworkTag::Regtest).unwrap();
    assert_ne!(a, c);
}

#[test]
fn bad_checksum_is_refused() {
    let phrase = "abandon abandon abandon abandon abandon abandon abandon abandon abandon abandon abandon abandon";
    let r = descriptors_from_mnemonic(phrase, &None, NetworkTag::Regtest);
    assert_eq!(r, Err(DeriveError::KeyDerivationError));
}
