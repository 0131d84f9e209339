use bdk::bitcoin::secp256k1::Secp256k1;
use bdk::bitcoin::util::bip32::{ChildNumber, ExtendedPrivKey};
use bdk::bitcoin::Network;
use bdk::keys::bip39::{Language, Mnemonic, MnemonicType};
use bdk::keys::{DerivableKey, ExtendedKey, GeneratableKey, GeneratedKey};
use bdk::miniscript::miniscript::Segwitv0;
use rand::rngs::OsRng;
use rand::RngCore;
use vstd::prelude::*;

use crate::path::{steps_valid, Step, HARDENED_OFFSET};

verus! {

/// The network an extended key is serialized for.
#[derive(Clone, Copy, Debug, PartialEq, Eq, Structural)]
pub enum NetworkTag {
    Bitcoin,
    Testnet,
    Signet,
    Regtest,
}

/// An extended private key in its BIP32 serialization: version (4 bytes),
/// depth (1), parent fingerprint (4), child number (4, big endian), chain
/// code (32), a zero byte, and the secret key (32).
#[derive(Clone, Copy, Debug)]
pub struct ExtendedKeyBytes {
    pub bytes: [u8; 78],
}

pub open spec fn version_bytes(n: NetworkTag) -> Seq<u8> {
    match n {
        NetworkTag::Bitcoin => seq![0x04u8, 0x88u8, 0xADu8, 0xE4u8],
        _ => seq![0x04u8, 0x35u8, 0x83u8, 0x94u8],
    }
}

pub open spec fn be32(v: u32) -> Seq<u8> {
    seq![
        (v / 0x100_0000) as u8,
        ((v / 0x1_0000) % 0x100) as u8,
        ((v / 0x100) % 0x100) as u8,
        (v % 0x100) as u8,
    ]
}

/// The 32-bit child number of a step: hardened steps are offset by 2^31.
pub open spec fn child_value(s: Step) -> u32 {
    if s.hardened {
        (s.index + HARDENED_OFFSET) as u32
    } else {
        s.index
    }
}

/// Serialization of a key whose `material` is its chain code followed by its
/// secret key.
pub open spec fn key_encoding(
    version: Seq<u8>,
    depth: u8,
    parent: Seq<u8>,
    child: u32,
    material: Seq<u8>,
) -> Seq<u8> {
    version + seq![depth] + parent + be32(child) + material.subrange(0, 32) + seq![0u8]
        + material.subrange(32, 64)
}

/// Chain code followed by secret key.
pub open spec fn key_material(k: Seq<u8>) -> Seq<u8> {
    k.subrange(13, 45) + k.subrange(46, 78)
}

pub open spec fn secret_of(k: Seq<u8>) -> Seq<u8> {
    k.subrange(46, 78)
}

pub open spec fn passphrase_chars(p: Option<String>) -> Seq<char> {
    match p {
        Some(s) => s@,
        None => Seq::empty(),
    }
}

/// The twelve-word English phrase that encodes 16 bytes of entropy.
pub uninterp spec fn mnemonic_phrase_of(entropy: Seq<u8>) -> Seq<char>;

/// The phrase is a checksum-valid English mnemonic.
pub uninterp spec fn phrase_accepted(phrase: Seq<char>) -> bool;

/// The 32 bytes are a secret key: not zero and below the curve order.
pub uninterp spec fn secret_valid(secret: Seq<u8>) -> bool;

/// Every step of the derivation from the chain code and secret key along the
/// path yields a secret key.
pub uninterp spec fn derivation_accepted(material: Seq<u8>, steps: Seq<Step>) -> bool;

/// Chain code and secret key of the master key that a mnemonic phrase and a
/// passphrase give.
pub uninterp spec fn master_material_of(phrase: Seq<char>, passphrase: Seq<char>) -> Seq<u8>;

/// First four bytes of the hash of the public key of a secret key.
pub uninterp spec fn fingerprint_of(secret: Seq<u8>) -> Seq<u8>;

/// Parent fingerprint, chain code and secret key of the key reached from a
/// parent's chain code and secret key along a non-empty path.
pub uninterp spec fn derived_key_of(material: Seq<u8>, steps: Seq<Step>) -> Seq<u8>;

/// The serialization reads back as a key: a known version and a valid secret.
pub open spec fn decodable(k: Seq<u8>) -> bool {
    &&& (k.subrange(0, 4) == version_bytes(NetworkTag::Bitcoin) || k.subrange(0, 4)
        == version_bytes(NetworkTag::Testnet))
    &&& secret_valid(secret_of(k))
}

pub open spec fn master_key(phrase: Seq<char>, passphrase: Seq<char>, network: NetworkTag) -> Seq<
    u8,
> {
    key_encoding(
        version_bytes(network),
        0,
        seq![0u8, 0u8, 0u8, 0u8],
        0,
        master_material_of(phrase, passphrase),
    )
}

/// The key reached from `parent` along `steps`, serialized.
pub open spec fn derived_key(parent: Seq<u8>, steps: Seq<Step>) -> Seq<u8> {
    if steps.len() == 0 {
        parent.update(45, 0u8)
    } else {
        let d = derived_key_of(key_material(parent), steps);
        key_encoding(
            parent.subrange(0, 4),
            (parent[4] + steps.len()) as u8,
            d.subrange(0, 4),
            child_value(steps.last()),
            d.subrange(4, 68),
        )
    }
}

/// Relies on rand's OsRng::try_fill_bytes, which reports a failing operating
/// system random source as an error.
#[verifier::external_body]
pub(crate) fn draw_entropy() -> (r: Option<[u8; 32]>) {
    let mut entropy = [0u8; 32];
    OsRng.try_fill_bytes(&mut entropy).ok()?;
    Some(entropy)
}

/// Relies on bdk's GeneratableKey::generate_with_entropy for a 12-word English
/// bip39 Mnemonic, which takes the first 16 bytes to Mnemonic::from_entropy;
/// that length is always accepted, and the phrase carries the checksum that
/// Mnemonic::from_phrase checks.
#[verifier::external_body]
pub(crate) fn mnemonic_from_entropy(entropy: &[u8; 32]) -> (r: Option<String>)
    ensures
        r is Some,
        r is Some ==> r.unwrap()@ == mnemonic_phrase_of(entropy@.subrange(0, 16)),
        r is Some ==> phrase_accepted(r.unwrap()@),
{
    let generated: GeneratedKey<Mnemonic, Segwitv0> = Mnemonic::generate_with_entropy(
        (MnemonicType::Words12, Language::English),
        *entropy,
    ).ok()?;
    Some(generated.into_key().into_phrase())
}

/// Relies on bdk's DerivableKey::into_extended_key for a bip39 mnemonic with a
/// passphrase (a missing one counts as empty), which builds a master key of
/// depth 0, child 0 and a zero parent fingerprint, then on into_xprv, which
/// sets the network, and on ExtendedPrivKey::encode. Mnemonic::from_phrase
/// refuses a phrase that is not a valid mnemonic, and
/// ExtendedPrivKey::new_master a seed whose key half is not a secret key.
#[verifier::external_body]
pub(crate) fn master_key_from_phrase(
    phrase: &str,
    passphrase: &Option<String>,
    network: NetworkTag,
) -> (r: Option<ExtendedKeyBytes>)
    ensures
        r is Some <==> (phrase_accepted(phrase@) && secret_valid(
            master_material_of(phrase@, passphrase_chars(*passphrase)).subrange(32, 64),
        )),
        r is Some ==> r.unwrap().bytes@ == master_key(
            phrase@,
            passphrase_chars(*passphrase),
            network,
        ),
        r is Some ==> master_material_of(phrase@, passphrase_chars(*passphrase)).len() == 64,
{
    let mnemonic = Mnemonic::from_phrase(phrase, Language::English).ok()?;
    let xkey: ExtendedKey<Segwitv0> = (mnemonic, passphrase.clone()).into_extended_key().ok()?;
    let network = match network {
        NetworkTag::Bitcoin => Network::Bitcoin,
        NetworkTag::Testnet => Network::Testnet,
        NetworkTag::Signet => Network::Signet,
        NetworkTag::Regtest => Network::Regtest,
    };
    Some(ExtendedKeyBytes { bytes: xkey.into_xprv(network)?.encode() })
}

/// Relies on bip32::ExtendedPrivKey::fingerprint, which depends on the secret
/// key alone; the key is read back with ExtendedPrivKey::decode, which accepts
/// the two known versions and a valid secret key.
#[verifier::external_body]
pub(crate) fn key_fingerprint(k: &ExtendedKeyBytes) -> (r: Option<[u8; 4]>)
    ensures
        r is Some <==> decodable(k.bytes@),
        r is Some ==> r.unwrap()@ == fingerprint_of(secret_of(k.bytes@)),
{
    let xprv = ExtendedPrivKey::decode(&k.bytes).ok()?;
    Some(xprv.fingerprint(&Secp256k1::new()).into_bytes())
}

/// Relies on bip32::ExtendedPrivKey::derive_priv: each step keeps the network,
/// adds one to the depth, records the step and the parent's fingerprint, and
/// computes the new chain code and secret from the parent's; the key is read
/// with ExtendedPrivKey::decode and written with ExtendedPrivKey::encode. The
/// derived key holds a valid secret key.
#[verifier::external_body]
pub(crate) fn derive_key(k: &ExtendedKeyBytes, steps: &Vec<Step>) -> (r: Option<ExtendedKeyBytes>)
    requires
        steps_valid(steps@),
        k.bytes@[4] + steps@.len() <= 255,
    ensures
        r is Some <==> (decodable(k.bytes@) && derivation_accepted(
            key_material(k.bytes@),
            steps@,
        )),
        r is Some ==> secret_valid(secret_of(r.unwrap().bytes@)),
        r is Some ==> r.unwrap().bytes@ == derived_key(k.bytes@, steps@),
        r is Some && steps@.len() > 0 ==> derived_key_of(key_material(k.bytes@), steps@).len()
            == 68,
{
    let xprv = ExtendedPrivKey::decode(&k.bytes).ok()?;
    let path: Vec<ChildNumber> = steps.iter().map(|s| match s.hardened {
        true => ChildNumber::Hardened { index: s.index },
        false => ChildNumber::Normal { index: s.index },
    }).collect();
    Some(ExtendedKeyBytes { bytes: xprv.derive_priv(&Secp256k1::new(), &path).ok()?.encode() })
}

/// Layout of a serialized key.
pub proof fn lemma_key_encoding(
    version: Seq<u8>,
    depth: u8,
    parent: Seq<u8>,
    child: u32,
    material: Seq<u8>,
)
    requires
        version.len() == 4,
        parent.len() == 4,
        material.len() == 64,
    ensures
        ({
            let k = key_encoding(version, depth, parent, child, material);
            &&& k.len() == 78
            &&& k.subrange(0, 4) == version
            &&& k[4] == depth
            &&& k.subrange(5, 9) == parent
            &&& k.subrange(9, 13) == be32(child)
            &&& k[45] == 0
            &&& k.update(45, 0u8) == k
            &&& key_material(k) == material
            &&& secret_of(k) == material.subrange(32, 64)
        }),
{
    let k = key_encoding(version, depth, parent, child, material);
    assert(k.subrange(0, 4) =~= version);
    assert(k.subrange(5, 9) =~= parent);
    assert(k.subrange(9, 13) =~= be32(child));
    assert(k.update(45, 0u8) =~= k);
    assert(key_material(k) =~= material);
    assert(secret_of(k) =~= material.subrange(32, 64));
}

} // verus!
