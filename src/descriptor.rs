use bdk::bitcoin::util::bip32::{ChildNumber, DerivationPath, ExtendedPrivKey, Fingerprint};
use bdk::keys::DerivableKey;
use bdk::miniscript::miniscript::Segwitv0;
use vstd::prelude::*;

use crate::keys::{
    decodable, derivation_accepted, derive_key, derived_key, derived_key_of, draw_entropy,
    fingerprint_of, key_fingerprint, key_material, lemma_key_encoding, master_key,
    master_key_from_phrase, master_material_of, mnemonic_from_entropy, mnemonic_phrase_of,
    passphrase_chars, phrase_accepted, secret_valid, version_bytes, ExtendedKeyBytes, NetworkTag,
};
use crate::path::{account_paths, change_steps, receive_steps, steps_text, steps_valid, Step};

verus! {

/// Why a pair of descriptors could not be produced.
#[derive(Clone, Copy, Debug, PartialEq, Eq, Structural)]
pub enum DeriveError {
    /// No mnemonic could be drawn from the random source.
    EntropyGenerationError,
    /// A derivation path did not parse.
    PathParseError,
    /// The key library refused the mnemonic or a derivation step.
    KeyDerivationError,
    /// A derived key came out without its secret part.
    PublicKeyOnly,
}

/// A descriptor key in its text form, with or without its secret part.
#[derive(Clone, Debug)]
pub enum DescriptorKey {
    SecretDescriptorKey(String),
    PublicDescriptorKey(String),
}

pub open spec fn key_text(d: DescriptorKey) -> Seq<char> {
    match d {
        DescriptorKey::SecretDescriptorKey(t) => t@,
        DescriptorKey::PublicDescriptorKey(t) => t@,
    }
}

/// Base58 text of `data` followed by its four-byte double-SHA256 checksum.
pub uninterp spec fn base58check_of(data: Seq<u8>) -> Seq<char>;

pub open spec fn hex_digit(d: u8) -> char {
    if d < 10 {
        (d + 48) as char
    } else {
        (d + 87) as char
    }
}

/// Two lower-case hex digits per byte.
pub open spec fn hex_text(bytes: Seq<u8>) -> Seq<char>
    decreases bytes.len(),
{
    if bytes.len() == 0 {
        Seq::empty()
    } else {
        hex_text(bytes.drop_last()) + seq![hex_digit(bytes.last() / 16), hex_digit(bytes.last() % 16)]
    }
}

/// `[<fingerprint>/<origin path>]<xprv>/*`: an extended private key with its
/// origin and an unhardened wildcard.
pub open spec fn origin_key_text(fingerprint: Seq<u8>, origin: Seq<Step>, key: Seq<u8>) -> Seq<
    char,
> {
    seq!['['] + hex_text(fingerprint) + steps_text(origin, '\'') + seq![']'] + base58check_of(
        key.update(45, 0u8),
    ) + seq!['/', '*']
}

pub open spec fn wpkh_text(key: Seq<char>) -> Seq<char> {
    seq!['w', 'p', 'k', 'h', '('] + key + seq![')']
}

/// Fingerprint of the master key of a phrase and passphrase.
pub open spec fn wallet_fingerprint(phrase: Seq<char>, passphrase: Seq<char>) -> Seq<u8> {
    fingerprint_of(master_material_of(phrase, passphrase).subrange(32, 64))
}

/// Serialized key at `steps` below the master key.
pub open spec fn account_key(
    phrase: Seq<char>,
    passphrase: Seq<char>,
    network: NetworkTag,
    steps: Seq<Step>,
) -> Seq<u8> {
    derived_key(master_key(phrase, passphrase, network), steps)
}

/// The descriptor of the key at `steps`, with the master fingerprint and
/// `steps` as its origin.
pub open spec fn wallet_descriptor(
    phrase: Seq<char>,
    passphrase: Seq<char>,
    network: NetworkTag,
    steps: Seq<Step>,
) -> Seq<char> {
    wpkh_text(
        origin_key_text(
            wallet_fingerprint(phrase, passphrase),
            steps,
            account_key(phrase, passphrase, network, steps),
        ),
    )
}

/// The phrase is a valid mnemonic and every key on the way to both account
/// keys is a valid secret key (which fails for a vanishing share of seeds).
pub open spec fn key_derivable(phrase: Seq<char>, passphrase: Seq<char>) -> bool {
    let m = master_material_of(phrase, passphrase);
    &&& phrase_accepted(phrase)
    &&& secret_valid(m.subrange(32, 64))
    &&& derivation_accepted(m, receive_steps())
    &&& derivation_accepted(m, change_steps())
}

/// What deriving the receive and change descriptors gives.
pub open spec fn wallet_outcome(phrase: Seq<char>, passphrase: Seq<char>, network: NetworkTag) -> Result<
    (Seq<char>, Seq<char>),
    DeriveError,
> {
    if key_derivable(phrase, passphrase) {
        Ok(
            (
                wallet_descriptor(phrase, passphrase, network, receive_steps()),
                wallet_descriptor(phrase, passphrase, network, change_steps()),
            ),
        )
    } else {
        Err(DeriveError::KeyDerivationError)
    }
}

pub open spec fn outcome_view(r: Result<(String, String), DeriveError>) -> Result<
    (Seq<char>, Seq<char>),
    DeriveError,
> {
    match r {
        Ok(pair) => Ok((pair.0@, pair.1@)),
        Err(e) => Err(e),
    }
}

/// The master key material and both account keys of the phrase and
/// passphrase have their full lengths, as they do whenever derivation
/// succeeds.
pub open spec fn derivation_defined(phrase: Seq<char>, passphrase: Seq<char>) -> bool {
    let m = master_material_of(phrase, passphrase);
    &&& m.len() == 64
    &&& derived_key_of(m, receive_steps()).len() == 68
    &&& derived_key_of(m, change_steps()).len() == 68
}

/// Relies on bdk's DerivableKey::into_descriptor_key for a
/// bip32::ExtendedPrivKey, which gives a secret key with the origin, an empty
/// path and an unhardened wildcard, and on the Display of miniscript's
/// DescriptorSecretKey, which never fail; the key is read with
/// ExtendedPrivKey::decode, which accepts the two known versions and a valid
/// secret key.
#[verifier::external_body]
fn descriptor_key(k: &ExtendedKeyBytes, fingerprint: &[u8; 4], origin: &Vec<Step>) -> (r: Option<
    DescriptorKey,
>)
    requires
        steps_valid(origin@),
    ensures
        r is Some <==> decodable(k.bytes@),
        r is Some ==> r.unwrap() is SecretDescriptorKey,
        r is Some ==> key_text(r.unwrap()) == seq!['['] + hex_text(fingerprint@) + steps_text(
            origin@,
            '\'',
        ) + seq![']'] + base58check_of(k.bytes@.update(45, 0u8)) + seq!['/', '*'],
{
    let xprv = ExtendedPrivKey::decode(&k.bytes).ok()?;
    let path: DerivationPath = origin.iter().map(|s| match s.hardened {
        true => ChildNumber::Hardened { index: s.index },
        false => ChildNumber::Normal { index: s.index },
    }).collect();
    let source = Some((Fingerprint::from(&fingerprint[..]), path));
    match DerivableKey::<Segwitv0>::into_descriptor_key(xprv, source, DerivationPath::default()).ok()? {
        bdk::keys::DescriptorKey::Secret(s, _, _) => Some(DescriptorKey::SecretDescriptorKey(s.to_string())),
        bdk::keys::DescriptorKey::Public(p, _, _) => Some(DescriptorKey::PublicDescriptorKey(p.to_string())),
    }
}

/// Wraps a secret descriptor key as `wpkh(<key>)`; a key without its secret
/// part is refused.
pub fn render_descriptor(key: &DescriptorKey) -> (r: Result<String, DeriveError>)
    ensures
        key is SecretDescriptorKey ==> r is Ok && r.unwrap()@ == wpkh_text(key_text(*key)),
        key is PublicDescriptorKey ==> r == Err::<String, DeriveError>(DeriveError::PublicKeyOnly),
{
    match key {
        DescriptorKey::SecretDescriptorKey(text) => {
            let mut out = String::new();
            out.append("wpkh(");
            out.append(text.as_str());
            out.append(")");
            proof {
                reveal_strlit("wpkh(");
                reveal_strlit(")");
                assert(out@ =~= wpkh_text(key_text(*key)));
            }
            Ok(out)
        },
        DescriptorKey::PublicDescriptorKey(_) => Err(DeriveError::PublicKeyOnly),
    }
}

/// The descriptor of the key at `steps` below `master`, with `fingerprint`
/// and `steps` as its origin.
pub fn descriptor_for_path(master: &ExtendedKeyBytes, fingerprint: &[u8; 4], steps: &Vec<Step>) -> (r:
    Result<String, DeriveError>)
    requires
        steps_valid(steps@),
        master.bytes@[4] + steps@.len() <= 255,
    ensures
        r is Ok ==> r.unwrap()@ == wpkh_text(
            origin_key_text(fingerprint@, steps@, derived_key(master.bytes@, steps@)),
        ),
        r is Ok <==> (decodable(master.bytes@) && derivation_accepted(
            key_material(master.bytes@),
            steps@,
        )),
        r is Ok && steps@.len() > 0 ==> derived_key_of(key_material(master.bytes@), steps@).len()
            == 68,
        r is Err ==> r == Err::<String, DeriveError>(DeriveError::KeyDerivationError),
{
    let child = match derive_key(master, steps) {
        Some(c) => c,
        None => return Err(DeriveError::KeyDerivationError),
    };
    proof {
        if steps@.len() > 0 {
            let d = derived_key_of(key_material(master.bytes@), steps@);
            lemma_key_encoding(
                master.bytes@.subrange(0, 4),
                (master.bytes@[4] + steps@.len()) as u8,
                d.subrange(0, 4),
                crate::keys::child_value(steps@.last()),
                d.subrange(4, 68),
            );
        } else {
            assert(child.bytes@.subrange(0, 4) =~= master.bytes@.subrange(0, 4));
        }
    }
    let key = match descriptor_key(&child, fingerprint, steps) {
        Some(k) => k,
        None => return Err(DeriveError::KeyDerivationError),
    };
    render_descriptor(&key)
}


/// The receive (`m/84h/1h/0h/0`) and change (`m/84h/1h/0h/1`) descriptors of
/// a mnemonic phrase and passphrase, in that order.
pub fn descriptors_from_mnemonic(
    phrase: &str,
    passphrase: &Option<String>,
    network: NetworkTag,
) -> (r: Result<(String, String), DeriveError>)
    ensures
        outcome_view(r) == wallet_outcome(phrase@, passphrase_chars(*passphrase), network),
        r is Ok ==> derivation_defined(phrase@, passphrase_chars(*passphrase)),
{
    let ghost m = master_material_of(phrase@, passphrase_chars(*passphrase));
    let master = match master_key_from_phrase(phrase, passphrase, network) {
        Some(m) => m,
        None => return Err(DeriveError::KeyDerivationError),
    };
    proof {
        lemma_key_encoding(version_bytes(network), 0, seq![0u8, 0u8, 0u8, 0u8], 0, m);
        assert(steps_valid(receive_steps()));
        assert(steps_valid(change_steps()));
    }
    let fingerprint = match key_fingerprint(&master) {
        Some(f) => f,
        None => return Err(DeriveError::KeyDerivationError),
    };
    let paths = account_paths();
    let (receive_path, change_path) = match paths {
        Some(p) => p,
        None => return Err(DeriveError::PathParseError),
    };
    let receive = descriptor_for_path(&master, &fingerprint, &receive_path);
    let receive = match receive {
        Ok(d) => d,
        Err(e) => return Err(e),
    };
    let change = descriptor_for_path(&master, &fingerprint, &change_path);
    let change = match change {
        Ok(d) => d,
        Err(e) => return Err(e),
    };
    Ok((receive, change))
}

/// The receive and change descriptors of the twelve-word mnemonic that the
/// first 16 bytes of `entropy` encode, and `passphrase`.
pub fn descriptors_from_entropy(
    entropy: &[u8; 32],
    passphrase: &Option<String>,
    network: NetworkTag,
) -> (r: Result<(String, String), DeriveError>)
    ensures
        phrase_accepted(mnemonic_phrase_of(entropy@.subrange(0, 16))),
        outcome_view(r) == wallet_outcome(
            mnemonic_phrase_of(entropy@.subrange(0, 16)),
            passphrase_chars(*passphrase),
            network,
        ),
{
    let phrase = match mnemonic_from_entropy(entropy) {
        Some(p) => p,
        None => return Err(DeriveError::EntropyGenerationError),
    };
    descriptors_from_mnemonic(phrase.as_str(), passphrase, network)
}

/// Draws fresh entropy from the operating system and returns the receive and
/// change descriptors of its mnemonic and `passphrase`; a failing random
/// source gives `EntropyGenerationError`.
pub fn derive_wallet_descriptors(network: NetworkTag, passphrase: Option<String>) -> (r: Result<
    (String, String),
    DeriveError,
>)
    ensures
        r == Err::<(String, String), DeriveError>(DeriveError::EntropyGenerationError) || exists|
            entropy: Seq<u8>,
        |
            #![trigger mnemonic_phrase_of(entropy.subrange(0, 16))]
            entropy.len() == 32 && phrase_accepted(mnemonic_phrase_of(entropy.subrange(0, 16)))
                && outcome_view(r) == wallet_outcome(
                mnemonic_phrase_of(entropy.subrange(0, 16)),
                passphrase_chars(passphrase),
                network,
            ),
{
    let entropy = match draw_entropy() {
        Some(e) => e,
        None => return Err(DeriveError::EntropyGenerationError),
    };
    let r = descriptors_from_entropy(&entropy, &passphrase, network);
    assert(entropy@.len() == 32);
    r
}

} // verus!
