use vstd::prelude::*;

use crate::descriptor::{
    account_key, derivation_defined, hex_text, origin_key_text, outcome_view, wallet_outcome,
    DeriveError,
    wallet_descriptor, wallet_fingerprint,
};
use crate::keys::{
    be32, child_value, derived_key_of, lemma_key_encoding, master_material_of,
    passphrase_chars, version_bytes, NetworkTag,
};
use crate::path::{account_steps, change_steps, decimal, receive_steps, step_text, steps_text, Step};

verus! {

/// `wpkh([` followed by the hex fingerprint.
pub open spec fn fingerprint_prefix(fingerprint: Seq<u8>) -> Seq<char> {
    seq!['w', 'p', 'k', 'h', '(', '['] + hex_text(fingerprint)
}

/// `wpkh([<fingerprint>/84'/1'/0'`: everything before the last path step.
pub open spec fn account_prefix(fingerprint: Seq<u8>) -> Seq<char> {
    fingerprint_prefix(fingerprint) + steps_text(account_steps(), '\'')
}

/// Derivation is deterministic: two calls on one phrase, one passphrase and
/// one network have the same outcome, success or failure, and the same pair
/// of descriptors, however often it is derived.
pub proof fn lemma_descriptors_deterministic(
    phrase: &str,
    passphrase: Option<String>,
    network: NetworkTag,
    first: Result<(String, String), DeriveError>,
    second: Result<(String, String), DeriveError>,
)
    requires
        outcome_view(first) == wallet_outcome(phrase@, passphrase_chars(passphrase), network),
        outcome_view(second) == wallet_outcome(phrase@, passphrase_chars(passphrase), network),
    ensures
        outcome_view(first) == outcome_view(second),
        first is Ok <==> second is Ok,
        first is Ok ==> first.unwrap().0@ == second.unwrap().0@ && first.unwrap().1@
            == second.unwrap().1@,
{
}

/// A missing passphrase and an empty one derive the same outcome.
pub proof fn lemma_missing_passphrase_is_empty(phrase: Seq<char>, network: NetworkTag, empty: String)
    requires
        empty@.len() == 0,
    ensures
        wallet_outcome(phrase, passphrase_chars(Some(empty)), network) == wallet_outcome(
            phrase,
            passphrase_chars(None),
            network,
        ),
{
    assert(passphrase_chars(Some(empty)) =~= passphrase_chars(None));
}

proof fn lemma_descriptor_split(
    phrase: Seq<char>,
    passphrase: Seq<char>,
    network: NetworkTag,
    last: Step,
)
    requires
        last.index < 10,
        !last.hardened,
    ensures
        ({
            let steps = account_steps().push(last);
            let d = wallet_descriptor(phrase, passphrase, network, steps);
            let a = account_prefix(wallet_fingerprint(phrase, passphrase));
            &&& a.is_prefix_of(d)
            &&& d.len() > a.len() + 1
            &&& d[a.len() as int] == '/'
            &&& d[a.len() as int + 1] == decimal(last.index as nat)[0]
        }),
{
    let steps = account_steps().push(last);
    let fp = wallet_fingerprint(phrase, passphrase);
    let key = account_key(phrase, passphrase, network, steps);
    let d = wallet_descriptor(phrase, passphrase, network, steps);
    let a = account_prefix(fp);
    assert(steps.drop_last() =~= account_steps());
    assert(decimal(last.index as nat) == seq![crate::path::digit_char(last.index as nat)]);
    let rest = origin_key_text(fp, steps, key).skip(
        (1 + hex_text(fp).len() + steps_text(steps, '\'').len()) as int,
    ) + seq![')'];
    assert(steps_text(steps, '\'') =~= steps_text(account_steps(), '\'') + step_text(last, '\''));
    assert(step_text(last, '\'') =~= seq!['/', decimal(last.index as nat)[0]]);
    assert(d =~= a + seq!['/', decimal(last.index as nat)[0]] + rest);
    assert(a.is_prefix_of(d)) by {
        assert(d.subrange(0, a.len() as int) =~= a);
    }
}

/// The receive and change descriptors of one phrase and passphrase are
/// different strings, and both begin with the same master fingerprint.
pub proof fn lemma_receive_change_distinct(
    phrase: Seq<char>,
    passphrase: Seq<char>,
    network: NetworkTag,
)
    ensures
        wallet_descriptor(phrase, passphrase, network, receive_steps()) != wallet_descriptor(
            phrase,
            passphrase,
            network,
            change_steps(),
        ),
        fingerprint_prefix(wallet_fingerprint(phrase, passphrase)).is_prefix_of(
            wallet_descriptor(phrase, passphrase, network, receive_steps()),
        ),
        fingerprint_prefix(wallet_fingerprint(phrase, passphrase)).is_prefix_of(
            wallet_descriptor(phrase, passphrase, network, change_steps()),
        ),
{
    let r = Step { index: 0, hardened: false };
    let c = Step { index: 1, hardened: false };
    lemma_descriptor_split(phrase, passphrase, network, r);
    lemma_descriptor_split(phrase, passphrase, network, c);
    let a = account_prefix(wallet_fingerprint(phrase, passphrase));
    let f = fingerprint_prefix(wallet_fingerprint(phrase, passphrase));
    let dr = wallet_descriptor(phrase, passphrase, network, receive_steps());
    let dc = wallet_descriptor(phrase, passphrase, network, change_steps());
    assert(decimal(0) == seq!['0']);
    assert(decimal(1) == seq!['1']);
    assert(dr[a.len() as int + 1] != dc[a.len() as int + 1]);
    assert(f.is_prefix_of(dr)) by {
        assert(dr.subrange(0, f.len() as int) =~= a.subrange(0, f.len() as int));
        assert(a.subrange(0, f.len() as int) =~= f);
    }
    assert(f.is_prefix_of(dc)) by {
        assert(dc.subrange(0, f.len() as int) =~= a.subrange(0, f.len() as int));
        assert(a.subrange(0, f.len() as int) =~= f);
    }
}

/// Changing the last step from 0 to 1 changes the derived key, while the
/// hardened account steps `84h/1h/0h` before it, and their text in the
/// descriptor, are the same for both.
pub proof fn lemma_path_sensitivity(phrase: Seq<char>, passphrase: Seq<char>, network: NetworkTag)
    requires
        derivation_defined(phrase, passphrase),
    ensures
        account_key(phrase, passphrase, network, receive_steps()) != account_key(
            phrase,
            passphrase,
            network,
            change_steps(),
        ),
        receive_steps().drop_last() == account_steps(),
        change_steps().drop_last() == account_steps(),
        forall|i: int| 0 <= i < account_steps().len() ==> (#[trigger] account_steps()[i]).hardened,
        account_prefix(wallet_fingerprint(phrase, passphrase)).is_prefix_of(
            wallet_descriptor(phrase, passphrase, network, receive_steps()),
        ),
        account_prefix(wallet_fingerprint(phrase, passphrase)).is_prefix_of(
            wallet_descriptor(phrase, passphrase, network, change_steps()),
        ),
{
    let m = master_material_of(phrase, passphrase);
    lemma_key_encoding(version_bytes(network), 0, seq![0u8, 0u8, 0u8, 0u8], 0, m);
    let dr = derived_key_of(m, receive_steps());
    let dc = derived_key_of(m, change_steps());
    lemma_key_encoding(
        version_bytes(network),
        4,
        dr.subrange(0, 4),
        child_value(receive_steps().last()),
        dr.subrange(4, 68),
    );
    lemma_key_encoding(
        version_bytes(network),
        4,
        dc.subrange(0, 4),
        child_value(change_steps().last()),
        dc.subrange(4, 68),
    );
    let kr = account_key(phrase, passphrase, network, receive_steps());
    let kc = account_key(phrase, passphrase, network, change_steps());
    assert(kr.subrange(9, 13)[3] == be32(0)[3]);
    assert(kc.subrange(9, 13)[3] == be32(1)[3]);
    assert(kr[12] != kc[12]);
    assert(receive_steps().drop_last() =~= account_steps());
    assert(change_steps().drop_last() =~= account_steps());
    lemma_descriptor_split(phrase, passphrase, network, Step { index: 0, hardened: false });
    lemma_descriptor_split(phrase, passphrase, network, Step { index: 1, hardened: false });
}

} // verus!
