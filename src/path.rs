use std::str::FromStr;

use bdk::bitcoin::util::bip32::{ChildNumber, DerivationPath};
use vstd::prelude::*;

verus! {

/// One level of a hierarchical derivation path.
#[derive(Clone, Copy, Debug, PartialEq, Eq, Structural)]
pub struct Step {
    pub index: u32,
    pub hardened: bool,
}

/// First index that no longer fits a child number (2^31).
pub const HARDENED_OFFSET: u32 = 0x8000_0000;

pub open spec fn step_valid(s: Step) -> bool {
    s.index < HARDENED_OFFSET
}

pub open spec fn steps_valid(steps: Seq<Step>) -> bool {
    forall|i: int| 0 <= i < steps.len() ==> #[trigger] step_valid(steps[i])
}

pub open spec fn digit_char(d: nat) -> char {
    if d == 0 { '0' } else if d == 1 { '1' } else if d == 2 { '2' } else if d == 3 { '3' }
    else if d == 4 { '4' } else if d == 5 { '5' } else if d == 6 { '6' } else if d == 7 { '7' }
    else if d == 8 { '8' } else { '9' }
}

/// Shortest base-ten rendering of `n`.
pub open spec fn decimal(n: nat) -> Seq<char>
    decreases n,
{
    if n < 10 {
        seq![digit_char(n)]
    } else {
        decimal(n / 10).push(digit_char(n % 10))
    }
}

/// `/<index>` followed by `mark` when the step is hardened.
pub open spec fn step_text(s: Step, mark: char) -> Seq<char> {
    let body = seq!['/'] + decimal(s.index as nat);
    if s.hardened { body.push(mark) } else { body }
}

/// The steps rendered one after the other, without the leading `m`.
pub open spec fn steps_text(steps: Seq<Step>, mark: char) -> Seq<char>
    decreases steps.len(),
{
    if steps.len() == 0 {
        Seq::empty()
    } else {
        steps_text(steps.drop_last(), mark) + step_text(steps.last(), mark)
    }
}

/// The textual path `m/...` with `h` marking hardened steps.
pub open spec fn path_string(steps: Seq<Step>) -> Seq<char> {
    seq!['m'] + steps_text(steps, 'h')
}

/// Account prefix `84h/1h/0h` shared by both descriptors.
pub open spec fn account_steps() -> Seq<Step> {
    seq![
        Step { index: 84, hardened: true },
        Step { index: 1, hardened: true },
        Step { index: 0, hardened: true },
    ]
}

/// `m/84h/1h/0h/0`
pub open spec fn receive_steps() -> Seq<Step> {
    account_steps().push(Step { index: 0, hardened: false })
}

/// `m/84h/1h/0h/1`
pub open spec fn change_steps() -> Seq<Step> {
    account_steps().push(Step { index: 1, hardened: false })
}

/// Path of the receive (external) keys.
pub const RECEIVE_PATH: &'static str = "m/84h/1h/0h/0";

/// Path of the change (internal) keys.
pub const CHANGE_PATH: &'static str = "m/84h/1h/0h/1";

/// Relies on bip32::DerivationPath::from_str: a path `m` followed by
/// `/<decimal>` or `/<decimal>h` parts, each below 2^31, parses into those
/// steps; whatever parses holds child numbers below 2^31.
#[verifier::external_body]
pub(crate) fn parse_path(s: &str) -> (r: Option<Vec<Step>>)
    ensures
        r is Some ==> steps_valid(r->0@),
        forall|steps: Seq<Step>|
            steps_valid(steps) && s@ == #[trigger] path_string(steps) ==> (r is Some && r->0@
                == steps),
{
    DerivationPath::from_str(s).ok().map(|p| p.into_iter().map(|c| match *c {
        ChildNumber::Normal { index } => Step { index, hardened: false },
        ChildNumber::Hardened { index } => Step { index, hardened: true },
    }).collect())
}

proof fn lemma_account_path_strings()
    ensures
        RECEIVE_PATH@ == path_string(receive_steps()),
        CHANGE_PATH@ == path_string(change_steps()),
{
    reveal_strlit("m/84h/1h/0h/0");
    reveal_strlit("m/84h/1h/0h/1");
    assert(decimal(84) =~= seq!['8', '4']) by {
        assert(decimal(8) == seq!['8']);
    }
    let a = account_steps();
    assert(a.drop_last().drop_last().drop_last() =~= Seq::<Step>::empty());
    assert(a.drop_last().drop_last() =~= seq![Step { index: 84, hardened: true }]);
    assert(a.drop_last() =~= seq![Step { index: 84, hardened: true }, Step { index: 1, hardened: true }]);
    assert(steps_text(a.drop_last().drop_last().drop_last(), 'h') =~= Seq::<char>::empty());
    assert(step_text(Step { index: 84, hardened: true }, 'h') =~= seq!['/', '8', '4', 'h']);
    assert(step_text(Step { index: 1, hardened: true }, 'h') =~= seq!['/', '1', 'h']);
    assert(step_text(Step { index: 0, hardened: true }, 'h') =~= seq!['/', '0', 'h']);
    assert(step_text(Step { index: 0, hardened: false }, 'h') =~= seq!['/', '0']);
    assert(step_text(Step { index: 1, hardened: false }, 'h') =~= seq!['/', '1']);
    assert(steps_text(a.drop_last().drop_last(), 'h') =~= seq!['/', '8', '4', 'h']);
    assert(steps_text(a.drop_last(), 'h') =~= seq!['/', '8', '4', 'h', '/', '1', 'h']);
    assert(steps_text(a, 'h') =~= seq!['/', '8', '4', 'h', '/', '1', 'h', '/', '0', 'h']);
    assert(receive_steps().drop_last() =~= a);
    assert(change_steps().drop_last() =~= a);
    assert(RECEIVE_PATH@ =~= path_string(receive_steps()));
    assert(CHANGE_PATH@ =~= path_string(change_steps()));
}

/// Parses the two fixed account paths, receive first.
pub fn account_paths() -> (r: Option<(Vec<Step>, Vec<Step>)>)
    ensures
        r is Some,
        r.unwrap().0@ == receive_steps(),
        r.unwrap().1@ == change_steps(),
{
    proof {
        lemma_account_path_strings();
        assert(steps_valid(receive_steps()));
        assert(steps_valid(change_steps()));
    }
    let receive = parse_path(RECEIVE_PATH);
    let change = parse_path(CHANGE_PATH);
    match (receive, change) {
        (Some(rp), Some(cp)) => Some((rp, cp)),
        _ => None,
    }
}

} // verus!
