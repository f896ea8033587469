//! Transaction assembly: note selection with fixed-fee and change
//! accounting, and routing of the payment output to a shielded or a
//! transparent destination.
//!
//! Candidates are spent in the order given — the first prefix whose value
//! covers the requested amount plus the fixed fee is used, and nothing
//! after it is touched. The host layer decodes addresses and witnesses
//! with the external protocol library and reports each decode outcome;
//! this module makes every decision from those plain values.

use crate::{Network, Note, ShieldError, FIXED_FEE};
use vstd::prelude::*;
use vstd::string::StringSliceAdditionalSpecFns;

verus! {

/// Sum of the values of the first `k` candidate notes.
pub open spec fn sum_values(notes: Seq<(Note, String)>, k: int) -> int
    decreases k,
{
    if k <= 0 {
        0
    } else {
        sum_values(notes, k - 1) + notes[k - 1].0.value
    }
}

/// What a transaction paying `amount` must gather: the amount plus the
/// fixed fee.
pub open spec fn amount_due(amount: u64) -> int {
    amount + FIXED_FEE
}

/// Prefix sums of note values never decrease as the prefix grows.
proof fn lemma_sum_monotone(notes: Seq<(Note, String)>, i: int, j: int)
    requires
        0 <= i <= j,
    ensures
        sum_values(notes, i) <= sum_values(notes, j),
    decreases j - i,
{
    if i < j {
        lemma_sum_monotone(notes, i, j - 1);
    }
}

/// A prefix sum of `k` 64-bit values is at most `k` times the largest.
proof fn lemma_sum_bound(notes: Seq<(Note, String)>, k: int)
    requires
        0 <= k,
    ensures
        0 <= sum_values(notes, k) <= k * (u64::MAX as int),
    decreases k,
{
    if k > 0 {
        lemma_sum_bound(notes, k - 1);
        assert(k * (u64::MAX as int) == (k - 1) * (u64::MAX as int) + u64::MAX as int)
            by (nonlinear_arith);
    }
}

/// The outcome of note selection: how many leading candidates are spent,
/// the total value they gather, and the change owed back to the wallet.
#[derive(Debug)]
pub struct Selection {
    /// Number of leading candidate notes consumed.
    pub count: usize,
    /// Total value gathered by the consumed notes.
    pub total: u128,
    /// Change owed back: total minus amount minus fee.
    pub change: u64,
}

/// Select the notes to spend: walk the candidates in the order given,
/// accumulating value, and stop as soon as the running total reaches the
/// requested amount plus the fixed fee. No transaction is possible when
/// the candidates together cannot cover that threshold.
pub fn select_spends(notes: &Vec<(Note, String)>, amount: u64) -> (r: Result<
    Selection,
    ShieldError,
>)
    ensures
        r is Ok <==> sum_values(notes@, notes@.len() as int) >= amount_due(amount),
        r is Err ==> r->Err_0 == ShieldError::InsufficientBalance,
        r is Ok ==> ({
            let s = r->Ok_0;
            &&& s.count <= notes@.len()
            &&& sum_values(notes@, s.count as int) >= amount_due(amount)
            &&& (forall|k: int| 0 <= k < s.count ==> sum_values(notes@, k) < amount_due(amount))
            &&& s.total == sum_values(notes@, s.count as int)
            &&& s.change == sum_values(notes@, s.count as int) - amount_due(amount)
        }),
{
    let due: u128 = amount as u128 + FIXED_FEE as u128;
    let mut total: u128 = 0;
    let mut i: usize = 0;
    while i < notes.len() && total < due
        invariant
            0 <= i <= notes@.len(),
            due == amount_due(amount),
            total == sum_values(notes@, i as int),
            forall|k: int| 0 <= k < i ==> sum_values(notes@, k) < amount_due(amount),
        decreases notes@.len() - i,
    {
        proof {
            lemma_sum_bound(notes@, i as int);
            assert((i + 1) * (u64::MAX as int) <= u128::MAX as int) by (nonlinear_arith)
                requires
                    0 <= i < 0x10000000000000000,
            ;
        }
        total = total + notes[i].0.value as u128;
        i = i + 1;
    }
    if total < due {
        proof {
            lemma_sum_monotone(notes@, i as int, notes@.len() as int);
        }
        Err(ShieldError::InsufficientBalance)
    } else {
        proof {
            lemma_sum_monotone(notes@, i as int, notes@.len() as int);
        }
        proof {
            assert(i >= 1);
            assert(sum_values(notes@, i as int) == sum_values(notes@, i as int - 1) + notes@[i
                as int - 1].0.value);
            assert(total - due <= u64::MAX);
        }
        let change: u128 = total - due;
        Ok(Selection { count: i, total, change: change as u64 })
    }
}

/// Whether candidate notes stand in ascending order of value: the
/// deterministic default order in which the wallet offers notes to the
/// builder.
pub open spec fn sorted_by_value(s: Seq<(Note, String)>) -> bool {
    forall|a: int, b: int| 0 <= a < b < s.len() ==> s[a].0.value <= s[b].0.value
}

/// Inserting an element anywhere in a sequence adds exactly that element
/// to the sequence's multiset.
proof fn lemma_insert_to_multiset(s: Seq<(Note, String)>, pos: int, x: (Note, String))
    requires
        0 <= pos <= s.len(),
    ensures
        s.insert(pos, x).to_multiset() == s.to_multiset().insert(x),
{
    broadcast use vstd::seq_lib::group_to_multiset_ensures;
    broadcast use vstd::multiset::group_multiset_axioms;

    let t = s.insert(pos, x);
    s.insert_ensures(pos, x);
    t.remove_ensures(pos);
    assert(t.remove(pos) =~= s);
    assert(t[pos] == x);
    assert(s.to_multiset() =~= t.to_multiset().remove(x));
    assert(t.to_multiset().count(x) > 0);
    assert(t.to_multiset() =~= s.to_multiset().insert(x));
}

/// Arrange candidate notes in ascending order of value, keeping the same
/// collection of (note, witness) pairs: the wallet's deterministic default
/// selection order.
pub fn sort_notes_by_value(notes: &Vec<(Note, String)>) -> (r: Vec<(Note, String)>)
    ensures
        sorted_by_value(r@),
        r@.to_multiset() == notes@.to_multiset(),
{
    broadcast use vstd::seq_lib::group_to_multiset_ensures;

    let mut r: Vec<(Note, String)> = Vec::new();
    let mut idx: usize = 0;
    while idx < notes.len()
        invariant
            0 <= idx <= notes@.len(),
            sorted_by_value(r@),
            r@.to_multiset() == notes@.take(idx as int).to_multiset(),
        decreases notes@.len() - idx,
    {
        let x = (notes[idx].0, notes[idx].1.clone());
        proof {
            assert(x == notes@[idx as int]);
        }
        let mut pos: usize = 0;
        while pos < r.len() && r[pos].0.value <= x.0.value
            invariant
                0 <= pos <= r@.len(),
                forall|k: int| 0 <= k < pos ==> r@[k].0.value <= x.0.value,
            decreases r@.len() - pos,
        {
            pos = pos + 1;
        }
        let ghost old_r = r@;
        proof {
            old_r.insert_ensures(pos as int, x);
            lemma_insert_to_multiset(old_r, pos as int, x);
        }
        r.insert(pos, x);
        proof {
            assert forall|a: int, b: int| 0 <= a < b < r@.len() implies r@[a].0.value
                <= r@[b].0.value by {
                if b < pos {
                } else if a < pos && b == pos {
                } else if a < pos && b > pos {
                    assert(r@[b] == old_r[b - 1]);
                    assert(old_r[pos as int].0.value <= old_r[b - 1].0.value);
                } else if a == pos {
                    assert(r@[b] == old_r[b - 1]);
                    assert(old_r[pos as int].0.value <= old_r[b - 1].0.value);
                } else {
                    assert(r@[a] == old_r[a - 1] && r@[b] == old_r[b - 1]);
                }
            }
            assert(notes@.take(idx as int + 1) =~= notes@.take(idx as int).push(
                notes@[idx as int],
            ));
            vstd::seq_lib::to_multiset_build(notes@.take(idx as int), notes@[idx as int]);
            assert(r@.to_multiset() == notes@.take(idx as int + 1).to_multiset());
        }
        idx = idx + 1;
    }
    proof {
        assert(notes@.take(notes@.len() as int) =~= notes@);
    }
    r
}

/// Where the payment output of a transaction goes.
#[derive(Clone, Copy, Debug, PartialEq, Eq, Structural)]
pub enum Destination {
    /// A shielded output to a sapling payment address.
    Shielded,
    /// A transparent output to a base58check-encoded address.
    Transparent,
}

/// The shielded payment-address prefix of a network, as bytes: "ps" on the
/// main network, "ptestsapling" on the test network.
pub open spec fn hrp_bytes(network: Network) -> Seq<u8> {
    match network {
        Network::Main => seq![112u8, 115u8],
        Network::Test => seq![
            112u8,
            116u8,
            101u8,
            115u8,
            116u8,
            115u8,
            97u8,
            112u8,
            108u8,
            105u8,
            110u8,
            103u8,
        ],
    }
}

/// Whether an address string (as UTF-8 bytes) carries the shielded
/// payment-address prefix of the network.
pub open spec fn has_shielded_prefix(addr: Seq<u8>, network: Network) -> bool {
    hrp_bytes(network).is_prefix_of(addr)
}

/// The shielded payment-address prefix of the network, as bytes.
pub fn shielded_address_prefix(network: Network) -> (r: Vec<u8>)
    ensures
        r@ == hrp_bytes(network),
{
    match network {
        Network::Main => {
            let v: Vec<u8> = vec![112u8, 115u8];
            proof {
                assert(v@ =~= hrp_bytes(Network::Main));
            }
            v
        },
        Network::Test => {
            let v: Vec<u8> = vec![
                112u8,
                116u8,
                101u8,
                115u8,
                116u8,
                115u8,
                97u8,
                112u8,
                108u8,
                105u8,
                110u8,
                103u8,
            ];
            proof {
                assert(v@ =~= hrp_bytes(Network::Test));
            }
            v
        },
    }
}

/// Whether `p` is a byte-for-byte prefix of `b`.
fn starts_with_bytes(b: &[u8], p: &Vec<u8>) -> (r: bool)
    ensures
        r == p@.is_prefix_of(b@),
{
    if p.len() > b.len() {
        return false;
    }
    let mut i: usize = 0;
    while i < p.len()
        invariant
            0 <= i <= p@.len() <= b@.len(),
            forall|k: int| 0 <= k < i ==> p@[k] == b@[k],
        decreases p@.len() - i,
    {
        if b[i] != p[i] {
            return false;
        }
        i = i + 1;
    }
    proof {
        assert(p@ =~= b@.subrange(0, p@.len() as int));
    }
    true
}

/// Route the payment output: an address carrying the network's shielded
/// prefix must decode as a shielded payment address, any other address
/// must decode as a transparent one, and a decode failure on the chosen
/// branch is an address error. The host layer attempts the decodings with
/// the external protocol library and reports their outcomes.
pub fn route_payment(
    to_address: &str,
    network: Network,
    shielded_decode_ok: bool,
    transparent_decode_ok: bool,
) -> (r: Result<Destination, ShieldError>)
    ensures
        has_shielded_prefix(to_address.spec_bytes(), network) ==> r == (if shielded_decode_ok {
            Ok::<Destination, ShieldError>(Destination::Shielded)
        } else {
            Err::<Destination, ShieldError>(ShieldError::BadAddress)
        }),
        !has_shielded_prefix(to_address.spec_bytes(), network) ==> r == (if transparent_decode_ok {
            Ok::<Destination, ShieldError>(Destination::Transparent)
        } else {
            Err::<Destination, ShieldError>(ShieldError::BadAddress)
        }),
{
    let hrp = shielded_address_prefix(network);
    let shielded = starts_with_bytes(to_address.as_bytes(), &hrp);
    if shielded {
        if shielded_decode_ok {
            Ok(Destination::Shielded)
        } else {
            Err(ShieldError::BadAddress)
        }
    } else {
        if transparent_decode_ok {
            Ok(Destination::Transparent)
        } else {
            Err(ShieldError::BadAddress)
        }
    }
}

/// The verified plan for one outgoing transaction: how many leading
/// candidates are spent, the change owed to the change address, and where
/// the payment output goes. The host layer executes the plan with the
/// external protocol library: it adds the first `spend_count` candidates
/// as spends, derives their nullifiers, adds the payment and change
/// outputs, and proves the transaction.
#[derive(Debug)]
pub struct TxPlan {
    /// Number of leading candidate notes to spend.
    pub spend_count: usize,
    /// Change owed back to the change address (possibly zero; the change
    /// output is always added).
    pub change: u64,
    /// Where the payment output goes.
    pub destination: Destination,
}

/// Assemble the plan for one transaction: select the note prefix that
/// covers the amount plus the fixed fee, compute the change, and route the
/// payment output. Insufficient balance dominates every other failure; an
/// unrepresentable change comes next; then a change address that does not
/// decode as a shielded payment address, and a destination that does not
/// decode under its branch, are address errors. The host layer reports
/// the three decode outcomes.
pub fn plan_transaction(
    notes: &Vec<(Note, String)>,
    amount: u64,
    to_address: &str,
    network: Network,
    change_address_ok: bool,
    shielded_decode_ok: bool,
    transparent_decode_ok: bool,
) -> (r: Result<TxPlan, ShieldError>)
    ensures
        r == Err::<TxPlan, ShieldError>(ShieldError::InsufficientBalance) <==> sum_values(
            notes@,
            notes@.len() as int,
        ) < amount_due(amount),
        r is Ok ==> ({
            let p = r->Ok_0;
            &&& change_address_ok
            &&& p.spend_count <= notes@.len()
            &&& sum_values(notes@, p.spend_count as int) >= amount_due(amount)
            &&& (forall|k: int|
                0 <= k < p.spend_count ==> sum_values(notes@, k) < amount_due(amount))
            &&& p.change == sum_values(notes@, p.spend_count as int) - amount_due(amount)
            &&& (if has_shielded_prefix(to_address.spec_bytes(), network) {
                shielded_decode_ok && p.destination == Destination::Shielded
            } else {
                transparent_decode_ok && p.destination == Destination::Transparent
            })
        }),
        r == Err::<TxPlan, ShieldError>(ShieldError::BadAddress) <==> sum_values(
            notes@,
            notes@.len() as int,
        ) >= amount_due(amount) && (!change_address_ok || (if has_shielded_prefix(
            to_address.spec_bytes(),
            network,
        ) {
            !shielded_decode_ok
        } else {
            !transparent_decode_ok
        })),
        r is Ok <==> sum_values(notes@, notes@.len() as int) >= amount_due(amount)
            && change_address_ok && (if has_shielded_prefix(to_address.spec_bytes(), network) {
            shielded_decode_ok
        } else {
            transparent_decode_ok
        }),
{
    match select_spends(notes, amount) {
        Err(e) => Err(e),
        Ok(sel) => {
            if !change_address_ok {
                Err(ShieldError::BadAddress)
            } else {
                match route_payment(
                    to_address,
                    network,
                    shielded_decode_ok,
                    transparent_decode_ok,
                ) {
                    Err(e) => Err(e),
                    Ok(dest) => Ok(
                        TxPlan {
                            spend_count: sel.count,
                            change: sel.change,
                            destination: dest,
                        },
                    ),
                }
            }
        },
    }
}

} // verus!
