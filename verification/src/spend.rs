//! Spent-note filtering: given the wallet's (note, witness) pairs, the
//! nullifier derived for each pair, and the set of nullifiers observed
//! on-chain, keep exactly the notes whose nullifier has not appeared —
//! the notes that are still unspent — in their original order.
//!
//! Nullifier derivation itself is an external primitive: the host layer
//! resolves each witness to its position and derives the nullifier with
//! the spending key, then hands the hex-encoded results in here.

use crate::Note;
use vstd::prelude::*;

verus! {

/// Whether a nullifier appears in the known (observed on-chain) set.
pub open spec fn nullifier_known(nf: Seq<char>, known: Seq<String>) -> bool {
    exists|i: int| 0 <= i < known.len() && known[i]@ == nf
}

/// The indices of the first `j` pairs whose derived nullifier is absent
/// from the known set, in increasing order.
pub open spec fn unspent_indices(derived: Seq<String>, known: Seq<String>, j: int) -> Seq<int>
    decreases j,
{
    if j <= 0 {
        Seq::empty()
    } else {
        unspent_indices(derived, known, j - 1) + (if !nullifier_known(derived[j - 1]@, known) {
            seq![j - 1]
        } else {
            Seq::empty()
        })
    }
}

/// The still-unspent subset of the pairs: those whose derived nullifier is
/// absent from the known set, in input order.
pub open spec fn unspent_of(
    notes: Seq<(Note, String)>,
    derived: Seq<String>,
    known: Seq<String>,
) -> Seq<(Note, String)> {
    unspent_indices(derived, known, notes.len() as int).map_values(|i: int| notes[i])
}

/// Keep the notes that are still unspent: exactly those whose derived
/// nullifier does not appear in the known nullifier set, preserving input
/// order. `derived` pairs up with `notes`: its `k`-th entry is the
/// nullifier derived for the `k`-th pair.
pub fn filter_unspent(
    notes: &Vec<(Note, String)>,
    derived: &Vec<String>,
    known: &Vec<String>,
) -> (r: Vec<(Note, String)>)
    requires
        derived@.len() == notes@.len(),
    ensures
        r@ == unspent_of(notes@, derived@, known@),
{
    let ghost gnotes = notes@;
    let mut r: Vec<(Note, String)> = Vec::new();
    let mut j: usize = 0;
    while j < notes.len()
        invariant
            0 <= j <= notes@.len(),
            derived@.len() == notes@.len(),
            r@ == unspent_indices(derived@, known@, j as int).map_values(|i: int| gnotes[i]),
            gnotes == notes@,
        decreases notes@.len() - j,
    {
        let mut spent = false;
        let mut t: usize = 0;
        while t < known.len()
            invariant
                0 <= t <= known@.len(),
                0 <= j < notes@.len() == derived@.len(),
                spent == exists|m: int| 0 <= m < t && known@[m]@ == derived@[j as int]@,
            decreases known@.len() - t,
        {
            if known[t] == derived[j] {
                spent = true;
            }
            t = t + 1;
        }
        if !spent {
            let kept = (notes[j].0, notes[j].1.clone());
            proof {
                assert(kept == gnotes[j as int]);
            }
            r.push(kept);
            proof {
                let f = |i: int| gnotes[i];
                let prev = unspent_indices(derived@, known@, j as int);
                assert(!nullifier_known(derived@[j as int]@, known@));
                assert(unspent_indices(derived@, known@, j as int + 1) == prev + seq![j as int]);
                assert((prev + seq![j as int]).map_values(f) =~= prev.map_values(f) + seq![
                    gnotes[j as int],
                ]);
            }
        } else {
            proof {
                assert(nullifier_known(derived@[j as int]@, known@));
                assert(unspent_indices(derived@, known@, j as int + 1) =~= unspent_indices(
                    derived@,
                    known@,
                    j as int,
                ));
            }
        }
        j = j + 1;
    }
    r
}

/// Law: spent-note filtering is a pure filter. The kept indices are
/// increasing (input order is preserved and the result is a subset of the
/// input), each kept index carries a nullifier absent from the known set,
/// and every index with an absent nullifier is kept — nothing else is
/// dropped.
pub proof fn lemma_filter_exact(derived: Seq<String>, known: Seq<String>, j: int)
    ensures
        forall|m: int|
            0 <= m < unspent_indices(derived, known, j).len() ==> 0 <= #[trigger] unspent_indices(
                derived,
                known,
                j,
            )[m] < j,
        forall|m: int|
            0 <= m < unspent_indices(derived, known, j).len() ==> !nullifier_known(
                derived[#[trigger] unspent_indices(derived, known, j)[m]]@,
                known,
            ),
        forall|m1: int, m2: int|
            0 <= m1 < m2 < unspent_indices(derived, known, j).len() ==> #[trigger] unspent_indices(
                derived,
                known,
                j,
            )[m1] < #[trigger] unspent_indices(derived, known, j)[m2],
        forall|k: int|
            0 <= k < j && !nullifier_known(#[trigger] derived[k]@, known) ==> unspent_indices(
                derived,
                known,
                j,
            ).contains(k),
    decreases j,
{
    if j > 0 {
        lemma_filter_exact(derived, known, j - 1);
        let prev = unspent_indices(derived, known, j - 1);
        let cur = unspent_indices(derived, known, j);
        if !nullifier_known(derived[j - 1]@, known) {
            assert(cur == prev + seq![j - 1]);
            assert(cur[cur.len() - 1] == j - 1);
            assert forall|k: int|
                0 <= k < j && !nullifier_known(#[trigger] derived[k]@, known) implies cur.contains(
                k,
            ) by {
                if k < j - 1 {
                    assert(prev.contains(k));
                    let m = choose|m: int| 0 <= m < prev.len() && prev[m] == k;
                    assert(cur[m] == k);
                } else {
                    assert(cur[cur.len() - 1] == k);
                }
            }
        } else {
            assert(cur =~= prev);
            assert forall|k: int|
                0 <= k < j && !nullifier_known(#[trigger] derived[k]@, known) implies cur.contains(
                k,
            ) by {
                assert(k != j - 1);
                assert(prev.contains(k));
            }
        }
    }
}

} // verus!
