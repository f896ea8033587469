//! Transaction ingestion accounting: growth of the commitment accumulator
//! and capture of per-note witnesses.
//!
//! The host layer parses the transaction and trial-decrypts its shielded
//! outputs with the external protocol library, then hands this module the
//! accumulator size, the output count, the revealed spend nullifiers and
//! the decrypted (output index, note) pairs. This module decides how the
//! accumulator grows, which notes get a witness, and at which accumulator
//! position each witness is captured — the state immediately after that
//! note's own commitment is appended, not the final state after the whole
//! transaction (later outputs of the same transaction are not reflected).

use crate::hexcodec::{encode_hex, hex_str_of};
use crate::{Note, ShieldError, TREE_CAPACITY};
use vstd::prelude::*;

verus! {

/// The witnesses the first `j` decrypted entries contribute at output
/// index `i`: each entry with that output index, paired with the position
/// `base + i` its commitment takes in the accumulator.
pub open spec fn matches_at(dec: Seq<(usize, Note)>, j: int, i: int, base: int) -> Seq<(Note, u64)>
    decreases j,
{
    if j <= 0 {
        Seq::empty()
    } else {
        matches_at(dec, j - 1, i, base) + (if dec[j - 1].0 as int == i {
            seq![(dec[j - 1].1, (base + i) as u64)]
        } else {
            Seq::empty()
        })
    }
}

/// All witnesses captured while appending the first `n` outputs of a
/// transaction to an accumulator holding `base` entries: output order
/// first, decryption order within one output.
pub open spec fn captured(dec: Seq<(usize, Note)>, n: int, base: int) -> Seq<(Note, u64)>
    decreases n,
{
    if n <= 0 {
        Seq::empty()
    } else {
        captured(dec, n - 1, base) + matches_at(dec, dec.len() as int, n - 1, base)
    }
}

/// What ingesting one transaction yields besides the decrypted notes: the
/// accumulator size after every output commitment is appended, the
/// hex-encoded nullifiers revealed by the shielded spends, and the
/// (note, capture position) pairs for the decrypted outputs.
#[derive(Debug)]
pub struct ScanData {
    /// Accumulator size after appending every output commitment.
    pub new_tree_size: u64,
    /// Hex encodings of the spend nullifiers, in transaction order.
    pub nullifiers: Vec<String>,
    /// Each decrypted note with the accumulator position at which its
    /// witness is captured.
    pub witnesses: Vec<(Note, u64)>,
}

/// Account for one ingested transaction. Fails exactly when the `n_outputs`
/// commitments do not all fit the accumulator's fixed capacity; otherwise
/// the accumulator grows by exactly `n_outputs` entries, every spend
/// nullifier is reported hex-encoded in transaction order, and every
/// decrypted output is paired with the accumulator position of its own
/// commitment (captured-state semantics).
pub fn scan_transaction(
    tree_size: u64,
    n_outputs: usize,
    spend_nullifiers: &Vec<Vec<u8>>,
    decrypted: &Vec<(usize, Note)>,
) -> (r: Result<ScanData, ShieldError>)
    ensures
        r is Ok <==> tree_size + n_outputs <= TREE_CAPACITY,
        r is Err ==> r->Err_0 == ShieldError::TreeFull,
        r is Ok ==> ({
            let d = r->Ok_0;
            &&& d.new_tree_size == tree_size + n_outputs
            &&& d.nullifiers@.len() == spend_nullifiers@.len()
            &&& (forall|k: int|
                0 <= k < spend_nullifiers@.len() ==> d.nullifiers@[k]@ == hex_str_of(
                    #[trigger] spend_nullifiers@[k]@,
                ))
            &&& d.witnesses@ == captured(decrypted@, n_outputs as int, tree_size as int)
        }),
{
    if tree_size > TREE_CAPACITY || (n_outputs as u64) > TREE_CAPACITY - tree_size {
        return Err(ShieldError::TreeFull);
    }
    let mut nullifiers: Vec<String> = Vec::new();
    let mut s: usize = 0;
    while s < spend_nullifiers.len()
        invariant
            0 <= s <= spend_nullifiers@.len(),
            nullifiers@.len() == s,
            forall|k: int|
                0 <= k < s ==> nullifiers@[k]@ == hex_str_of(#[trigger] spend_nullifiers@[k]@),
        decreases spend_nullifiers@.len() - s,
    {
        let h = encode_hex(spend_nullifiers[s].as_slice());
        nullifiers.push(h);
        s = s + 1;
    }
    let mut witnesses: Vec<(Note, u64)> = Vec::new();
    let mut i: usize = 0;
    while i < n_outputs
        invariant
            0 <= i <= n_outputs,
            tree_size + n_outputs <= TREE_CAPACITY,
            witnesses@ == captured(decrypted@, i as int, tree_size as int),
        decreases n_outputs - i,
    {
        let mut j: usize = 0;
        while j < decrypted.len()
            invariant
                0 <= j <= decrypted@.len(),
                0 <= i < n_outputs,
                tree_size + n_outputs <= TREE_CAPACITY,
                witnesses@ == captured(decrypted@, i as int, tree_size as int) + matches_at(
                    decrypted@,
                    j as int,
                    i as int,
                    tree_size as int,
                ),
            decreases decrypted@.len() - j,
        {
            if decrypted[j].0 == i {
                let position: u64 = tree_size + (i as u64);
                witnesses.push((decrypted[j].1, position));
            }
            j = j + 1;
        }
        i = i + 1;
    }
    proof {
        assert(witnesses@ == captured(decrypted@, n_outputs as int, tree_size as int));
    }
    Ok(
        ScanData {
            new_tree_size: tree_size + (n_outputs as u64),
            nullifiers,
            witnesses,
        },
    )
}

/// A sequence concatenation contains whatever either part contains.
proof fn lemma_concat_contains<A>(a: Seq<A>, b: Seq<A>, x: A)
    requires
        a.contains(x) || b.contains(x),
    ensures
        (a + b).contains(x),
{
    if a.contains(x) {
        let m = choose|m: int| 0 <= m < a.len() && a[m] == x;
        assert((a + b)[m] == x);
    } else {
        let m = choose|m: int| 0 <= m < b.len() && b[m] == x;
        assert((a + b)[a.len() + m] == x);
    }
}

/// The entry at index `k` of the decrypted list, if its output index is
/// `i`, appears among the witnesses collected at output index `i`.
proof fn lemma_matches_at_contains(dec: Seq<(usize, Note)>, j: int, i: int, base: int, k: int)
    requires
        0 <= k < j <= dec.len(),
        dec[k].0 as int == i,
    ensures
        matches_at(dec, j, i, base).contains((dec[k].1, (base + i) as u64)),
    decreases j,
{
    let p = (dec[k].1, (base + i) as u64);
    if k == j - 1 {
        assert(seq![p].contains(p)) by {
            assert(seq![p][0] == p);
        }
        lemma_concat_contains(matches_at(dec, j - 1, i, base), seq![p], p);
    } else {
        lemma_matches_at_contains(dec, j - 1, i, base, k);
        if dec[j - 1].0 as int == i {
            lemma_concat_contains(
                matches_at(dec, j - 1, i, base),
                seq![(dec[j - 1].1, (base + i) as u64)],
                p,
            );
        } else {
            lemma_concat_contains(matches_at(dec, j - 1, i, base), Seq::empty(), p);
        }
    }
}

/// Whatever the witnesses collected at output index `i` contain, the
/// witnesses of a whole scan over `n > i` outputs contain as well.
proof fn lemma_captured_contains_layer(
    dec: Seq<(usize, Note)>,
    n: int,
    base: int,
    i: int,
    p: (Note, u64),
)
    requires
        0 <= i < n,
        matches_at(dec, dec.len() as int, i, base).contains(p),
    ensures
        captured(dec, n, base).contains(p),
    decreases n,
{
    if i == n - 1 {
        lemma_concat_contains(
            captured(dec, n - 1, base),
            matches_at(dec, dec.len() as int, i, base),
            p,
        );
    } else {
        lemma_captured_contains_layer(dec, n - 1, base, i, p);
        lemma_concat_contains(
            captured(dec, n - 1, base),
            matches_at(dec, dec.len() as int, n - 1, base),
            p,
        );
    }
}

/// Law: captured-state witness semantics. Every note decrypted at an
/// output index within the scanned range receives a witness whose position
/// is the accumulator size immediately after that note's own commitment is
/// appended, minus one — `base + index` — not a position against the final
/// accumulator state.
pub proof fn lemma_witness_positions(dec: Seq<(usize, Note)>, n: int, base: int)
    ensures
        forall|k: int|
            0 <= k < dec.len() && (#[trigger] dec[k].0 as int) < n ==> captured(
                dec,
                n,
                base,
            ).contains((dec[k].1, (base + dec[k].0) as u64)),
{
    assert forall|k: int| 0 <= k < dec.len() && (#[trigger] dec[k].0 as int) < n implies captured(
        dec,
        n,
        base,
    ).contains((dec[k].1, (base + dec[k].0) as u64)) by {
        let i = dec[k].0 as int;
        lemma_matches_at_contains(dec, dec.len() as int, i, base, k);
        lemma_captured_contains_layer(dec, n, base, i, (dec[k].1, (base + i) as u64));
    }
}

} // verus!
