//! Narrowing per-bin amounts to 32 bits by a fixed multiplier, with the
//! rounding loss accounted for exactly.
//!
//! Amounts come as a map from bin ids to amounts, or as the entries of such
//! a map in some order. A map is compressed entry by entry in the order in
//! which it is walked; that order is not known, and the loss is proved not
//! to depend on it.

use vstd::prelude::*;
use std::collections::HashMap;
use crate::error::EngineError;

verus! {

/// A map of per-bin amounts divided by a multiplier, and what the division
/// lost.
#[derive(Debug)]
pub struct CompressionResult {
    /// `amount / multiplier` for every bin id of the amounts that were
    /// compressed.
    pub compressed_bin_amount: HashMap<i32, u32>,
    /// The sum over all bins of `amount % multiplier`.
    pub compression_loss: u64,
}

/// Entries of per-bin amounts divided by a multiplier, and what the division
/// lost.
#[derive(Debug)]
pub struct CompressedEntries {
    /// `(bin id, amount / multiplier)`, one entry per bin and in the order
    /// of the amounts that were compressed.
    pub compressed_bin_amount: Vec<(i32, u32)>,
    /// The sum over all bins of `amount % multiplier`.
    pub compression_loss: u64,
}

impl CompressedEntries {
    /// The compressed amount of bin `bin_id`: that of the first entry with
    /// this id, or `None` where no entry has it.
    pub fn amount_of(&self, bin_id: i32) -> (r: Option<u32>)
        ensures
            match r {
                Some(a) => exists|i: int|
                    0 <= i < self.compressed_bin_amount@.len()
                        && #[trigger] self.compressed_bin_amount@[i] == (bin_id, a) && forall|
                        j: int,
                    | 0 <= j < i ==> (#[trigger] self.compressed_bin_amount@[j]).0 != bin_id,
                None => forall|i: int|
                    0 <= i < self.compressed_bin_amount@.len() ==> (
                    #[trigger] self.compressed_bin_amount@[i]).0 != bin_id,
            },
    {
        let mut i: usize = 0;
        while i < self.compressed_bin_amount.len()
            invariant
                i <= self.compressed_bin_amount@.len(),
                forall|j: int|
                    0 <= j < i ==> (#[trigger] self.compressed_bin_amount@[j]).0 != bin_id,
            decreases self.compressed_bin_amount.len() - i,
        {
            let (id, amount) = self.compressed_bin_amount[i];
            if id == bin_id {
                assert(self.compressed_bin_amount@[i as int] == (bin_id, amount));
                return Some(amount);
            }
            i = i + 1;
        }
        None
    }
}

/// Whether no bin id occurs twice in `bins`, so that the entries are a
/// mapping from bin ids to amounts.
pub open spec fn distinct_ids<T>(bins: Seq<(i32, T)>) -> bool {
    forall|i: int, j: int|
        0 <= i < j < bins.len() ==> (#[trigger] bins[i]).0 != (#[trigger] bins[j]).0
}

/// The sum of the amounts of `bins`.
pub open spec fn sum_amounts(bins: Seq<(i32, u64)>) -> int
    decreases bins.len(),
{
    if bins.len() == 0 {
        0
    } else {
        sum_amounts(bins.drop_last()) + bins.last().1
    }
}

/// The sum of what `compressed` stands for: each amount times `multiplier`.
pub open spec fn sum_decompressed(compressed: Seq<(i32, u32)>, multiplier: int) -> int
    decreases compressed.len(),
{
    if compressed.len() == 0 {
        0
    } else {
        sum_decompressed(compressed.drop_last(), multiplier) + compressed.last().1 * multiplier
    }
}

/// The sum of the remainders that dividing each amount by `multiplier` leaves.
pub open spec fn sum_loss(bins: Seq<(i32, u64)>, multiplier: int) -> int
    decreases bins.len(),
{
    if bins.len() == 0 {
        0
    } else {
        sum_loss(bins.drop_last(), multiplier) + (bins.last().1 as int) % multiplier
    }
}

/// The entries of `bins` with every amount divided by `multiplier`.
pub open spec fn compressed_amounts(bins: Seq<(i32, u64)>, multiplier: int) -> Seq<(i32, u32)> {
    Seq::new(bins.len(), |i: int| (bins[i].0, ((bins[i].1 as int) / multiplier) as u32))
}

/// Whether every amount of `bins`, divided by `multiplier`, fits 32 bits.
pub open spec fn all_fit(bins: Seq<(i32, u64)>, multiplier: int) -> bool {
    forall|i: int| 0 <= i < bins.len() ==> ((#[trigger] bins[i]).1 as int) / multiplier <= u32::MAX
}

/// Whether `bins` can be compressed by `multiplier`: there is nothing to
/// divide, or the multiplier is positive, every quotient fits 32 bits and the
/// total loss fits 64 bits.
pub open spec fn compressible(bins: Seq<(i32, u64)>, multiplier: int) -> bool {
    bins.len() == 0 || (multiplier > 0 && all_fit(bins, multiplier) && sum_loss(bins, multiplier)
        <= u64::MAX)
}

/// The loss never decreases as bins are added.
pub proof fn lemma_sum_loss_monotone(bins: Seq<(i32, u64)>, multiplier: int, n: int)
    requires
        multiplier > 0,
        0 <= n <= bins.len(),
    ensures
        0 <= sum_loss(bins.take(n), multiplier) <= sum_loss(bins, multiplier),
    decreases bins.len(),
{
    if n == bins.len() {
        assert(bins.take(n) =~= bins);
        if n > 0 {
            lemma_sum_loss_monotone(bins.drop_last(), multiplier, n - 1);
            assert(bins.drop_last().take(n - 1) =~= bins.drop_last());
        }
    } else {
        lemma_sum_loss_monotone(bins.drop_last(), multiplier, n);
        assert(bins.drop_last().take(n) =~= bins.take(n));
    }
}

/// Conservation law: for a positive multiplier, what the compressed amounts
/// stand for and the loss add up to the amounts given, whenever the
/// compressed sequence holds each quotient.
pub proof fn lemma_compression_conserves(
    bins: Seq<(i32, u64)>,
    compressed: Seq<(i32, u32)>,
    multiplier: int,
)
    requires
        multiplier > 0,
        compressed.len() == bins.len(),
        forall|i: int|
            0 <= i < bins.len() ==> (#[trigger] compressed[i]).1 == (bins[i].1 as int) / multiplier,
    ensures
        sum_decompressed(compressed, multiplier) + sum_loss(bins, multiplier) == sum_amounts(bins),
    decreases bins.len(),
{
    if bins.len() > 0 {
        lemma_compression_conserves(bins.drop_last(), compressed.drop_last(), multiplier);
        let a = bins.last().1 as int;
        assert(compressed.last().1 == a / multiplier);
        vstd::arithmetic::div_mod::lemma_fundamental_div_mod(a, multiplier);
        assert((a / multiplier) * multiplier == multiplier * (a / multiplier))
            by (nonlinear_arith);
    }
}

/// Divides every amount of `bins_amount` by `multiplier`, keeping ids and
/// order, and adds up the remainders as the loss. Where no id occurs twice in
/// the amounts, none does in the result.
///
/// Succeeds exactly when the amounts are [`compressible`], and fails with
/// `Overflow` otherwise. On success the compressed amounts times the
/// multiplier, plus the loss, are the sum of the amounts given.
pub fn compress_entries(bins_amount: &Vec<(i32, u64)>, multiplier: u64) -> (r: Result<
    CompressedEntries,
    EngineError,
>)
    ensures
        r is Ok <==> compressible(bins_amount@, multiplier as int),
        r is Err ==> r->Err_0 == EngineError::Overflow,
        r is Ok ==> {
            let out = r->Ok_0;
            &&& out.compressed_bin_amount@ == compressed_amounts(bins_amount@, multiplier as int)
            &&& (distinct_ids(bins_amount@) ==> distinct_ids(out.compressed_bin_amount@))
            &&& out.compression_loss == sum_loss(bins_amount@, multiplier as int)
            &&& sum_decompressed(out.compressed_bin_amount@, multiplier as int)
                + out.compression_loss == sum_amounts(bins_amount@)
        },
{
    let mut compressed: Vec<(i32, u32)> = Vec::new();
    let mut loss: u64 = 0;
    if bins_amount.len() == 0 {
        proof {
            assert(compressed@ =~= compressed_amounts(bins_amount@, multiplier as int));
        }
        return Ok(CompressedEntries { compressed_bin_amount: compressed, compression_loss: loss });
    }
    if multiplier == 0 {
        return Err(EngineError::Overflow);
    }
    let mut i: usize = 0;
    proof {
        assert(bins_amount@.take(0) =~= Seq::<(i32, u64)>::empty());
    }
    while i < bins_amount.len()
        invariant
            multiplier > 0,
            i <= bins_amount.len(),
            compressed@.len() == i,
            forall|j: int|
                0 <= j < i ==> (#[trigger] compressed@[j]) == (
                    bins_amount@[j].0,
                    (bins_amount@[j].1 / multiplier) as u32,
                ),
            forall|j: int|
                0 <= j < i ==> ((#[trigger] bins_amount@[j]).1 as int) / (multiplier as int)
                    <= u32::MAX,
            loss == sum_loss(bins_amount@.take(i as int), multiplier as int),
        decreases bins_amount.len() - i,
    {
        let (bin_id, amount) = bins_amount[i];
        let quotient: u64 = amount / multiplier;
        if quotient > 0xffff_ffff {
            proof {
                assert(bins_amount@[i as int].1 / multiplier > u32::MAX);
            }
            return Err(EngineError::Overflow);
        }
        let rest: u64 = amount % multiplier;
        proof {
            let next = bins_amount@.take(i + 1);
            assert(next.drop_last() =~= bins_amount@.take(i as int));
            assert(next.last() == bins_amount@[i as int]);
            lemma_sum_loss_monotone(bins_amount@, multiplier as int, i + 1);
        }
        if rest > u64::MAX - loss {
            return Err(EngineError::Overflow);
        }
        loss = loss + rest;
        compressed.push((bin_id, quotient as u32));
        i = i + 1;
    }
    proof {
        assert(bins_amount@.take(i as int) =~= bins_amount@);
        lemma_compression_conserves(bins_amount@, compressed@, multiplier as int);
        assert(compressed@ =~= compressed_amounts(bins_amount@, multiplier as int));
    }
    Ok(CompressedEntries { compressed_bin_amount: compressed, compression_loss: loss })
}

/// Whether `entries` lists every entry of `amounts` once: as many entries as
/// the map has keys, no key twice, and each the map's own.
pub open spec fn lists_once(entries: Seq<(i32, u64)>, amounts: Map<i32, u64>) -> bool {
    &&& entries.len() == amounts.dom().len()
    &&& distinct_ids(entries)
    &&& forall|j: int|
        0 <= j < entries.len() ==> amounts.contains_key((#[trigger] entries[j]).0)
            && amounts[entries[j].0] == entries[j].1
}

/// A listing of a finite map leaves no key out.
pub proof fn lemma_listing_complete(entries: Seq<(i32, u64)>, amounts: Map<i32, u64>)
    requires
        lists_once(entries, amounts),
        amounts.dom().finite(),
    ensures
        forall|k: i32| #[trigger]
            amounts.contains_key(k) ==> exists|j: int|
                0 <= j < entries.len() && (#[trigger] entries[j]).0 == k,
{
    let keys = entries.map_values(|e: (i32, u64)| e.0);
    assert(keys.no_duplicates()) by {
        assert forall|i: int, j: int| 0 <= i < keys.len() && 0 <= j < keys.len() && i != j implies keys[i]
            != keys[j] by {
            assert(keys[i] == entries[i].0 && keys[j] == entries[j].0);
            if i < j {
                assert(entries[i].0 != entries[j].0);
            } else {
                assert(entries[j].0 != entries[i].0);
            }
        }
    }
    keys.unique_seq_to_set();
    assert(keys.to_set().subset_of(amounts.dom())) by {
        assert forall|k: i32| keys.to_set().contains(k) implies amounts.dom().contains(k) by {
            let i = choose|i: int| 0 <= i < keys.len() && keys[i] == k;
            assert(entries[i].0 == k);
        }
    }
    vstd::set_lib::lemma_len_subset(keys.to_set(), amounts.dom());
    vstd::set_lib::lemma_subset_equality(keys.to_set(), amounts.dom());
    assert forall|k: i32| #[trigger] amounts.contains_key(k) implies exists|j: int|
        0 <= j < entries.len() && (#[trigger] entries[j]).0 == k by {
        assert(keys.to_set().contains(k));
        let i = choose|i: int| 0 <= i < keys.len() && keys[i] == k;
        assert(entries[i].0 == k);
    }
}

/// Taking one entry out of a listing takes its remainder out of the loss.
pub proof fn lemma_sum_loss_remove(bins: Seq<(i32, u64)>, multiplier: int, j: int)
    requires
        0 <= j < bins.len(),
    ensures
        sum_loss(bins, multiplier) == sum_loss(bins.remove(j), multiplier) + (bins[j].1 as int)
            % multiplier,
    decreases bins.len(),
{
    if j == bins.len() - 1 {
        assert(bins.remove(j) =~= bins.drop_last());
    } else {
        lemma_sum_loss_remove(bins.drop_last(), multiplier, j);
        assert(bins.drop_last().remove(j) =~= bins.remove(j).drop_last());
        assert(bins.remove(j).last() == bins.last());
    }
}

/// Order law: the loss of a map does not depend on the order in which its
/// entries are listed.
pub proof fn lemma_listings_same_loss(
    first: Seq<(i32, u64)>,
    second: Seq<(i32, u64)>,
    amounts: Map<i32, u64>,
    multiplier: int,
)
    requires
        lists_once(first, amounts),
        lists_once(second, amounts),
        amounts.dom().finite(),
    ensures
        sum_loss(first, multiplier) == sum_loss(second, multiplier),
    decreases first.len(),
{
    if first.len() > 0 {
        let k = first.last().0;
        lemma_listing_complete(second, amounts);
        let j = choose|j: int| 0 <= j < second.len() && (#[trigger] second[j]).0 == k;
        let rest = amounts.remove(k);
        let first_rest = first.drop_last();
        let second_rest = second.remove(j);
        assert(rest.dom() =~= amounts.dom().remove(k));
        assert(lists_once(first_rest, rest)) by {
            assert forall|i: int| 0 <= i < first_rest.len() implies rest.contains_key(
                (#[trigger] first_rest[i]).0,
            ) && rest[first_rest[i].0] == first_rest[i].1 by {
                assert(first_rest[i] == first[i]);
                assert(first[i].0 != first[first.len() - 1].0);
            }
            assert forall|a: int, b: int| 0 <= a < b < first_rest.len() implies (
            #[trigger] first_rest[a]).0 != (#[trigger] first_rest[b]).0 by {
                assert(first_rest[a] == first[a] && first_rest[b] == first[b]);
            }
        }
        assert(lists_once(second_rest, rest)) by {
            assert forall|i: int| 0 <= i < second_rest.len() implies rest.contains_key(
                (#[trigger] second_rest[i]).0,
            ) && rest[second_rest[i].0] == second_rest[i].1 by {
                if i < j {
                    assert(second_rest[i] == second[i]);
                    assert(second[i].0 != second[j].0);
                } else {
                    assert(second_rest[i] == second[i + 1]);
                    assert(second[j].0 != second[i + 1].0);
                }
            }
            assert forall|a: int, b: int| 0 <= a < b < second_rest.len() implies (
            #[trigger] second_rest[a]).0 != (#[trigger] second_rest[b]).0 by {
                let a2 = if a < j {
                    a
                } else {
                    a + 1
                };
                let b2 = if b < j {
                    b
                } else {
                    b + 1
                };
                assert(second_rest[a] == second[a2] && second_rest[b] == second[b2]);
                assert(second[a2].0 != second[b2].0);
            }
        }
        lemma_listings_same_loss(first_rest, second_rest, rest, multiplier);
        lemma_sum_loss_remove(second, multiplier, j);
        assert(second[j].1 == amounts[k] && first.last().1 == amounts[k]);
    } else {
        assert(second.len() == 0);
    }
}

/// The loss of compressing the map `amounts`: the sum over its entries of
/// `amount % multiplier`.
pub open spec fn map_loss(amounts: Map<i32, u64>, multiplier: int) -> int {
    sum_loss(choose|entries: Seq<(i32, u64)>| lists_once(entries, amounts), multiplier)
}

/// Whether the map `amounts` can be compressed by `multiplier`: it is empty,
/// or the multiplier is positive, every quotient fits 32 bits and the loss
/// fits 64 bits.
pub open spec fn map_compressible(amounts: Map<i32, u64>, multiplier: int) -> bool {
    amounts.dom().len() == 0 || (multiplier > 0 && map_loss(amounts, multiplier) <= u64::MAX
        && forall|k: i32| #[trigger]
        amounts.contains_key(k) ==> (amounts[k] as int) / multiplier <= u32::MAX)
}

/// A listing of a map is compressible exactly when the map is, and has the
/// map's loss.
pub proof fn lemma_map_compressible(
    entries: Seq<(i32, u64)>,
    amounts: Map<i32, u64>,
    multiplier: int,
)
    requires
        lists_once(entries, amounts),
        amounts.dom().finite(),
    ensures
        sum_loss(entries, multiplier) == map_loss(amounts, multiplier),
        compressible(entries, multiplier) <==> map_compressible(amounts, multiplier),
{
    let chosen = choose|e: Seq<(i32, u64)>| lists_once(e, amounts);
    lemma_listings_same_loss(entries, chosen, amounts, multiplier);
    lemma_listing_complete(entries, amounts);
    if all_fit(entries, multiplier) {
        assert forall|k: i32| #[trigger] amounts.contains_key(k) implies (amounts[k] as int)
            / multiplier <= u32::MAX by {
            let j = choose|j: int| 0 <= j < entries.len() && (#[trigger] entries[j]).0 == k;
            assert(entries[j].1 == amounts[k]);
        }
    }
    if forall|k: i32| #[trigger]
        amounts.contains_key(k) ==> (amounts[k] as int) / multiplier <= u32::MAX {
        assert forall|j: int| 0 <= j < entries.len() implies ((#[trigger] entries[j]).1 as int)
            / multiplier <= u32::MAX by {
            assert(amounts.contains_key(entries[j].0));
        }
    }
}

/// Conservation law for maps: for a positive multiplier, a map whose
/// quotients fit 32 bits and any listing of its entries, what the compressed
/// amounts stand for and the loss of the map add up to the amounts of the
/// map.
pub proof fn lemma_map_compression_conserves(
    entries: Seq<(i32, u64)>,
    amounts: Map<i32, u64>,
    multiplier: int,
)
    requires
        multiplier > 0,
        lists_once(entries, amounts),
        amounts.dom().finite(),
        forall|k: i32| #[trigger]
            amounts.contains_key(k) ==> (amounts[k] as int) / multiplier <= u32::MAX,
    ensures
        sum_decompressed(compressed_amounts(entries, multiplier), multiplier) + map_loss(
            amounts,
            multiplier,
        ) == sum_amounts(entries),
{
    lemma_map_compressible(entries, amounts, multiplier);
    let compressed = compressed_amounts(entries, multiplier);
    assert forall|i: int| 0 <= i < entries.len() implies (#[trigger] compressed[i]).1 == (
    entries[i].1 as int) / multiplier by {
        assert(amounts.contains_key(entries[i].0));
    }
    lemma_compression_conserves(entries, compressed, multiplier);
}

/// The entries of `amounts`, each once, in the order in which the map is
/// walked.
pub fn entries_of(amounts: &HashMap<i32, u64>) -> (entries: Vec<(i32, u64)>)
    ensures
        lists_once(entries@, amounts@),
{
    broadcast use vstd::std_specs::hash::group_hash_axioms;

    let mut entries: Vec<(i32, u64)> = Vec::new();
    for (k, v) in it: amounts.iter()
        invariant
            entries@.len() == it.index(),
            it.seq().no_duplicates(),
            forall|j: int|
                0 <= j < it.seq().len() ==> amounts@.contains_key(*(#[trigger] it.seq()[j]).0)
                    && amounts@[*it.seq()[j].0] == *it.seq()[j].1,
            forall|j: int|
                0 <= j < entries@.len() ==> (#[trigger] entries@[j]) == (
                    *it.seq()[j].0,
                    *it.seq()[j].1,
                ),
            distinct_ids(entries@),
    {
        proof {
            let n = entries@.len() as int;
            assert forall|i: int| 0 <= i < n implies (#[trigger] entries@[i]).0 != *k by {
                if entries@[i].0 == *k {
                    assert(it.seq()[i] == it.seq()[n]);
                }
            }
        }
        entries.push((*k, *v));
    }
    entries
}

/// What compressing `entries` by `multiplier` comes to: success exactly for
/// [`compressible`] entries, with every amount divided, the remainders
/// added up as the loss and nothing lost in the sum; `Overflow` otherwise.
pub open spec fn compression_outcome(
    entries: Seq<(i32, u64)>,
    multiplier: int,
    r: Result<CompressionResult, EngineError>,
) -> bool {
    match r {
        Ok(out) => {
            &&& compressible(entries, multiplier)
            &&& forall|j: int|
                0 <= j < entries.len() ==> out.compressed_bin_amount@.contains_key(
                    (#[trigger] entries[j]).0,
                ) && out.compressed_bin_amount@[entries[j].0] == ((entries[j].1 as int)
                    / multiplier) as u32
            &&& forall|k: i32| #[trigger]
                out.compressed_bin_amount@.contains_key(k) ==> exists|j: int|
                    0 <= j < entries.len() && (#[trigger] entries[j]).0 == k
            &&& out.compression_loss == sum_loss(entries, multiplier)
            &&& sum_decompressed(compressed_amounts(entries, multiplier), multiplier)
                + out.compression_loss == sum_amounts(entries)
        },
        Err(e) => e == EngineError::Overflow && !compressible(entries, multiplier),
    }
}

/// Divides every amount of the map `bins_amount` by `multiplier` and adds up
/// the remainders as the loss.
///
/// Succeeds exactly when the map is [`map_compressible`], and fails with
/// `Overflow` otherwise. On success the result has the bin ids of
/// `bins_amount`, each with its amount divided, and the loss is
/// [`map_loss`], whatever the order of the walk. For the listing of the
/// entries that the walk gave, the compressed amounts times the multiplier,
/// plus the loss, are the sum of the amounts given: see
/// [`compression_outcome`].
pub fn compress_bin_amount(bins_amount: HashMap<i32, u64>, multiplier: u64) -> (r: Result<
    CompressionResult,
    EngineError,
>)
    ensures
        exists|entries: Seq<(i32, u64)>| #[trigger]
            lists_once(entries, bins_amount@) && compression_outcome(
                entries,
                multiplier as int,
                r,
            ),
        r is Ok <==> map_compressible(bins_amount@, multiplier as int),
        r is Err ==> r->Err_0 == EngineError::Overflow,
        r is Ok ==> r->Ok_0.compression_loss == map_loss(bins_amount@, multiplier as int),
        r is Ok ==> forall|k: i32|
            r->Ok_0.compressed_bin_amount@.contains_key(k) == #[trigger] bins_amount@.contains_key(
                k,
            ) && (bins_amount@.contains_key(k) ==> r->Ok_0.compressed_bin_amount@[k] == ((
            bins_amount@[k] as int) / (multiplier as int)) as u32),
{
    broadcast use vstd::std_specs::hash::group_hash_axioms;

    let entries = entries_of(&bins_amount);
    match compress_entries(&entries, multiplier) {
        Err(e) => {
            let r = Err(e);
            proof {
                assert(lists_once(entries@, bins_amount@) && compression_outcome(
                    entries@,
                    multiplier as int,
                    r,
                ));
                lemma_map_compressible(entries@, bins_amount@, multiplier as int);
            }
            r
        },
        Ok(compressed) => {
            let mut out: HashMap<i32, u32> = HashMap::new();
            let mut i: usize = 0;
            while i < compressed.compressed_bin_amount.len()
                invariant
                    i <= compressed.compressed_bin_amount@.len(),
                    distinct_ids(compressed.compressed_bin_amount@),
                    forall|j: int|
                        0 <= j < i ==> out@.contains_key(
                            (#[trigger] compressed.compressed_bin_amount@[j]).0,
                        ) && out@[compressed.compressed_bin_amount@[j].0]
                            == compressed.compressed_bin_amount@[j].1,
                    forall|k: i32| #[trigger]
                        out@.contains_key(k) ==> exists|j: int|
                            0 <= j < i && (#[trigger] compressed.compressed_bin_amount@[j]).0
                                == k,
                decreases compressed.compressed_bin_amount.len() - i,
            {
                let (bin_id, amount) = compressed.compressed_bin_amount[i];
                out.insert(bin_id, amount);
                i = i + 1;
            }
            let r = Ok(
                CompressionResult {
                    compressed_bin_amount: out,
                    compression_loss: compressed.compression_loss,
                },
            );
            proof {
                let listed = compressed.compressed_bin_amount@;
                assert(listed == compressed_amounts(entries@, multiplier as int));
                assert forall|j: int| 0 <= j < entries@.len() implies out@.contains_key(
                    (#[trigger] entries@[j]).0,
                ) && out@[entries@[j].0] == ((entries@[j].1 as int) / (multiplier as int)) as u32 by {
                    assert(listed[j] == (
                        entries@[j].0,
                        ((entries@[j].1 as int) / (multiplier as int)) as u32,
                    ));
                }
                assert forall|k: i32| #[trigger] out@.contains_key(k) implies exists|j: int|
                    0 <= j < entries@.len() && (#[trigger] entries@[j]).0 == k by {
                    let j = choose|j: int| 0 <= j < listed.len() && (#[trigger] listed[j]).0 == k;
                    assert(entries@[j].0 == k);
                }
                assert(compression_outcome(entries@, multiplier as int, r));
                assert(lists_once(entries@, bins_amount@) && compression_outcome(
                    entries@,
                    multiplier as int,
                    r,
                ));
                lemma_listing_complete(entries@, bins_amount@);
                lemma_map_compressible(entries@, bins_amount@, multiplier as int);
                assert forall|k: i32| #[trigger] bins_amount@.contains_key(k) implies out@.contains_key(
                    k,
                ) && out@[k] == ((bins_amount@[k] as int) / (multiplier as int)) as u32 by {
                    let j = choose|j: int| 0 <= j < entries@.len() && (#[trigger] entries@[j]).0 == k;
                    assert(entries@[j].1 == bins_amount@[k]);
                }
                assert forall|k: i32| out@.contains_key(k) implies #[trigger] bins_amount@.contains_key(
                    k,
                ) by {
                    let j = choose|j: int| 0 <= j < entries@.len() && (#[trigger] entries@[j]).0 == k;
                    assert(bins_amount@.contains_key(entries@[j].0));
                }
            }
            r
        },
    }
}

} // verus!
