//! Ranking by similarity score: highest score first, and equal scores in their original order.
//!
//! A score is the bit pattern of an IEEE 754 binary32 number.

use vstd::arithmetic::power2::pow2;
use vstd::prelude::*;
use vstd::relations::sorted_by;
use vstd::relations::total_ordering;

verus! {

/// The sign bit of a binary32 number; the bits below it are its magnitude.
pub const SIGN_BIT: u32 = 0x8000_0000;

/// The bit pattern of infinity; a greater magnitude is not a number.
pub const INFINITY: u32 = 0x7f80_0000;

/// An integer that orders scores as the numbers they encode are ordered. The two zeros are equal,
/// and what is not a number is equal to its like and greater than everything else.
pub open spec fn score_order(bits: u32) -> int {
    let magnitude = (bits as int) % (SIGN_BIT as int);
    if magnitude > INFINITY {
        INFINITY + 1
    } else if bits >= SIGN_BIT {
        -magnitude
    } else {
        magnitude
    }
}

/// Whether position `i` ranks before position `j`, or is the same position.
pub open spec fn ranks_before(scores: Seq<u32>, i: usize, j: usize) -> bool {
    let (left, right) = (score_order(scores[i as int]), score_order(scores[j as int]));
    left > right || (left == right && i <= j)
}

/// The order that [`ranks_before`] puts positions in.
pub open spec fn rank_order(scores: Seq<u32>) -> spec_fn(usize, usize) -> bool {
    |i: usize, j: usize| ranks_before(scores, i, j)
}

/// The positions from `low` up to but without `high`, in increasing order.
pub open spec fn positions(low: usize, high: usize) -> Seq<usize> {
    Seq::new((high - low) as nat, |k: int| (low + k) as usize)
}

/// All positions of `scores`, from the one that ranks first to the one that ranks last.
pub open spec fn ranking(scores: Seq<u32>) -> Seq<usize> {
    positions(0, scores.len() as usize).sort_by(rank_order(scores))
}

/// Any two positions compare, and no two different ones tie.
pub proof fn lemma_rank_order_is_total(scores: Seq<u32>)
    ensures
        total_ordering(rank_order(scores)),
{
}

/// A ranking lists every position once: the highest score comes first, and equal scores keep
/// their order.
pub proof fn lemma_ranking(scores: Seq<u32>)
    requires
        scores.len() <= usize::MAX,
    ensures
        ranking(scores).len() == scores.len(),
        ranking(scores).no_duplicates(),
        forall|position: usize| #[trigger]
            ranking(scores).contains(position) <==> position < scores.len(),
        forall|a: int, b: int|
            0 <= a < b < ranking(scores).len() ==> {
                let (i, j) = (#[trigger] ranking(scores)[a], #[trigger] ranking(scores)[b]);
                ||| score_order(scores[i as int]) > score_order(scores[j as int])
                ||| score_order(scores[i as int]) == score_order(scores[j as int]) && i < j
            },
{
    broadcast use vstd::seq_lib::group_to_multiset_ensures;

    let order = rank_order(scores);
    let all = positions(0, scores.len() as usize);
    let ranked = ranking(scores);
    lemma_rank_order_is_total(scores);
    all.lemma_sort_by_ensures(order);
    assert(all.to_multiset().len() == all.len());
    assert(ranked.to_multiset().len() == ranked.len());
    assert forall|position: usize| #[trigger] ranked.contains(position) <==> position
        < scores.len() by {
        assert(ranked.contains(position) <==> ranked.to_multiset().count(position) > 0);
        assert(all.contains(position) <==> all.to_multiset().count(position) > 0);
        if position < scores.len() {
            assert(all[position as int] == position);
        }
    }
    assert(all.no_duplicates());
    all.lemma_multiset_has_no_duplicates();
    ranked.lemma_multiset_has_no_duplicates_conv();
    assert forall|a: int, b: int| 0 <= a < b < ranked.len() implies ({
        let (i, j) = (#[trigger] ranked[a], #[trigger] ranked[b]);
        ||| score_order(scores[i as int]) > score_order(scores[j as int])
        ||| score_order(scores[i as int]) == score_order(scores[j as int]) && i < j
    }) by {
        assert(order(ranked[a], ranked[b]));
        assert(ranked[a] != ranked[b]);
    }
}

/// Whether a bit pattern encodes a number, an infinity counted as one.
pub open spec fn is_number(bits: u32) -> bool {
    bits <= 0x7f80_0000 || 0x8000_0000 <= bits <= 0xff80_0000
}

/// The size of the number that a magnitude of binary32 encodes, in units of the smallest positive
/// number: eight bits of exponent above 23 bits of fraction, which a leading one precedes unless
/// the exponent is zero. Infinity comes out as the power of two above the greatest number.
pub open spec fn encoded_size(magnitude: int) -> int {
    let (exponent, fraction) = (magnitude / 0x80_0000, magnitude % 0x80_0000);
    if exponent == 0 {
        fraction
    } else {
        (0x80_0000 + fraction) * pow2((exponent - 1) as nat)
    }
}

/// The number that a bit pattern encodes, in units of the smallest positive number.
pub open spec fn encoded_number(bits: u32) -> int {
    if bits >= 0x8000_0000 {
        -encoded_size(bits - 0x8000_0000)
    } else {
        encoded_size(bits as int)
    }
}

/// A greater magnitude encodes a number of greater size.
proof fn lemma_encoded_size_grows(a: int, b: int)
    requires
        0 <= a < b,
    ensures
        0 <= encoded_size(a) < encoded_size(b),
{
    let (ea, fa) = (a / 0x80_0000, a % 0x80_0000);
    let (eb, fb) = (b / 0x80_0000, b % 0x80_0000);
    assert(ea <= eb);
    if ea == eb {
        assert(fa < fb);
        if ea > 0 {
            let power = pow2((ea - 1) as nat);
            vstd::arithmetic::power2::lemma_pow2_pos((ea - 1) as nat);
            assert(0 <= (0x80_0000 + fa) * power < (0x80_0000 + fb) * power) by (nonlinear_arith)
                requires
                    0 <= fa < fb,
                    power > 0,
            ;
        }
    } else {
        let high = pow2((eb - 1) as nat);
        vstd::arithmetic::power2::lemma_pow2_pos((eb - 1) as nat);
        assert(0x80_0000 * high <= (0x80_0000 + fb) * high) by (nonlinear_arith)
            requires
                0 <= fb,
                high > 0,
        ;
        if ea == 0 {
            assert(0x80_0000 <= 0x80_0000 * high) by (nonlinear_arith)
                requires
                    high > 0,
            ;
        } else {
            let low = pow2((ea - 1) as nat);
            let next = pow2(ea as nat);
            vstd::arithmetic::power2::lemma_pow2_pos((ea - 1) as nat);
            vstd::arithmetic::power2::lemma_pow2_unfold(ea as nat);
            if ea < eb - 1 {
                vstd::arithmetic::power2::lemma_pow2_strictly_increases(
                    ea as nat,
                    (eb - 1) as nat,
                );
            }
            assert(next == 2 * low && next <= high);
            assert(0 <= (0x80_0000 + fa) * low < 0x80_0000 * high) by (nonlinear_arith)
                requires
                    0 <= fa < 0x80_0000,
                    low > 0,
                    2 * low <= high,
            ;
        }
    }
}

/// Scores are ordered as the numbers that they encode, whatever the two of them are. What is not a
/// number comes above all numbers, infinity included, and ties with its like.
pub proof fn law_scores_are_ordered_as_numbers(a: u32, b: u32)
    ensures
        is_number(a) && is_number(b) ==> (score_order(a) < score_order(b) <==> encoded_number(a)
            < encoded_number(b)),
        is_number(a) && !is_number(b) ==> score_order(a) < score_order(b),
        !is_number(a) && !is_number(b) ==> score_order(a) == score_order(b),
{
    let (ma, mb) = (a as int % 0x8000_0000, b as int % 0x8000_0000);
    if is_number(a) && is_number(b) {
        if ma < mb {
            lemma_encoded_size_grows(ma, mb);
        }
        if mb < ma {
            lemma_encoded_size_grows(mb, ma);
        }
        if ma > 0 {
            lemma_encoded_size_grows(0, ma);
        }
        if mb > 0 {
            lemma_encoded_size_grows(0, mb);
        }
        assert(encoded_size(0) == 0);
    }
}

/// The order of scores can be read off their bit patterns: it rises with the pattern of numbers
/// without a sign and falls with that of numbers with one, the two zeros tie, negative numbers come
/// below zero and positive ones above, and what is not a number comes above infinity.
pub proof fn law_score_order_follows_the_bits(a: u32, b: u32)
    ensures
        a < b <= 0x7f80_0000 ==> score_order(a) < score_order(b),
        0x8000_0000 <= a < b <= 0xff80_0000 ==> score_order(a) > score_order(b),
        score_order(0) == 0,
        score_order(0x8000_0000) == 0,
        0 < a <= 0x7f80_0000 ==> score_order(a) > 0,
        0x8000_0000 < a <= 0xff80_0000 ==> score_order(a) < 0,
        0x7f80_0000 < a < 0x8000_0000 || 0xff80_0000 < a ==> score_order(a) > score_order(
            0x7f80_0000,
        ),
{
}

/// A ranking holds every position once, and is by the numbers that the scores encode: the greater
/// one first, and of equal ones the one that stands first. What is not a number comes before all
/// numbers.
pub proof fn law_ranking_is_by_number(scores: Seq<u32>)
    requires
        scores.len() <= usize::MAX,
    ensures
        ranking(scores).len() == scores.len(),
        forall|position: usize|
            position < scores.len() ==> #[trigger] ranking(scores).contains(position),
        forall|a: int, b: int|
            #![trigger ranking(scores)[a], ranking(scores)[b]]
            0 <= a < b < scores.len() ==> ({
                let (i, j) = (ranking(scores)[a], ranking(scores)[b]);
                &&& i < scores.len() && j < scores.len() && i != j
                &&& is_number(scores[i as int]) && is_number(scores[j as int]) ==> (
                encoded_number(scores[i as int]) > encoded_number(scores[j as int]) || (
                encoded_number(scores[i as int]) == encoded_number(scores[j as int]) && i < j))
                &&& !is_number(scores[i as int]) && !is_number(scores[j as int]) ==> i < j
                &&& !is_number(scores[j as int]) ==> !is_number(scores[i as int])
            }),
{
    lemma_ranking(scores);
    assert forall|a: int, b: int|
        #![trigger ranking(scores)[a], ranking(scores)[b]]
        0 <= a < b < scores.len() implies ({
        let (i, j) = (ranking(scores)[a], ranking(scores)[b]);
        &&& i < scores.len() && j < scores.len() && i != j
        &&& is_number(scores[i as int]) && is_number(scores[j as int]) ==> (encoded_number(
            scores[i as int],
        ) > encoded_number(scores[j as int]) || (encoded_number(scores[i as int])
            == encoded_number(scores[j as int]) && i < j))
        &&& !is_number(scores[i as int]) && !is_number(scores[j as int]) ==> i < j
        &&& !is_number(scores[j as int]) ==> !is_number(scores[i as int])
    }) by {
        let (i, j) = (ranking(scores)[a], ranking(scores)[b]);
        assert(ranking(scores).contains(i) && ranking(scores).contains(j));
        law_scores_are_ordered_as_numbers(scores[i as int], scores[j as int]);
        law_scores_are_ordered_as_numbers(scores[j as int], scores[i as int]);
    }
}

/// Maps a score to an integer that orders as the score does.
pub fn order_key(bits: u32) -> (key: i32)
    ensures
        key == score_order(bits),
{
    let magnitude: u32 = bits % SIGN_BIT;
    if magnitude > INFINITY {
        INFINITY as i32 + 1
    } else if bits >= SIGN_BIT {
        -(magnitude as i32)
    } else {
        magnitude as i32
    }
}

/// Merges two ranked lists of positions into one.
fn merge(
    keys: &Vec<i32>,
    left: &Vec<usize>,
    right: &Vec<usize>,
    Ghost(scores): Ghost<Seq<u32>>,
) -> (merged: Vec<usize>)
    requires
        keys.len() == scores.len(),
        forall|i: int| 0 <= i < keys.len() ==> #[trigger] keys[i] == score_order(scores[i]),
        forall|i: int| 0 <= i < left.len() ==> #[trigger] left[i] < keys.len(),
        forall|i: int| 0 <= i < right.len() ==> #[trigger] right[i] < keys.len(),
        sorted_by(left@, rank_order(scores)),
        sorted_by(right@, rank_order(scores)),
    ensures
        sorted_by(merged@, rank_order(scores)),
        merged@.to_multiset() == left@.to_multiset().add(right@.to_multiset()),
{
    let mut merged: Vec<usize> = Vec::new();
    let mut i: usize = 0;
    let mut j: usize = 0;
    let ghost order = rank_order(scores);
    assert(left@.take(0).to_multiset().add(right@.take(0).to_multiset())
        =~= merged@.to_multiset()) by {
        broadcast use vstd::seq_lib::group_to_multiset_ensures;

    }
    while i < left.len() || j < right.len()
        invariant
            order == rank_order(scores),
            keys.len() == scores.len(),
            forall|k: int| 0 <= k < keys.len() ==> #[trigger] keys[k] == score_order(scores[k]),
            forall|k: int| 0 <= k < left.len() ==> #[trigger] left[k] < keys.len(),
            forall|k: int| 0 <= k < right.len() ==> #[trigger] right[k] < keys.len(),
            sorted_by(left@, order),
            sorted_by(right@, order),
            i <= left.len(),
            j <= right.len(),
            sorted_by(merged@, order),
            merged@.to_multiset() == left@.take(i as int).to_multiset().add(
                right@.take(j as int).to_multiset(),
            ),
            forall|a: int, k: int|
                0 <= a < merged.len() && i <= k < left.len() ==> order(
                    #[trigger] merged@[a],
                    #[trigger] left@[k],
                ),
            forall|a: int, k: int|
                0 <= a < merged.len() && j <= k < right.len() ==> order(
                    #[trigger] merged@[a],
                    #[trigger] right@[k],
                ),
        decreases left.len() - i + right.len() - j,
    {
        let from_left = if i == left.len() {
            false
        } else if j == right.len() {
            true
        } else {
            let (x, y) = (left[i], right[j]);
            keys[x] > keys[y] || (keys[x] == keys[y] && x <= y)
        };
        let ghost before = merged@;
        if from_left {
            assert(left@.take(i + 1) =~= left@.take(i as int).push(left@[i as int]));
            merged.push(left[i]);
            i += 1;
        } else {
            assert(right@.take(j + 1) =~= right@.take(j as int).push(right@[j as int]));
            merged.push(right[j]);
            j += 1;
        }
        proof {
            broadcast use vstd::seq_lib::group_to_multiset_ensures;

            assert(merged@.to_multiset() =~= left@.take(i as int).to_multiset().add(
                right@.take(j as int).to_multiset(),
            ));
            lemma_rank_order_is_total(scores);
            assert forall|a: int, k: int|
                0 <= a < merged.len() && i <= k < left.len() implies order(
                #[trigger] merged@[a],
                #[trigger] left@[k],
            ) by {
                if a < before.len() {
                    assert(order(before[a], left@[k]));
                } else if from_left {
                    assert(order(left@[i - 1], left@[k]));
                } else {
                    assert(order(left@[i as int], left@[k]));
                }
            }
            assert forall|a: int, k: int|
                0 <= a < merged.len() && j <= k < right.len() implies order(
                #[trigger] merged@[a],
                #[trigger] right@[k],
            ) by {
                if a < before.len() {
                    assert(order(before[a], right@[k]));
                } else if from_left {
                    assert(order(right@[j as int], right@[k]));
                } else {
                    assert(order(right@[j - 1], right@[k]));
                }
            }
        }
    }
    assert(left@.take(left@.len() as int) =~= left@);
    assert(right@.take(right@.len() as int) =~= right@);
    merged
}

/// Ranks the positions from `low` up to but without `high`.
fn rank_range(
    keys: &Vec<i32>,
    low: usize,
    high: usize,
    Ghost(scores): Ghost<Seq<u32>>,
) -> (ranked: Vec<usize>)
    requires
        keys.len() == scores.len(),
        forall|i: int| 0 <= i < keys.len() ==> #[trigger] keys[i] == score_order(scores[i]),
        low <= high <= keys.len(),
    ensures
        sorted_by(ranked@, rank_order(scores)),
        ranked@.to_multiset() == positions(low, high).to_multiset(),
    decreases high - low,
{
    let mut ranked: Vec<usize> = Vec::new();
    if high - low < 2 {
        if low < high {
            ranked.push(low);
        }
        assert(ranked@ =~= positions(low, high));
        return ranked;
    }
    let middle: usize = low + (high - low) / 2;
    let left = rank_range(keys, low, middle, Ghost(scores));
    let right = rank_range(keys, middle, high, Ghost(scores));
    proof {
        broadcast use vstd::seq_lib::group_to_multiset_ensures;

        assert(positions(low, high) =~= positions(low, middle) + positions(middle, high));
        vstd::seq_lib::lemma_multiset_commutative(positions(low, middle), positions(middle, high));
        assert forall|i: int| 0 <= i < left.len() implies #[trigger] left[i] < keys.len() by {
            assert(left@.contains(left@[i]));
            assert(left@.to_multiset().count(left@[i]) > 0);
            assert(positions(low, middle).contains(left@[i]));
        }
        assert forall|i: int| 0 <= i < right.len() implies #[trigger] right[i] < keys.len() by {
            assert(right@.contains(right@[i]));
            assert(right@.to_multiset().count(right@[i]) > 0);
            assert(positions(middle, high).contains(right@[i]));
        }
    }
    merge(keys, &left, &right, Ghost(scores))
}

/// Ranks all positions of `scores`.
pub fn rank(scores: &Vec<u32>) -> (ranked: Vec<usize>)
    ensures
        ranked@ == ranking(scores@),
{
    let mut keys: Vec<i32> = Vec::new();
    let mut at: usize = 0;
    while at < scores.len()
        invariant
            at <= scores.len(),
            keys.len() == at,
            forall|i: int| 0 <= i < at ==> #[trigger] keys[i] == score_order(scores[i]),
        decreases scores.len() - at,
    {
        keys.push(order_key(scores[at]));
        at += 1;
    }
    let ranked = rank_range(&keys, 0, scores.len(), Ghost(scores@));
    proof {
        lemma_rank_order_is_total(scores@);
        positions(0, scores@.len() as usize).lemma_sort_by_ensures(rank_order(scores@));
        vstd::seq_lib::lemma_sorted_unique(ranked@, ranking(scores@), rank_order(scores@));
    }
    ranked
}

} // verus!
