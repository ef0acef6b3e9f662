use rand::seq::SliceRandom;
use rand::Rng;
use vstd::prelude::*;

verus! {

/// An arrangement of the numbers below `N`.
pub type Permutation<const N: usize> = [usize; N];

/// Every number below the length occurs, and none occurs twice.
pub open spec fn is_permutation(p: Seq<usize>) -> bool {
    &&& forall|i: int| 0 <= i < p.len() ==> (#[trigger] p[i]) < p.len()
    &&& forall|i: int, j: int| 0 <= i < j < p.len() ==> p[i] != p[j]
}

/// The number of places from `from` up to, and not including, `to` that hold
/// a number below `value`.
pub open spec fn count_below(p: Seq<usize>, value: usize, from: int, to: int) -> nat
    decreases to - from,
{
    if to <= from {
        0
    } else {
        count_below(p, value, from, to - 1) + if value > p[to - 1] {
            1nat
        } else {
            0nat
        }
    }
}

/// The number of pairs of places, the first of them below `upto`, whose
/// numbers stand in the wrong order.
pub open spec fn inversions_upto(p: Seq<usize>, upto: int) -> nat
    decreases upto,
{
    if upto <= 0 {
        0
    } else {
        inversions_upto(p, upto - 1) + count_below(p, p[upto - 1], upto, p.len() as int)
    }
}

/// The number of pairs of places whose numbers stand in the wrong order.
pub open spec fn inversions(p: Seq<usize>) -> nat {
    inversions_upto(p, p.len() as int)
}

/// Whether the arrangement is even: an even number of pairs stand in the
/// wrong order.
pub open spec fn is_even(p: Seq<usize>) -> bool {
    inversions(p) % 2 == 0
}

/// The arrangement with the numbers of two places exchanged.
pub open spec fn swapped(p: Seq<usize>, first: int, second: int) -> Seq<usize> {
    p.update(first, p[second]).update(second, p[first])
}

/// The count looks at nothing but the places of its range.
pub proof fn lemma_count_below_same(
    p: Seq<usize>,
    q: Seq<usize>,
    value: usize,
    from: int,
    to: int,
)
    requires
        0 <= from,
        to <= p.len(),
        to <= q.len(),
        forall|i: int| from <= i < to ==> p[i] == q[i],
    ensures
        count_below(p, value, from, to) == count_below(q, value, from, to),
    decreases to - from,
{
    if to > from {
        lemma_count_below_same(p, q, value, from, to - 1);
    }
}

/// The count over a range is the sum of the counts over its two parts.
pub proof fn lemma_count_below_split(p: Seq<usize>, value: usize, from: int, middle: int, to: int)
    requires
        from <= middle <= to,
    ensures
        count_below(p, value, from, to) == count_below(p, value, from, middle) + count_below(
            p,
            value,
            middle,
            to,
        ),
    decreases to - middle,
{
    if to > middle {
        lemma_count_below_split(p, value, from, middle, to - 1);
    }
}

/// Exchanging two neighbours inside the range does not change the count.
pub proof fn lemma_count_below_swapped(p: Seq<usize>, value: usize, from: int, to: int, k: int)
    requires
        0 <= from <= k,
        k + 1 < to <= p.len(),
    ensures
        count_below(swapped(p, k, k + 1), value, from, to) == count_below(p, value, from, to),
{
    let q = swapped(p, k, k + 1);
    lemma_count_below_split(p, value, from, k, to);
    lemma_count_below_split(p, value, k, k + 2, to);
    lemma_count_below_split(q, value, from, k, to);
    lemma_count_below_split(q, value, k, k + 2, to);
    lemma_count_below_same(p, q, value, from, k);
    lemma_count_below_same(p, q, value, k + 2, to);
    reveal_with_fuel(count_below, 3);
}

/// Before the two neighbours that are exchanged, the pairs in the wrong
/// order are as many as they were.
proof fn lemma_inversions_before_swap(p: Seq<usize>, k: int, upto: int)
    requires
        0 <= upto <= k,
        k + 1 < p.len(),
    ensures
        inversions_upto(swapped(p, k, k + 1), upto) == inversions_upto(p, upto),
    decreases upto,
{
    if upto > 0 {
        lemma_inversions_before_swap(p, k, upto - 1);
        lemma_count_below_swapped(p, p[upto - 1], upto, p.len() as int, k);
    }
}

/// After the two neighbours that are exchanged, each place adds as many
/// pairs in the wrong order as it did.
proof fn lemma_inversions_after_swap(p: Seq<usize>, k: int, upto: int)
    requires
        0 <= k,
        k + 2 <= upto <= p.len(),
    ensures
        inversions_upto(swapped(p, k, k + 1), upto) - inversions_upto(swapped(p, k, k + 1), k + 2)
            == inversions_upto(p, upto) - inversions_upto(p, k + 2),
    decreases upto,
{
    if upto > k + 2 {
        lemma_inversions_after_swap(p, k, upto - 1);
        lemma_count_below_same(
            p,
            swapped(p, k, k + 1),
            p[upto - 1],
            upto,
            p.len() as int,
        );
    }
}

/// Exchanging two neighbours that hold different numbers turns an even
/// arrangement into an odd one, and an odd one into an even one.
pub proof fn lemma_neighbour_swap_parity(p: Seq<usize>, k: int)
    requires
        0 <= k,
        k + 1 < p.len(),
        p[k] != p[k + 1],
    ensures
        is_even(swapped(p, k, k + 1)) != is_even(p),
{
    let q = swapped(p, k, k + 1);
    let n = p.len() as int;
    lemma_inversions_before_swap(p, k, k);
    lemma_inversions_after_swap(p, k, n);
    lemma_count_below_same(p, q, p[k], k + 2, n);
    lemma_count_below_same(p, q, p[k + 1], k + 2, n);
    lemma_count_below_split(p, p[k], k + 1, k + 2, n);
    lemma_count_below_split(q, q[k], k + 1, k + 2, n);
    assert(count_below(p, p[k], k + 1, k + 2) == if p[k] > p[k + 1] {
        1nat
    } else {
        0nat
    }) by {
        reveal_with_fuel(count_below, 2);
    }
    assert(count_below(q, q[k], k + 1, k + 2) == if p[k + 1] > p[k] {
        1nat
    } else {
        0nat
    }) by {
        reveal_with_fuel(count_below, 2);
    }
    assert(inversions_upto(p, k + 2) == inversions_upto(p, k) + count_below(p, p[k], k + 1, n)
        + count_below(p, p[k + 1], k + 2, n)) by {
        reveal_with_fuel(inversions_upto, 3);
    }
    assert(inversions_upto(q, k + 2) == inversions_upto(q, k) + count_below(q, q[k], k + 1, n)
        + count_below(q, q[k + 1], k + 2, n)) by {
        reveal_with_fuel(inversions_upto, 3);
    }
}

/// Exchanging the numbers of two places of a permutation turns an even
/// arrangement into an odd one, and an odd one into an even one.
pub proof fn lemma_swap_parity(p: Seq<usize>, first: int, second: int)
    requires
        is_permutation(p),
        0 <= first < second < p.len(),
    ensures
        is_even(swapped(p, first, second)) != is_even(p),
    decreases second - first,
{
    assert(p[first] != p[first + 1]);
    if second == first + 1 {
        lemma_neighbour_swap_parity(p, first);
    } else {
        // The exchange is made of three: the first two neighbours, the second
        // of them with the far place, and the two neighbours again.
        let q1 = swapped(p, first, first + 1);
        lemma_neighbour_swap_parity(p, first);
        lemma_swapped_permutation(p, first, first + 1);
        let q2 = swapped(q1, first + 1, second);
        lemma_swap_parity(q1, first + 1, second);
        lemma_swapped_permutation(q1, first + 1, second);
        let q3 = swapped(q2, first, first + 1);
        assert(q2[first] != q2[first + 1]);
        lemma_neighbour_swap_parity(q2, first);
        assert(q3 =~= swapped(p, first, second));
    }
}

/// Exchanging two places in either order is one exchange.
pub proof fn lemma_swapped_symmetric(p: Seq<usize>, first: int, second: int)
    requires
        0 <= first < p.len(),
        0 <= second < p.len(),
    ensures
        swapped(p, first, second) == swapped(p, second, first),
{
    assert(swapped(p, first, second) =~= swapped(p, second, first));
}

/// Carrying the numbers of four different places of a permutation round,
/// each to the next place and the last to the first, turns an even
/// arrangement into an odd one, and an odd one into an even one.
pub proof fn lemma_four_cycle_parity(p: Seq<usize>, q: Seq<usize>, a: int, b: int, c: int, d: int)
    requires
        is_permutation(p),
        q.len() == p.len(),
        0 <= a < p.len(),
        0 <= b < p.len(),
        0 <= c < p.len(),
        0 <= d < p.len(),
        a != b && a != c && a != d && b != c && b != d && c != d,
        q[b] == p[a],
        q[c] == p[b],
        q[d] == p[c],
        q[a] == p[d],
        forall|i: int| 0 <= i < p.len() && i != a && i != b && i != c && i != d ==> q[i] == p[i],
    ensures
        is_permutation(q),
        is_even(q) != is_even(p),
{
    let s1 = swapped(p, a, b);
    let s2 = swapped(s1, a, c);
    let s3 = swapped(s2, a, d);
    lemma_any_swap_parity(p, a, b);
    lemma_swapped_permutation(p, a, b);
    lemma_any_swap_parity(s1, a, c);
    lemma_swapped_permutation(s1, a, c);
    lemma_any_swap_parity(s2, a, d);
    lemma_swapped_permutation(s2, a, d);
    assert(s3 =~= q);
}

/// Exchanging the numbers of two different places, in whichever order they
/// are named, changes an even arrangement into an odd one and back.
pub proof fn lemma_any_swap_parity(p: Seq<usize>, first: int, second: int)
    requires
        is_permutation(p),
        0 <= first < p.len(),
        0 <= second < p.len(),
        first != second,
    ensures
        is_even(swapped(p, first, second)) != is_even(p),
{
    if first < second {
        lemma_swap_parity(p, first, second);
    } else {
        lemma_swapped_symmetric(p, first, second);
        lemma_swap_parity(p, second, first);
    }
}

/// The weights of the numbers at the first `upto` places, added up.
pub open spec fn weight_sum(p: Seq<usize>, weight: spec_fn(int) -> int, upto: int) -> int
    decreases upto,
{
    if upto <= 0 {
        0
    } else {
        weight_sum(p, weight, upto - 1) + weight(p[upto - 1] as int)
    }
}

/// The weights of the numbers below `upto`, added up.
pub open spec fn weight_total(weight: spec_fn(int) -> int, upto: int) -> int
    decreases upto,
{
    if upto <= 0 {
        0
    } else {
        weight_total(weight, upto - 1) + weight(upto - 1)
    }
}

/// Every number below the length occurs in a permutation.
pub proof fn lemma_permutation_onto(p: Seq<usize>, value: int)
    requires
        is_permutation(p),
        0 <= value < p.len(),
    ensures
        exists|k: int| 0 <= k < p.len() && p[k] == value,
{
    let n = p.len() as int;
    let numbers = Seq::new(p.len(), |i: int| p[i] as int);
    assert(numbers.no_duplicates());
    numbers.unique_seq_to_set();
    vstd::set_lib::lemma_int_range(0, n);
    vstd::seq_lib::seq_to_set_is_finite(numbers);
    assert(numbers.to_set().subset_of(vstd::set_lib::set_int_range(0, n))) by {
        assert forall|x: int| numbers.to_set().contains(x) implies vstd::set_lib::set_int_range(
            0,
            n,
        ).contains(x) by {
            let k = choose|k: int| 0 <= k < numbers.len() && numbers[k] == x;
            assert(p[k] < p.len());
        }
    }
    vstd::set_lib::lemma_subset_equality(numbers.to_set(), vstd::set_lib::set_int_range(0, n));
    assert(vstd::set_lib::set_int_range(0, n).contains(value));
    assert(numbers.to_set().contains(value));
    let k = choose|k: int| 0 <= k < numbers.len() && numbers[k] == value;
    assert(p[k] == value);
}

/// The sum looks at nothing but the places below `upto`.
pub proof fn lemma_weight_sum_same(
    p: Seq<usize>,
    q: Seq<usize>,
    weight: spec_fn(int) -> int,
    upto: int,
)
    requires
        forall|i: int| 0 <= i < upto ==> p[i] == q[i],
    ensures
        weight_sum(p, weight, upto) == weight_sum(q, weight, upto),
    decreases upto,
{
    if upto > 0 {
        lemma_weight_sum_same(p, q, weight, upto - 1);
    }
}

/// Replacing the number of one place below `upto` changes the sum by the
/// difference of the two weights.
pub proof fn lemma_weight_sum_update(
    p: Seq<usize>,
    weight: spec_fn(int) -> int,
    upto: int,
    place: int,
    number: usize,
)
    requires
        0 <= place < upto <= p.len(),
    ensures
        weight_sum(p.update(place, number), weight, upto) == weight_sum(p, weight, upto) - weight(
            p[place] as int,
        ) + weight(number as int),
    decreases upto,
{
    if place == upto - 1 {
        lemma_weight_sum_same(p, p.update(place, number), weight, upto - 1);
    } else {
        lemma_weight_sum_update(p, weight, upto - 1, place, number);
    }
}

/// The weights of the numbers of a permutation add up to the weights of
/// all numbers below its length: the order does not matter.
pub proof fn lemma_permutation_sum(p: Seq<usize>, weight: spec_fn(int) -> int)
    requires
        is_permutation(p),
    ensures
        weight_sum(p, weight, p.len() as int) == weight_total(weight, p.len() as int),
    decreases p.len(),
{
    let n = p.len() as int;
    if n > 0 {
        lemma_permutation_onto(p, n - 1);
        let k = choose|k: int| 0 <= k < p.len() && p[k] == n - 1;
        // The largest number is brought to the last place.
        let q = swapped(p, k, n - 1);
        lemma_swapped_permutation(p, k, n - 1);
        assert(weight_sum(q, weight, n) == weight_sum(p, weight, n)) by {
            if k != n - 1 {
                let middle = p.update(k, p[n - 1]);
                lemma_weight_sum_update(p, weight, n, k, p[n - 1]);
                lemma_weight_sum_update(middle, weight, n, n - 1, p[k]);
            } else {
                assert(q =~= p);
            }
        }
        let rest = q.take(n - 1);
        assert(is_permutation(rest)) by {
            assert forall|i: int| 0 <= i < rest.len() implies (#[trigger] rest[i]) < rest.len() by {
                assert(q[i] < q.len());
                assert(q[i] != q[n - 1]);
            }
            assert forall|i: int, j: int| 0 <= i < j < rest.len() implies rest[i] != rest[j] by {
                assert(q[i] != q[j]);
            }
        }
        lemma_permutation_sum(rest, weight);
        lemma_weight_sum_same(q, rest, weight, n - 1);
    }
}

/// No number stands before a smaller one where every number is in its own
/// place: the arrangement is even.
pub proof fn lemma_sorted_is_even(p: Seq<usize>)
    requires
        forall|i: int| 0 <= i < p.len() ==> p[i] == i,
    ensures
        inversions(p) == 0,
        is_even(p),
{
    lemma_sorted_inversions(p, p.len() as int);
}

/// In front of a place, no number stands before a smaller one where every
/// number is in its own place.
proof fn lemma_sorted_inversions(p: Seq<usize>, upto: int)
    requires
        0 <= upto <= p.len(),
        forall|i: int| 0 <= i < p.len() ==> p[i] == i,
    ensures
        inversions_upto(p, upto) == 0,
    decreases upto,
{
    if upto > 0 {
        lemma_sorted_inversions(p, upto - 1);
        lemma_sorted_count(p, upto - 1, p.len() as int);
    }
}

/// Behind a place, no number is smaller than its own where every number is
/// in its own place.
proof fn lemma_sorted_count(p: Seq<usize>, place: int, to: int)
    requires
        0 <= place < to <= p.len(),
        forall|i: int| 0 <= i < p.len() ==> p[i] == i,
    ensures
        count_below(p, p[place], place + 1, to) == 0,
    decreases to - place,
{
    if to > place + 1 {
        lemma_sorted_count(p, place, to - 1);
    }
}

/// An arrangement of what a permutation holds is a permutation.
pub proof fn lemma_rearranged_permutation(before: Seq<usize>, after: Seq<usize>)
    requires
        is_permutation(before),
        after.to_multiset() == before.to_multiset(),
    ensures
        is_permutation(after),
{
    before.to_multiset_ensures();
    after.to_multiset_ensures();
    assert(before.no_duplicates());
    before.lemma_multiset_has_no_duplicates();
    after.lemma_multiset_has_no_duplicates_conv();
    assert forall|i: int| 0 <= i < after.len() implies (#[trigger] after[i]) < after.len() by {
        let value = after[i];
        assert(after.contains(value));
        assert(after.to_multiset().count(value) > 0);
        assert(before.to_multiset().count(value) > 0);
        assert(before.contains(value));
        let j = choose|j: int| 0 <= j < before.len() && before[j] == value;
        assert(before[j] < before.len());
    }
}

/// Exchanging the numbers of two places of a permutation gives a
/// permutation.
pub proof fn lemma_swapped_permutation(p: Seq<usize>, first: int, second: int)
    requires
        is_permutation(p),
        0 <= first < p.len(),
        0 <= second < p.len(),
    ensures
        is_permutation(swapped(p, first, second)),
{
    let q = swapped(p, first, second);
    assert forall|i: int, j: int| 0 <= i < j < q.len() implies q[i] != q[j] by {
        let from_i = if i == first {
            second
        } else if i == second {
            first
        } else {
            i
        };
        let from_j = if j == first {
            second
        } else if j == second {
            first
        } else {
            j
        };
        assert(q[i] == p[from_i] && q[j] == p[from_j]);
        if from_i < from_j {
            assert(p[from_i] != p[from_j]);
        } else {
            assert(p[from_j] != p[from_i]);
        }
    }
}

/// The arrangement that leaves every number in its place.
pub fn identity_permutation<const N: usize>() -> (permutation: [usize; N])
    ensures
        permutation@ == Seq::new(N as nat, |i: int| i as usize),
        is_permutation(permutation@),
{
    let mut permutation = [0usize;N];
    let mut i: usize = 0;
    while i < N
        invariant
            i <= N,
            forall|j: int| 0 <= j < i ==> permutation@[j] == j,
        decreases N - i,
    {
        permutation[i] = i;
        i = i + 1;
    }
    assert(permutation@ =~= Seq::new(N as nat, |i: int| i as usize));
    permutation
}

/// Whether the arrangement is even.
pub fn permutation_parity(permutation: &[usize]) -> (even: bool)
    ensures
        even == is_even(permutation@),
{
    let n = permutation.len();
    let mut even = true;
    let ghost mut count: nat = 0;
    let mut i: usize = 0;
    while i < n
        invariant
            n == permutation@.len(),
            i <= n,
            count == inversions_upto(permutation@, i as int),
            even == (count % 2 == 0),
        decreases n - i,
    {
        let mut j: usize = i + 1;
        let ghost before = count;
        while j < n
            invariant
                n == permutation@.len(),
                i < n,
                i + 1 <= j <= n,
                count == before + count_below(permutation@, permutation@[i as int], i + 1, j as int),
                even == (count % 2 == 0),
            decreases n - j,
        {
            if permutation[i] > permutation[j] {
                even = !even;
                proof {
                    count = count + 1;
                }
            }
            j = j + 1;
        }
        i = i + 1;
    }
    even
}

/// A permutation of the numbers below `N`, drawn with `rng`.
pub fn random_uniform_permutation<const N: usize, R: Rng>(rng: &mut R) -> (permutation: [usize; N])
    ensures
        is_permutation(permutation@),
{
    let mut permutation = identity_permutation::<N>();
    let ghost identity = permutation@;
    shuffle(&mut permutation, rng);
    proof {
        lemma_rearranged_permutation(identity, permutation@);
    }
    permutation
}

/// Shuffles the slice with `rand`'s `SliceRandom::shuffle`, which only
/// exchanges items: the slice holds afterwards what it held before, in some
/// order.
#[verifier::external_body]
fn shuffle<R: Rng>(items: &mut [usize], rng: &mut R)
    ensures
        final(items)@.to_multiset() == old(items)@.to_multiset(),
{
    items.shuffle(rng);
}

/// Draws a number with `rand`'s `Rng::random_range` on the range from zero
/// up to, and not including, `bound`; the number lies in that range.
#[verifier::external_body]
pub(crate) fn random_below<R: Rng>(rng: &mut R, bound: u8) -> (number: u8)
    requires
        bound > 0,
    ensures
        number < bound,
{
    rng.random_range(0..bound)
}

} // verus!
