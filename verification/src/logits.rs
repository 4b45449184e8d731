//! Choosing tokens by their logits, which stand as the bits of 32-bit
//! floating-point numbers.
use vstd::prelude::*;

verus! {

/// The place of a number in the total order of floating-point numbers: from
/// negative NaN over the finite numbers to positive NaN, with `-0` below `+0`.
pub open spec fn total_rank(bits: u32) -> int {
    if bits < 0x8000_0000 {
        bits as int
    } else {
        -1 - (bits - 0x8000_0000)
    }
}

/// The magnitude bits of a number.
pub open spec fn magnitude(bits: u32) -> int {
    if bits < 0x8000_0000 {
        bits as int
    } else {
        bits - 0x8000_0000
    }
}

pub open spec fn is_finite(bits: u32) -> bool {
    magnitude(bits) < 0x7f80_0000
}

pub open spec fn is_nan(bits: u32) -> bool {
    magnitude(bits) > 0x7f80_0000
}

/// The place of a number that is no NaN by its value, with `-0` beside `+0`.
pub open spec fn value_rank(bits: u32) -> int {
    if bits < 0x8000_0000 {
        bits as int
    } else {
        -(bits - 0x8000_0000)
    }
}

fn total_key(bits: u32) -> (key: i64)
    ensures
        key == total_rank(bits),
{
    if bits < 0x8000_0000 {
        bits as i64
    } else {
        -1 - (bits as i64 - 0x8000_0000)
    }
}

fn value_key(bits: u32) -> (key: i64)
    ensures
        key == value_rank(bits),
{
    if bits < 0x8000_0000 {
        bits as i64
    } else {
        -(bits as i64 - 0x8000_0000)
    }
}

fn magnitude_of(bits: u32) -> (size: u32)
    ensures
        size == magnitude(bits),
{
    if bits < 0x8000_0000 { bits } else { bits - 0x8000_0000 }
}

/// The index of the greatest of the first `count` numbers in the total order,
/// and of several equal ones the last.
pub open spec fn greatest(values: Seq<u32>, count: int) -> int
    decreases count,
{
    if count <= 1 {
        0
    } else {
        let before = greatest(values, count - 1);
        if total_rank(values[before]) > total_rank(values[count - 1]) {
            before
        } else {
            count - 1
        }
    }
}

/// The index of the greatest number; zero where there is none.
pub fn argmax(values: &[u32]) -> (index: usize)
    ensures
        index == greatest(values@, values@.len() as int),
        values@.len() > 0 ==> index < values@.len(),
{
    if values.len() == 0 {
        return 0;
    }
    let mut best: usize = 0;
    let mut count: usize = 1;
    while count < values.len()
        invariant
            1 <= count <= values@.len(),
            best == greatest(values@, count as int),
            best < count,
        decreases values@.len() - count,
    {
        if total_key(values[best]) <= total_key(values[count]) {
            best = count;
        }
        count += 1;
    }
    best
}

/// The choice is a greatest number, and every number behind it is smaller.
pub proof fn law_argmax_is_last_greatest(values: Seq<u32>, i: int)
    requires
        0 <= i < values.len(),
    ensures
        ({
            let index = greatest(values, values.len() as int);
            &&& 0 <= index < values.len()
            &&& total_rank(values[i]) <= total_rank(values[index])
            &&& i > index ==> total_rank(values[i]) < total_rank(values[index])
        }),
{
    lemma_greatest(values, values.len() as int, i);
}

proof fn lemma_greatest(values: Seq<u32>, count: int, i: int)
    requires
        0 <= i < count <= values.len(),
    ensures
        0 <= greatest(values, count) < count,
        total_rank(values[i]) <= total_rank(values[greatest(values, count)]),
        i > greatest(values, count) ==> total_rank(values[i]) < total_rank(
            values[greatest(values, count)],
        ),
    decreases count,
{
    if count > 1 {
        if i < count - 1 {
            lemma_greatest(values, count - 1, i);
        } else {
            lemma_greatest(values, count - 1, 0);
        }
    }
}

/// The token that the greatest logit stands for, by the low 32 bits of its index.
pub open spec fn greedy_token(values: Seq<u32>) -> u32 {
    (greatest(values, values.len() as int) % 0x1_0000_0000) as u32
}

/// The token that the greatest logit stands for.
pub fn argmax_token(values: &[u32]) -> (token: u32)
    ensures
        token == greedy_token(values@),
{
    (argmax(values) as u64 % 0x1_0000_0000) as u32
}

/// Whether one number is greater than another; no NaN is.
pub open spec fn value_greater(left: u32, right: u32) -> bool {
    !is_nan(left) && !is_nan(right) && value_rank(left) > value_rank(right)
}

/// The index that stays when the first `count` numbers are gone through in
/// order and each takes the place of the one before unless that is greater.
pub open spec fn last_not_exceeded(values: Seq<u32>, count: int) -> int
    decreases count,
{
    if count <= 1 {
        0
    } else {
        let before = last_not_exceeded(values, count - 1);
        if value_greater(values[before], values[count - 1]) {
            before
        } else {
            count - 1
        }
    }
}

/// The index of the greatest number by value; zero where there is none. A NaN
/// takes the place of what came before it and gives way to what follows.
pub fn argmax_by_value(values: &[u32]) -> (index: usize)
    ensures
        index == last_not_exceeded(values@, values@.len() as int),
        values@.len() > 0 ==> index < values@.len(),
{
    if values.len() == 0 {
        return 0;
    }
    let mut best: usize = 0;
    let mut count: usize = 1;
    while count < values.len()
        invariant
            1 <= count <= values@.len(),
            best == last_not_exceeded(values@, count as int),
            best < count,
        decreases values@.len() - count,
    {
        let left: u32 = values[best];
        let right: u32 = values[count];
        let stays = magnitude_of(left) <= 0x7f80_0000 && magnitude_of(right) <= 0x7f80_0000
            && value_key(left) > value_key(right);
        if !stays {
            best = count;
        }
        count += 1;
    }
    best
}

/// Without NaN the choice is a greatest number.
pub proof fn law_argmax_by_value_is_greatest(values: Seq<u32>, i: int)
    requires
        0 <= i < values.len(),
        forall|j: int| 0 <= j < values.len() ==> !is_nan(#[trigger] values[j]),
    ensures
        ({
            let index = last_not_exceeded(values, values.len() as int);
            &&& 0 <= index < values.len()
            &&& value_rank(values[i]) <= value_rank(values[index])
        }),
{
    lemma_last_not_exceeded(values, values.len() as int, i);
}

proof fn lemma_last_not_exceeded(values: Seq<u32>, count: int, i: int)
    requires
        0 <= i < count <= values.len(),
        forall|j: int| 0 <= j < values.len() ==> !is_nan(#[trigger] values[j]),
    ensures
        0 <= last_not_exceeded(values, count) < count,
        value_rank(values[i]) <= value_rank(values[last_not_exceeded(values, count)]),
    decreases count,
{
    if count > 1 {
        if i < count - 1 {
            lemma_last_not_exceeded(values, count - 1, i);
        } else {
            lemma_last_not_exceeded(values, count - 1, 0);
        }
    }
}

/// How many places a ranking fills: the ranked items, up to a limit.
pub open spec fn ranked_count(keys: Seq<Option<i64>>) -> nat
    decreases keys.len(),
{
    if keys.len() == 0 {
        0
    } else {
        ranked_count(keys.drop_last()) + (if keys.last() is Some {
            1nat
        } else {
            0nat
        })
    }
}

/// Whether `ranking` lists the items with the greatest keys in falling order:
/// as many as the limit allows, none twice, and none without a key. Nothing is
/// said of the order of items with equal keys.
pub open spec fn is_ranking(keys: Seq<Option<i64>>, limit: nat, ranking: Seq<usize>) -> bool {
    &&& ranking.len() == if ranked_count(keys) < limit {
        ranked_count(keys)
    } else {
        limit
    }
    &&& forall|i: int|
        0 <= i < ranking.len() ==> (#[trigger] ranking[i]) < keys.len() && keys[ranking[i] as int]
            is Some
    &&& ranking.no_duplicates()
    &&& forall|i: int, j: int|
        0 <= i < j < ranking.len() ==> keys[(#[trigger] ranking[j]) as int]->Some_0
            <= keys[(#[trigger] ranking[i]) as int]->Some_0
    &&& forall|item: usize, i: int|
        #![trigger ranking.contains(item), ranking[i]]
        item < keys.len() && keys[item as int] is Some && !ranking.contains(item) && 0 <= i
            < ranking.len() ==> keys[item as int]->Some_0 <= keys[ranking[i] as int]->Some_0
}

proof fn lemma_ranked_count(keys: Seq<Option<i64>>, index: int)
    requires
        0 <= index < keys.len(),
        keys[index] is Some,
    ensures
        ranked_count(keys.update(index, None)) == ranked_count(keys) - 1,
        ranked_count(keys) > 0,
    decreases keys.len(),
{
    let updated = keys.update(index, None);
    if index == keys.len() - 1 {
        assert(updated.drop_last() =~= keys.drop_last());
    } else {
        lemma_ranked_count(keys.drop_last(), index);
        assert(updated.drop_last() =~= keys.drop_last().update(index, None));
    }
}

proof fn lemma_none_ranked(keys: Seq<Option<i64>>)
    requires
        forall|i: int| 0 <= i < keys.len() ==> (#[trigger] keys[i]) is None,
    ensures
        ranked_count(keys) == 0,
    decreases keys.len(),
{
    if keys.len() > 0 {
        lemma_none_ranked(keys.drop_last());
    }
}

/// The item with the greatest key, if any has one.
fn top_item(keys: &Vec<Option<i64>>) -> (top: Option<usize>)
    ensures
        match top {
            Some(index) => index < keys@.len() && keys@[index as int] is Some && forall|i: int|
                0 <= i < keys@.len() && (#[trigger] keys@[i]) is Some ==> keys@[i]->Some_0
                    <= keys@[index as int]->Some_0,
            None => forall|i: int| 0 <= i < keys@.len() ==> (#[trigger] keys@[i]) is None,
        },
{
    let mut top: Option<usize> = None;
    let mut greatest_key: i64 = 0;
    let mut index: usize = 0;
    while index < keys.len()
        invariant
            index <= keys@.len(),
            match top {
                Some(best) => best < index && keys@[best as int] == Some(greatest_key)
                    && forall|i: int|
                    0 <= i < index && (#[trigger] keys@[i]) is Some ==> keys@[i]->Some_0
                        <= greatest_key,
                None => forall|i: int| 0 <= i < index ==> (#[trigger] keys@[i]) is None,
            },
        decreases keys@.len() - index,
    {
        if let Some(key) = keys[index] {
            if top.is_none() || key > greatest_key {
                top = Some(index);
                greatest_key = key;
            }
        }
        index += 1;
    }
    top
}

/// Ranks items by their keys, up to a limit.
fn rank_items(items: &Vec<Option<i64>>, limit: usize) -> (ranking: Vec<usize>)
    ensures
        is_ranking(items@, limit as nat, ranking@),
{
    let mut keys: Vec<Option<i64>> = Vec::new();
    let mut copied: usize = 0;
    while copied < items.len()
        invariant
            copied <= items@.len(),
            keys@ =~= items@.take(copied as int),
        decreases items@.len() - copied,
    {
        keys.push(items[copied]);
        copied += 1;
    }
    let length: usize = keys.len();
    let mut ranking: Vec<usize> = Vec::new();
    proof {
        assert(keys@ =~= items@);
    }
    while ranking.len() < limit
        invariant_except_break
            ranking@.len() <= limit,
        invariant
            ranking@.len() <= limit,
            length == keys@.len(),
            keys@.len() == items@.len(),
            ranked_count(keys@) + ranking@.len() == ranked_count(items@),
            forall|i: int|
                0 <= i < ranking@.len() ==> (#[trigger] ranking@[i]) < items@.len()
                    && items@[ranking@[i] as int] is Some,
            ranking@.no_duplicates(),
            forall|i: int, j: int|
                0 <= i < j < ranking@.len() ==> items@[(#[trigger] ranking@[j]) as int]->Some_0
                    <= items@[(#[trigger] ranking@[i]) as int]->Some_0,
            forall|item: usize|
                #![trigger ranking@.contains(item)]
                #![trigger keys@[item as int]]
                item < items@.len() ==> keys@[item as int] == (if ranking@.contains(item) {
                    None
                } else {
                    items@[item as int]
                }),
            forall|item: usize, i: int|
                #![trigger ranking@.contains(item), ranking@[i]]
                item < items@.len() && items@[item as int] is Some && !ranking@.contains(item) && 0
                    <= i < ranking@.len() ==> items@[item as int]->Some_0
                    <= items@[ranking@[i] as int]->Some_0,
        ensures
            ranking@.len() == limit || ranked_count(keys@) == 0,
        decreases limit - ranking@.len(),
    {
        match top_item(&keys) {
            Some(top) => {
                proof {
                    lemma_ranked_count(keys@, top as int);
                    assert(keys@[top as int] is Some);
                    assert(!ranking@.contains(top));
                }
                let ghost before = ranking@;
                keys.set(top, None);
                ranking.push(top);
                proof {
                    assert forall|item: usize| #[trigger]
                        ranking@.contains(item) == (before.contains(item) || item == top) by {
                        if before.contains(item) {
                            let at = choose|at: int| 0 <= at < before.len() && before[at] == item;
                            assert(ranking@[at] == item);
                        }
                        if item == top {
                            assert(ranking@[before.len() as int] == item);
                        }
                    }
                    assert forall|i: int, j: int| 0 <= i < j < ranking@.len() implies items@[(
                    #[trigger] ranking@[j]) as int]->Some_0 <= items@[(
                    #[trigger] ranking@[i]) as int]->Some_0 by {
                        if j == before.len() {
                            assert(before[i] == ranking@[i]);
                            assert(items@[top as int] is Some);
                        } else {
                            assert(before[i] == ranking@[i] && before[j] == ranking@[j]);
                        }
                    }
                    assert forall|item: usize, i: int|
                        #![trigger ranking@.contains(item), ranking@[i]]
                        item < items@.len() && items@[item as int] is Some && !ranking@.contains(
                            item,
                        ) && 0 <= i < ranking@.len() implies items@[item as int]->Some_0
                        <= items@[ranking@[i] as int]->Some_0 by {
                        assert(!before.contains(item));
                        if i < before.len() {
                            assert(before[i] == ranking@[i]);
                        }
                    }
                }
            },
            None => {
                proof {
                    lemma_none_ranked(keys@);
                }
                break;
            },
        }
    }
    ranking
}

/// The ranks of finite logits in the total order.
pub open spec fn finite_keys(logits: Seq<u32>) -> Seq<Option<i64>> {
    logits.map_values(
        |bits: u32|
            if is_finite(bits) {
                Some(total_rank(bits) as i64)
            } else {
                None
            },
    )
}

/// The indices of the greatest finite logits in falling order.
pub fn top_k_ids(logits: &[u32], limit: usize) -> (ids: Vec<usize>)
    ensures
        is_ranking(finite_keys(logits@), limit as nat, ids@),
{
    let mut keys: Vec<Option<i64>> = Vec::new();
    let mut index: usize = 0;
    while index < logits.len()
        invariant
            index <= logits@.len(),
            keys@ =~= finite_keys(logits@).take(index as int),
        decreases logits@.len() - index,
    {
        let bits: u32 = logits[index];
        if magnitude_of(bits) < 0x7f80_0000 {
            keys.push(Some(total_key(bits)));
        } else {
            keys.push(None);
        }
        index += 1;
    }
    proof {
        assert(keys@ =~= finite_keys(logits@));
    }
    rank_items(&keys, limit)
}

/// The ranks of logits by their values.
pub open spec fn value_keys(logits: Seq<u32>) -> Seq<Option<i64>> {
    logits.map_values(|bits: u32| Some(value_rank(bits) as i64))
}

/// The indices of the greatest logits by value in falling order.
pub fn ranked_by_value(logits: &[u32], limit: usize) -> (ids: Vec<usize>)
    requires
        forall|i: int| 0 <= i < logits@.len() ==> !is_nan(#[trigger] logits@[i]),
    ensures
        is_ranking(value_keys(logits@), limit as nat, ids@),
{
    let mut keys: Vec<Option<i64>> = Vec::new();
    let mut index: usize = 0;
    while index < logits.len()
        invariant
            index <= logits@.len(),
            keys@ =~= value_keys(logits@).take(index as int),
        decreases logits@.len() - index,
    {
        keys.push(Some(value_key(logits[index])));
        index += 1;
    }
    proof {
        assert(keys@ =~= value_keys(logits@));
    }
    rank_items(&keys, limit)
}

/// The place of an item in a ranking, counted from one.
pub fn target_rank(ranking: &[usize], target: usize) -> (rank: Option<usize>)
    ensures
        match rank {
            Some(rank) => 1 <= rank <= ranking@.len() && ranking@[rank - 1] == target
                && forall|i: int| 0 <= i < rank - 1 ==> (#[trigger] ranking@[i]) != target,
            None => !ranking@.contains(target),
        },
{
    let mut index: usize = 0;
    while index < ranking.len()
        invariant
            index <= ranking@.len(),
            forall|i: int| 0 <= i < index ==> (#[trigger] ranking@[i]) != target,
        decreases ranking@.len() - index,
    {
        if ranking[index] == target {
            return Some(index + 1);
        }
        index += 1;
    }
    None
}

/// The token that must stand at a place of the candidates: the first token,
/// then what each accepted candidate predicts.
pub open spec fn expected_token(first: u32, logits: Seq<Vec<u32>>, place: int) -> u32 {
    if place <= 0 {
        first
    } else {
        greedy_token(logits[place - 1]@)
    }
}

/// Whether exactly the first `count` candidates are what verification expects.
pub open spec fn is_accepted_prefix(
    first: u32,
    candidates: Seq<u32>,
    logits: Seq<Vec<u32>>,
    count: int,
) -> bool {
    &&& 0 <= count <= candidates.len()
    &&& count <= logits.len()
    &&& forall|i: int|
        0 <= i < count ==> (#[trigger] candidates[i]) == expected_token(first, logits, i)
    &&& count < candidates.len() && count < logits.len() ==> candidates[count] != expected_token(
        first,
        logits,
        count,
    )
}

/// How many candidates verification accepts: those before the first that
/// differs from what the tokens before it predict.
pub fn accepted_prefix(first: u32, candidates: &[u32], logits: &[Vec<u32>]) -> (accepted: usize)
    ensures
        is_accepted_prefix(first, candidates@, logits@, accepted as int),
{
    let mut expected: u32 = first;
    let mut accepted: usize = 0;
    while accepted < candidates.len() && accepted < logits.len()
        invariant
            accepted <= candidates@.len(),
            accepted <= logits@.len(),
            expected == expected_token(first, logits@, accepted as int),
            forall|i: int|
                0 <= i < accepted ==> (#[trigger] candidates@[i]) == expected_token(
                    first,
                    logits@,
                    i,
                ),
        decreases candidates@.len() - accepted,
    {
        if candidates[accepted] != expected {
            return accepted;
        }
        expected = argmax_token(logits[accepted].as_slice());
        accepted += 1;
    }
    accepted
}

/// No two counts of accepted candidates are right at once, and the first
/// candidate is accepted where it is the first token.
pub proof fn law_accepted_prefix_is_unique(
    first: u32,
    candidates: Seq<u32>,
    logits: Seq<Vec<u32>>,
    left: int,
    right: int,
)
    requires
        is_accepted_prefix(first, candidates, logits, left),
        is_accepted_prefix(first, candidates, logits, right),
    ensures
        left == right,
        candidates.len() > 0 && logits.len() > 0 ==> (left > 0 <==> candidates[0] == first),
{
    if left < right {
        assert(candidates[left] == expected_token(first, logits, left));
    }
    if right < left {
        assert(candidates[right] == expected_token(first, logits, right));
    }
    if left > 0 {
        assert(candidates[0] == expected_token(first, logits, 0));
    }
}

/// The accepted candidates are the first token and behind it what each row of
/// logits predicts: a token with a greatest logit of the row, where no later
/// token has as great a one.
pub proof fn law_accepted_candidates_are_predicted(
    first: u32,
    candidates: Seq<u32>,
    logits: Seq<Vec<u32>>,
    count: int,
    place: int,
    token: int,
)
    requires
        is_accepted_prefix(first, candidates, logits, count),
        0 <= place < count,
        place > 0 ==> 0 <= token < logits[place - 1]@.len() <= 0x1_0000_0000,
    ensures
        place == 0 ==> candidates[place] == first,
        place > 0 ==> ({
            let row = logits[place - 1]@;
            let chosen = candidates[place] as int;
            &&& chosen < row.len()
            &&& total_rank(row[token]) <= total_rank(row[chosen])
            &&& token > chosen ==> total_rank(row[token]) < total_rank(row[chosen])
        }),
{
    assert(candidates[place] == expected_token(first, logits, place));
    if place > 0 {
        law_argmax_is_last_greatest(logits[place - 1]@, token);
    }
}

/// The total order goes by the bits of positive numbers, against those of
/// negative ones, and has all negative numbers before all positive ones.
pub proof fn law_total_order(left: u32, right: u32)
    ensures
        left < 0x8000_0000 && right < 0x8000_0000 ==> (total_rank(left) < total_rank(right) <==> left
            < right),
        left >= 0x8000_0000 && right >= 0x8000_0000 ==> (total_rank(left) < total_rank(right)
            <==> left > right),
        left >= 0x8000_0000 && right < 0x8000_0000 ==> total_rank(left) < total_rank(right),
        total_rank(left) == total_rank(right) <==> left == right,
{
}

/// By value both zeros are equal, and else the order is the total order.
pub proof fn law_value_order(left: u32, right: u32)
    requires
        !is_nan(left),
        !is_nan(right),
    ensures
        value_greater(left, right) <==> total_rank(left) > total_rank(right) && !(magnitude(left)
            == 0 && magnitude(right) == 0),
{
}

/// A ranking fills a place for each item with a key.
pub proof fn law_ranked_items_are_counted(first: Seq<Option<i64>>, second: Seq<Option<i64>>)
    ensures
        ranked_count(first + second) == ranked_count(first) + ranked_count(second),
        first.len() == 1 ==> ranked_count(first) == (if first[0] is Some {
            1nat
        } else {
            0nat
        }),
    decreases second.len(),
{
    if second.len() == 0 {
        assert(first + second =~= first);
    } else {
        law_ranked_items_are_counted(first, second.drop_last());
        assert((first + second).drop_last() =~= first + second.drop_last());
        assert((first + second).last() == second.last());
    }
    if first.len() == 1 {
        assert(first.drop_last() =~= Seq::empty());
        assert(ranked_count(first.drop_last()) == 0);
    }
}

} // verus!
