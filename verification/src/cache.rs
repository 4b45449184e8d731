//! Fixed-capacity KV-cache storage.
//!
//! The layout is `[kv_head, token, head_dim]`. Capacity is part of the layout,
//! so appending neither reallocates nor moves existing values. Keys and values
//! are held as the bit patterns of 32-bit floating-point numbers.
use vstd::arithmetic::div_mod::*;
use vstd::prelude::*;
use vstd::slice::slice_subrange;

use crate::text;

verus! {

#[derive(Debug, Clone, PartialEq, Eq)]
pub struct CacheError(pub String);

#[derive(Debug, Clone)]
pub struct KvCache {
    key_value_heads: usize,
    head_dim: usize,
    capacity_tokens: usize,
    cached_tokens: usize,
    keys: Vec<u32>,
    values: Vec<u32>,
}

/// What a cache holds: its shape, the number of cached tokens and the storage.
#[verifier::ext_equal]
pub struct CacheState {
    pub heads: int,
    pub dim: int,
    pub capacity: int,
    pub cached: int,
    pub keys: Seq<u32>,
    pub values: Seq<u32>,
}

/// The number of values in the storage of a cache.
pub open spec fn storage_len(heads: int, dim: int, capacity: int) -> int {
    heads * dim * capacity
}

impl CacheState {
    /// The number of storage values that belong to one head.
    pub open spec fn block(self) -> int {
        self.capacity * self.dim
    }

    /// The number of values in one token.
    pub open spec fn token_len(self) -> int {
        self.heads * self.dim
    }

    pub open spec fn wf(self) -> bool {
        &&& self.heads > 0
        &&& self.dim > 0
        &&& self.capacity > 0
        &&& 0 <= self.cached <= self.capacity
        &&& self.keys.len() == storage_len(self.heads, self.dim, self.capacity)
        &&& self.values.len() == self.keys.len()
        &&& 4 * self.keys.len() <= isize::MAX
    }

    /// The place in the storage of one value of one token of one head.
    pub open spec fn place(self, head: int, token: int, d: int) -> int {
        (head * self.capacity + token) * self.dim + d
    }
}

/// Storage in which the token in place `at` of every head has been replaced.
pub open spec fn with_token(storage: Seq<u32>, token: Seq<u32>, dim: int, block: int, at: int) -> Seq<
    u32,
> {
    with_token_in_heads(storage, token, dim, block, at, storage.len() as int)
}

/// Storage in which the token in place `at` of the first `heads` heads has been replaced.
pub open spec fn with_token_in_heads(
    storage: Seq<u32>,
    token: Seq<u32>,
    dim: int,
    block: int,
    at: int,
    heads: int,
) -> Seq<u32> {
    Seq::new(
        storage.len(),
        |i: int|
            {
                let head = i / block;
                let offset = i % block - at * dim;
                if head < heads && 0 <= offset < dim {
                    token[head * dim + offset]
                } else {
                    storage[i]
                }
            },
    )
}

/// Storage in which the first `active` values of each of the first `heads` heads come from `source`.
pub open spec fn with_prefix_in_heads(
    storage: Seq<u32>,
    source: Seq<u32>,
    block: int,
    source_block: int,
    active: int,
    heads: int,
) -> Seq<u32> {
    Seq::new(
        storage.len(),
        |i: int|
            if i / block < heads && i % block < active {
                source[(i / block) * source_block + i % block]
            } else {
                storage[i]
            },
    )
}

/// The state after appending one token.
pub open spec fn appended(state: CacheState, keys: Seq<u32>, values: Seq<u32>) -> CacheState {
    CacheState {
        cached: state.cached + 1,
        keys: with_token(state.keys, keys, state.dim, state.block(), state.cached),
        values: with_token(state.values, values, state.dim, state.block(), state.cached),
        ..state
    }
}

pub open spec fn append_result(state: CacheState, keys: Seq<u32>, values: Seq<u32>) -> Result<
    CacheState,
    Seq<char>,
> {
    if keys.len() != state.token_len() || values.len() != state.token_len() {
        Err(
            "KV token must contain "@ + text::decimal(state.token_len() as nat)
                + " values per key and value"@,
        )
    } else if state.cached == state.capacity {
        Err("KV-cache capacity exhausted"@)
    } else {
        Ok(appended(state, keys, values))
    }
}

/// One token of token-major data.
pub open spec fn token_of(data: Seq<u32>, token_len: int, token: int) -> Seq<u32> {
    data.subrange(token * token_len, token * token_len + token_len)
}

/// The state after appending the first `tokens` tokens of token-major data one by one.
pub open spec fn appended_tokens(
    state: CacheState,
    keys: Seq<u32>,
    values: Seq<u32>,
    tokens: int,
) -> CacheState
    decreases tokens,
{
    if tokens <= 0 {
        state
    } else {
        appended(
            appended_tokens(state, keys, values, tokens - 1),
            token_of(keys, state.token_len(), tokens - 1),
            token_of(values, state.token_len(), tokens - 1),
        )
    }
}

pub open spec fn append_sequence_result(
    state: CacheState,
    keys: Seq<u32>,
    values: Seq<u32>,
    tokens: int,
) -> Result<CacheState, Seq<char>> {
    let expected = tokens * state.token_len();
    if expected > usize::MAX {
        Err("KV sequence dimensions overflow"@)
    } else if keys.len() != expected || values.len() != expected {
        Err(
            "KV sequence must contain "@ + text::decimal(expected as nat)
                + " values per key and value"@,
        )
    } else if tokens > state.capacity - state.cached {
        Err("KV-cache sequence exceeds remaining capacity"@)
    } else {
        Ok(appended_tokens(state, keys, values, tokens))
    }
}

pub open spec fn truncate_result(state: CacheState, cached: int) -> Result<CacheState, Seq<char>> {
    if cached > state.cached {
        Err("cannot truncate KV-cache to a future position"@)
    } else {
        Ok(CacheState { cached, ..state })
    }
}

pub open spec fn copy_prefix_result(state: CacheState, source: CacheState) -> Result<
    CacheState,
    Seq<char>,
> {
    if state.heads != source.heads || state.dim != source.dim || state.capacity < source.cached {
        Err("KV-cache layouts do not match"@)
    } else {
        let active = source.cached * source.dim;
        Ok(
            CacheState {
                cached: source.cached,
                keys: with_prefix_in_heads(
                    state.keys,
                    source.keys,
                    state.block(),
                    source.block(),
                    active,
                    state.heads,
                ),
                values: with_prefix_in_heads(
                    state.values,
                    source.values,
                    state.block(),
                    source.block(),
                    active,
                    state.heads,
                ),
                ..state
            },
        )
    }
}

/// Whether a mutating call ended as expected: on success in the expected
/// state, on failure with the expected message and the cache unchanged.
pub open spec fn cache_step(
    expected: Result<CacheState, Seq<char>>,
    result: Result<(), CacheError>,
    before: CacheState,
    after: CacheState,
) -> bool {
    match expected {
        Ok(state) => result is Ok && after == state,
        Err(message) => result is Err && result->Err_0.0@ == message && after == before,
    }
}

/// The head and the offset within the head's block of a storage index.
proof fn lemma_block_index(head: int, offset: int, block: int)
    requires
        0 <= offset < block,
        0 <= head,
    ensures
        (head * block + offset) / block == head,
        (head * block + offset) % block == offset,
{
    lemma_fundamental_div_mod_converse(head * block + offset, block, head, offset);
}

proof fn lemma_block_split(index: int, block: int)
    requires
        0 <= index,
        0 < block,
    ensures
        0 <= index / block,
        0 <= index % block < block,
        index == (index / block) * block + index % block,
{
    lemma_fundamental_div_mod(index, block);
    lemma_mod_bound(index, block);
    lemma_div_pos_is_pos(index, block);
    assert(block * (index / block) == (index / block) * block) by (nonlinear_arith);
}

/// The blocks of the heads fill the storage.
proof fn lemma_blocks(heads: int, dim: int, capacity: int, head: int)
    requires
        heads > 0,
        dim > 0,
        capacity > 0,
        0 <= head < heads,
    ensures
        capacity * dim > 0,
        storage_len(heads, dim, capacity) == heads * (capacity * dim),
        0 <= head * (capacity * dim),
        head * (capacity * dim) + capacity * dim <= storage_len(heads, dim, capacity),
        head * dim + dim <= heads * dim,
        0 <= head * dim,
{
    assert(capacity * dim > 0) by (nonlinear_arith)
        requires
            capacity > 0,
            dim > 0,
    ;
    assert(heads * dim * capacity == heads * (capacity * dim)) by (nonlinear_arith);
    let block = capacity * dim;
    assert(0 <= head * block && head * block + block <= heads * block) by (nonlinear_arith)
        requires
            0 <= head < heads,
            block > 0,
    ;
    assert(0 <= head * dim && head * dim + dim <= heads * dim) by (nonlinear_arith)
        requires
            0 <= head < heads,
            dim > 0,
    ;
}

/// The tokens of a block stand one after the other.
proof fn lemma_token_offset(dim: int, capacity: int, token: int)
    requires
        dim > 0,
        0 <= token < capacity,
    ensures
        0 <= token * dim,
        token * dim + dim <= capacity * dim,
{
    assert(0 <= token * dim && token * dim + dim <= capacity * dim) by (nonlinear_arith)
        requires
            dim > 0,
            0 <= token < capacity,
    ;
}

/// A place in the storage as an offset into the block of its head.
proof fn lemma_place(state: CacheState, head: int, token: int, d: int)
    requires
        state.wf(),
        0 <= head < state.heads,
        0 <= token < state.capacity,
        0 <= d < state.dim,
    ensures
        state.place(head, token, d) == head * state.block() + (token * state.dim + d),
        0 <= token * state.dim + d < state.block(),
        state.place(head, token, d) / state.block() == head,
        state.place(head, token, d) % state.block() == token * state.dim + d,
        0 <= state.place(head, token, d) < state.keys.len(),
{
    let dim = state.dim;
    let capacity = state.capacity;
    assert((head * capacity + token) * dim == head * (capacity * dim) + token * dim)
        by (nonlinear_arith);
    lemma_token_offset(dim, capacity, token);
    lemma_blocks(state.heads, dim, capacity, head);
    lemma_block_index(head, token * dim + d, state.block());
}

/// Two tokens of a block do not overlap.
proof fn lemma_tokens_apart(dim: int, token: int, other: int, d: int)
    requires
        dim > 0,
        0 <= d < dim,
        token != other,
    ensures
        !(0 <= token * dim + d - other * dim < dim),
{
    assert(token > other ==> token * dim - other * dim >= dim) by (nonlinear_arith)
        requires
            dim > 0,
    ;
    assert(token < other ==> token * dim - other * dim <= -dim) by (nonlinear_arith)
        requires
            dim > 0,
    ;
}

/// Appending a token makes it the last cached token and leaves every other
/// token of every head as it was.
pub proof fn law_append_reads_back(
    state: CacheState,
    keys: Seq<u32>,
    values: Seq<u32>,
    head: int,
    token: int,
    d: int,
)
    requires
        state.wf(),
        append_result(state, keys, values) is Ok,
        0 <= head < state.heads,
        0 <= token < state.capacity,
        0 <= d < state.dim,
    ensures
        ({
            let after = append_result(state, keys, values)->Ok_0;
            let place = state.place(head, token, d);
            &&& after.wf()
            &&& after.cached == state.cached + 1
            &&& token == state.cached ==> after.keys[place] == keys[head * state.dim + d]
                && after.values[place] == values[head * state.dim + d]
            &&& token != state.cached ==> after.keys[place] == state.keys[place]
                && after.values[place] == state.values[place]
        }),
{
    let place = state.place(head, token, d);
    lemma_place(state, head, token, d);
    lemma_blocks(state.heads, state.dim, state.capacity, head);
    assert(head < state.keys.len()) by (nonlinear_arith)
        requires
            state.keys.len() == state.heads * (state.capacity * state.dim),
            state.capacity * state.dim > 0,
            0 <= head < state.heads,
    ;
    if token != state.cached {
        lemma_tokens_apart(state.dim, token, state.cached, d);
    }
}

/// Appending tokens keeps the shape, counts them, and leaves the tokens behind
/// and before them as they were.
proof fn lemma_appended_tokens(state: CacheState, keys: Seq<u32>, values: Seq<u32>, tokens: int)
    requires
        state.wf(),
        0 <= tokens <= state.capacity - state.cached,
    ensures
        ({
            let after = appended_tokens(state, keys, values, tokens);
            &&& after.wf()
            &&& after.heads == state.heads
            &&& after.dim == state.dim
            &&& after.capacity == state.capacity
            &&& after.cached == state.cached + tokens
        }),
    decreases tokens,
{
    if tokens > 0 {
        lemma_appended_tokens(state, keys, values, tokens - 1);
    }
}

/// After token-major data has been appended, the cache reads it back: token
/// `token` of the data is cached token `state.cached + token`, and every place
/// before and behind the appended tokens is as it was.
pub proof fn law_append_sequence_reads_back(
    state: CacheState,
    keys: Seq<u32>,
    values: Seq<u32>,
    tokens: int,
    head: int,
    at: int,
    d: int,
)
    requires
        state.wf(),
        tokens >= 0,
        append_sequence_result(state, keys, values, tokens) is Ok,
        0 <= head < state.heads,
        0 <= at < state.capacity,
        0 <= d < state.dim,
    ensures
        ({
            let after = append_sequence_result(state, keys, values, tokens)->Ok_0;
            let place = state.place(head, at, d);
            let from = ((at - state.cached) * state.heads + head) * state.dim + d;
            &&& after.wf()
            &&& after.cached == state.cached + tokens
            &&& at < state.cached || at >= state.cached + tokens ==> after.keys[place]
                == state.keys[place] && after.values[place] == state.values[place]
            &&& state.cached <= at < state.cached + tokens ==> after.keys[place] == keys[from]
                && after.values[place] == values[from]
        }),
{
    lemma_appended_tokens(state, keys, values, tokens);
    lemma_sequence_reads_back(state, keys, values, tokens, tokens, head, at, d);
}

proof fn lemma_sequence_reads_back(
    state: CacheState,
    keys: Seq<u32>,
    values: Seq<u32>,
    all: int,
    tokens: int,
    head: int,
    at: int,
    d: int,
)
    requires
        state.wf(),
        0 <= tokens <= all <= state.capacity - state.cached,
        keys.len() == all * state.token_len(),
        values.len() == all * state.token_len(),
        0 <= head < state.heads,
        0 <= at < state.capacity,
        0 <= d < state.dim,
    ensures
        ({
            let after = appended_tokens(state, keys, values, tokens);
            let place = state.place(head, at, d);
            let from = ((at - state.cached) * state.heads + head) * state.dim + d;
            &&& at < state.cached || at >= state.cached + tokens ==> after.keys[place]
                == state.keys[place] && after.values[place] == state.values[place]
            &&& state.cached <= at < state.cached + tokens ==> after.keys[place] == keys[from]
                && after.values[place] == values[from]
        }),
    decreases tokens,
{
    if tokens > 0 {
        let before = appended_tokens(state, keys, values, tokens - 1);
        let token_len = state.token_len();
        let token_keys = token_of(keys, token_len, tokens - 1);
        let token_values = token_of(values, token_len, tokens - 1);
        lemma_appended_tokens(state, keys, values, tokens - 1);
        lemma_blocks(state.heads, state.dim, state.capacity, head);
        assert(0 <= (tokens - 1) * token_len && (tokens - 1) * token_len + token_len <= all
            * token_len) by (nonlinear_arith)
            requires
                0 < tokens <= all,
                token_len >= 0,
        ;
        law_append_reads_back(before, token_keys, token_values, head, at, d);
        assert(before.place(head, at, d) == state.place(head, at, d));
        if at != state.cached + tokens - 1 {
            lemma_sequence_reads_back(state, keys, values, all, tokens - 1, head, at, d);
        } else {
            let index = tokens - 1;
            let from = (index * state.heads + head) * state.dim + d;
            assert(from == index * (state.heads * state.dim) + (head * state.dim + d))
                by (nonlinear_arith)
                requires
                    from == (index * state.heads + head) * state.dim + d,
            ;
        }
    }
}

/// Truncating gives up the tokens behind the new end and touches no storage.
pub proof fn law_truncate_keeps_prefix(state: CacheState, cached: int)
    requires
        state.wf(),
        0 <= cached,
    ensures
        truncate_result(state, cached) is Ok <==> cached <= state.cached,
        truncate_result(state, cached) matches Ok(after) ==> {
            &&& after.wf()
            &&& after.cached == cached
            &&& after.keys == state.keys
            &&& after.values == state.values
        },
{
}

/// Copying a prefix makes the destination read as the source, token by token,
/// though their capacities may differ. The places behind the prefix are as
/// they were.
pub proof fn law_copy_prefix_reads_back(
    state: CacheState,
    source: CacheState,
    head: int,
    token: int,
    d: int,
)
    requires
        state.wf(),
        source.wf(),
        copy_prefix_result(state, source) is Ok,
        0 <= head < source.heads,
        0 <= token < state.capacity,
        0 <= d < source.dim,
    ensures
        ({
            let after = copy_prefix_result(state, source)->Ok_0;
            let place = state.place(head, token, d);
            let from = source.place(head, token, d);
            &&& after.wf()
            &&& after.cached == source.cached
            &&& after.place(head, token, d) == place
            &&& token < source.cached ==> after.keys[place] == source.keys[from]
                && after.values[place] == source.values[from]
            &&& token >= source.cached ==> after.keys[place] == state.keys[place]
                && after.values[place] == state.values[place]
        }),
{
    lemma_place(state, head, token, d);
    if token < source.cached {
        lemma_place(source, head, token, d);
        lemma_token_offset(source.dim, source.cached, token);
    } else {
        assert(source.cached * source.dim <= token * source.dim) by (nonlinear_arith)
            requires
                source.cached <= token,
                source.dim > 0,
        ;
    }
}

/// Writing a token into a cache and giving it up again lets the next token take its place.
pub proof fn law_speculative_token_is_replaced(
    state: CacheState,
    draft_keys: Seq<u32>,
    draft_values: Seq<u32>,
    keys: Seq<u32>,
    values: Seq<u32>,
)
    requires
        state.wf(),
        append_result(state, draft_keys, draft_values) is Ok,
        append_result(state, keys, values) is Ok,
    ensures
        ({
            let drafted = append_result(state, draft_keys, draft_values)->Ok_0;
            let rolled_back = truncate_result(drafted, state.cached)->Ok_0;
            append_result(rolled_back, keys, values) == append_result(state, keys, values)
        }),
{
    let drafted = append_result(state, draft_keys, draft_values)->Ok_0;
    let rolled_back = truncate_result(drafted, state.cached)->Ok_0;
    let block = state.block();
    let again = append_result(rolled_back, keys, values)->Ok_0;
    let direct = append_result(state, keys, values)->Ok_0;
    assert(again.keys =~= direct.keys);
    assert(again.values =~= direct.values);
}

/// Truncating to the old length after any number of tokens has been appended
/// gives back the old count, and every place of the old prefix.
pub proof fn law_rollback_gives_back_prefix(
    state: CacheState,
    draft_keys: Seq<u32>,
    draft_values: Seq<u32>,
    drafted: int,
    head: int,
    at: int,
    d: int,
)
    requires
        state.wf(),
        drafted >= 0,
        append_sequence_result(state, draft_keys, draft_values, drafted) is Ok,
        0 <= head < state.heads,
        0 <= at < state.cached,
        0 <= d < state.dim,
    ensures
        ({
            let after = append_sequence_result(state, draft_keys, draft_values, drafted)->Ok_0;
            let rolled_back = truncate_result(after, state.cached);
            let place = state.place(head, at, d);
            &&& rolled_back is Ok
            &&& rolled_back->Ok_0.wf()
            &&& rolled_back->Ok_0.cached == state.cached
            &&& rolled_back->Ok_0.place(head, at, d) == place
            &&& rolled_back->Ok_0.keys[place] == state.keys[place]
            &&& rolled_back->Ok_0.values[place] == state.values[place]
        }),
{
    lemma_appended_tokens(state, draft_keys, draft_values, drafted);
    law_append_sequence_reads_back(state, draft_keys, draft_values, drafted, head, at, d);
}

/// Tokens that are appended after a rollback are accepted as if nothing had
/// been drafted, and every cached token then reads as if nothing had been.
pub proof fn law_speculative_tokens_are_replaced(
    state: CacheState,
    draft_keys: Seq<u32>,
    draft_values: Seq<u32>,
    drafted: int,
    keys: Seq<u32>,
    values: Seq<u32>,
    tokens: int,
    head: int,
    at: int,
    d: int,
)
    requires
        state.wf(),
        drafted >= 0,
        tokens >= 0,
        append_sequence_result(state, draft_keys, draft_values, drafted) is Ok,
        0 <= head < state.heads,
        0 <= at < state.cached + tokens,
        0 <= d < state.dim,
    ensures
        ({
            let after = append_sequence_result(state, draft_keys, draft_values, drafted)->Ok_0;
            let rolled_back = truncate_result(after, state.cached)->Ok_0;
            let again = append_sequence_result(rolled_back, keys, values, tokens);
            let direct = append_sequence_result(state, keys, values, tokens);
            let place = state.place(head, at, d);
            &&& again is Ok <==> direct is Ok
            &&& again is Err ==> again == direct
            &&& again is Ok ==> {
                &&& again->Ok_0.cached == direct->Ok_0.cached
                &&& again->Ok_0.keys[place] == direct->Ok_0.keys[place]
                &&& again->Ok_0.values[place] == direct->Ok_0.values[place]
            }
        }),
{
    let after = append_sequence_result(state, draft_keys, draft_values, drafted)->Ok_0;
    let rolled_back = truncate_result(after, state.cached)->Ok_0;
    lemma_appended_tokens(state, draft_keys, draft_values, drafted);
    if append_sequence_result(state, keys, values, tokens) is Ok {
        law_append_sequence_reads_back(state, keys, values, tokens, head, at, d);
        law_append_sequence_reads_back(rolled_back, keys, values, tokens, head, at, d);
        assert(rolled_back.place(head, at, d) == state.place(head, at, d));
        if at < state.cached {
            law_rollback_gives_back_prefix(
                state,
                draft_keys,
                draft_values,
                drafted,
                head,
                at,
                d,
            );
        }
    }
}

/// Copies `count` values, as `copy_from_slice` on two ranges does.
fn copy_range(
    destination: &mut Vec<u32>,
    destination_start: usize,
    source: &[u32],
    source_start: usize,
    count: usize,
)
    requires
        destination_start + count <= old(destination)@.len(),
        source_start + count <= source@.len(),
    ensures
        final(destination)@ == Seq::new(
            old(destination)@.len(),
            |i: int|
                if destination_start <= i < destination_start + count {
                    source@[source_start + (i - destination_start)]
                } else {
                    old(destination)@[i]
                },
        ),
{
    let ghost before = destination@;
    let length: usize = destination.len();
    let source_length: usize = source.len();
    let mut index: usize = 0;
    while index < count
        invariant
            index <= count,
            length == before.len(),
            source_length == source@.len(),
            destination@.len() == before.len(),
            destination_start + count <= before.len(),
            source_start + count <= source@.len(),
            destination@ =~= Seq::new(
                before.len(),
                |i: int|
                    if destination_start <= i < destination_start + index {
                        source@[source_start + (i - destination_start)]
                    } else {
                        before[i]
                    },
            ),
        decreases count - index,
    {
        let value = source[source_start + index];
        destination.set(destination_start + index, value);
        index += 1;
    }
}

impl View for KvCache {
    type V = CacheState;

    closed spec fn view(&self) -> CacheState {
        CacheState {
            heads: self.key_value_heads as int,
            dim: self.head_dim as int,
            capacity: self.capacity_tokens as int,
            cached: self.cached_tokens as int,
            keys: self.keys@,
            values: self.values@,
        }
    }
}

/// Writes one token into place `at` of every head.
fn write_token(
    storage: &mut Vec<u32>,
    token: &[u32],
    heads: usize,
    dim: usize,
    capacity: usize,
    at: usize,
)
    requires
        heads > 0,
        dim > 0,
        at < capacity,
        old(storage)@.len() == storage_len(heads as int, dim as int, capacity as int),
        token@.len() == heads * dim,
    ensures
        final(storage)@ == with_token(
            old(storage)@,
            token@,
            dim as int,
            capacity * dim,
            at as int,
        ),
{
    let ghost before = storage@;
    let ghost block = capacity * dim;
    let length: usize = storage.len();
    let token_length: usize = token.len();
    let mut head: usize = 0;
    proof {
        let none = with_token_in_heads(before, token@, dim as int, block, at as int, 0);
        assert forall|i: int| 0 <= i < before.len() implies before[i] == none[i] by {
            lemma_blocks(heads as int, dim as int, capacity as int, 0);
            lemma_block_split(i, block);
        }
        assert(storage@ =~= none);
    }
    while head < heads
        invariant
            heads > 0,
            dim > 0,
            at < capacity,
            head <= heads,
            block == capacity * dim,
            length == before.len(),
            token_length == token@.len(),
            before.len() == storage_len(heads as int, dim as int, capacity as int),
            token@.len() == heads * dim,
            storage@ == with_token_in_heads(
                before,
                token@,
                dim as int,
                block,
                at as int,
                head as int,
            ),
        decreases heads - head,
    {
        proof {
            lemma_blocks(heads as int, dim as int, capacity as int, head as int);
            lemma_token_offset(dim as int, capacity as int, at as int);
            assert((head * capacity + at) * dim == head * (capacity * dim) + at * dim)
                by (nonlinear_arith);
            assert(head * capacity >= 0) by (nonlinear_arith);
            assert(head * capacity + at <= (head * capacity + at) * dim) by (nonlinear_arith)
                requires
                    dim > 0,
                    head * capacity >= 0,
            ;
        }
        let source_start: usize = head * dim;
        let destination_start: usize = (head * capacity + at) * dim;
        copy_range(storage, destination_start, token, source_start, dim);
        proof {
            let expected = with_token_in_heads(
                before,
                token@,
                dim as int,
                block,
                at as int,
                head + 1,
            );
            assert forall|i: int| 0 <= i < before.len() implies storage@[i] == expected[i] by {
                lemma_block_split(i, block);
                let own = i / block;
                let offset = i % block - at * dim;
                if destination_start <= i < destination_start + dim {
                    lemma_block_index(head as int, i - head * block, block);
                } else if own == head {
                    assert(!(0 <= offset < dim));
                }
            }
            assert(storage@ =~= expected);
        }
        head += 1;
    }
    proof {
        let full = with_token(before, token@, dim as int, block, at as int);
        assert forall|i: int| 0 <= i < before.len() implies storage@[i] == full[i] by {
            lemma_blocks(heads as int, dim as int, capacity as int, 0);
            lemma_block_split(i, block);
            let own = i / block;
            assert(own < heads) by (nonlinear_arith)
                requires
                    own * block <= i,
                    i < heads * block,
                    block > 0,
            ;
            assert(heads <= before.len()) by (nonlinear_arith)
                requires
                    before.len() == heads * block,
                    block > 0,
            ;
        }
        assert(storage@ =~= full);
    }
}

/// Copies the first `active` values of every head's block.
fn write_prefix(
    storage: &mut Vec<u32>,
    source: &Vec<u32>,
    heads: usize,
    dim: usize,
    capacity: usize,
    source_capacity: usize,
    cached: usize,
)
    requires
        heads > 0,
        dim > 0,
        capacity > 0,
        source_capacity > 0,
        cached <= capacity,
        cached <= source_capacity,
        old(storage)@.len() == storage_len(heads as int, dim as int, capacity as int),
        source@.len() == storage_len(heads as int, dim as int, source_capacity as int),
    ensures
        final(storage)@ == with_prefix_in_heads(
            old(storage)@,
            source@,
            capacity * dim,
            source_capacity * dim,
            cached * dim,
            heads as int,
        ),
{
    let ghost before = storage@;
    let ghost block = capacity * dim;
    let ghost source_block = source_capacity * dim;
    let length: usize = storage.len();
    let source_length: usize = source.len();
    proof {
        lemma_blocks(heads as int, dim as int, capacity as int, 0);
        lemma_blocks(heads as int, dim as int, source_capacity as int, 0);
        assert(cached * dim <= capacity * dim && cached * dim <= source_capacity * dim && 0 <= cached
            * dim) by (nonlinear_arith)
            requires
                cached <= capacity,
                cached <= source_capacity,
        ;
        let none = with_prefix_in_heads(before, source@, block, source_block, cached * dim, 0);
        assert forall|i: int| 0 <= i < before.len() implies before[i] == none[i] by {
            lemma_block_split(i, block);
        }
        assert(storage@ =~= none);
    }
    let active: usize = cached * dim;
    let mut head: usize = 0;
    while head < heads
        invariant
            heads > 0,
            dim > 0,
            capacity > 0,
            source_capacity > 0,
            head <= heads,
            block == capacity * dim,
            source_block == source_capacity * dim,
            active == cached * dim,
            active <= block,
            active <= source_block,
            length == before.len(),
            source_length == source@.len(),
            before.len() == storage_len(heads as int, dim as int, capacity as int),
            source@.len() == storage_len(heads as int, dim as int, source_capacity as int),
            storage@ == with_prefix_in_heads(
                before,
                source@,
                block,
                source_block,
                active as int,
                head as int,
            ),
        decreases heads - head,
    {
        proof {
            lemma_blocks(heads as int, dim as int, capacity as int, head as int);
            lemma_blocks(heads as int, dim as int, source_capacity as int, head as int);
            assert(head * capacity * dim == head * block) by (nonlinear_arith)
                requires
                    block == capacity * dim,
            ;
            assert(head * source_capacity * dim == head * source_block) by (nonlinear_arith)
                requires
                    source_block == source_capacity * dim,
            ;
            assert(head * capacity >= 0 && head * capacity <= head * capacity * dim)
                by (nonlinear_arith)
                requires
                    dim > 0,
            ;
            assert(head * source_capacity >= 0 && head * source_capacity <= head * source_capacity
                * dim) by (nonlinear_arith)
                requires
                    dim > 0,
            ;
        }
        let source_start: usize = head * source_capacity * dim;
        let destination_start: usize = head * capacity * dim;
        copy_range(storage, destination_start, source.as_slice(), source_start, active);
        proof {
            let expected = with_prefix_in_heads(
                before,
                source@,
                block,
                source_block,
                active as int,
                head + 1,
            );
            assert forall|i: int| 0 <= i < before.len() implies storage@[i] == expected[i] by {
                lemma_block_split(i, block);
                let own = i / block;
                if destination_start <= i < destination_start + active {
                    lemma_block_index(head as int, i - head * block, block);
                } else if own == head {
                    assert(!(i % block < active));
                }
            }
            assert(storage@ =~= expected);
        }
        head += 1;
    }
}

impl KvCache {
    /// Creates an empty cache whose storage is all zeros.
    pub fn new(key_value_heads: usize, head_dim: usize, capacity_tokens: usize) -> (result: Result<
        KvCache,
        CacheError,
    >)
        requires
            storage_len(key_value_heads as int, head_dim as int, capacity_tokens as int)
                <= usize::MAX ==> 4 * storage_len(
                key_value_heads as int,
                head_dim as int,
                capacity_tokens as int,
            ) <= isize::MAX,
        ensures
            ({
                let heads = key_value_heads as int;
                let dim = head_dim as int;
                let capacity = capacity_tokens as int;
                let length = storage_len(heads, dim, capacity);
                let zeros = Seq::new(length as nat, |i: int| 0u32);
                if heads == 0 || dim == 0 || capacity == 0 {
                    result is Err && result->Err_0.0@ == "KV-cache dimensions must be non-zero"@
                } else if length > usize::MAX {
                    result is Err && result->Err_0.0@ == "KV-cache dimensions overflow"@
                } else {
                    &&& result is Ok
                    &&& result->Ok_0@.wf()
                    &&& result->Ok_0@ == CacheState {
                        heads,
                        dim,
                        capacity,
                        cached: 0,
                        keys: zeros,
                        values: zeros,
                    }
                }
            }),
    {
        if key_value_heads == 0 || head_dim == 0 || capacity_tokens == 0 {
            return Err(CacheError("KV-cache dimensions must be non-zero".to_owned()));
        }
        let per_token: usize = match key_value_heads.checked_mul(head_dim) {
            Some(per_token) => per_token,
            None => {
                proof {
                    let product = key_value_heads * head_dim;
                    assert(product * capacity_tokens >= product) by (nonlinear_arith)
                        requires
                            capacity_tokens > 0,
                            product >= 0,
                    ;
                }
                return Err(CacheError("KV-cache dimensions overflow".to_owned()));
            },
        };
        let elements: usize = match per_token.checked_mul(capacity_tokens) {
            Some(elements) => elements,
            None => {
                return Err(CacheError("KV-cache dimensions overflow".to_owned()));
            },
        };
        let keys: Vec<u32> = vec![0u32; elements];
        let values: Vec<u32> = vec![0u32; elements];
        let cache = KvCache {
            key_value_heads,
            head_dim,
            capacity_tokens,
            cached_tokens: 0,
            keys,
            values,
        };
        proof {
            let zeros = Seq::new(elements as nat, |i: int| 0u32);
            assert(cache.keys@ =~= zeros);
            assert(cache.values@ =~= zeros);
        }
        Ok(cache)
    }

    pub fn key_value_heads(&self) -> (heads: usize)
        ensures
            heads == self@.heads,
    {
        self.key_value_heads
    }

    pub fn head_dim(&self) -> (dim: usize)
        ensures
            dim == self@.dim,
    {
        self.head_dim
    }

    pub fn capacity_tokens(&self) -> (tokens: usize)
        ensures
            tokens == self@.capacity,
    {
        self.capacity_tokens
    }

    pub fn cached_tokens(&self) -> (tokens: usize)
        ensures
            tokens == self@.cached,
    {
        self.cached_tokens
    }

    pub fn remaining_tokens(&self) -> (tokens: usize)
        requires
            self@.wf(),
        ensures
            tokens == self@.capacity - self@.cached,
    {
        self.capacity_tokens - self.cached_tokens
    }

    pub fn key_storage(&self) -> (keys: &[u32])
        ensures
            keys@ == self@.keys,
    {
        self.keys.as_slice()
    }

    pub fn value_storage(&self) -> (values: &[u32])
        ensures
            values@ == self@.values,
    {
        self.values.as_slice()
    }

    /// The bytes that the keys and values of the cached tokens take.
    pub fn active_bytes(&self) -> (bytes: u64)
        requires
            self@.wf(),
        ensures
            bytes == self@.heads * self@.cached * self@.dim * 2 * 4,
    {
        proof {
            let heads = self.key_value_heads as int;
            let cached = self.cached_tokens as int;
            let dim = self.head_dim as int;
            let capacity = self.capacity_tokens as int;
            assert(heads * cached * dim <= heads * dim * capacity && heads * cached <= heads * cached
                * dim && 0 <= heads * cached) by (nonlinear_arith)
                requires
                    0 <= cached <= capacity,
                    heads > 0,
                    dim > 0,
            ;
        }
        (self.key_value_heads * self.cached_tokens * self.head_dim * 2 * 4) as u64
    }

    /// Appends one token, given as `[kv_head, head_dim]`.
    pub fn append_token(&mut self, keys: &[u32], values: &[u32]) -> (result: Result<(), CacheError>)
        requires
            old(self)@.wf(),
        ensures
            final(self)@.wf(),
            cache_step(
                append_result(old(self)@, keys@, values@),
                result,
                old(self)@,
                final(self)@,
            ),
    {
        proof {
            let heads = self.key_value_heads as int;
            let dim = self.head_dim as int;
            let capacity = self.capacity_tokens as int;
            assert(heads * dim <= heads * dim * capacity && 0 <= heads * dim) by (nonlinear_arith)
                requires
                    heads > 0,
                    dim > 0,
                    capacity > 0,
            ;
        }
        let expected: usize = self.key_value_heads * self.head_dim;
        if keys.len() != expected || values.len() != expected {
            return Err(
                CacheError(
                    text::concat3(
                        "KV token must contain ",
                        text::decimal_text(expected as u64).as_str(),
                        " values per key and value",
                    ),
                ),
            );
        }
        if self.cached_tokens == self.capacity_tokens {
            return Err(CacheError("KV-cache capacity exhausted".to_owned()));
        }
        write_token(
            &mut self.keys,
            keys,
            self.key_value_heads,
            self.head_dim,
            self.capacity_tokens,
            self.cached_tokens,
        );
        write_token(
            &mut self.values,
            values,
            self.key_value_heads,
            self.head_dim,
            self.capacity_tokens,
            self.cached_tokens,
        );
        self.cached_tokens += 1;
        Ok(())
    }

    /// Appends token-major prefill data: `[token, kv_head, head_dim]`.
    pub fn append_sequence(&mut self, keys: &[u32], values: &[u32], tokens: usize) -> (result: Result<
        (),
        CacheError,
    >)
        requires
            old(self)@.wf(),
        ensures
            final(self)@.wf(),
            cache_step(
                append_sequence_result(old(self)@, keys@, values@, tokens as int),
                result,
                old(self)@,
                final(self)@,
            ),
    {
        let ghost before = self@;
        proof {
            let heads = self.key_value_heads as int;
            let dim = self.head_dim as int;
            let capacity = self.capacity_tokens as int;
            assert(heads * dim <= heads * dim * capacity && 0 <= heads * dim) by (nonlinear_arith)
                requires
                    heads > 0,
                    dim > 0,
                    capacity > 0,
            ;
        }
        let per_token: usize = self.key_value_heads * self.head_dim;
        let expected: usize = match tokens.checked_mul(per_token) {
            Some(expected) => expected,
            None => {
                return Err(CacheError("KV sequence dimensions overflow".to_owned()));
            },
        };
        if keys.len() != expected || values.len() != expected {
            return Err(
                CacheError(
                    text::concat3(
                        "KV sequence must contain ",
                        text::decimal_text(expected as u64).as_str(),
                        " values per key and value",
                    ),
                ),
            );
        }
        if tokens > self.remaining_tokens() {
            return Err(CacheError("KV-cache sequence exceeds remaining capacity".to_owned()));
        }
        let mut token: usize = 0;
        while token < tokens
            invariant
                token <= tokens,
                before.wf(),
                tokens <= before.capacity - before.cached,
                per_token == before.token_len(),
                expected == tokens * per_token,
                keys@.len() == expected,
                values@.len() == expected,
                self@.wf(),
                self@ == appended_tokens(before, keys@, values@, token as int),
            decreases tokens - token,
        {
            proof {
                lemma_appended_tokens(before, keys@, values@, token as int);
                assert(0 <= token * per_token && token * per_token + per_token <= tokens * per_token)
                    by (nonlinear_arith)
                    requires
                        token < tokens,
                        per_token >= 0,
                ;
            }
            let start: usize = token * per_token;
            let end: usize = start + per_token;
            let token_keys = slice_subrange(keys, start, end);
            let token_values = slice_subrange(values, start, end);
            let ghost reached = self@;
            match self.append_token(token_keys, token_values) {
                Ok(()) => {},
                Err(error) => {
                    return Err(error);
                },
            }
            token += 1;
        }
        Ok(())
    }

    /// Forgets the cached tokens and keeps the storage.
    pub fn clear(&mut self)
        requires
            old(self)@.wf(),
        ensures
            final(self)@.wf(),
            final(self)@ == (CacheState { cached: 0, ..old(self)@ }),
    {
        self.cached_tokens = 0;
    }

    /// Discards a speculative suffix while retaining the storage.
    pub fn truncate_to(&mut self, cached_tokens: usize) -> (result: Result<(), CacheError>)
        requires
            old(self)@.wf(),
        ensures
            final(self)@.wf(),
            cache_step(
                truncate_result(old(self)@, cached_tokens as int),
                result,
                old(self)@,
                final(self)@,
            ),
    {
        if cached_tokens > self.cached_tokens {
            return Err(CacheError("cannot truncate KV-cache to a future position".to_owned()));
        }
        self.cached_tokens = cached_tokens;
        Ok(())
    }

    /// Copies the active prefix of another cache with the same head shape; the
    /// capacities may differ.
    pub fn copy_prefix_from(&mut self, source: &KvCache) -> (result: Result<(), CacheError>)
        requires
            old(self)@.wf(),
            source@.wf(),
        ensures
            final(self)@.wf(),
            cache_step(
                copy_prefix_result(old(self)@, source@),
                result,
                old(self)@,
                final(self)@,
            ),
    {
        if self.key_value_heads != source.key_value_heads || self.head_dim != source.head_dim
            || self.capacity_tokens < source.cached_tokens {
            return Err(CacheError("KV-cache layouts do not match".to_owned()));
        }
        write_prefix(
            &mut self.keys,
            &source.keys,
            self.key_value_heads,
            self.head_dim,
            self.capacity_tokens,
            source.capacity_tokens,
            source.cached_tokens,
        );
        write_prefix(
            &mut self.values,
            &source.values,
            self.key_value_heads,
            self.head_dim,
            self.capacity_tokens,
            source.capacity_tokens,
            source.cached_tokens,
        );
        self.cached_tokens = source.cached_tokens;
        Ok(())
    }
}

} // verus!
