//! Page-aligned views of tensors inside a file mapping.
use vstd::arithmetic::div_mod::*;
use vstd::prelude::*;

verus! {

/// Whether a number is a power of two.
pub open spec fn is_power_of_two(n: nat) -> bool
    decreases n,
{
    n == 1 || (n > 1 && n % 2 == 0 && is_power_of_two(n / 2))
}

/// The start of the page that holds an address.
pub open spec fn page_start(address: int, page_size: int) -> int {
    address - address % page_size
}

/// The least multiple of the page size that is no less than a length.
pub open spec fn whole_pages(length: int, page_size: int) -> int {
    page_start(length + page_size - 1, page_size)
}

/// The page-aligned range that covers a tensor: where it starts, how far into
/// it the tensor starts, and how long it is.
pub open spec fn aligned_range(
    backing_ptr: int,
    tensor_ptr: int,
    tensor_len: int,
    page_size: int,
) -> Result<(int, int, int), Seq<char>> {
    let base = page_start(tensor_ptr, page_size);
    let end_offset = tensor_ptr + tensor_len - base;
    if page_size == 0 || !is_power_of_two(page_size as nat) {
        Err("Metal backing page size must be a non-zero power of two"@)
    } else if tensor_ptr < backing_ptr {
        Err("tensor bytes are outside their backing mapping"@)
    } else if tensor_ptr + tensor_len > usize::MAX {
        Err("tensor byte range overflows"@)
    } else if end_offset + page_size - 1 > usize::MAX {
        Err("aligned tensor range overflows"@)
    } else if whole_pages(end_offset, page_size) == 0 {
        Err("aligned tensor range is empty"@)
    } else {
        Ok((base, tensor_ptr - base, whole_pages(end_offset, page_size)))
    }
}

/// The aligned range starts on a page, consists of whole pages, starts less
/// than a page before the tensor, covers it, and ends less than a page behind it.
pub proof fn law_aligned_range_covers_tensor(
    backing_ptr: int,
    tensor_ptr: int,
    tensor_len: int,
    page_size: int,
)
    requires
        0 <= backing_ptr,
        0 <= tensor_ptr,
        0 <= tensor_len,
        0 <= page_size,
        aligned_range(backing_ptr, tensor_ptr, tensor_len, page_size) is Ok,
    ensures
        ({
            let (base, offset, length) = aligned_range(
                backing_ptr,
                tensor_ptr,
                tensor_len,
                page_size,
            )->Ok_0;
            &&& base % page_size == 0
            &&& length % page_size == 0
            &&& 0 <= offset < page_size
            &&& base + offset == tensor_ptr
            &&& offset + tensor_len <= length < offset + tensor_len + page_size
        }),
{
    let base = page_start(tensor_ptr, page_size);
    let end_offset = tensor_ptr + tensor_len - base;
    lemma_mod_bound(tensor_ptr, page_size);
    lemma_page_start(tensor_ptr, page_size);
    lemma_mod_bound(end_offset + page_size - 1, page_size);
    lemma_page_start(end_offset + page_size - 1, page_size);
}

/// A page starts at a multiple of the page size.
proof fn lemma_page_start(address: int, page_size: int)
    requires
        0 <= address,
        0 < page_size,
    ensures
        page_start(address, page_size) % page_size == 0,
        0 <= page_start(address, page_size) <= address,
{
    lemma_fundamental_div_mod(address, page_size);
    lemma_mod_bound(address, page_size);
    lemma_mod_multiples_basic(address / page_size, page_size);
    assert(page_size * (address / page_size) == (address / page_size) * page_size)
        by (nonlinear_arith);
    lemma_div_pos_is_pos(address, page_size);
    assert(0 <= (address / page_size) * page_size) by (nonlinear_arith)
        requires
            0 <= address / page_size,
            0 < page_size,
    ;
}

fn power_of_two(n: usize) -> (power: bool)
    ensures
        power == (n > 0 && is_power_of_two(n as nat)),
{
    if n == 0 {
        return false;
    }
    let mut rest: usize = n;
    while rest > 1
        invariant
            rest >= 1,
            is_power_of_two(rest as nat) == is_power_of_two(n as nat),
        decreases rest,
    {
        if rest % 2 != 0 {
            return false;
        }
        rest = rest / 2;
    }
    true
}

/// The outcome of aligning a range with its numbers as integers.
pub open spec fn range_outcome(result: Result<(usize, usize, usize), String>) -> Result<
    (int, int, int),
    Seq<char>,
> {
    match result {
        Ok(range) => Ok((range.0 as int, range.1 as int, range.2 as int)),
        Err(message) => Err(message@),
    }
}

/// The page-aligned range that covers a tensor of a mapping.
pub fn aligned_weight_range(
    backing_ptr: usize,
    tensor_ptr: usize,
    tensor_len: usize,
    page_size: usize,
) -> (result: Result<(usize, usize, usize), String>)
    ensures
        range_outcome(result) == aligned_range(
            backing_ptr as int,
            tensor_ptr as int,
            tensor_len as int,
            page_size as int,
        ),
{
    if page_size == 0 || !power_of_two(page_size) {
        return Err("Metal backing page size must be a non-zero power of two".to_owned());
    }
    if tensor_ptr < backing_ptr {
        return Err("tensor bytes are outside their backing mapping".to_owned());
    }
    let tensor_end: usize = match tensor_ptr.checked_add(tensor_len) {
        Some(end) => end,
        None => {
            return Err("tensor byte range overflows".to_owned());
        },
    };
    proof {
        lemma_page_start(tensor_ptr as int, page_size as int);
    }
    let aligned_base: usize = tensor_ptr - tensor_ptr % page_size;
    let end_offset: usize = tensor_end - aligned_base;
    let padded: usize = match end_offset.checked_add(page_size - 1) {
        Some(padded) => padded,
        None => {
            return Err("aligned tensor range overflows".to_owned());
        },
    };
    proof {
        lemma_page_start(padded as int, page_size as int);
    }
    let aligned_length: usize = padded - padded % page_size;
    if aligned_length == 0 {
        return Err("aligned tensor range is empty".to_owned());
    }
    Ok((aligned_base, tensor_ptr - aligned_base, aligned_length))
}

} // verus!
