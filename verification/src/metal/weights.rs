//! Weights that the device can read: uploaded, retained or mapped.
use vstd::prelude::*;

use super::context;
use super::context::{ContextState, MetalContext};
use super::mapping;
use super::plan;
use super::plan::Profile;
use super::stats;
use super::stats::CommandStatus;
use super::validate;
use crate::quant;
use crate::tensor;
use crate::tensor::TensorView;
use crate::text;

verus! {

/// BF16 weights in a numbered device buffer.
#[derive(Debug, Clone, Copy, PartialEq, Eq, Structural)]
pub struct Bf16Weight {
    pub buffer: u64,
    pub offset: u64,
    pub bytes: u64,
    pub persistent: bool,
    pub mapped: bool,
}

/// A quantized matrix in a numbered device buffer.
#[derive(Debug, Clone, Copy, PartialEq, Eq, Structural)]
pub struct QuantWeight {
    pub buffer: u64,
    pub offset: u64,
    pub bytes: u64,
    pub ggml_type: u32,
    pub mapped: bool,
}

/// The packed tensors of a decoder layer: their bytes, and where each tensor stands in them.
#[derive(Debug, Clone)]
pub struct StagedQwenLayer {
    pub packed: Vec<u8>,
    pub ranges: Vec<(String, usize, usize)>,
}

/// A packed decoder layer in one private device buffer.
#[derive(Debug, Clone)]
pub struct PrivateStagedQwenLayer {
    pub buffer: u64,
    pub ranges: Vec<(String, usize, usize)>,
}

/// Whether every range ends no earlier than it starts.
pub open spec fn ranges_ordered(ranges: Seq<(String, usize, usize)>) -> bool {
    forall|i: int| 0 <= i < ranges.len() ==> (#[trigger] ranges[i]).1 <= ranges[i].2
}

/// Whether no name has two ranges.
pub open spec fn names_unique(ranges: Seq<(String, usize, usize)>) -> bool {
    forall|i: int, j: int|
        0 <= i < j < ranges.len() ==> (#[trigger] ranges[i]).0@ != (#[trigger] ranges[j]).0@
}

impl StagedQwenLayer {
    pub open spec fn wf(&self) -> bool {
        ranges_ordered(self.ranges@) && names_unique(self.ranges@)
    }
}

impl PrivateStagedQwenLayer {
    pub open spec fn wf(&self) -> bool {
        ranges_ordered(self.ranges@) && names_unique(self.ranges@)
    }

    /// The weight of a tensor of the layer, if the layer has it.
    pub fn quant_weight(&self, name: &str, ggml_type: u32) -> (weight: Option<QuantWeight>)
        requires
            self.wf(),
        ensures
            match weight {
                Some(weight) => exists|i: int|
                    0 <= i < self.ranges@.len() && (#[trigger] self.ranges@[i]).0@ == name@
                        && weight == (QuantWeight {
                        buffer: self.buffer,
                        offset: self.ranges@[i].1 as u64,
                        bytes: (self.ranges@[i].2 - self.ranges@[i].1) as u64,
                        ggml_type,
                        mapped: false,
                    }),
                None => forall|i: int|
                    0 <= i < self.ranges@.len() ==> (#[trigger] self.ranges@[i]).0@ != name@,
            },
    {
        let mut index: usize = 0;
        while index < self.ranges.len()
            invariant
                index <= self.ranges@.len(),
                self.wf(),
                forall|i: int| 0 <= i < index ==> (#[trigger] self.ranges@[i]).0@ != name@,
            decreases self.ranges@.len() - index,
        {
            let range = &self.ranges[index];
            if text::same_text(range.0.as_str(), name) {
                proof {
                    assert(self.ranges@[index as int].0@ == name@);
                }
                return Some(
                    QuantWeight {
                        buffer: self.buffer,
                        offset: range.1 as u64,
                        bytes: (range.2 - range.1) as u64,
                        ggml_type,
                        mapped: false,
                    },
                );
            }
            index += 1;
        }
        None
    }
}

impl QuantWeight {
    pub fn byte_len(&self) -> (bytes: u64)
        ensures
            bytes == self.bytes,
    {
        self.bytes
    }

    pub fn ggml_type(&self) -> (ggml_type: u32)
        ensures
            ggml_type == self.ggml_type,
    {
        self.ggml_type
    }
}

impl Bf16Weight {
    pub fn byte_len(&self) -> (bytes: u64)
        ensures
            bytes == self.bytes,
    {
        self.bytes
    }
}

/// The bytes that the weights of a step count with: none for weights that persist.
pub open spec fn active_bytes(weight: Bf16Weight) -> u64 {
    if weight.persistent {
        0
    } else {
        weight.bytes
    }
}

/// The bytes of a step's weights that are read from a mapping.
pub open spec fn mapped_bytes(weight: Bf16Weight) -> u64 {
    if weight.persistent || !weight.mapped {
        0
    } else {
        weight.bytes
    }
}

/// The profile of a step that reads BF16 weights: as soon as one of them is
/// mapped, the mapped ones count, and count as mapped.
pub open spec fn weights_profile(weights: Seq<Bf16Weight>, scratch: u64) -> Profile {
    let mapped = plan::total(weights.map_values(|weight: Bf16Weight| mapped_bytes(weight)));
    let active = plan::total(weights.map_values(|weight: Bf16Weight| active_bytes(weight)));
    Profile {
        weights: if mapped > 0 {
            mapped
        } else {
            active
        },
        state: 0,
        scratch,
        mapped: mapped > 0,
    }
}

/// The profile of a step that reads BF16 weights.
pub fn profile_of_weights(weights: &Vec<Bf16Weight>, scratch: u64) -> (profile: Profile)
    ensures
        profile == weights_profile(weights@, scratch),
{
    let ghost all_mapped = weights@.map_values(|weight: Bf16Weight| mapped_bytes(weight));
    let ghost all_active = weights@.map_values(|weight: Bf16Weight| active_bytes(weight));
    let mut mapped: u64 = 0;
    let mut active: u64 = 0;
    let mut index: usize = 0;
    proof {
        assert(all_mapped.take(0) =~= Seq::empty());
        assert(all_active.take(0) =~= Seq::empty());
    }
    while index < weights.len()
        invariant
            index <= weights@.len(),
            all_mapped == weights@.map_values(|weight: Bf16Weight| mapped_bytes(weight)),
            all_active == weights@.map_values(|weight: Bf16Weight| active_bytes(weight)),
            mapped == plan::total(all_mapped.take(index as int)),
            active == plan::total(all_active.take(index as int)),
        decreases weights@.len() - index,
    {
        proof {
            assert(all_mapped.take(index + 1).drop_last() =~= all_mapped.take(index as int));
            assert(all_active.take(index + 1).drop_last() =~= all_active.take(index as int));
        }
        let weight = weights[index];
        active = plan::sum(active, if weight.persistent { 0 } else { weight.bytes });
        mapped = plan::sum(mapped, if weight.persistent || !weight.mapped { 0 } else {
            weight.bytes
        });
        index += 1;
    }
    proof {
        assert(all_mapped.take(index as int) =~= all_mapped);
        assert(all_active.take(index as int) =~= all_active);
    }
    if mapped > 0 {
        Profile { weights: mapped, state: 0, scratch, mapped: true }
    } else {
        Profile { weights: active, state: 0, scratch, mapped: false }
    }
}

/// How a tensor of a mapping is bound: a page-aligned range around it, or its
/// own bytes where the mapping does not start on a page.
#[derive(Debug, Clone, Copy, PartialEq, Eq, Structural)]
pub enum Binding {
    Whole,
    Aligned { base: usize, offset: usize, length: usize },
}

pub open spec fn binding_of(
    weight_len: nat,
    tensor_ptr: int,
    backing_ptr: int,
    backing_len: int,
    page_size: int,
) -> Result<Binding, Seq<char>> {
    match validate::bf16_weight_bytes(weight_len) {
        Err(message) => Err(message),
        Ok(()) => if page_size <= 0 {
            Err("could not determine host page size"@)
        } else if backing_ptr % page_size != 0 {
            Ok(Binding::Whole)
        } else {
            match mapping::aligned_range(backing_ptr, tensor_ptr, weight_len as int, page_size) {
                Err(message) => Err(message),
                Ok((base, offset, length)) => if backing_ptr + backing_len > usize::MAX {
                    Err("tensor backing range overflows"@)
                } else if tensor_ptr + weight_len > backing_ptr + backing_len || base
                    < backing_ptr {
                    Err("tensor bytes are outside their backing mapping"@)
                } else {
                    Ok(
                        Binding::Aligned {
                            base: base as usize,
                            offset: offset as usize,
                            length: length as usize,
                        },
                    )
                },
            }
        },
    }
}

/// How to bind the bytes of a tensor, given their address, the mapping they
/// stand in and the page size that the host reports.
pub fn bind_bf16_weight(
    weight_bytes: &[u8],
    tensor_ptr: usize,
    backing_ptr: usize,
    backing_len: usize,
    page_size: i64,
) -> (result: Result<Binding, String>)
    requires
        page_size <= usize::MAX,
    ensures
        text::outcome(result) == binding_of(
            weight_bytes@.len(),
            tensor_ptr as int,
            backing_ptr as int,
            backing_len as int,
            page_size as int,
        ),
{
    match validate::validate_bf16_weight_bytes(weight_bytes) {
        Err(message) => {
            return Err(message);
        },
        Ok(()) => {},
    }
    if page_size <= 0 {
        return Err("could not determine host page size".to_owned());
    }
    let page_size: usize = page_size as usize;
    if backing_ptr % page_size != 0 {
        return Ok(Binding::Whole);
    }
    let (base, offset, length) = match mapping::aligned_weight_range(
        backing_ptr,
        tensor_ptr,
        weight_bytes.len(),
        page_size,
    ) {
        Ok(range) => range,
        Err(message) => {
            return Err(message);
        },
    };
    let backing_end: usize = match backing_ptr.checked_add(backing_len) {
        Some(end) => end,
        None => {
            return Err("tensor backing range overflows".to_owned());
        },
    };
    let tensor_end: usize = tensor_ptr + weight_bytes.len();
    if tensor_end > backing_end || base < backing_ptr {
        return Err("tensor bytes are outside their backing mapping".to_owned());
    }
    Ok(Binding::Aligned { base, offset, length })
}

/// The weight that a binding gives once the device has bound `bound` bytes.
pub open spec fn bound_weight(binding: Binding, buffer: u64, bytes: nat, bound: u64) -> Result<
    Bf16Weight,
    Seq<char>,
> {
    match binding {
        Binding::Whole => if bound < bytes {
            Err("Metal could not bind the mapped BF16 weight bytes"@)
        } else {
            Ok(
                Bf16Weight {
                    buffer,
                    offset: 0,
                    bytes: bytes as u64,
                    persistent: false,
                    mapped: true,
                },
            )
        },
        Binding::Aligned { base, offset, length } => if bound < length {
            Err("Metal could not bind the aligned BF16 weight bytes"@)
        } else {
            Ok(
                Bf16Weight {
                    buffer,
                    offset: offset as u64,
                    bytes: bytes as u64,
                    persistent: false,
                    mapped: true,
                },
            )
        },
    }
}

/// The weight that a binding gives once the device has bound `bound` bytes.
pub fn bf16_weight_of_binding(binding: Binding, buffer: u64, bytes: usize, bound: u64) -> (result: Result<
    Bf16Weight,
    String,
>)
    ensures
        text::outcome(result) == bound_weight(binding, buffer, bytes as nat, bound),
{
    match binding {
        Binding::Whole => if bound < bytes as u64 {
            Err("Metal could not bind the mapped BF16 weight bytes".to_owned())
        } else {
            Ok(
                Bf16Weight {
                    buffer,
                    offset: 0,
                    bytes: bytes as u64,
                    persistent: false,
                    mapped: true,
                },
            )
        },
        Binding::Aligned { base: _, offset, length } => if bound < length as u64 {
            Err("Metal could not bind the aligned BF16 weight bytes".to_owned())
        } else {
            Ok(
                Bf16Weight {
                    buffer,
                    offset: offset as u64,
                    bytes: bytes as u64,
                    persistent: false,
                    mapped: true,
                },
            )
        },
    }
}

/// The weight that bytes give once the device has bound `bound` of them in place.
pub open spec fn mapped_weight(weight_len: nat, buffer: u64, bound: u64) -> Result<
    Bf16Weight,
    Seq<char>,
> {
    match validate::bf16_weight_bytes(weight_len) {
        Err(message) => Err(message),
        Ok(()) => bound_weight(Binding::Whole, buffer, weight_len, bound),
    }
}

/// The weight that bytes give once the device has bound `bound` of them in place.
pub fn map_bf16_weight(weight_bytes: &[u8], buffer: u64, bound: u64) -> (result: Result<
    Bf16Weight,
    String,
>)
    ensures
        text::outcome(result) == mapped_weight(weight_bytes@.len(), buffer, bound),
{
    match validate::validate_bf16_weight_bytes(weight_bytes) {
        Err(message) => Err(message),
        Ok(()) => bf16_weight_of_binding(Binding::Whole, buffer, weight_bytes.len(), bound),
    }
}

/// A bound weight lies inside the bytes that were bound for it.
pub proof fn law_bound_weight_is_inside_binding(
    weight_len: nat,
    tensor_ptr: int,
    backing_ptr: int,
    backing_len: int,
    page_size: int,
    buffer: u64,
    bound: u64,
)
    requires
        weight_len <= usize::MAX,
        0 <= tensor_ptr <= usize::MAX,
        0 <= backing_ptr,
        0 <= backing_len,
        page_size <= usize::MAX,
        binding_of(weight_len, tensor_ptr, backing_ptr, backing_len, page_size) is Ok,
        bound_weight(
            binding_of(weight_len, tensor_ptr, backing_ptr, backing_len, page_size)->Ok_0,
            buffer,
            weight_len,
            bound,
        ) is Ok,
    ensures
        ({
            let weight = bound_weight(
                binding_of(weight_len, tensor_ptr, backing_ptr, backing_len, page_size)->Ok_0,
                buffer,
                weight_len,
                bound,
            )->Ok_0;
            weight.bytes == weight_len && weight.offset + weight.bytes <= bound
        }),
{
    if page_size > 0 && backing_ptr % page_size == 0 {
        mapping::law_aligned_range_covers_tensor(
            backing_ptr,
            tensor_ptr,
            weight_len as int,
            page_size,
        );
    }
}

/// The profile of weights that have just been uploaded.
pub open spec fn upload_profile(bytes: nat) -> Profile {
    Profile { weights: bytes as u64, state: 0, scratch: 0, mapped: false }
}

pub open spec fn uploaded(bytes: nat, buffer: u64, persistent: bool) -> Bf16Weight {
    Bf16Weight { buffer, offset: 0, bytes: bytes as u64, persistent, mapped: false }
}

/// A failed blit leaves its counters; a finished one leaves them too.
pub open spec fn after_command(state: ContextState, nanos: int) -> ContextState {
    ContextState {
        stats: stats::after_wait(stats::after_submission(state.stats), nanos),
        ..state
    }
}

pub open spec fn quant_upload_check(bytes: nat, ggml_type: u32) -> bool {
    bytes > 0 && quant::quant_of(ggml_type) is Some
}

impl MetalContext {
    /// BF16 bytes that the device keeps in the numbered shared buffer.
    pub fn upload_bf16_weight(&mut self, weight_bytes: &[u8], buffer: u64) -> (result: Result<
        Bf16Weight,
        String,
    >)
        ensures
            match validate::bf16_weight_bytes(weight_bytes@.len()) {
                Ok(()) => result == Ok::<Bf16Weight, String>(
                    uploaded(weight_bytes@.len(), buffer, false),
                ) && final(self)@ == context::profiled(
                    old(self)@,
                    upload_profile(weight_bytes@.len()),
                ),
                Err(message) => result is Err && result->Err_0@ == message && final(self)@ == old(
                    self,
                )@,
            },
    {
        match validate::validate_bf16_weight_bytes(weight_bytes) {
            Err(message) => {
                return Err(message);
            },
            Ok(()) => {},
        }
        let bytes: u64 = weight_bytes.len() as u64;
        self.record_profile(Profile { weights: bytes, state: 0, scratch: 0, mapped: false });
        Ok(Bf16Weight { buffer, offset: 0, bytes, persistent: false, mapped: false })
    }

    /// BF16 bytes that a blit has copied into the numbered private buffer; the
    /// blit runs only for bytes that pass the check.
    pub fn upload_bf16_weight_private(
        &mut self,
        weight_bytes: &[u8],
        buffer: u64,
        status: CommandStatus,
        nanos: u128,
    ) -> (result: Result<Bf16Weight, String>)
        ensures
            match validate::bf16_weight_bytes(weight_bytes@.len()) {
                Err(message) => result is Err && result->Err_0@ == message && final(self)@ == old(
                    self,
                )@,
                Ok(()) => match stats::command_outcome("weight upload"@, status) {
                    Err(message) => result is Err && result->Err_0@ == message && final(self)@
                        == after_command(old(self)@, nanos as int),
                    Ok(()) => result == Ok::<Bf16Weight, String>(
                        uploaded(weight_bytes@.len(), buffer, true),
                    ) && final(self)@ == context::profiled(
                        after_command(old(self)@, nanos as int),
                        upload_profile(weight_bytes@.len()),
                    ),
                },
            },
    {
        match validate::validate_bf16_weight_bytes(weight_bytes) {
            Err(message) => {
                return Err(message);
            },
            Ok(()) => {},
        }
        match self.finish_command("weight upload", status, nanos) {
            Err(message) => {
                return Err(message);
            },
            Ok(()) => {},
        }
        let bytes: u64 = weight_bytes.len() as u64;
        self.record_profile(Profile { weights: bytes, state: 0, scratch: 0, mapped: false });
        Ok(Bf16Weight { buffer, offset: 0, bytes, persistent: true, mapped: false })
    }

    /// Quantized bytes that a blit has copied into the numbered private
    /// buffer; the blit runs only for bytes that pass the check.
    pub fn upload_quant_weight_private(
        &mut self,
        weight_bytes: &[u8],
        ggml_type: u32,
        buffer: u64,
        status: CommandStatus,
        nanos: u128,
    ) -> (result: Result<QuantWeight, String>)
        ensures
            if !quant_upload_check(weight_bytes@.len(), ggml_type) {
                result is Err && result->Err_0@ == "unsupported or empty quantized weight"@
                    && final(self)@ == old(self)@
            } else {
                match stats::command_outcome("quantized weight upload"@, status) {
                    Err(message) => result is Err && result->Err_0@ == message && final(self)@
                        == after_command(old(self)@, nanos as int),
                    Ok(()) => {
                        let bytes = weight_bytes@.len() as u64;
                        let noted = context::noted_persistent(
                            after_command(old(self)@, nanos as int),
                            bytes,
                        );
                        &&& result == Ok::<QuantWeight, String>(
                            QuantWeight { buffer, offset: 0, bytes, ggml_type, mapped: false },
                        )
                        &&& final(self)@ == ContextState {
                            peak_allocated: context::greater(noted.peak_allocated, bytes),
                            ..noted
                        }
                    },
                }
            },
    {
        if weight_bytes.len() == 0 || quant::quant_type(ggml_type).is_none() {
            return Err("unsupported or empty quantized weight".to_owned());
        }
        match self.finish_command("quantized weight upload", status, nanos) {
            Err(message) => {
                return Err(message);
            },
            Ok(()) => {},
        }
        let bytes: u64 = weight_bytes.len() as u64;
        self.note_persistent_weight_bytes(bytes);
        self.note_retained_buffer(bytes);
        Ok(QuantWeight { buffer, offset: 0, bytes, ggml_type, mapped: false })
    }

    /// Quantized bytes of a mapping, of which the device has bound `bound`
    /// bytes as the numbered buffer.
    pub fn bind_quant_weight_mapped(
        &self,
        weight_bytes: &[u8],
        ggml_type: u32,
        buffer: u64,
        bound: u64,
    ) -> (result: Result<QuantWeight, String>)
        ensures
            text::outcome(result) == (if !quant_upload_check(weight_bytes@.len(), ggml_type) {
                Err("unsupported or empty mapped quantized weight"@)
            } else if bound < weight_bytes@.len() {
                Err("Metal could not bind mapped quantized weight"@)
            } else {
                Ok(
                    QuantWeight {
                        buffer,
                        offset: 0,
                        bytes: weight_bytes@.len() as u64,
                        ggml_type,
                        mapped: true,
                    },
                )
            }),
    {
        if weight_bytes.len() == 0 || quant::quant_type(ggml_type).is_none() {
            return Err("unsupported or empty mapped quantized weight".to_owned());
        }
        let bytes: u64 = weight_bytes.len() as u64;
        if bound < bytes {
            return Err("Metal could not bind mapped quantized weight".to_owned());
        }
        Ok(QuantWeight { buffer, offset: 0, bytes, ggml_type, mapped: true })
    }

    /// A packed layer that a blit has copied into the numbered private buffer;
    /// the blit runs only for a layer that has bytes.
    pub fn upload_staged_qwen_layer_private(
        &mut self,
        staged: StagedQwenLayer,
        buffer: u64,
        status: CommandStatus,
        nanos: u128,
    ) -> (result: Result<PrivateStagedQwenLayer, String>)
        requires
            staged.wf(),
        ensures
            if staged.packed@.len() == 0 {
                result is Err && result->Err_0@ == "cannot promote an empty staged Qwen layer"@
                    && final(self)@ == old(self)@
            } else {
                &&& final(self)@ == after_command(old(self)@, nanos as int)
                &&& match stats::command_outcome("packed Qwen layer private upload"@, status) {
                    Err(message) => result is Err && result->Err_0@ == message,
                    Ok(()) => result is Ok && result->Ok_0.wf() && result->Ok_0.buffer == buffer
                        && result->Ok_0.ranges@ == staged.ranges@,
                }
            },
    {
        if staged.packed.len() == 0 {
            return Err("cannot promote an empty staged Qwen layer".to_owned());
        }
        match self.finish_command("packed Qwen layer private upload", status, nanos) {
            Err(message) => {
                return Err(message);
            },
            Ok(()) => {},
        }
        Ok(PrivateStagedQwenLayer { buffer, ranges: staged.ranges })
    }

    /// A packed layer of which the device has bound `bound` bytes as the numbered buffer.
    pub fn bind_staged_qwen_layer_shared(
        &self,
        staged: &StagedQwenLayer,
        buffer: u64,
        bound: u64,
    ) -> (result: Result<u64, String>)
        ensures
            text::outcome(result) == (if staged.packed@.len() == 0 {
                Err("cannot bind an empty staged Qwen layer"@)
            } else if bound < staged.packed@.len() {
                Err("Metal could not bind packed staged Qwen bytes"@)
            } else {
                Ok(buffer)
            }),
    {
        if staged.packed.len() == 0 {
            return Err("cannot bind an empty staged Qwen layer".to_owned());
        }
        if bound < staged.packed.len() as u64 {
            return Err("Metal could not bind packed staged Qwen bytes".to_owned());
        }
        Ok(buffer)
    }

    /// The bytes of a BF16 tensor that the device keeps in the numbered shared buffer.
    pub fn upload_bf16_tensor(&mut self, tensor: &TensorView<'_>, buffer: u64) -> (result: Result<
        Bf16Weight,
        String,
    >)
        ensures
            if !tensor::is_bf16(*tensor.info) {
                result is Err && result->Err_0@ == "resident weight upload requires a BF16 tensor"@
                    && final(self)@ == old(self)@
            } else {
                match validate::bf16_weight_bytes(tensor.bytes@.len()) {
                    Ok(()) => result == Ok::<Bf16Weight, String>(
                        uploaded(tensor.bytes@.len(), buffer, false),
                    ) && final(self)@ == context::profiled(
                        old(self)@,
                        upload_profile(tensor.bytes@.len()),
                    ),
                    Err(message) => result is Err && result->Err_0@ == message && final(self)@
                        == old(self)@,
                }
            },
    {
        if !tensor.info.has_bf16_values() {
            return Err("resident weight upload requires a BF16 tensor".to_owned());
        }
        self.upload_bf16_weight(tensor.bytes, buffer)
    }
}

} // verus!
