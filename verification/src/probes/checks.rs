//! Checks that several probes make on a model before they run.
use vstd::prelude::*;

use crate::tensor;
use crate::tensor::TensorInfo;
use crate::text;

verus! {

/// The kinds of layers.
#[derive(Debug, Clone, Copy, PartialEq, Eq, Structural)]
pub enum LayerKind {
    FullAttention,
    GatedDeltaNet,
}

/// The layer must be one of the model.
pub fn check_layer(layer: usize, layers: usize) -> (result: Result<(), String>)
    ensures
        text::outcome(result) == if layer < layers {
            Ok(())
        } else {
            Err(
                "--layer "@ + text::decimal(layer as nat) + " exceeds "@ + text::decimal(
                    layers as nat,
                ) + " layers"@,
            )
        },
{
    if layer < layers {
        return Ok(());
    }
    Err(
        text::concat5(
            "--layer ",
            text::decimal_text(layer as u64).as_str(),
            " exceeds ",
            text::decimal_text(layers as u64).as_str(),
            " layers",
        ),
    )
}

/// The layer must be of the kind that the probe measures.
pub fn check_layer_kind(layer: usize, kind: LayerKind, wanted: LayerKind) -> (result: Result<
    (),
    String,
>)
    ensures
        text::outcome(result) == if kind == wanted {
            Ok(())
        } else {
            Err(
                "layer "@ + text::decimal(layer as nat) + match kind {
                    LayerKind::GatedDeltaNet => " is a Gated DeltaNet layer"@,
                    LayerKind::FullAttention => " is a full-attention layer"@,
                },
            )
        },
{
    if kind == wanted {
        return Ok(());
    }
    let number = text::decimal_text(layer as u64);
    Err(
        match kind {
            LayerKind::GatedDeltaNet => text::concat3(
                "layer ",
                number.as_str(),
                " is a Gated DeltaNet layer",
            ),
            LayerKind::FullAttention => text::concat3(
                "layer ",
                number.as_str(),
                " is a full-attention layer",
            ),
        },
    )
}

/// A layer is staged only where the model has it.
pub fn check_staged_layer(layer: usize, layers: usize) -> (result: Result<(), String>)
    ensures
        text::outcome(result) == if layer < layers {
            Ok(())
        } else {
            Err("--layer exceeds model depth"@)
        },
{
    if layer < layers {
        Ok(())
    } else {
        Err("--layer exceeds model depth".to_owned())
    }
}

/// A bounded state holds all tokens that are decoded.
pub fn check_capacity(tokens: usize, capacity: usize) -> (result: Result<(), String>)
    ensures
        text::outcome(result) == if tokens <= capacity {
            Ok(())
        } else {
            Err("--tokens cannot exceed --capacity for a bounded KV state"@)
        },
{
    if tokens <= capacity {
        Ok(())
    } else {
        Err("--tokens cannot exceed --capacity for a bounded KV state".to_owned())
    }
}

/// A prompt must have tokens.
pub fn check_prompt_tokens(tokens: usize) -> (result: Result<(), String>)
    ensures
        text::outcome(result) == if tokens > 0 {
            Ok(())
        } else {
            Err("prompt produced no tokens"@)
        },
{
    if tokens > 0 {
        Ok(())
    } else {
        Err("prompt produced no tokens".to_owned())
    }
}

/// A prompt to verify candidates behind must have tokens.
pub fn check_verified_prompt(tokens: usize) -> (result: Result<(), String>)
    ensures
        text::outcome(result) == if tokens > 0 {
            Ok(())
        } else {
            Err("probe prompt tokenized to zero tokens"@)
        },
{
    if tokens > 0 {
        Ok(())
    } else {
        Err("probe prompt tokenized to zero tokens".to_owned())
    }
}

/// Verification must leave the prompt and the accepted tokens in the cache.
pub fn check_committed(prompt_tokens: usize, accepted: usize, cached: usize) -> (result: Result<
    (),
    String,
>)
    requires
        prompt_tokens + accepted <= usize::MAX,
    ensures
        text::outcome(result) == if cached == prompt_tokens + accepted {
            Ok(())
        } else {
            Err(
                "verify_many committed "@ + text::decimal(cached as nat)
                    + " cache tokens, expected "@ + text::decimal(
                    (prompt_tokens + accepted) as nat,
                ),
            )
        },
{
    let committed: usize = prompt_tokens + accepted;
    if cached == committed {
        return Ok(());
    }
    Err(
        text::concat4(
            "verify_many committed ",
            text::decimal_text(cached as u64).as_str(),
            " cache tokens, expected ",
            text::decimal_text(committed as u64).as_str(),
        ),
    )
}

/// The batch sizes that are compared.
pub open spec fn compared_batches() -> Seq<usize> {
    seq![1usize, 2usize, 4usize, 8usize]
}

/// The batch sizes that are compared.
pub fn batches() -> (sizes: Vec<usize>)
    ensures
        sizes@ == compared_batches(),
{
    let sizes: Vec<usize> = vec![1, 2, 4, 8];
    proof {
        assert(sizes@ =~= compared_batches());
    }
    sizes
}

/// The projection that is compared must be a BF16 matrix.
pub fn check_projection(info: &TensorInfo) -> (result: Result<(), String>)
    ensures
        text::outcome(result) == if tensor::is_bf16_matrix(*info) {
            Ok(())
        } else {
            Err("q_proj.weight must be a rank-2 BF16 tensor"@)
        },
{
    if info.has_bf16_matrix() {
        Ok(())
    } else {
        Err("q_proj.weight must be a rank-2 BF16 tensor".to_owned())
    }
}

/// Where the values of each candidate start and end in a batch.
pub fn candidate_ranges(batch: usize, columns: usize) -> (ranges: Vec<(usize, usize)>)
    requires
        batch * columns <= usize::MAX,
    ensures
        ranges@.len() == batch,
        forall|i: int|
            0 <= i < batch ==> (#[trigger] ranges@[i]).0 == i * columns && ranges@[i].1 == (i + 1)
                * columns,
{
    let mut ranges: Vec<(usize, usize)> = Vec::new();
    let mut candidate: usize = 0;
    while candidate < batch
        invariant
            candidate <= batch,
            batch * columns <= usize::MAX,
            ranges@.len() == candidate,
            forall|i: int|
                0 <= i < candidate ==> (#[trigger] ranges@[i]).0 == i * columns && ranges@[i].1
                    == (i + 1) * columns,
        decreases batch - candidate,
    {
        proof {
            assert(0 <= candidate * columns && candidate * columns + columns == (candidate + 1)
                * columns && (candidate + 1) * columns <= batch * columns) by (nonlinear_arith)
                requires
                    candidate < batch,
            ;
        }
        let start: usize = candidate * columns;
        ranges.push((start, start + columns));
        candidate += 1;
    }
    ranges
}

/// The number of tokens of the model that the runtime probe steps through.
pub const STEPPED_TOKENS: u32 = 248320;

/// The token after a token, where no output head chooses one.
pub fn stepped_token(token: u32) -> (next: u32)
    requires
        token < u32::MAX,
    ensures
        next == (token + 1) % 248320,
{
    (token + 1) % STEPPED_TOKENS
}

/// The vocabulary of a draft model must be a part of the target's.
pub fn check_draft_vocabulary(draft: usize, target: usize) -> (result: Result<(), String>)
    ensures
        text::outcome(result) == if draft <= target {
            Ok(())
        } else {
            Err("draft vocabulary exceeds target vocabulary"@)
        },
{
    if draft <= target {
        Ok(())
    } else {
        Err("draft vocabulary exceeds target vocabulary".to_owned())
    }
}

/// The message for a prompt token that the draft model does not know.
pub open spec fn unshared_token(token: u32) -> Seq<char> {
    "prompt token "@ + text::decimal(token as nat)
        + " is outside draft vocabulary; choose a shared-token prompt"@
}

/// Every prompt token must be in the draft vocabulary; the first that is not
/// is reported.
pub fn check_shared_prompt(tokens: &[u32], vocabulary: usize) -> (result: Result<(), String>)
    ensures
        match result {
            Ok(()) => forall|i: int| 0 <= i < tokens@.len() ==> (#[trigger] tokens@[i])
                < vocabulary,
            Err(message) => exists|i: int|
                0 <= i < tokens@.len() && (#[trigger] tokens@[i]) >= vocabulary && message@
                    == unshared_token(tokens@[i]) && forall|j: int|
                    0 <= j < i ==> (#[trigger] tokens@[j]) < vocabulary,
        },
{
    let mut index: usize = 0;
    while index < tokens.len()
        invariant
            index <= tokens@.len(),
            forall|i: int| 0 <= i < index ==> (#[trigger] tokens@[i]) < vocabulary,
        decreases tokens@.len() - index,
    {
        let token: u32 = tokens[index];
        if token as u64 >= vocabulary as u64 {
            let message = text::concat3(
                "prompt token ",
                text::decimal_text(token as u64).as_str(),
                " is outside draft vocabulary; choose a shared-token prompt",
            );
            proof {
                assert(tokens@[index as int] >= vocabulary && message@ == unshared_token(
                    tokens@[index as int],
                ));
            }
            return Err(message);
        }
        index += 1;
    }
    Ok(())
}

/// The first drafted token must be what the target chooses.
pub fn check_first_candidate(candidates: &[u32], target: u32) -> (result: Result<(), String>)
    ensures
        text::outcome(result) == if candidates@.len() > 0 && candidates@[0] == target {
            Ok(())
        } else {
            Err(
                "draft first token "@ + text::decimal(
                    if candidates@.len() > 0 {
                        candidates@[0] as nat
                    } else {
                        0
                    },
                ) + " disagrees with target "@ + text::decimal(target as nat),
            )
        },
{
    let first: u32 = if candidates.len() > 0 { candidates[0] } else { 0 };
    if candidates.len() > 0 && first == target {
        return Ok(());
    }
    Err(
        text::concat4(
            "draft first token ",
            text::decimal_text(first as u64).as_str(),
            " disagrees with target ",
            text::decimal_text(target as u64).as_str(),
        ),
    )
}

/// The name of a tensor of a layer.
pub open spec fn layer_tensor(layer: nat, part: Seq<char>) -> Seq<char> {
    "blk."@ + text::decimal(layer) + "."@ + part
}

/// The name of a tensor of a layer.
pub fn layer_tensor_name(layer: usize, part: &str) -> (name: String)
    ensures
        name@ == layer_tensor(layer as nat, part@),
{
    text::concat4("blk.", text::decimal_text(layer as u64).as_str(), ".", part)
}

fn layer_tensor_names(layer: usize, parts: &Vec<&'static str>) -> (names: Vec<String>)
    ensures
        text::texts(names@) == parts@.map_values(
            |part: &'static str| layer_tensor(layer as nat, part@),
        ),
{
    let ghost all = parts@.map_values(|part: &'static str| layer_tensor(layer as nat, part@));
    let mut names: Vec<String> = Vec::new();
    let mut index: usize = 0;
    while index < parts.len()
        invariant
            index <= parts@.len(),
            all == parts@.map_values(|part: &'static str| layer_tensor(layer as nat, part@)),
            text::texts(names@) =~= all.take(index as int),
        decreases parts@.len() - index,
    {
        let ghost before = names@;
        let name = layer_tensor_name(layer, parts[index]);
        names.push(name);
        proof {
            assert(text::texts(names@) =~= text::texts(before).push(name@));
        }
        index += 1;
    }
    proof {
        assert(all.take(index as int) =~= all);
    }
    names
}

/// The tensors of a full-attention layer: queries with their gates, keys,
/// values, output, and the scales of queries and keys.
pub fn attention_tensor_names(layer: usize) -> (names: Vec<String>)
    ensures
        text::texts(names@) == seq![
            layer_tensor(layer as nat, "attn_q.weight"@),
            layer_tensor(layer as nat, "attn_k.weight"@),
            layer_tensor(layer as nat, "attn_v.weight"@),
            layer_tensor(layer as nat, "attn_output.weight"@),
            layer_tensor(layer as nat, "attn_q_norm.weight"@),
            layer_tensor(layer as nat, "attn_k_norm.weight"@),
        ],
{
    let parts: Vec<&'static str> = vec![
        "attn_q.weight",
        "attn_k.weight",
        "attn_v.weight",
        "attn_output.weight",
        "attn_q_norm.weight",
        "attn_k_norm.weight",
    ];
    layer_tensor_names(layer, &parts)
}

/// The tensors of a Gated DeltaNet layer: the joint projection, its gate, the
/// alpha and beta projections, the convolution, the decays, the biases, the
/// scales of the normalization, and the output.
pub fn gated_delta_tensor_names(layer: usize) -> (names: Vec<String>)
    ensures
        text::texts(names@) == seq![
            layer_tensor(layer as nat, "attn_qkv.weight"@),
            layer_tensor(layer as nat, "attn_gate.weight"@),
            layer_tensor(layer as nat, "ssm_alpha.weight"@),
            layer_tensor(layer as nat, "ssm_beta.weight"@),
            layer_tensor(layer as nat, "ssm_conv1d.weight"@),
            layer_tensor(layer as nat, "ssm_a"@),
            layer_tensor(layer as nat, "ssm_dt.bias"@),
            layer_tensor(layer as nat, "ssm_norm.weight"@),
            layer_tensor(layer as nat, "ssm_out.weight"@),
        ],
{
    let parts: Vec<&'static str> = vec![
        "attn_qkv.weight",
        "attn_gate.weight",
        "ssm_alpha.weight",
        "ssm_beta.weight",
        "ssm_conv1d.weight",
        "ssm_a",
        "ssm_dt.bias",
        "ssm_norm.weight",
        "ssm_out.weight",
    ];
    layer_tensor_names(layer, &parts)
}

/// The tensors of an MLP: gate, up and down.
pub fn mlp_tensor_names(layer: usize) -> (names: Vec<String>)
    ensures
        text::texts(names@) == seq![
            layer_tensor(layer as nat, "ffn_gate.weight"@),
            layer_tensor(layer as nat, "ffn_up.weight"@),
            layer_tensor(layer as nat, "ffn_down.weight"@),
        ],
{
    let parts: Vec<&'static str> = vec!["ffn_gate.weight", "ffn_up.weight", "ffn_down.weight"];
    layer_tensor_names(layer, &parts)
}

} // verus!
