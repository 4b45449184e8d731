//! The device steps of single layers and the values that pass between them.
use super_inference::layers::attention::{
    check_step_fits as attention_step_fits, plan_step as plan_attention_step, query_ranges,
    run_layer as run_attention, AttentionShape, AttentionTensors,
};
use super_inference::layers::gated_delta::{
    check_step_fits as gated_delta_step_fits, mixed_ranges, plan_step as plan_gated_delta_step,
    run_layer as run_gated_delta, GatedDeltaShape, GatedDeltaTensors,
};
use super_inference::layers::attention_flow::{
    self, LayerTensor as AttentionTensor, Value as AttentionValue,
};
use super_inference::layers::gated_delta_flow::{
    self, LayerTensor as DeltaTensor, Value as DeltaValue,
};
use super_inference::layers::heads::{gather_rotary, partial_rope, repeat_heads, scatter_rotary};
use super_inference::layers::mlp::{check_gate_up, plan_down, plan_gated, run_mlp};
use super_inference::layers::steps::{Step, Steps};
use super_inference::layers::values::{count_elements, f32_values, PlacedTensor, ValueRange};
use super_inference::metal::context::{MetalContext, Pipelines};
use super_inference::metal::kernel::{Kernel, Switches};
use super_inference::metal::operands::Operand;
use super_inference::metal::wiring::Source;
use super_inference::quant::{GGML_TYPE_F32, GGML_TYPE_Q4_K, GGML_TYPE_Q6_K};
use super_inference::tensor::{GgufTensorInfo, GgufTensorView};

const EPSILON: u32 = 0x3727_c5ac;

fn switches() -> Switches {
    Switches {
        lossless_gpu: false,
        verify_many: false,
        lookahead: false,
        rows4: false,
        rows4x128: false,
        rows4x128_q6: false,
        fused_rows4x128: false,
        gdn_parallel: false,
    }
}

fn context() -> MetalContext {
    MetalContext::new(Pipelines {
        bitpack: false,
        batched_matmul: None,
        batched_fused_qkv: None,
        batched_fused_gate_up: None,
        gated_delta_parallel: 1024,
    })
}

fn values(name: &str, shape: Vec<usize>) -> (GgufTensorInfo, Vec<u8>) {
    let count: usize = shape.iter().product();
    let info = GgufTensorInfo { name: name.to_owned(), ggml_type: GGML_TYPE_F32, shape };
    (info, vec![0; count * 4])
}

fn view(tensor: &(GgufTensorInfo, Vec<u8>)) -> GgufTensorView<'_> {
    GgufTensorView { info: &tensor.0, bytes: &tensor.1 }
}

fn placed<'a, 'b>(tensor: &'a GgufTensorView<'b>) -> PlacedTensor<'a, 'b> {
    PlacedTensor { tensor, address: 64 }
}

fn kernels_of(steps: &Steps) -> Vec<Kernel> {
    let mut kernels = Vec::new();
    for step in &steps.steps {
        let plan = match step {
            Step::Rows(slice) => &slice.plan,
            Step::Whole(plan) => plan,
        };
        for dispatch in plan.command.as_ref().unwrap() {
            kernels.push(dispatch.kernel);
        }
    }
    kernels
}

#[test]
fn values_are_counted_and_checked() {
    assert_eq!(count_elements(&vec![]), Some(1));
    assert_eq!(count_elements(&vec![2, 3]), Some(6));
    assert_eq!(count_elements(&vec![usize::MAX, 2]), None);
    assert_eq!(count_elements(&vec![usize::MAX, 2, 0]), None);
    let tensor = values("norm", vec![2, 3]);
    assert_eq!(f32_values(&placed(&view(&tensor))), Ok(6));
    let message = |tensor: &(GgufTensorInfo, Vec<u8>), address| {
        f32_values(&PlacedTensor { tensor: &view(tensor), address }).unwrap_err()
    };
    assert_eq!(message(&tensor, 66), "tensor norm F32 payload is not aligned");
    let quantized = (GgufTensorInfo { ggml_type: 12, ..tensor.0.clone() }, vec![0; 24]);
    assert_eq!(message(&quantized, 64), "tensor norm is not F32 (type 12)");
    let cut = (tensor.0.clone(), vec![0; 22]);
    assert_eq!(message(&cut, 64), "tensor norm F32 payload is not aligned");
    let short = (tensor.0.clone(), vec![0; 20]);
    assert_eq!(message(&short, 64), "tensor norm has 5 F32 values; expected 6");
    let huge = (GgufTensorInfo { shape: vec![usize::MAX, 2], ..tensor.0 }, vec![]);
    assert_eq!(message(&huge, 64), "tensor norm element count overflows");
}

#[test]
fn heads_are_repeated_in_runs() {
    assert_eq!(
        repeat_heads(&[1, 2, 3, 4], 2, 4, 2),
        vec![1, 2, 1, 2, 3, 4, 3, 4]
    );
    assert_eq!(repeat_heads(&[1, 2], 1, 1, 2), vec![1, 2]);
    assert!(repeat_heads(&[1, 2], 1, 0, 2).is_empty());
}

#[test]
fn rotated_values_are_put_back() {
    let heads = [1, 2, 3, 4, 5, 6, 7, 8];
    assert_eq!(gather_rotary(&heads, 2, 4, 2), vec![1, 2, 5, 6]);
    assert_eq!(scatter_rotary(&heads, &[1, 2, 5, 6], 2, 4, 2), heads.to_vec());
    assert_eq!(
        scatter_rotary(&heads, &[9, 10, 11, 12], 2, 4, 2),
        vec![9, 10, 3, 4, 11, 12, 7, 8]
    );
    assert_eq!(gather_rotary(&heads, 2, 4, 4), heads.to_vec());
}

#[test]
fn partial_rotation_checks_its_dimensions() {
    let plan = partial_rope(&context(), 8, 2, 4, 2, 1, 9).unwrap();
    assert_eq!(plan.outputs, vec![4]);
    for (input, rotary) in [(8, 0), (8, 6), (8, 3), (7, 2)] {
        assert_eq!(
            partial_rope(&context(), input, 2, 4, rotary, 1, 9).unwrap_err(),
            "partial RoPE dimensions are invalid"
        );
    }
}

#[test]
fn mlps_are_two_steps() {
    let info = |name: &str, ggml_type, shape| GgufTensorInfo {
        name: name.to_owned(),
        ggml_type,
        shape,
    };
    let gate = (info("gate", GGML_TYPE_Q4_K, vec![256, 256]), vec![0; 256 * 144]);
    let up = (info("up", GGML_TYPE_Q4_K, vec![256, 256]), vec![0; 256 * 144]);
    let down = (info("down", GGML_TYPE_Q6_K, vec![256, 2]), vec![0; 420]);
    assert_eq!(check_gate_up(&view(&gate), &view(&up)), Ok(36864));
    let steps = run_mlp(&context(), &view(&gate), &view(&up), &placed(&view(&down)), &switches());
    assert_eq!(steps.failure, None);
    assert_eq!(kernels_of(&steps), vec![Kernel::Q4KFusedGateUp, Kernel::Q6KMatvec]);

    let short = (gate.0.clone(), vec![0; 100]);
    assert_eq!(
        check_gate_up(&view(&short), &view(&up)).unwrap_err(),
        "MLP gate tensor is shorter than its shape"
    );
    assert_eq!(
        check_gate_up(&view(&gate), &view(&short)).unwrap_err(),
        "MLP up tensor is shorter than its shape"
    );
    assert_eq!(
        check_gate_up(&view(&gate), &view(&down)).unwrap_err(),
        "MLP gate/up tensors must be matching rank-2 Q4_K matrices"
    );
    let huge = (info("huge", GGML_TYPE_Q4_K, vec![usize::MAX, usize::MAX]), vec![]);
    assert_eq!(
        check_gate_up(&view(&huge), &view(&huge)).unwrap_err(),
        "MLP gate/up byte range overflows"
    );
    let steps = run_mlp(&context(), &view(&short), &view(&up), &placed(&view(&down)), &switches());
    assert!(steps.steps.is_empty());
    assert!(steps.failure.is_some());
    let narrow = (info("down", GGML_TYPE_Q6_K, vec![512, 2]), vec![0; 840]);
    let steps = run_mlp(&context(), &view(&gate), &view(&up), &placed(&view(&narrow)), &switches());
    assert_eq!(kernels_of(&steps), vec![Kernel::Q4KFusedGateUp]);
    assert_eq!(
        steps.failure.unwrap(),
        "Q6_K tensor columns or input length is invalid"
    );
}

fn attention_shape() -> AttentionShape {
    AttentionShape {
        query_heads: 2,
        key_value_heads: 1,
        head_dim: 4,
        rotary_dim: Some(2),
        epsilon: EPSILON,
        theta: 9,
    }
}

fn attention_steps(shape: AttentionShape, key_rows: usize, scales: usize) -> Steps {
    let q = values("q", vec![3, 16]);
    let k = values("k", vec![3, key_rows]);
    let v = values("v", vec![3, 4]);
    let output = values("o", vec![8, 3]);
    let norm = values("n", vec![scales]);
    let (q, k, v) = (view(&q), view(&k), view(&v));
    let (output, norm) = (view(&output), view(&norm));
    let tensors = AttentionTensors {
        q: placed(&q),
        k: placed(&k),
        v: placed(&v),
        output: placed(&output),
        q_norm: placed(&norm),
        k_norm: placed(&norm),
    };
    run_attention(&context(), &shape, &tensors, 5, 3, &switches())
}

#[test]
fn attention_layers_run_their_steps_in_order() {
    let steps = attention_steps(attention_shape(), 4, 4);
    assert_eq!(steps.failure, None);
    assert_eq!(
        kernels_of(&steps),
        vec![
            Kernel::F32Matvec,
            Kernel::F32Matvec,
            Kernel::F32Matvec,
            Kernel::RmsNormHeads,
            Kernel::RmsNormHeads,
            Kernel::Rope,
            Kernel::Rope,
            Kernel::AttentionDecode,
            Kernel::F32Matvec,
        ]
    );
}

#[test]
fn attention_layers_stop_at_the_first_failure() {
    let steps = attention_steps(attention_shape(), 5, 4);
    assert_eq!(steps.steps.len(), 3);
    assert_eq!(
        steps.failure.unwrap(),
        "full-attention projection shapes do not match metadata"
    );
    let steps = attention_steps(AttentionShape { rotary_dim: None, ..attention_shape() }, 4, 4);
    assert_eq!(steps.steps.len(), 5);
    assert_eq!(
        steps.failure.unwrap(),
        "GGUF model is missing qwen35.rope.dimension_count"
    );
    let steps = attention_steps(attention_shape(), 4, 3);
    assert_eq!(steps.steps.len(), 3);
    assert_eq!(steps.failure.unwrap(), "head RMSNorm dimensions are invalid");
}

fn gated_delta_steps(beta_rows: usize, conv_kernel: usize) -> Steps {
    let qkv = values("qkv", vec![3, 8]);
    let z = values("z", vec![3, 4]);
    let alpha = values("alpha", vec![3, 2]);
    let beta = values("beta", vec![3, beta_rows]);
    let convolution = values("conv", vec![2, 8]);
    let a_log = values("a", vec![2]);
    let dt_bias = values("dt", vec![2]);
    let norm = values("norm", vec![2]);
    let output = values("out", vec![4, 3]);
    let (qkv, z, alpha, beta) = (view(&qkv), view(&z), view(&alpha), view(&beta));
    let (convolution, a_log, dt_bias) = (view(&convolution), view(&a_log), view(&dt_bias));
    let (norm, output) = (view(&norm), view(&output));
    let tensors = GatedDeltaTensors {
        qkv: placed(&qkv),
        z: placed(&z),
        alpha: placed(&alpha),
        beta: placed(&beta),
        convolution: placed(&convolution),
        a_log: placed(&a_log),
        dt_bias: placed(&dt_bias),
        norm: placed(&norm),
        output: placed(&output),
    };
    let shape = GatedDeltaShape {
        projection_size: 8,
        conv_kernel,
        key_heads: 1,
        value_heads: 2,
        head_dim: 2,
        epsilon: EPSILON,
    };
    run_gated_delta(&context(), &shape, &tensors, 3, &switches())
}

#[test]
fn gated_delta_layers_run_their_steps_in_order() {
    let steps = gated_delta_steps(2, 2);
    assert_eq!(steps.failure, None);
    assert_eq!(
        kernels_of(&steps),
        vec![
            Kernel::F32Matvec,
            Kernel::F32Matvec,
            Kernel::F32Matvec,
            Kernel::F32Matvec,
            Kernel::CausalConv1dStep,
            Kernel::GatedDeltaStep,
            Kernel::RmsNormGated,
            Kernel::F32Matvec,
        ]
    );
    let steps = gated_delta_steps(3, 2);
    assert_eq!(steps.steps.len(), 5);
    assert_eq!(
        steps.failure.unwrap(),
        "Gated DeltaNet input or state dimensions are invalid"
    );
    let steps = gated_delta_steps(2, 1);
    assert_eq!(steps.steps.len(), 4);
    assert_eq!(steps.failure.unwrap(), "causal convolution dimensions are invalid");
}

fn range(start: usize, end: usize) -> ValueRange {
    ValueRange { start, end }
}

#[test]
fn projections_hold_queries_and_gates() {
    let ranges = query_ranges(&attention_shape());
    assert_eq!(ranges.queries, range(0, 8));
    assert_eq!(ranges.gates, range(8, 16));
}

fn gated_delta_shape() -> GatedDeltaShape {
    GatedDeltaShape {
        projection_size: 8,
        conv_kernel: 2,
        key_heads: 1,
        value_heads: 2,
        head_dim: 2,
        epsilon: EPSILON,
    }
}

#[test]
fn convolved_values_hold_queries_keys_and_values() {
    let ranges = mixed_ranges(&gated_delta_shape());
    assert_eq!(ranges.queries, range(0, 2));
    assert_eq!(ranges.keys, range(2, 4));
    assert_eq!(ranges.values, range(4, 8));
}

#[test]
fn attention_reports_a_projection_before_later_faults() {
    let vector = values("v", vec![4]);
    let narrow = values("q", vec![2, 16]);
    let norm = values("n", vec![4]);
    let (vector, narrow, norm) = (view(&vector), view(&narrow), view(&norm));
    let tensors = AttentionTensors {
        q: placed(&narrow),
        k: placed(&vector),
        v: placed(&vector),
        output: placed(&vector),
        q_norm: placed(&norm),
        k_norm: placed(&norm),
    };
    let shape = AttentionShape { query_heads: usize::MAX, head_dim: 4, ..attention_shape() };
    assert!(attention_step_fits(&shape, &tensors, 0));
    assert!(!attention_step_fits(&shape, &tensors, 1));
    assert!(!attention_step_fits(&shape, &tensors, 3));
    let message = "F32 tensor columns or input length is invalid";
    let step = plan_attention_step(&context(), &shape, &tensors, 5, 3, &switches(), 0);
    assert_eq!(step.unwrap_err(), message);
    let steps = run_attention(&context(), &shape, &tensors, 5, 3, &switches());
    assert!(steps.steps.is_empty());
    assert_eq!(steps.failure.unwrap(), message);
}

#[test]
fn attention_reports_scales_before_the_query_projection() {
    let vector = values("v", vec![4]);
    let mut scales = values("n", vec![4]);
    scales.0.ggml_type = 12;
    let (vector, scales) = (view(&vector), view(&scales));
    let tensors = AttentionTensors {
        q: placed(&vector),
        k: placed(&vector),
        v: placed(&vector),
        output: placed(&vector),
        q_norm: placed(&scales),
        k_norm: placed(&scales),
    };
    assert!(attention_step_fits(&attention_shape(), &tensors, 0));
    let steps = run_attention(&context(), &attention_shape(), &tensors, 5, 3, &switches());
    assert_eq!(steps.failure.unwrap(), "tensor n is not F32 (type 12)");
}

#[test]
fn gated_delta_reports_a_projection_before_later_faults() {
    let qkv = values("qkv", vec![3, 8]);
    let narrow = values("z", vec![2, 4]);
    let vector = values("v", vec![2]);
    let (qkv, narrow, vector) = (view(&qkv), view(&narrow), view(&vector));
    let tensors = GatedDeltaTensors {
        qkv: placed(&qkv),
        z: placed(&narrow),
        alpha: placed(&vector),
        beta: placed(&vector),
        convolution: placed(&vector),
        a_log: placed(&vector),
        dt_bias: placed(&vector),
        norm: placed(&vector),
        output: placed(&vector),
    };
    let shape = GatedDeltaShape { key_heads: 3, conv_kernel: 0, ..gated_delta_shape() };
    assert!(gated_delta_step_fits(&shape, &tensors, 1));
    assert!(!gated_delta_step_fits(&shape, &tensors, 2));
    assert!(!gated_delta_step_fits(&shape, &tensors, 4));
    assert!(!gated_delta_step_fits(&shape, &tensors, 5));
    let message = "F32 tensor columns or input length is invalid";
    let step = plan_gated_delta_step(&context(), &shape, &tensors, 3, &switches(), 1);
    assert_eq!(step.unwrap_err(), message);
    let steps = run_gated_delta(&context(), &shape, &tensors, 3, &switches());
    assert_eq!(steps.steps.len(), 1);
    assert_eq!(steps.failure.unwrap(), message);
}

#[test]
fn mlp_steps_are_planned_one_by_one() {
    let info = |name: &str, ggml_type, shape| GgufTensorInfo {
        name: name.to_owned(),
        ggml_type,
        shape,
    };
    let gate = (info("gate", GGML_TYPE_Q4_K, vec![256, 256]), vec![0; 256 * 144]);
    let down = (info("down", GGML_TYPE_Q6_K, vec![256, 2]), vec![0; 420]);
    let gated = plan_gated(&context(), &view(&gate), &view(&gate), &switches()).unwrap();
    let Step::Whole(plan) = gated else {
        panic!("the gated product takes whole matrices");
    };
    assert_eq!(plan.outputs, vec![256]);
    let projected = plan_down(&context(), &view(&gate), &placed(&view(&down)), &switches());
    let Step::Rows(slice) = projected.unwrap() else {
        panic!("the down projection takes rows");
    };
    assert_eq!((slice.start, slice.end), (0, 420));
    assert_eq!(slice.plan.outputs, vec![2]);
    let short = (gate.0.clone(), vec![0; 100]);
    let vector = values("down", vec![4]);
    let vector = view(&vector);
    let steps = run_mlp(&context(), &view(&short), &view(&gate), &placed(&vector), &switches());
    assert_eq!(steps.failure.unwrap(), "MLP gate tensor is shorter than its shape");
}

fn sources_of(step: &Step) -> Vec<Operand> {
    match step {
        Step::Rows(slice) => slice.plan.operands(&[]),
        Step::Whole(plan) => plan.operands(&[]),
    }
}

#[test]
fn attention_steps_read_earlier_values() {
    let steps = attention_steps(attention_shape(), 4, 4);
    for (index, step) in steps.steps.iter().enumerate() {
        let reads: Vec<Operand> = attention_flow::step_reads(index)
            .into_iter()
            .map(|(source, _)| Operand::Host(source))
            .collect();
        assert_eq!(sources_of(step), reads);
    }
    assert_eq!(
        attention_flow::step_reads(3),
        vec![
            (Source::Input, AttentionValue::Queries),
            (Source::Weights(0), AttentionValue::Tensor(AttentionTensor::QueryScales)),
        ]
    );
    assert_eq!(
        attention_flow::step_reads(8),
        vec![
            (Source::Weights(0), AttentionValue::Tensor(AttentionTensor::Output)),
            (Source::Input, AttentionValue::Gated),
        ]
    );
    assert_eq!(
        attention_flow::value_sources(AttentionValue::Gated),
        vec![AttentionValue::Output(7), AttentionValue::Gates]
    );
    assert_eq!(
        attention_flow::value_sources(AttentionValue::Gates),
        vec![AttentionValue::Output(0)]
    );
    assert_eq!(
        attention_flow::value_sources(AttentionValue::RotatedKeys),
        vec![AttentionValue::Output(4), AttentionValue::Output(6)]
    );
    assert!(attention_flow::value_sources(AttentionValue::Hidden).is_empty());
}

#[test]
fn gated_delta_steps_read_earlier_values() {
    let steps = gated_delta_steps(2, 2);
    for (index, step) in steps.steps.iter().enumerate() {
        let reads: Vec<Operand> = gated_delta_flow::step_reads(index)
            .into_iter()
            .map(|(source, _)| Operand::Host(source))
            .collect();
        assert_eq!(sources_of(step), reads);
    }
    assert_eq!(
        gated_delta_flow::step_reads(6),
        vec![
            (Source::Input, DeltaValue::Output(5)),
            (Source::Gate, DeltaValue::Output(1)),
            (Source::Weights(0), DeltaValue::Tensor(DeltaTensor::Scales)),
        ]
    );
    assert_eq!(
        gated_delta_flow::value_sources(DeltaValue::Keys),
        vec![DeltaValue::Output(4)]
    );
    assert_eq!(
        gated_delta_flow::value_sources(DeltaValue::Decay),
        vec![
            DeltaValue::Output(2),
            DeltaValue::Tensor(DeltaTensor::Decay),
            DeltaValue::Tensor(DeltaTensor::Bias),
        ]
    );
}
