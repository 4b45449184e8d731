//! Counters, memory accounting, mappings and checks of the Metal side.
use super_inference::metal::context::{probe, MetalContext, MetalDeviceInfo, Pipelines};
use super_inference::metal::kernel::{
    function_name, kernels, qk_rows4_enabled, Kernel, Switches, Threads,
};
use super_inference::metal::mapping::aligned_weight_range;
use super_inference::metal::plan::Profile;
use super_inference::metal::shader::shader_source;
use super_inference::metal::stats::{
    command_result, CommandStats, CommandStatsSnapshot, CommandStatus, PendingMatvec,
};
use super_inference::metal::validate::{
    validate_bf16_weight_bytes, validate_fused_projection_many_shapes,
    validate_fused_projection_shapes, validate_matmul_many_shape, validate_matvec_tensor_batch,
    validate_matvec_tensor_many,
};
use super_inference::metal::weights::{
    bf16_weight_of_binding, bind_bf16_weight, Binding, PrivateStagedQwenLayer, StagedQwenLayer,
};
use super_inference::quant::{GGML_TYPE_Q4_K, GGML_TYPE_Q6_K};
use super_inference::tensor::{TensorInfo, TensorView};

fn switches() -> Switches {
    Switches {
        lossless_gpu: false,
        verify_many: false,
        lookahead: false,
        rows4: false,
        rows4x128: false,
        rows4x128_q6: false,
        fused_rows4x128: false,
        gdn_parallel: false,
    }
}

fn context() -> MetalContext {
    MetalContext::new(Pipelines {
        bitpack: false,
        batched_matmul: None,
        batched_fused_qkv: None,
        batched_fused_gate_up: None,
        gated_delta_parallel: 1024,
    })
}

fn matrix(name: &str, shape: Vec<usize>, bytes: usize) -> TensorInfo {
    TensorInfo {
        name: name.into(),
        shard: "shard.safetensors".into(),
        dtype: "BF16".into(),
        shape,
        data_start: 0,
        data_end: bytes,
    }
}

#[test]
fn qk_rows4_switch_is_explicitly_opt_in() {
    assert!(!qk_rows4_enabled(None));
    assert!(!qk_rows4_enabled(Some("0")));
    assert!(qk_rows4_enabled(Some("1")));
    assert!(!qk_rows4_enabled(Some("true")));
}

#[test]
fn probe_api_is_callable() {
    let _ = probe(None);
}

#[test]
fn probe_reports_the_device() {
    assert_eq!(probe(None).unwrap_err(), "no Metal device found");
    let info = MetalDeviceInfo {
        name: "M".to_owned(),
        registry_id: 7,
        recommended_max_working_set_bytes: 8,
        max_buffer_bytes: 9,
        has_unified_memory: true,
    };
    assert_eq!(
        probe(Some(info)).unwrap().lines(),
        vec![
            "device=M",
            "registry_id=7",
            "recommended_max_working_set_bytes=8",
            "max_buffer_bytes=9",
            "has_unified_memory=true",
        ]
    );
}

#[test]
fn command_stats_snapshot_tracks_submissions_and_waits() {
    let mut stats = CommandStats::default();

    stats.record_submission();
    stats.record_submission();
    stats.record_async_submission();
    stats.record_wait(std::time::Duration::from_nanos(7).as_nanos());

    let snapshot = stats.snapshot();
    assert_eq!(snapshot.submitted, 3);
    assert_eq!(snapshot.async_submitted, 1);
    assert_eq!(snapshot.waited, 1);
    assert_eq!(snapshot.wait_nanos, 7);
}

#[test]
fn command_stats_delta_saturates_counters() {
    let before = CommandStatsSnapshot {
        submitted: 10,
        async_submitted: 4,
        waited: 8,
        wait_nanos: 100,
    };
    let after = CommandStatsSnapshot {
        submitted: 13,
        async_submitted: 5,
        waited: 7,
        wait_nanos: 90,
    };

    let delta = after.delta_since(before);

    assert_eq!(delta.submitted, 3);
    assert_eq!(delta.async_submitted, 1);
    assert_eq!(delta.waited, 0);
    assert_eq!(delta.wait_nanos, 0);
}

#[test]
fn later_waits_count_the_same() {
    let mut at_once = CommandStats::default();
    at_once.record_submission();
    at_once.record_wait(7);
    let mut later = CommandStats::default();
    later.record_async_submission();
    later.record_wait(7);
    assert_eq!(at_once.snapshot().submitted, later.snapshot().submitted);
    assert_eq!(at_once.snapshot().waited, later.snapshot().waited);
    assert_eq!(at_once.snapshot().wait_nanos, later.snapshot().wait_nanos);
    assert_eq!(at_once.snapshot().async_submitted + 1, later.snapshot().async_submitted);
    let before = later.snapshot();
    later.record_submission();
    later.record_wait(5);
    let delta = later.snapshot().delta_since(before);
    assert_eq!((delta.submitted, delta.async_submitted), (1, 0));
    assert_eq!((delta.waited, delta.wait_nanos), (1, 5));
}

#[test]
fn pending_commands_are_read_only_when_completed() {
    let mut stats = CommandStats::default();
    let mut pending = PendingMatvec::submitted(vec![3, 4]);
    assert_eq!(pending.status(), CommandStatus::Committed);
    pending.note_status(CommandStatus::Completed);
    assert_eq!(pending.wait(5, &mut stats).unwrap(), vec![3, 4]);
    assert_eq!(stats.snapshot().waited, 1);
    let mut pending = PendingMatvec::submitted(vec![3]);
    pending.note_status(CommandStatus::Error);
    assert_eq!(
        pending.wait(5, &mut stats).unwrap_err(),
        "Metal command failed: Error"
    );
    assert_eq!(stats.snapshot().wait_nanos, 10);
    assert_eq!(command_result("x", CommandStatus::Completed), Ok(()));
    assert_eq!(
        command_result("x", CommandStatus::Scheduled).unwrap_err(),
        "Metal x failed: Scheduled"
    );
}

#[test]
fn streaming_batch_validation_accepts_rank2_bf16_tensors() {
    let info = matrix("projection.weight", vec![2, 3], 12);
    let bytes = [0_u8; 12];
    let tensor = TensorView { info: &info, bytes: &bytes, backing: &bytes };

    let shapes = validate_matvec_tensor_batch(&[&tensor], 3)
        .expect("valid streamed projection should pass validation");

    assert_eq!(shapes, vec![(2, 3)]);
}

#[test]
fn streaming_batch_validation_rejects_mismatched_input_columns() {
    let info = matrix("projection.weight", vec![2, 4], 16);
    let bytes = [0_u8; 16];
    let tensor = TensorView { info: &info, bytes: &bytes, backing: &bytes };

    let error = validate_matvec_tensor_batch(&[&tensor], 3)
        .expect_err("mismatched streamed projection must fail validation");

    assert!(error.contains("input length"));
}

#[test]
fn streaming_batch_validation_names_the_tensor() {
    let bytes = [0_u8; 16];
    let info = matrix("w", vec![2, 4], 16);
    let good = TensorView { info: &info, bytes: &bytes, backing: &bytes };
    assert_eq!(
        validate_matvec_tensor_batch(&[], 3).unwrap_err(),
        "batched BF16 tensor list must be non-empty"
    );
    assert_eq!(
        validate_matvec_tensor_batch(&[&good], 3).unwrap_err(),
        "tensor w input length 3 does not match columns 4"
    );
    let cube = matrix("c", vec![2, 2, 2], 16);
    let cube = TensorView { info: &cube, bytes: &bytes, backing: &bytes };
    assert_eq!(
        validate_matvec_tensor_batch(&[&good, &cube], 4).unwrap_err(),
        "tensor c must be a rank-2 BF16 matrix"
    );
    let short = TensorView { info: &info, bytes: &bytes[..8], backing: &bytes };
    assert_eq!(
        validate_matvec_tensor_batch(&[&short], 4).unwrap_err(),
        "tensor w has invalid matrix dimensions or byte length"
    );
    let huge = matrix("h", vec![usize::MAX, 2], 0);
    let huge = TensorView { info: &huge, bytes: &[], backing: &[] };
    assert_eq!(
        validate_matvec_tensor_batch(&[&huge], 2).unwrap_err(),
        "BF16 matrix dimensions overflow"
    );
    assert_eq!(validate_matvec_tensor_many(&[&good], 2, 8).unwrap(), vec![(2, 4)]);
    assert_eq!(
        validate_matvec_tensor_many(&[&good], 9, 36).unwrap_err(),
        "batched BF16 tensor list supports between one and eight candidates"
    );
    assert_eq!(
        validate_matvec_tensor_many(&[&good], 2, 7).unwrap_err(),
        "batched BF16 input length must be a non-zero batch multiple"
    );
}

#[test]
fn batched_matmul_validation_accepts_k_up_to_eight() {
    assert!(validate_matmul_many_shape(3, 4, 8, 24, 32).is_ok());
}

#[test]
fn batched_matmul_validation_rejects_more_than_eight_candidates() {
    let error = validate_matmul_many_shape(3, 4, 9, 24, 36)
        .expect_err("candidate batch must be bounded for the first kernel");
    assert!(error.contains("invalid"));
}

#[test]
fn batched_matmul_validation_reports_overflow() {
    assert_eq!(
        validate_matmul_many_shape(usize::MAX, 2, 1, 0, 2).unwrap_err(),
        "batched BF16 matrix dimensions overflow"
    );
    assert_eq!(
        validate_matmul_many_shape(0, usize::MAX, 2, 0, 2).unwrap_err(),
        "batched BF16 input dimensions overflow"
    );
}

#[test]
fn fused_projection_validation_accepts_qkv_and_gate_up_shapes() {
    assert!(validate_fused_projection_shapes(&[(6, 4), (2, 4), (2, 4)], 4,).is_ok());
    assert!(validate_fused_projection_shapes(&[(8, 4), (8, 4)], 4).is_ok());
}

#[test]
fn fused_projection_validation_rejects_invalid_group_count() {
    let error = validate_fused_projection_shapes(&[(4, 4)], 4)
        .expect_err("fused projections require two or three matrices");
    assert!(error.contains("two or three"));
}

#[test]
fn fused_projection_validation_reports_shapes() {
    assert_eq!(
        validate_fused_projection_shapes(&[(4, 4), (4, 5)], 4).unwrap_err(),
        "fused projection dimensions or input length are invalid"
    );
    assert_eq!(
        validate_fused_projection_shapes(&[(4, 4), (usize::MAX, 4)], 4).unwrap_err(),
        "fused projection dimensions overflow"
    );
    assert_eq!(
        validate_fused_projection_many_shapes(&[(4, 4)], 2, 4).unwrap_err(),
        "invalid batched fused projection shapes: fused projections require two or three matrices"
    );
}

#[test]
fn batched_fused_projection_validation_accepts_k_up_to_eight() {
    assert!(validate_fused_projection_many_shapes(&[(6, 4), (2, 4), (2, 4)], 8, 4,).is_ok());
}

#[test]
fn batched_fused_projection_validation_rejects_more_than_eight_candidates() {
    let error = validate_fused_projection_many_shapes(&[(6, 4), (2, 4), (2, 4)], 9, 4)
        .expect_err("batched fused projection width must be bounded");
    assert!(error.contains("between one and eight"));
}

#[test]
fn projection_shaders_use_simdgroup_reduction() {
    let source = shader_source();
    assert!(source.contains("simd_sum"));
    assert!(source.contains("simdgroup_index_in_threadgroup"));
}

#[test]
fn every_loaded_kernel_is_in_the_source() {
    let mut all = switches();
    all.lossless_gpu = true;
    all.verify_many = true;
    let source = shader_source();
    let loaded = kernels(&all);
    assert_eq!(loaded.len(), 31);
    for kernel in loaded {
        let header = format!("kernel void {}(", function_name(kernel));
        assert!(source.contains(&header), "{header}");
    }
}

#[test]
fn switches_choose_the_optional_kernels() {
    let count = |switches: Switches| kernels(&switches).len();
    assert_eq!(count(switches()), 27);
    assert_eq!(count(Switches { lossless_gpu: true, ..switches() }), 28);
    assert_eq!(count(Switches { lookahead: true, ..switches() }), 30);
    let loaded = kernels(&Switches { lossless_gpu: true, ..switches() });
    assert_eq!(loaded[0], Kernel::RmsNorm);
    assert_eq!(loaded[22], Kernel::Bf16BitpackMatvec);
    assert_eq!(loaded[27], Kernel::AttentionDecode);
}

#[test]
fn thread_counts_respect_the_pipeline() {
    assert_eq!(Threads::All.resolve(1024), 1024);
    assert_eq!(Threads::All.resolve(0), 1);
    assert_eq!(Threads::AtMost(128).resolve(1024), 128);
    assert_eq!(Threads::AtMost(128).resolve(64), 64);
    assert_eq!(Threads::Exactly(32).resolve(1024), 32);
}

#[test]
fn aligned_weight_range_preserves_tensor_offset() {
    let (base, offset, length) = aligned_weight_range(0x12_340, 0x12_456, 300, 0x1000)
        .expect("aligned range should fit inside backing mapping");
    assert_eq!(base, 0x12_000);
    assert_eq!(offset, 0x456);
    assert_eq!(length, 0x1000);
}

#[test]
fn aligned_weight_range_reports_each_error() {
    let refused = |backing, tensor, len, page| {
        aligned_weight_range(backing, tensor, len, page).unwrap_err()
    };
    let page = "Metal backing page size must be a non-zero power of two";
    assert_eq!(refused(0, 0, 1, 0), page);
    assert_eq!(refused(0, 0, 1, 3), page);
    assert_eq!(
        refused(8, 4, 1, 4),
        "tensor bytes are outside their backing mapping"
    );
    assert_eq!(refused(0, usize::MAX, 1, 4), "tensor byte range overflows");
    assert_eq!(refused(0, 0, usize::MAX, 4), "aligned tensor range overflows");
    assert_eq!(refused(0, 4, 0, 4), "aligned tensor range is empty");
    assert_eq!(aligned_weight_range(0, 4, 4, 4), Ok((4, 0, 4)));
    assert_eq!(aligned_weight_range(0, 5, 4, 4), Ok((4, 1, 8)));
}

#[test]
fn weights_are_bound_on_page_boundaries() {
    let bytes = [0_u8; 6];
    assert_eq!(
        bind_bf16_weight(&bytes, 0x2006, 0x1000, 0x2000, 0x1000),
        Ok(Binding::Aligned { base: 0x2000, offset: 6, length: 0x1000 })
    );
    assert_eq!(bind_bf16_weight(&bytes, 0x2006, 0x1001, 0x2000, 0x1000), Ok(Binding::Whole));
    assert_eq!(
        bind_bf16_weight(&bytes, 0x2006, 0x1000, 0x1000, 0x1000).unwrap_err(),
        "tensor bytes are outside their backing mapping"
    );
    assert_eq!(
        bind_bf16_weight(&bytes, 0x2006, 0x1000, usize::MAX, 0x1000).unwrap_err(),
        "tensor backing range overflows"
    );
    assert_eq!(
        bind_bf16_weight(&bytes, 0x2006, 0x1000, 0x2000, -1).unwrap_err(),
        "could not determine host page size"
    );
    assert!(bind_bf16_weight(&[], 0x2006, 0x1000, 0x2000, 0x1000).is_err());
    assert!(validate_bf16_weight_bytes(&[1]).is_err());
    let aligned = Binding::Aligned { base: 0x2000, offset: 6, length: 0x1000 };
    let weight = bf16_weight_of_binding(aligned, 3, 6, 0x1000).unwrap();
    assert_eq!((weight.buffer, weight.offset, weight.bytes), (3, 6, 6));
    assert!(weight.mapped && !weight.persistent);
    assert_eq!(weight.byte_len(), 6);
    assert_eq!(
        bf16_weight_of_binding(aligned, 3, 6, 0xfff).unwrap_err(),
        "Metal could not bind the aligned BF16 weight bytes"
    );
    assert_eq!(
        bf16_weight_of_binding(Binding::Whole, 3, 6, 5).unwrap_err(),
        "Metal could not bind the mapped BF16 weight bytes"
    );
}

#[test]
fn uploads_are_checked_and_counted() {
    let mut context = context();
    let weight = context.upload_bf16_weight(&[1, 2], 4).unwrap();
    assert!(!weight.persistent && !weight.mapped);
    let weight = context
        .upload_bf16_weight_private(&[1, 2], 4, CommandStatus::Completed, 9)
        .unwrap();
    assert!(weight.persistent);
    assert_eq!(context.command_stats().submitted, 1);
    assert_eq!(context.command_stats().wait_nanos, 9);
    assert!(context
        .upload_bf16_weight_private(&[1, 2], 4, CommandStatus::Error, 1)
        .is_err());
    assert_eq!(
        context
            .upload_quant_weight_private(&[], GGML_TYPE_Q4_K, 1, CommandStatus::Completed, 1)
            .unwrap_err(),
        "unsupported or empty quantized weight"
    );
    let weight = context
        .upload_quant_weight_private(&[0; 144], GGML_TYPE_Q4_K, 1, CommandStatus::Completed, 1)
        .unwrap();
    assert_eq!((weight.byte_len(), weight.ggml_type()), (144, GGML_TYPE_Q4_K));
    assert_eq!(
        context.bind_quant_weight_mapped(&[1], 99, 1, 1).unwrap_err(),
        "unsupported or empty mapped quantized weight"
    );
    assert!(context.bind_quant_weight_mapped(&[1, 2], GGML_TYPE_Q6_K, 1, 1).is_err());
    assert!(context.bind_quant_weight_mapped(&[1, 2], GGML_TYPE_Q6_K, 1, 2).is_ok());
    let info = TensorInfo { dtype: "F32".to_owned(), ..matrix("w", vec![1], 2) };
    let bytes = [1, 2];
    let tensor = TensorView { info: &info, bytes: &bytes, backing: &bytes };
    assert_eq!(
        context.upload_bf16_tensor(&tensor, 1).unwrap_err(),
        "resident weight upload requires a BF16 tensor"
    );
}

#[test]
fn staged_layers_are_found_by_name() {
    let mut context = context();
    let staged = StagedQwenLayer {
        packed: vec![0; 10],
        ranges: vec![("a".to_owned(), 0, 4), ("b".to_owned(), 4, 10)],
    };
    assert_eq!(
        context.bind_staged_qwen_layer_shared(&staged, 8, 9).unwrap_err(),
        "Metal could not bind packed staged Qwen bytes"
    );
    assert_eq!(context.bind_staged_qwen_layer_shared(&staged, 8, 10), Ok(8));
    let layer: PrivateStagedQwenLayer = context
        .upload_staged_qwen_layer_private(staged, 8, CommandStatus::Completed, 1)
        .unwrap();
    let weight = layer.quant_weight("b", GGML_TYPE_Q6_K).unwrap();
    assert_eq!((weight.buffer, weight.offset, weight.bytes), (8, 4, 6));
    assert!(layer.quant_weight("c", GGML_TYPE_Q6_K).is_none());
    let empty = StagedQwenLayer { packed: Vec::new(), ranges: Vec::new() };
    assert_eq!(
        context.bind_staged_qwen_layer_shared(&empty, 8, 0).unwrap_err(),
        "cannot bind an empty staged Qwen layer"
    );
    assert!(context
        .upload_staged_qwen_layer_private(empty, 8, CommandStatus::Completed, 1)
        .is_err());
}

#[test]
fn peaks_rise_and_are_reset_to_lasting_weights() {
    let mut context = context();
    let profile = |weights, state, scratch, mapped| Profile { weights, state, scratch, mapped };
    context.record_profile(profile(100, 20, 3, false));
    context.record_profile(profile(50, 30, 2, true));
    assert_eq!(context.peak_active_weight_bytes(), 100);
    assert_eq!(context.peak_kv_bytes(), 30);
    assert_eq!(context.peak_scratch_bytes(), 3);
    assert_eq!(context.peak_allocated_bytes(), 123);
    context.report_allocated(640);
    context.sample_allocated();
    assert_eq!(context.current_allocated_bytes(), 640);
    assert_eq!(context.peak_allocated_bytes(), 640);
    context.report_allocated(32);
    context.reset_peaks();
    assert_eq!(context.peak_allocated_bytes(), 32);
    assert_eq!(context.peak_kv_bytes(), 0);
    assert_eq!(context.peak_scratch_bytes(), 0);
    assert_eq!(context.peak_active_weight_bytes(), 0);
    context.note_resident_weight_bytes(40);
    context.reset_peaks();
    assert_eq!(context.peak_active_weight_bytes(), 40);
}

#[test]
fn switches_decide_which_pipelines_are_loaded() {
    let limits = |switches: &Switches| -> Vec<u64> {
        (0..kernels(switches).len() as u64).map(|index| 100 + index).collect()
    };
    let plain = switches();
    let pipelines = Pipelines::loaded(&plain, &limits(&plain));
    assert!(!pipelines.bitpack);
    assert_eq!(pipelines.batched_matmul, None);
    assert_eq!(pipelines.batched_fused_qkv, None);
    assert_eq!(pipelines.batched_fused_gate_up, None);
    assert_eq!(pipelines.gated_delta_parallel, 118);
    let batched = Switches { lookahead: true, ..plain };
    let pipelines = Pipelines::loaded(&batched, &limits(&batched));
    assert!(!pipelines.bitpack);
    assert_eq!(pipelines.batched_matmul, Some(122));
    assert_eq!(pipelines.batched_fused_qkv, Some(123));
    assert_eq!(pipelines.batched_fused_gate_up, Some(124));
    let all = Switches { lossless_gpu: true, verify_many: true, ..plain };
    let pipelines = Pipelines::loaded(&all, &limits(&all));
    assert!(pipelines.bitpack);
    assert_eq!(pipelines.batched_matmul, Some(123));
}
