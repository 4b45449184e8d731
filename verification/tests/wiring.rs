//! Which buffers launches take, and where outputs are.
use super_inference::metal::kernel::Kernel;
use super_inference::metal::wiring::{Slot, Wiring};

fn operand(index: usize) -> Slot {
    Slot::Operand(index)
}

fn buffer(index: usize) -> Slot {
    Slot::Buffer(index)
}

#[test]
fn single_launches_take_operands_before_results() {
    let slots = |kernel| Wiring::Alone.slots(1, 0, kernel);
    assert_eq!(slots(Kernel::Rope), vec![operand(0), buffer(0)]);
    assert_eq!(slots(Kernel::RmsNorm), vec![operand(0), operand(1), buffer(0)]);
    assert_eq!(
        slots(Kernel::RmsNormGated),
        vec![operand(0), operand(1), operand(2), buffer(0)]
    );
    assert_eq!(
        slots(Kernel::Bf16FusedQkv),
        vec![
            operand(0),
            operand(1),
            operand(2),
            operand(3),
            buffer(0),
            buffer(1),
            buffer(2),
        ]
    );
    assert_eq!(
        Wiring::Batch(4).slots(1, 0, Kernel::Bf16FusedGateUpMany),
        vec![operand(0), operand(1), operand(2), buffer(0), buffer(1)]
    );
    assert_eq!(slots(Kernel::AttentionDecode).len(), 6);
    assert_eq!(Wiring::Stateful(5).slots(1, 0, Kernel::GatedDeltaStep).len(), 7);
}

#[test]
fn groups_share_their_last_operand() {
    assert_eq!(
        Wiring::Group.slots(3, 1, Kernel::Q4KMatvec),
        vec![operand(1), operand(3), buffer(1)]
    );
    assert_eq!(Wiring::Group.place(2, 7), (buffer(2), 0));
    assert_eq!(
        Wiring::Group.slots(1, 0, Kernel::Bf16Matvec),
        Wiring::Alone.slots(1, 0, Kernel::Bf16Matvec)
    );
}

#[test]
fn fused_mlps_project_the_gated_product() {
    assert_eq!(
        Wiring::Mlp.slots(2, 0, Kernel::Q4KFusedGateUp),
        vec![operand(0), operand(1), operand(3), buffer(0)]
    );
    assert_eq!(
        Wiring::Mlp.slots(2, 1, Kernel::Q6KMatvec),
        vec![operand(2), buffer(0), buffer(1)]
    );
    assert_eq!(Wiring::Mlp.place(0, 3), (buffer(1), 0));
}

#[test]
fn chained_launches_read_what_was_written() {
    let kernels = [
        Kernel::Bf16FusedQkv,
        Kernel::RmsNormBf16Heads,
        Kernel::RmsNormBf16Heads,
        Kernel::Rope,
        Kernel::Rope,
        Kernel::AttentionDecode,
        Kernel::Bf16Matvec,
    ];
    let mut written = Vec::new();
    for (launch, kernel) in kernels.iter().enumerate() {
        let slots = Wiring::Chained.slots(7, launch, *kernel);
        let own = Wiring::Alone.slots(1, 0, *kernel);
        assert_eq!(slots.len(), own.len());
        for (slot, alone) in slots.iter().zip(&own) {
            match alone {
                Slot::Operand(_) => {
                    assert!(matches!(slot, Slot::Operand(_)) || written.contains(slot));
                }
                Slot::Buffer(_) => assert!(!written.contains(slot)),
            }
        }
        for (slot, alone) in slots.iter().zip(&own) {
            if matches!(alone, Slot::Buffer(_)) {
                written.push(*slot);
            }
        }
    }
    assert_eq!(written.len(), 9);
    assert_eq!(Wiring::Chained.place(0, 1), (buffer(8), 0));
    assert_eq!(Wiring::Chained.place(1, 1), (buffer(6), 0));
    assert_eq!(Wiring::Chained.place(2, 1), (buffer(2), 0));
}

#[test]
fn batches_lie_one_candidate_after_the_other() {
    assert_eq!(Wiring::Batch(2).place(0, 6), (buffer(0), 0));
    assert_eq!(Wiring::Batch(2).place(1, 6), (buffer(0), 6));
    assert_eq!(Wiring::Batch(2).place(2, 3), (buffer(1), 0));
    assert_eq!(Wiring::Batch(2).place(5, 3), (buffer(2), 3));
    assert_eq!(Wiring::Stateful(5).place(0, 6), (buffer(0), 0));
    assert_eq!(Wiring::Stateful(5).place(1, 6), (operand(5), 0));
    assert_eq!(Wiring::Alone.place(1, 6), (buffer(1), 0));
}
